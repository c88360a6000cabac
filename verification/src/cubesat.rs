//! Satellites, a ground station and a shared mailbox.
use vstd::prelude::*;

verus! {

/// A message addressed to the satellite with id `to`.
#[derive(Debug)]
pub struct Message {
    pub to: u64,
    pub content: String,
}

/// Messages waiting to be delivered, oldest first.
#[derive(Debug)]
pub struct Mailbox {
    pub messages: Vec<Message>,
}

/// A satellite with its own mailbox.
#[derive(Debug)]
pub struct CubeSat {
    pub id: u64,
    pub mailbox: Mailbox,
}

/// The station on the ground that talks to the satellites.
pub struct GroundStation;

/// The identifiers of the satellites under the station's control.
pub fn fetch_sat_ids() -> (ids: Vec<u64>)
    ensures
        ids@ == seq![1u64, 2u64, 3u64],
{
    vec![1, 2, 3]
}

/// `i` is the position of the oldest message in `messages` addressed to `id`.
pub open spec fn is_first_for(messages: Seq<Message>, id: u64, i: int) -> bool {
    &&& 0 <= i < messages.len()
    &&& messages[i].to == id
    &&& forall|j: int| 0 <= j < i ==> messages[j].to != id
}

/// Some message in `messages` is addressed to `id`.
pub open spec fn has_mail_for(messages: Seq<Message>, id: u64) -> bool {
    exists|i: int| 0 <= i < messages.len() && messages[i].to == id
}

/// The position of the oldest message addressed to `id`, or -1 when there is none.
pub open spec fn first_for(messages: Seq<Message>, id: u64) -> int {
    if exists|i: int| is_first_for(messages, id, i) {
        choose|i: int| is_first_for(messages, id, i)
    } else {
        -1
    }
}

/// Delivering to `id`: the messages left behind and the message handed over.
pub open spec fn spec_deliver(messages: Seq<Message>, id: u64) -> (Seq<Message>, Option<Message>) {
    let i = first_for(messages, id);
    if 0 <= i {
        (messages.remove(i), Some(messages[i]))
    } else {
        (messages, None)
    }
}

/// There is a message for `id` exactly when an oldest one exists, and it is unique.
pub proof fn lemma_first_for(messages: Seq<Message>, id: u64)
    ensures
        has_mail_for(messages, id) <==> 0 <= first_for(messages, id),
        has_mail_for(messages, id) ==> is_first_for(messages, id, first_for(messages, id)),
        forall|i: int| #[trigger] is_first_for(messages, id, i) ==> i == first_for(messages, id),
{
    if has_mail_for(messages, id) {
        let k = choose|k: int| 0 <= k < messages.len() && messages[k].to == id;
        lemma_oldest_exists(messages, id, k);
    }
    assert forall|i: int| #[trigger] is_first_for(messages, id, i) implies i == first_for(
        messages,
        id,
    ) by {
        let f = first_for(messages, id);
        assert(is_first_for(messages, id, f));
        if i < f {
            assert(messages[i].to != id);
        } else if f < i {
            assert(messages[f].to != id);
        }
    }
}

proof fn lemma_oldest_exists(messages: Seq<Message>, id: u64, k: int)
    requires
        0 <= k < messages.len(),
        messages[k].to == id,
    ensures
        exists|i: int| is_first_for(messages, id, i),
    decreases k,
{
    if forall|j: int| 0 <= j < k ==> messages[j].to != id {
        assert(is_first_for(messages, id, k));
    } else {
        let j = choose|j: int| 0 <= j < k && messages[j].to != id == false;
        lemma_oldest_exists(messages, id, j);
    }
}

impl GroundStation {
    /// Opens a link to satellite `sat_id`, which starts with an empty mailbox.
    pub fn connect(&self, sat_id: u64) -> (sat: CubeSat)
        ensures
            sat.id == sat_id,
            sat.mailbox.messages@.len() == 0,
    {
        CubeSat { id: sat_id, mailbox: Mailbox { messages: vec![] } }
    }

    /// Posts `msg` to `mailbox`.
    pub fn send(&self, mailbox: &mut Mailbox, msg: Message)
        ensures
            final(mailbox).messages@ == old(mailbox).messages@.push(msg),
    {
        mailbox.post(msg);
    }
}

impl CubeSat {
    /// Takes the oldest message for this satellite out of `mailbox`, if there is one.
    pub fn recv(&mut self, mailbox: &mut Mailbox) -> (msg: Option<Message>)
        ensures
            *final(self) == *old(self),
            (final(mailbox).messages@, msg) == spec_deliver(old(mailbox).messages@, old(self).id),
    {
        mailbox.deliver(&*self)
    }
}

impl Mailbox {
    /// Adds `message` after all the others.
    pub fn post(&mut self, message: Message)
        ensures
            final(self).messages@ == old(self).messages@.push(message),
    {
        self.messages.push(message);
    }

    /// Takes the oldest message addressed to `recipient` out of the mailbox, if there is one;
    /// the other messages stay, in their order.
    pub fn deliver(&mut self, recipient: &CubeSat) -> (delivered: Option<Message>)
        ensures
            (final(self).messages@, delivered) == spec_deliver(old(self).messages@, recipient.id),
    {
        let ghost start = self.messages@;
        proof {
            lemma_first_for(start, recipient.id);
        }
        let mut i: usize = 0;
        let mut found = false;
        while i < self.messages.len()
            invariant
                self.messages@ == start,
                i <= start.len(),
                forall|j: int| 0 <= j < i ==> start[j].to != recipient.id,
                found ==> i < start.len() && start[i as int].to == recipient.id,
            ensures
                found ==> i < start.len() && start[i as int].to == recipient.id,
                !found ==> i == start.len(),
                forall|j: int| 0 <= j < i ==> start[j].to != recipient.id,
            decreases start.len() - i,
        {
            if self.messages[i].to == recipient.id {
                found = true;
                break;
            }
            i = i + 1;
        }
        if found {
            assert(is_first_for(start, recipient.id, i as int));
            let msg = self.messages.remove(i);
            assert(self.messages@ =~= start.remove(i as int));
            return Some(msg);
        }
        assert(!has_mail_for(start, recipient.id));
        None
    }
}

/// Nothing is lost or duplicated by a delivery: the messages before it are the
/// messages after it together with the one handed over.
pub proof fn lemma_deliver_conserves(messages: Seq<Message>, id: u64)
    ensures
        ({
            let (rest, msg) = spec_deliver(messages, id);
            match msg {
                Some(m) => messages.to_multiset() == rest.to_multiset().insert(m) && m.to == id,
                None => rest == messages && !has_mail_for(messages, id),
            }
        }),
{
    lemma_first_for(messages, id);
    let i = first_for(messages, id);
    if 0 <= i {
        let rest = messages.remove(i);
        assert(messages =~= rest.insert(i, messages[i]));
        rest.to_multiset_ensures();
        vstd::seq_lib::lemma_multiset_commutative(rest.take(i), seq![messages[i]]);
        assert(rest.insert(i, messages[i]).to_multiset() == rest.to_multiset().insert(
            messages[i],
        )) by {
            lemma_insert_multiset(rest, i, messages[i]);
        }
    }
}

proof fn lemma_insert_multiset(s: Seq<Message>, i: int, m: Message)
    requires
        0 <= i <= s.len(),
    ensures
        s.insert(i, m).to_multiset() == s.to_multiset().insert(m),
{
    let a = s.take(i);
    let b = s.skip(i);
    assert(s =~= a + b);
    assert(s.insert(i, m) =~= a + (seq![m] + b));
    vstd::seq_lib::lemma_multiset_commutative(a, seq![m] + b);
    vstd::seq_lib::lemma_multiset_commutative(seq![m], b);
    vstd::seq_lib::lemma_multiset_commutative(a, b);
    assert(seq![m].to_multiset() =~= vstd::multiset::Multiset::empty().insert(m)) by {
        broadcast use vstd::seq_lib::group_to_multiset_ensures;
        assert(seq![m] =~= Seq::<Message>::empty().push(m));
    }
}

/// A message posted for a satellite that has no other mail is the one it receives
/// next, and receiving it leaves the mailbox as it was before the post.
pub proof fn lemma_post_then_deliver(messages: Seq<Message>, m: Message)
    requires
        !has_mail_for(messages, m.to),
    ensures
        spec_deliver(messages.push(m), m.to) == (messages, Some(m)),
{
    let all = messages.push(m);
    lemma_first_for(all, m.to);
    assert(is_first_for(all, m.to, messages.len() as int)) by {
        assert forall|j: int| 0 <= j < messages.len() implies all[j].to != m.to by {
            assert(all[j] == messages[j]);
        }
    }
    assert(all.remove(messages.len() as int) =~= messages);
}

} // verus!
