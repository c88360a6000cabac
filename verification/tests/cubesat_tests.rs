use rust_in_action::cubesat::{fetch_sat_ids, GroundStation, Mailbox, Message};

fn msg(to: u64, content: &str) -> Message {
    Message { to, content: content.to_string() }
}

#[test]
fn sat_ids() {
    assert_eq!(fetch_sat_ids(), vec![1, 2, 3]);
}

#[test]
fn connect_gives_empty_mailbox() {
    let base = GroundStation;
    let sat = base.connect(7);
    assert_eq!(sat.id, 7);
    assert!(sat.mailbox.messages.is_empty());
}

#[test]
fn delivers_oldest_message_for_recipient() {
    let base = GroundStation;
    let mut mail = Mailbox { messages: vec![] };
    base.send(&mut mail, msg(1, "a"));
    base.send(&mut mail, msg(2, "b"));
    base.send(&mut mail, msg(1, "c"));
    let mut sat1 = base.connect(1);
    let got = sat1.recv(&mut mail).unwrap();
    assert_eq!((got.to, got.content.as_str()), (1, "a"));
    let rest: Vec<(u64, &str)> = mail.messages.iter().map(|m| (m.to, m.content.as_str())).collect();
    assert_eq!(rest, vec![(2, "b"), (1, "c")]);
    let got = sat1.recv(&mut mail).unwrap();
    assert_eq!(got.content, "c");
    assert!(sat1.recv(&mut mail).is_none());
    assert_eq!(mail.messages.len(), 1);
}

#[test]
fn no_mail_leaves_mailbox_unchanged() {
    let mut mail = Mailbox { messages: vec![msg(2, "x")] };
    let sat = GroundStation.connect(3);
    assert!(mail.deliver(&sat).is_none());
    assert_eq!(mail.messages.len(), 1);
    assert_eq!(mail.messages[0].content, "x");
}

#[test]
fn post_then_deliver_gives_back_the_message() {
    let mut mail = Mailbox { messages: vec![msg(5, "p"), msg(6, "q")] };
    mail.post(msg(9, "new"));
    let sat = GroundStation.connect(9);
    let got = mail.deliver(&sat).unwrap();
    assert_eq!((got.to, got.content.as_str()), (9, "new"));
    let rest: Vec<u64> = mail.messages.iter().map(|m| m.to).collect();
    assert_eq!(rest, vec![5, 6]);
}

#[test]
fn delivery_conserves_messages() {
    let mut mail = Mailbox { messages: vec![msg(1, "a"), msg(2, "b"), msg(2, "c"), msg(3, "d")] };
    let sat = GroundStation.connect(2);
    let got = mail.deliver(&sat).unwrap();
    let mut all: Vec<String> = mail.messages.iter().map(|m| m.content.clone()).collect();
    all.push(got.content);
    all.sort();
    assert_eq!(all, vec!["a", "b", "c", "d"]);
}
