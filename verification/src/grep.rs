//! Line search in a text: plain substring search, with surrounding context, and by regex.
use vstd::prelude::*;
use vstd::string::StringExecFns;
use crate::lines::{
    chars_of, has_substring, lemma_lines_concat, lemma_scan_append, occurs_at, push_char, scan_lines, spec_lines,
    split_line_chars, string_from_chars, string_views, strip_cr, views_of,
};

mod compiled_regex;
pub use compiled_regex::CompiledRegex;

verus! {

/// The lines of `lines` that satisfy `pred`, each with its index, in order.
pub open spec fn matching_lines(lines: Seq<Seq<char>>, pred: spec_fn(Seq<char>) -> bool) -> Seq<
    (int, Seq<char>),
>
    decreases lines.len(),
{
    if lines.len() == 0 {
        Seq::empty()
    } else {
        let prev = matching_lines(lines.drop_last(), pred);
        if pred(lines.last()) {
            prev.push(((lines.len() - 1) as int, lines.last()))
        } else {
            prev
        }
    }
}

/// The lines of `corpus` that contain `term`, with their indices.
pub open spec fn spec_find_lines(corpus: Seq<char>, term: Seq<char>) -> Seq<(int, Seq<char>)> {
    matching_lines(spec_lines(corpus), |l: Seq<char>| has_substring(l, term))
}

/// `hits` holds exactly the numbered lines `expected`, in order.
pub open spec fn hits_are(hits: Seq<(usize, String)>, expected: Seq<(int, Seq<char>)>) -> bool {
    &&& hits.len() == expected.len()
    &&& forall|k: int|
        0 <= k < hits.len() ==> (#[trigger] hits[k]).0 == expected[k].0 && hits[k].1@
            == expected[k].1
}

/// The lines around line `i` (at most `ctx` before it and `ctx` after it), numbered.
pub open spec fn context_window(lines: Seq<Seq<char>>, i: int, ctx: int) -> Seq<(int, Seq<char>)> {
    let start = if i >= ctx {
        i - ctx
    } else {
        0
    };
    let end = if i + ctx + 1 <= lines.len() {
        i + ctx + 1
    } else {
        lines.len() as int
    };
    Seq::new((end - start) as nat, |k: int| (start + k, lines[start + k]))
}

/// The sizes that the context search computes stay within `usize` for every match.
pub open spec fn context_fits(corpus: Seq<char>, term: Seq<char>, ctx: usize) -> bool {
    forall|k: int|
        0 <= k < spec_find_lines(corpus, term).len() ==> 2 * ctx + 1 <= usize::MAX
            && (#[trigger] spec_find_lines(corpus, term)[k]).0 + ctx + 1 <= usize::MAX
}

/// The lines of `corpus`, as `str::lines` gives them.
pub fn split_lines(corpus: &str) -> (lines: Vec<String>)
    ensures
        string_views(lines@) == spec_lines(corpus@),
{
    let chars = chars_of(corpus);
    let line_chars = split_line_chars(chars.as_slice());
    let mut lines: Vec<String> = Vec::new();
    let mut i: usize = 0;
    while i < line_chars.len()
        invariant
            i <= line_chars@.len(),
            views_of(line_chars@) == spec_lines(corpus@),
            string_views(lines@) == views_of(line_chars@).take(i as int),
        decreases line_chars@.len() - i,
    {
        let s = string_from_chars(line_chars[i].as_slice());
        let ghost old_lines = lines@;
        lines.push(s);
        assert(string_views(lines@) =~= string_views(old_lines).push(s@));
        assert(views_of(line_chars@).take(i + 1) =~= views_of(line_chars@).take(i as int).push(
            line_chars@[i as int]@,
        ));
        i = i + 1;
    }
    assert(views_of(line_chars@).take(line_chars@.len() as int) =~= views_of(line_chars@));
    lines
}

/// Whether `needle` occurs in `hay`.
pub fn contains_chars(hay: &[char], needle: &[char]) -> (found: bool)
    ensures
        found == has_substring(hay@, needle@),
{
    if needle.len() > hay.len() {
        return false;
    }
    let last = hay.len() - needle.len();
    let mut i: usize = 0;
    while i <= last
        invariant
            last + needle@.len() == hay@.len(),
            forall|j: int| 0 <= j < i ==> !occurs_at(hay@, needle@, j),
        decreases last + 1 - i,
    {
        let mut j: usize = 0;
        let mut same = true;
        while j < needle.len()
            invariant
                i <= last,
                last + needle@.len() == hay@.len(),
                hay@.len() == hay.len(),
                j <= needle@.len(),
                same == forall|t: int| 0 <= t < j ==> hay@[i + t] == needle@[t],
            decreases needle@.len() - j,
        {
            if hay[i + j] != needle[j] {
                same = false;
            }
            j = j + 1;
        }
        if same {
            assert(hay@.subrange(i as int, i + needle@.len()) =~= needle@);
            assert(occurs_at(hay@, needle@, i as int));
            return true;
        }
        assert(!occurs_at(hay@, needle@, i as int)) by {
            if occurs_at(hay@, needle@, i as int) {
                let t = choose|t: int| 0 <= t < needle@.len() && hay@[i + t] != needle@[t];
                assert(hay@.subrange(i as int, i + needle@.len())[t] == hay@[i + t]);
            }
        }
        if i == last {
            assert forall|j: int| !occurs_at(hay@, needle@, j) by {
                if occurs_at(hay@, needle@, j) {
                    assert(j <= last);
                }
            }
            return false;
        }
        i = i + 1;
    }
    assert forall|j: int| !occurs_at(hay@, needle@, j) by {
        if occurs_at(hay@, needle@, j) {
            assert(j <= last);
        }
    }
    false
}

/// The lines of `corpus` that contain `search_term`, each with its index.
pub fn find_line_containing(corpus: &str, search_term: &str) -> (found: Vec<(usize, String)>)
    ensures
        hits_are(found@, spec_find_lines(corpus@, search_term@)),
{
    let term = chars_of(search_term);
    let chars = chars_of(corpus);
    let lines = split_line_chars(chars.as_slice());
    let ghost pred = |l: Seq<char>| has_substring(l, search_term@);
    let mut found: Vec<(usize, String)> = Vec::new();
    let mut i: usize = 0;
    while i < lines.len()
        invariant
            i <= lines@.len(),
            term@ == search_term@,
            views_of(lines@) == spec_lines(corpus@),
            pred == (|l: Seq<char>| has_substring(l, search_term@)),
            hits_are(found@, matching_lines(views_of(lines@).take(i as int), pred)),
        decreases lines@.len() - i,
    {
        let ghost all = views_of(lines@);
        assert(all.take(i + 1).drop_last() =~= all.take(i as int));
        assert(all.take(i + 1).last() == lines@[i as int]@);
        if contains_chars(lines[i].as_slice(), term.as_slice()) {
            let s = string_from_chars(lines[i].as_slice());
            found.push((i, s));
        }
        i = i + 1;
    }
    assert(views_of(lines@).take(lines@.len() as int) =~= views_of(lines@));
    found
}

/// For each line of `corpus` that contains `search_term`, the numbered lines
/// around it: up to `context_length` before and `context_length` after.
pub fn find_line_containing_with_context(
    corpus: &str,
    search_term: &str,
    context_length: usize,
) -> (all_matches: Vec<Vec<(usize, String)>>)
    requires
        context_fits(corpus@, search_term@, context_length),
    ensures
        all_matches@.len() == spec_find_lines(corpus@, search_term@).len(),
        forall|m: int|
            0 <= m < all_matches@.len() ==> hits_are(
                (#[trigger] all_matches@[m])@,
                context_window(
                    spec_lines(corpus@),
                    spec_find_lines(corpus@, search_term@)[m].0,
                    context_length as int,
                ),
            ),
{
    let matching = find_line_containing(corpus, search_term);
    let lines = split_lines(corpus);
    let ghost spec_all = spec_lines(corpus@);
    let ghost hits = spec_find_lines(corpus@, search_term@);
    proof {
        matching_lines_in_range(spec_all, |l: Seq<char>| has_substring(l, search_term@));
    }
    let mut all_matches: Vec<Vec<(usize, String)>> = Vec::new();
    let mut m: usize = 0;
    while m < matching.len()
        invariant
            m <= matching@.len(),
            hits_are(matching@, hits),
            hits == spec_find_lines(corpus@, search_term@),
            spec_all == spec_lines(corpus@),
            string_views(lines@) == spec_all,
            context_fits(corpus@, search_term@, context_length),
            forall|k: int| 0 <= k < hits.len() ==> 0 <= #[trigger] hits[k].0 < spec_all.len(),
            all_matches@.len() == m,
            forall|j: int|
                0 <= j < m ==> hits_are(
                    (#[trigger] all_matches@[j])@,
                    context_window(spec_all, hits[j].0, context_length as int),
                ),
        decreases matching@.len() - m,
    {
        let idx = matching[m].0;
        assert(hits[m as int].0 == idx);
        assert(idx + context_length + 1 <= usize::MAX);
        let start = if idx >= context_length {
            idx - context_length
        } else {
            0
        };
        let end = if idx + context_length + 1 <= lines.len() {
            idx + context_length + 1
        } else {
            lines.len()
        };
        let ghost window = context_window(spec_all, idx as int, context_length as int);
        let mut context: Vec<(usize, String)> = Vec::new();
        let mut i: usize = start;
        while i < end
            invariant
                start <= i <= end <= lines@.len(),
                string_views(lines@) == spec_all,
                window == context_window(spec_all, idx as int, context_length as int),
                start == (if idx >= context_length { idx - context_length } else { 0 }),
                window.len() > 0 ==> window[0].0 == start,
                forall|t: int| 0 <= t < window.len() ==> #[trigger] window[t] == (start + t, spec_all[start + t]),
                window.len() == end - start,
                context@.len() == i - start,
                forall|t: int|
                    0 <= t < i - start ==> (#[trigger] context@[t]).0 == window[t].0
                        && context@[t].1@ == window[t].1,
            decreases end - i,
        {
            let line = lines[i].clone();
            assert(string_views(lines@)[i as int] == lines@[i as int]@);
            assert(window[i - start] == (i as int, spec_all[i as int]));
            let ghost old_context = context@;
            context.push((i, line));
            assert(context@[i - start] == (i, line));
            assert forall|t: int| 0 <= t < i - start implies context@[t] == old_context[t] by {}
            i = i + 1;
        }
        all_matches.push(context);
        m = m + 1;
    }
    all_matches
}

#[verifier::external_type_specification]
#[verifier::external_body]
pub struct ExRegex(regex::Regex);

#[verifier::external_type_specification]
#[verifier::external_body]
pub struct ExRegexError(regex::Error);

/// Whether `regex::Regex::new` accepts `pattern` (it refuses invalid syntax and
/// patterns whose compiled form exceeds the default size limit).
pub uninterp spec fn regex_compiles(pattern: Seq<char>) -> bool;

/// Whether the regex compiled from `pattern` matches somewhere in `text`.
pub uninterp spec fn regex_finds(pattern: Seq<char>, text: Seq<char>) -> bool;

/// Calls `regex::Regex::new`. Claimed: it succeeds exactly when
/// `regex_compiles(pattern)`, a fixed property of the pattern text.
#[verifier::external_body]
fn regex_new(pattern: &str) -> (r: Result<regex::Regex, regex::Error>)
    ensures
        r is Ok <==> regex_compiles(pattern@),
{
    regex::Regex::new(pattern)
}

impl CompiledRegex {
    /// Calls `regex::Regex::find` and reports whether it found a match. Claimed:
    /// the answer is `regex_finds(source, text)`; this holds because the fields of
    /// a `CompiledRegex` are private to its module, where `CompiledRegex::new` is
    /// the only constructor and pairs the regex with the pattern it compiled.
    #[verifier::external_body]
    fn finds_in(&self, text: &str) -> (found: bool)
        ensures
            found == regex_finds(self.source(), text@),
    {
        self.compiled().find(text).is_some()
    }
}

/// The lines of `corpus` in which `re` finds a match, each with its index.
pub fn find_line_containing_with_compiled(corpus: &str, re: &CompiledRegex) -> (found: Vec<
    (usize, String),
>)
    ensures
        hits_are(
            found@,
            matching_lines(spec_lines(corpus@), |l: Seq<char>| regex_finds(re.source(), l)),
        ),
{
    let lines = split_lines(corpus);
    let ghost pred = |l: Seq<char>| regex_finds(re.source(), l);
    let mut found: Vec<(usize, String)> = Vec::new();
    let mut i: usize = 0;
    while i < lines.len()
        invariant
            i <= lines@.len(),
            string_views(lines@) == spec_lines(corpus@),
            pred == (|l: Seq<char>| regex_finds(re.source(), l)),
            hits_are(found@, matching_lines(string_views(lines@).take(i as int), pred)),
        decreases lines@.len() - i,
    {
        let ghost all = string_views(lines@);
        assert(all.take(i + 1).drop_last() =~= all.take(i as int));
        assert(all.take(i + 1).last() == lines@[i as int]@);
        if re.finds_in(lines[i].as_str()) {
            found.push((i, lines[i].clone()));
        }
        i = i + 1;
    }
    assert(string_views(lines@).take(lines@.len() as int) =~= string_views(lines@));
    found
}

/// The lines of `corpus` in which the regex `search_term` finds a match, each
/// with its index. The pattern must compile.
pub fn find_line_containing_with_regex(corpus: &str, search_term: &str) -> (found: Vec<
    (usize, String),
>)
    requires
        regex_compiles(search_term@),
    ensures
        hits_are(
            found@,
            matching_lines(spec_lines(corpus@), |l: Seq<char>| regex_finds(search_term@, l)),
        ),
{
    match CompiledRegex::new(search_term) {
        Some(re) => find_line_containing_with_compiled(corpus, &re),
        None => Vec::new(),
    }
}

/// As `find_line_containing_with_regex`, or `None` when the pattern does not compile.
pub fn try_find_line_containing_with_regex(corpus: &str, search_term: &str) -> (found: Option<
    Vec<(usize, String)>,
>)
    ensures
        found is Some <==> regex_compiles(search_term@),
        found matches Some(hits) ==> hits_are(
            hits@,
            matching_lines(spec_lines(corpus@), |l: Seq<char>| regex_finds(search_term@, l)),
        ),
{
    match regex_new(search_term) {
        Ok(_) => Some(find_line_containing_with_regex(corpus, search_term)),
        Err(_) => None,
    }
}

/// The text made of the lines that were read (`None` marks a line that could
/// not be read and is skipped), each followed by a line feed.
pub open spec fn joined_lines(lines: Seq<Option<String>>) -> Seq<char>
    decreases lines.len(),
{
    if lines.len() == 0 {
        Seq::empty()
    } else {
        let prev = joined_lines(lines.drop_last());
        match lines.last() {
            Some(line) => prev + line@.push('\n'),
            None => prev,
        }
    }
}

/// Joins the lines that were read into one text, each line followed by `\n`;
/// lines that could not be read (`None`) are left out.
pub fn read_file(lines: &Vec<Option<String>>) -> (text: String)
    ensures
        text@ == joined_lines(lines@),
{
    let mut text = String::new();
    let mut i: usize = 0;
    while i < lines.len()
        invariant
            i <= lines@.len(),
            text@ == joined_lines(lines@.take(i as int)),
        decreases lines@.len() - i,
    {
        assert(lines@.take(i + 1).drop_last() =~= lines@.take(i as int));
        assert(lines@.take(i + 1).last() == lines@[i as int]);
        match &lines[i] {
            Some(line) => {
                let ghost before = text@;
                text.append(line.as_str());
                push_char(&mut text, '\n');
                assert(text@ =~= before + line@.push('\n'));
            },
            None => {},
        }
        i = i + 1;
    }
    assert(lines@.take(lines@.len() as int) =~= lines@);
    text
}

/// The lines that were read, in order, without the ones that could not be read.
pub open spec fn present_lines(lines: Seq<Option<String>>) -> Seq<Seq<char>>
    decreases lines.len(),
{
    if lines.len() == 0 {
        Seq::empty()
    } else {
        let prev = present_lines(lines.drop_last());
        match lines.last() {
            Some(line) => prev.push(line@),
            None => prev,
        }
    }
}

/// A line that `str::lines` gives back unchanged when it is followed by `\n`:
/// it holds no line feed and does not end with a carriage return.
pub open spec fn is_plain_line(line: Seq<char>) -> bool {
    !line.contains('\n') && !(line.len() > 0 && line.last() == '\r')
}

/// The text of `lines`, each followed by a line feed.
pub open spec fn join_lines(lines: Seq<Seq<char>>) -> Seq<char>
    decreases lines.len(),
{
    if lines.len() == 0 {
        Seq::empty()
    } else {
        join_lines(lines.drop_last()) + lines.last().push('\n')
    }
}

/// What `read_file` joins is the text of the lines that were read.
pub proof fn lemma_joined_is_join(lines: Seq<Option<String>>)
    ensures
        joined_lines(lines) == join_lines(present_lines(lines)),
    decreases lines.len(),
{
    if lines.len() > 0 {
        lemma_joined_is_join(lines.drop_last());
        let prev = present_lines(lines.drop_last());
        match lines.last() {
            Some(line) => {
                assert(prev.push(line@).drop_last() =~= prev);
            },
            None => {},
        }
    }
}

/// Splitting the text of plain lines gives back exactly those lines.
pub proof fn lemma_lines_of_join(lines: Seq<Seq<char>>)
    requires
        forall|i: int| 0 <= i < lines.len() ==> is_plain_line(#[trigger] lines[i]),
    ensures
        spec_lines(join_lines(lines)) == lines,
{
    lemma_scan_join(lines);
}

proof fn lemma_scan_join(lines: Seq<Seq<char>>)
    requires
        forall|i: int| 0 <= i < lines.len() ==> is_plain_line(#[trigger] lines[i]),
    ensures
        scan_lines(join_lines(lines)) == (lines, Seq::<char>::empty()),
    decreases lines.len(),
{
    if lines.len() > 0 {
        let init = lines.drop_last();
        assert forall|i: int| 0 <= i < init.len() implies is_plain_line(#[trigger] init[i]) by {
            assert(init[i] == lines[i]);
        }
        lemma_scan_join(init);
        let prev = join_lines(init);
        let line = lines.last();
        assert(is_plain_line(lines[lines.len() - 1]));
        lemma_scan_append(prev, line);
        let whole = prev + line.push('\n');
        assert(whole.drop_last() =~= prev + line);
        assert(whole.last() == '\n');
        assert(Seq::<char>::empty() + line =~= line);
        assert(strip_cr(line) == line);
        assert(init.push(line) =~= lines);
    }
}

/// Splitting the text that `read_file` joins gives back exactly the lines that
/// were read, when each is a plain line.
pub proof fn lemma_lines_of_read_file(lines: Seq<Option<String>>)
    requires
        forall|i: int|
            0 <= i < lines.len() ==> (#[trigger] lines[i] matches Some(l) ==> is_plain_line(l@)),
    ensures
        spec_lines(joined_lines(lines)) == present_lines(lines),
{
    lemma_joined_is_join(lines);
    lemma_present_plain(lines);
    lemma_lines_of_join(present_lines(lines));
}

proof fn lemma_present_plain(lines: Seq<Option<String>>)
    requires
        forall|i: int|
            0 <= i < lines.len() ==> (#[trigger] lines[i] matches Some(l) ==> is_plain_line(l@)),
    ensures
        forall|i: int|
            0 <= i < present_lines(lines).len() ==> is_plain_line(#[trigger] present_lines(lines)[i]),
    decreases lines.len(),
{
    if lines.len() > 0 {
        let init = lines.drop_last();
        assert forall|i: int| 0 <= i < init.len() implies (#[trigger] init[i] matches Some(l)
            ==> is_plain_line(l@)) by {
            assert(init[i] == lines[i]);
        }
        lemma_present_plain(init);
        assert(lines[lines.len() - 1] == lines.last());
        let prev = present_lines(init);
        match lines.last() {
            Some(line) => {
                assert forall|i: int| 0 <= i < prev.len() + 1 implies is_plain_line(
                    #[trigger] prev.push(line@)[i],
                ) by {
                    if i < prev.len() {
                        assert(prev.push(line@)[i] == prev[i]);
                    }
                }
            },
            None => {},
        }
    }
}

/// The lines of a text without carriage returns are plain lines.
pub proof fn lemma_lines_are_plain(s: Seq<char>)
    requires
        !s.contains('\r'),
    ensures
        forall|i: int| 0 <= i < spec_lines(s).len() ==> is_plain_line(#[trigger] spec_lines(s)[i]),
{
    lemma_scan_free(s);
    let (done, cur) = scan_lines(s);
    assert forall|i: int| 0 <= i < spec_lines(s).len() implies is_plain_line(
        #[trigger] spec_lines(s)[i],
    ) by {
        let line = spec_lines(s)[i];
        if i < done.len() {
            assert(line == done[i]);
        } else {
            assert(line == cur);
        }
        assert(!line.contains('\n'));
        if line.len() > 0 && line.last() == '\r' {
            assert(line[line.len() - 1] == '\r');
        }
    }
}

/// While reading a text without carriage returns, no line holds a line feed or
/// a carriage return.
proof fn lemma_scan_free(s: Seq<char>)
    requires
        !s.contains('\r'),
    ensures
        forall|i: int, k: int|
            0 <= i < scan_lines(s).0.len() && 0 <= k < scan_lines(s).0[i].len() ==> #[trigger] scan_lines(
                s,
            ).0[i][k] != '\n' && scan_lines(s).0[i][k] != '\r',
        forall|k: int|
            0 <= k < scan_lines(s).1.len() ==> #[trigger] scan_lines(s).1[k] != '\n'
                && scan_lines(s).1[k] != '\r',
    decreases s.len(),
{
    if s.len() > 0 {
        let init = s.drop_last();
        assert(!init.contains('\r')) by {
            if init.contains('\r') {
                let k = choose|k: int| 0 <= k < init.len() && init[k] == '\r';
                assert(s[k] == '\r');
            }
        }
        lemma_scan_free(init);
        assert(s.last() != '\r') by {
            if s.last() == '\r' {
                assert(s[s.len() - 1] == '\r');
            }
        }
        let (done, cur) = scan_lines(init);
        if s.last() == '\n' {
            let done2 = done.push(strip_cr(cur));
            assert forall|i: int, k: int| 0 <= i < done2.len() && 0 <= k < done2[i].len() implies #[trigger] done2[i][k]
                != '\n' && done2[i][k] != '\r' by {
                if i < done.len() {
                    assert(done2[i] == done[i]);
                } else {
                    assert(done2[i] == strip_cr(cur));
                    assert(strip_cr(cur)[k] == cur[k]);
                }
            }
        } else {
            let cur2 = cur.push(s.last());
            assert forall|k: int| 0 <= k < cur2.len() implies #[trigger] cur2[k] != '\n' && cur2[k]
                != '\r' by {
                if k < cur.len() {
                    assert(cur2[k] == cur[k]);
                }
            }
        }
    }
}

/// Reading a text, joining its lines, and reading and joining that again gives
/// the same text, when the text has no carriage returns.
pub proof fn lemma_read_twice(s: Seq<char>)
    requires
        !s.contains('\r'),
    ensures
        join_lines(spec_lines(join_lines(spec_lines(s)))) == join_lines(spec_lines(s)),
{
    lemma_lines_are_plain(s);
    lemma_lines_of_join(spec_lines(s));
}

/// The numbered lines `hits`, renumbered `shift` further on.
pub open spec fn shifted(hits: Seq<(int, Seq<char>)>, shift: int) -> Seq<(int, Seq<char>)> {
    hits.map_values(|h: (int, Seq<char>)| (h.0 + shift, h.1))
}

/// Searching two blocks of lines one after the other finds the matches of the
/// first, then those of the second renumbered after the first.
pub proof fn lemma_matching_lines_concat(
    a: Seq<Seq<char>>,
    b: Seq<Seq<char>>,
    pred: spec_fn(Seq<char>) -> bool,
)
    ensures
        matching_lines(a + b, pred) == matching_lines(a, pred) + shifted(
            matching_lines(b, pred),
            a.len() as int,
        ),
    decreases b.len(),
{
    if b.len() == 0 {
        assert(a + b =~= a);
        assert(matching_lines(a, pred) + shifted(matching_lines(b, pred), a.len() as int)
            =~= matching_lines(a, pred));
    } else {
        let init = b.drop_last();
        lemma_matching_lines_concat(a, init, pred);
        assert((a + b).drop_last() =~= a + init);
        assert((a + b).last() == b.last());
        let left = matching_lines(a, pred);
        let prev = shifted(matching_lines(init, pred), a.len() as int);
        if pred(b.last()) {
            let e = ((b.len() - 1) as int, b.last());
            assert(shifted(matching_lines(init, pred).push(e), a.len() as int) =~= prev.push(
                (e.0 + a.len(), e.1),
            ));
            assert((left + prev).push((e.0 + a.len(), e.1)) =~= left + prev.push(
                (e.0 + a.len(), e.1),
            ));
        }
    }
}

/// Joining two texts with a line feed, when the first is not empty and does not
/// end in a line feed or carriage return, finds the matches of the first text,
/// then those of the second renumbered after the lines of the first.
pub proof fn lemma_find_lines_of_joined_texts(a: Seq<char>, b: Seq<char>, term: Seq<char>)
    requires
        a.len() > 0,
        a.last() != '\n',
        a.last() != '\r',
    ensures
        spec_find_lines(a + seq!['\n'] + b, term) == spec_find_lines(a, term) + shifted(
            spec_find_lines(b, term),
            spec_lines(a).len() as int,
        ),
{
    lemma_lines_concat(a, b);
    lemma_matching_lines_concat(
        spec_lines(a),
        spec_lines(b),
        |l: Seq<char>| has_substring(l, term),
    );
}

/// A term that contains another is found in no more lines: each line found for
/// the longer term is found, with the same number, for the shorter one.
pub proof fn lemma_longer_term_fewer_lines(corpus: Seq<char>, shorter: Seq<char>, longer: Seq<char>)
    requires
        has_substring(longer, shorter),
    ensures
        forall|k: int|
            0 <= k < spec_find_lines(corpus, longer).len() ==> spec_find_lines(
                corpus,
                shorter,
            ).contains(#[trigger] spec_find_lines(corpus, longer)[k]),
{
    assert forall|l: Seq<char>| has_substring(l, longer) implies has_substring(l, shorter) by {
        lemma_substring_transitive(l, longer, shorter);
    }
    lemma_matching_weaker(
        spec_lines(corpus),
        |l: Seq<char>| has_substring(l, shorter),
        |l: Seq<char>| has_substring(l, longer),
    );
}

/// Searching with a stronger predicate finds only lines that the weaker one finds.
pub proof fn lemma_matching_weaker(
    lines: Seq<Seq<char>>,
    weak: spec_fn(Seq<char>) -> bool,
    strong: spec_fn(Seq<char>) -> bool,
)
    requires
        forall|l: Seq<char>| #[trigger] strong(l) ==> weak(l),
    ensures
        forall|k: int|
            0 <= k < matching_lines(lines, strong).len() ==> matching_lines(lines, weak).contains(
                #[trigger] matching_lines(lines, strong)[k],
            ),
{
    lemma_matching_lines_exact(lines, strong);
    lemma_matching_lines_exact(lines, weak);
    matching_lines_in_range(lines, strong);
    matching_lines_in_range(lines, weak);
    let strong_hits = matching_lines(lines, strong);
    let weak_hits = matching_lines(lines, weak);
    assert forall|k: int| 0 <= k < strong_hits.len() implies weak_hits.contains(
        #[trigger] strong_hits[k],
    ) by {
        let i = strong_hits[k].0;
        assert(strong(strong_hits[k].1));
        assert(weak(lines[i]));
        let j = choose|j: int| 0 <= j < weak_hits.len() && #[trigger] weak_hits[j].0 == i;
        assert(weak_hits[j] == strong_hits[k]);
    }
}

/// A line that contains a term contains every part of that term.
pub proof fn lemma_substring_transitive(hay: Seq<char>, mid: Seq<char>, needle: Seq<char>)
    requires
        has_substring(hay, mid),
        has_substring(mid, needle),
    ensures
        has_substring(hay, needle),
{
    let i = choose|i: int| occurs_at(hay, mid, i);
    let j = choose|j: int| occurs_at(mid, needle, j);
    let window = hay.subrange(i + j, i + j + needle.len());
    let part = mid.subrange(j, j + needle.len());
    assert(window =~= part) by {
        assert forall|k: int| 0 <= k < needle.len() implies #[trigger] window[k] == part[k] by {
            assert(hay.subrange(i, i + mid.len())[j + k] == mid[j + k]);
        }
    }
    assert(occurs_at(hay, needle, i + j));
}

/// With no context, each group is the matching line alone.
pub proof fn lemma_zero_context(corpus: Seq<char>, term: Seq<char>)
    ensures
        forall|m: int|
            0 <= m < spec_find_lines(corpus, term).len() ==> context_window(
                spec_lines(corpus),
                #[trigger] spec_find_lines(corpus, term)[m].0,
                0,
            ) == seq![spec_find_lines(corpus, term)[m]],
{
    let lines = spec_lines(corpus);
    let hits = spec_find_lines(corpus, term);
    matching_lines_in_range(lines, |l: Seq<char>| has_substring(l, term));
    assert forall|m: int| 0 <= m < hits.len() implies context_window(
        lines,
        #[trigger] hits[m].0,
        0,
    ) == seq![hits[m]] by {
        assert(context_window(lines, hits[m].0, 0) =~= seq![hits[m]]);
    }
}

/// A search reports each line that satisfies the predicate exactly once, in
/// order of position, with the line's own text, and reports no other line.
pub proof fn lemma_matching_lines_exact(lines: Seq<Seq<char>>, pred: spec_fn(Seq<char>) -> bool)
    ensures
        forall|k: int|
            0 <= k < matching_lines(lines, pred).len() ==> pred(
                #[trigger] matching_lines(lines, pred)[k].1,
            ),
        forall|k1: int, k2: int|
            0 <= k1 < k2 < matching_lines(lines, pred).len() ==> #[trigger] matching_lines(
                lines,
                pred,
            )[k1].0 < #[trigger] matching_lines(lines, pred)[k2].0,
        forall|i: int|
            0 <= i < lines.len() && #[trigger] pred(lines[i]) ==> exists|k: int|
                0 <= k < matching_lines(lines, pred).len() && #[trigger] matching_lines(
                    lines,
                    pred,
                )[k].0 == i,
    decreases lines.len(),
{
    matching_lines_in_range(lines, pred);
    if lines.len() > 0 {
        let init = lines.drop_last();
        lemma_matching_lines_exact(init, pred);
        matching_lines_in_range(init, pred);
        let prev = matching_lines(init, pred);
        let all = matching_lines(lines, pred);
        assert forall|k: int| 0 <= k < prev.len() implies all[k] == prev[k] by {}
        assert forall|i: int| 0 <= i < lines.len() && #[trigger] pred(lines[i]) implies exists|
            k: int,
        | 0 <= k < all.len() && #[trigger] all[k].0 == i by {
            if i < init.len() {
                assert(init[i] == lines[i]);
                let k = choose|k: int| 0 <= k < prev.len() && #[trigger] prev[k].0 == i;
                assert(all[k] == prev[k]);
            } else {
                assert(all[prev.len() as int].0 == i);
            }
        }
    }
}

/// The window around line `i` holds line `i` itself, holds at most `2 * ctx + 1`
/// consecutive lines, and lists them in order with their own text.
pub proof fn lemma_context_window_shape(lines: Seq<Seq<char>>, i: int, ctx: int)
    requires
        0 <= i < lines.len(),
        ctx >= 0,
    ensures
        context_window(lines, i, ctx).len() <= 2 * ctx + 1,
        exists|k: int|
            0 <= k < context_window(lines, i, ctx).len() && #[trigger] context_window(
                lines,
                i,
                ctx,
            )[k] == (i, lines[i]),
        forall|k: int|
            0 <= k < context_window(lines, i, ctx).len() ==> {
                let (j, text) = #[trigger] context_window(lines, i, ctx)[k];
                &&& 0 <= j < lines.len()
                &&& i - ctx <= j <= i + ctx
                &&& text == lines[j]
                &&& (k > 0 ==> j == context_window(lines, i, ctx)[k - 1].0 + 1)
            },
{
    let w = context_window(lines, i, ctx);
    let start = if i >= ctx {
        i - ctx
    } else {
        0
    };
    assert(w[i - start] == (i, lines[i]));
}

/// Every numbered line picked by `matching_lines` is a line of `lines`, at its index.
pub proof fn matching_lines_in_range(lines: Seq<Seq<char>>, pred: spec_fn(Seq<char>) -> bool)
    ensures
        forall|k: int|
            0 <= k < matching_lines(lines, pred).len() ==> 0 <= #[trigger] matching_lines(
                lines,
                pred,
            )[k].0 < lines.len() && matching_lines(lines, pred)[k].1 == lines[matching_lines(
                lines,
                pred,
            )[k].0],
    decreases lines.len(),
{
    if lines.len() > 0 {
        let init = lines.drop_last();
        matching_lines_in_range(init, pred);
        let prev = matching_lines(init, pred);
        let all = matching_lines(lines, pred);
        assert forall|k: int| 0 <= k < all.len() implies 0 <= #[trigger] all[k].0 < lines.len()
            && all[k].1 == lines[all[k].0] by {
            if k < prev.len() {
                assert(all[k] == prev[k]);
                assert(init[prev[k].0] == lines[prev[k].0]);
            }
        }
    }
}

} // verus!
