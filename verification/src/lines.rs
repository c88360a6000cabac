//! Text split into lines the way `str::lines` splits it, and substring search.
use vstd::prelude::*;

verus! {

/// A line with one trailing carriage return removed, if it has one.
pub open spec fn strip_cr(line: Seq<char>) -> Seq<char> {
    if line.len() > 0 && line.last() == '\r' {
        line.drop_last()
    } else {
        line
    }
}

/// Reading `s` from left to right: the lines finished so far (each ended by a
/// line feed, which is dropped together with a carriage return just before it),
/// and the characters of the line not yet finished.
pub open spec fn scan_lines(s: Seq<char>) -> (Seq<Seq<char>>, Seq<char>)
    decreases s.len(),
{
    if s.len() == 0 {
        (Seq::empty(), Seq::empty())
    } else {
        let (done, cur) = scan_lines(s.drop_last());
        if s.last() == '\n' {
            (done.push(strip_cr(cur)), Seq::empty())
        } else {
            (done, cur.push(s.last()))
        }
    }
}

/// The lines of `s`: split at each `\n` or `\r\n`, the terminators dropped;
/// the last line may lack a terminator, and an empty text has no lines.
pub open spec fn spec_lines(s: Seq<char>) -> Seq<Seq<char>> {
    let (done, cur) = scan_lines(s);
    if cur.len() == 0 {
        done
    } else {
        done.push(cur)
    }
}

/// Reading more characters, none of them a line feed, only extends the unfinished line.
pub proof fn lemma_scan_append(s: Seq<char>, t: Seq<char>)
    requires
        !t.contains('\n'),
    ensures
        scan_lines(s + t) == (scan_lines(s).0, scan_lines(s).1 + t),
    decreases t.len(),
{
    if t.len() == 0 {
        assert(s + t =~= s);
        assert(scan_lines(s).1 + t =~= scan_lines(s).1);
    } else {
        let init = t.drop_last();
        assert(!init.contains('\n')) by {
            if init.contains('\n') {
                let k = choose|k: int| 0 <= k < init.len() && init[k] == '\n';
                assert(t[k] == '\n');
            }
        }
        lemma_scan_append(s, init);
        assert((s + t).drop_last() =~= s + init);
        assert(t.last() != '\n') by {
            if t.last() == '\n' {
                assert(t[t.len() - 1] == '\n');
            }
        }
        assert((scan_lines(s).1 + init).push(t.last()) =~= scan_lines(s).1 + t);
    }
}

/// Once a line has just ended, reading more text adds its finished lines after
/// the ones so far and leaves its unfinished line.
pub proof fn lemma_scan_after_break(s: Seq<char>, t: Seq<char>)
    requires
        scan_lines(s).1.len() == 0,
    ensures
        scan_lines(s + t) == (scan_lines(s).0 + scan_lines(t).0, scan_lines(t).1),
    decreases t.len(),
{
    if t.len() == 0 {
        assert(s + t =~= s);
        assert(scan_lines(s).0 + scan_lines(t).0 =~= scan_lines(s).0);
        assert(scan_lines(s).1 =~= scan_lines(t).1);
    } else {
        let init = t.drop_last();
        lemma_scan_after_break(s, init);
        assert((s + t).drop_last() =~= s + init);
        assert((s + t).last() == t.last());
        let (d0, _) = scan_lines(s);
        let (d1, c1) = scan_lines(init);
        if t.last() == '\n' {
            assert((d0 + d1).push(strip_cr(c1)) =~= d0 + d1.push(strip_cr(c1)));
        }
    }
}

/// The lines of two texts joined by a line feed are the lines of the first and
/// then those of the second, when the first is not empty and does not end in a
/// line feed or carriage return.
pub proof fn lemma_lines_concat(a: Seq<char>, b: Seq<char>)
    requires
        a.len() > 0,
        a.last() != '\n',
        a.last() != '\r',
    ensures
        spec_lines(a + seq!['\n'] + b) == spec_lines(a) + spec_lines(b),
{
    let s = a.push('\n');
    assert(a + seq!['\n'] =~= s);
    assert(s.drop_last() =~= a);
    let (done, cur) = scan_lines(a);
    assert(a.drop_last().push(a.last()) =~= a);
    assert(cur.len() > 0 && cur.last() == a.last());
    assert(strip_cr(cur) == cur);
    lemma_scan_after_break(s, b);
    let (db, cb) = scan_lines(b);
    if cb.len() == 0 {
        assert(done.push(cur) + db =~= done.push(cur) + spec_lines(b));
    } else {
        assert((done.push(cur) + db).push(cb) =~= done.push(cur) + db.push(cb));
    }
}

/// `needle` occurs in `hay` starting at position `i`.
pub open spec fn occurs_at(hay: Seq<char>, needle: Seq<char>, i: int) -> bool {
    &&& 0 <= i
    &&& i + needle.len() <= hay.len()
    &&& hay.subrange(i, i + needle.len()) == needle
}

/// `needle` occurs somewhere in `hay` (the empty needle occurs everywhere).
pub open spec fn has_substring(hay: Seq<char>, needle: Seq<char>) -> bool {
    exists|i: int| occurs_at(hay, needle, i)
}

/// Appends one character to a string.
#[verifier::external_body]
pub(crate) fn push_char(s: &mut String, c: char)
    ensures
        final(s)@ == old(s)@.push(c),
{
    s.push(c);
}

/// The characters of `s`, in order.
pub fn chars_of(s: &str) -> (out: Vec<char>)
    ensures
        out@ == s@,
{
    let mut out: Vec<char> = Vec::new();
    for c in it: s.chars()
        invariant
            out@ == it.seq().take(it.index() as int),
    {
        out.push(c);
    }
    out
}

/// A string made of the given characters.
pub fn string_from_chars(chars: &[char]) -> (s: String)
    ensures
        s@ == chars@,
{
    let mut s = String::new();
    let mut i: usize = 0;
    while i < chars.len()
        invariant
            i <= chars@.len(),
            s@ == chars@.take(i as int),
        decreases chars@.len() - i,
    {
        push_char(&mut s, chars[i]);
        assert(chars@.take(i + 1) =~= chars@.take(i as int).push(chars@[i as int]));
        i = i + 1;
    }
    assert(chars@.take(chars@.len() as int) =~= chars@);
    s
}

/// The characters of `chars` from position `from` up to, not including, `to`.
fn copy_range(chars: &[char], from: usize, to: usize) -> (out: Vec<char>)
    requires
        from <= to <= chars@.len(),
    ensures
        out@ == chars@.subrange(from as int, to as int),
{
    let mut out: Vec<char> = Vec::new();
    let mut i = from;
    while i < to
        invariant
            from <= i <= to <= chars@.len(),
            out@ == chars@.subrange(from as int, i as int),
        decreases to - i,
    {
        out.push(chars[i]);
        assert(chars@.subrange(from as int, i + 1) =~= chars@.subrange(from as int, i as int).push(
            chars@[i as int],
        ));
        i = i + 1;
    }
    out
}

/// The views of a sequence of character vectors.
pub open spec fn views_of(v: Seq<Vec<char>>) -> Seq<Seq<char>> {
    v.map_values(|x: Vec<char>| x@)
}

/// The views of a sequence of strings.
pub open spec fn string_views(v: Seq<String>) -> Seq<Seq<char>> {
    v.map_values(|x: String| x@)
}

/// The lines of a text given as characters (see `spec_lines`).
pub fn split_line_chars(chars: &[char]) -> (lines: Vec<Vec<char>>)
    ensures
        views_of(lines@) == spec_lines(chars@),
{
    let n = chars.len();
    let mut lines: Vec<Vec<char>> = Vec::new();
    let mut start: usize = 0;
    let mut k: usize = 0;
    while k < n
        invariant
            n == chars@.len(),
            start <= k <= n,
            scan_lines(chars@.take(k as int)) == (views_of(lines@), chars@.subrange(
                start as int,
                k as int,
            )),
        decreases n - k,
    {
        let ghost prefix = chars@.take(k + 1);
        assert(prefix.drop_last() =~= chars@.take(k as int));
        assert(prefix.last() == chars@[k as int]);
        if chars[k] == '\n' {
            let mut end = k;
            if end > start && chars[end - 1] == '\r' {
                end = end - 1;
            }
            let line = copy_range(chars, start, end);
            proof {
                let cur = chars@.subrange(start as int, k as int);
                assert(strip_cr(cur) =~= chars@.subrange(start as int, end as int));
            }
            let ghost old_lines = lines@;
            lines.push(line);
            assert(views_of(lines@) =~= views_of(old_lines).push(line@));
            start = k + 1;
        } else {
            assert(chars@.subrange(start as int, k + 1) =~= chars@.subrange(
                start as int,
                k as int,
            ).push(chars@[k as int]));
        }
        k = k + 1;
    }
    assert(chars@.take(n as int) =~= chars@);
    if start < n {
        let line = copy_range(chars, start, n);
        let ghost old_lines = lines@;
        lines.push(line);
        assert(views_of(lines@) =~= views_of(old_lines).push(line@));
    }
    lines
}

} // verus!
