use rust_in_action::grep::{
    contains_chars, find_line_containing, find_line_containing_with_compiled,
    find_line_containing_with_context, find_line_containing_with_regex, read_file, split_lines,
    try_find_line_containing_with_regex, CompiledRegex,
};
use rust_in_action::lines::chars_of;

fn hits(v: &[(usize, &str)]) -> Vec<(usize, String)> {
    v.iter().map(|(i, s)| (*i, s.to_string())).collect()
}

#[test]
fn finds_lines_containing_term() {
    let found = find_line_containing("hello\nworld\nhello again", "hello");
    assert_eq!(found, hits(&[(0, "hello"), (2, "hello again")]));
}

#[test]
fn no_line_matches() {
    assert!(find_line_containing("abc\ndef", "xyz").is_empty());
}

#[test]
fn empty_term_matches_every_line() {
    let found = find_line_containing("a\n\nb", "");
    assert_eq!(found, hits(&[(0, "a"), (1, ""), (2, "b")]));
}

#[test]
fn empty_corpus_has_no_lines() {
    assert!(find_line_containing("", "").is_empty());
    assert!(split_lines("").is_empty());
}

#[test]
fn lines_split_like_std() {
    for text in ["a\r\nb\r", "\n", "one\ntwo\n", "x\r\n\r\ny", "\r", "a\n\r\nb\n\n"] {
        let expected: Vec<String> = text.lines().map(|l| l.to_string()).collect();
        assert_eq!(split_lines(text), expected, "text {:?}", text);
    }
}

#[test]
fn unicode_lines_and_search() {
    let found = find_line_containing("grüße\nnaïve ünïcode\nplain", "ün");
    assert_eq!(found, hits(&[(1, "naïve ünïcode")]));
}

#[test]
fn term_longer_than_line() {
    assert!(!contains_chars(&chars_of("ab"), &chars_of("abc")));
    assert!(contains_chars(&chars_of("xxabc"), &chars_of("abc")));
}

#[test]
fn context_around_a_match() {
    let found = find_line_containing_with_context("a\nb\nc\nd\ne", "c", 1);
    assert_eq!(found, vec![hits(&[(1, "b"), (2, "c"), (3, "d")])]);
}

#[test]
fn context_clipped_at_the_edges() {
    let found = find_line_containing_with_context("a\nb\nc", "a", 2);
    assert_eq!(found, vec![hits(&[(0, "a"), (1, "b"), (2, "c")])]);
    let found = find_line_containing_with_context("a\nb\nc", "c", 1);
    assert_eq!(found, vec![hits(&[(1, "b"), (2, "c")])]);
}

#[test]
fn context_of_zero_is_the_line_itself() {
    let found = find_line_containing_with_context("x1\ny\nx2", "x", 0);
    assert_eq!(found, vec![hits(&[(0, "x1")]), hits(&[(2, "x2")])]);
}

#[test]
fn regex_search() {
    let found = find_line_containing_with_regex("apple\nbanana\ncherry", "an+a");
    assert_eq!(found, hits(&[(1, "banana")]));
    let found = find_line_containing_with_regex("apple\nbanana\ncherry", "^c");
    assert_eq!(found, hits(&[(2, "cherry")]));
}

#[test]
fn invalid_regex_is_reported() {
    assert!(try_find_line_containing_with_regex("text", "foo(").is_none());
    assert!(CompiledRegex::new("foo(").is_none());
    let found = try_find_line_containing_with_regex("a1\nb\nc22", "[0-9]+").unwrap();
    assert_eq!(found, hits(&[(0, "a1"), (2, "c22")]));
}

#[test]
fn compiled_regex_keeps_its_pattern() {
    let re = CompiledRegex::new("b.d").unwrap();
    assert_eq!(re.as_str(), "b.d");
    let found = find_line_containing_with_compiled("bed\nbad\nbd", &re);
    assert_eq!(found, hits(&[(0, "bed"), (1, "bad")]));
}

#[test]
fn read_file_joins_lines() {
    let lines = vec![Some("first".to_string()), None, Some("third".to_string())];
    assert_eq!(read_file(&lines), "first\nthird\n");
    assert_eq!(read_file(&vec![]), "");
}

#[test]
fn lines_of_read_file_are_the_lines_read() {
    let lines = vec![Some("one".to_string()), Some(String::new()), None, Some("two".to_string())];
    let text = read_file(&lines);
    assert_eq!(split_lines(&text), vec!["one".to_string(), String::new(), "two".to_string()]);
}

#[test]
fn matches_are_exact_and_ordered() {
    let corpus = "cat\ndog\ncatalog\nbird\nconcat";
    let found = find_line_containing(corpus, "cat");
    let lines = split_lines(corpus);
    assert_eq!(found.len(), 3);
    for w in found.windows(2) {
        assert!(w[0].0 < w[1].0);
    }
    for (i, line) in &found {
        assert_eq!(&lines[*i], line);
        assert!(line.contains("cat"));
    }
}

#[test]
fn context_windows_hold_the_match() {
    let corpus = "l0\nl1\nkey\nl3\nl4\nl5\nkey2";
    let ctx = 2;
    let found = find_line_containing_with_context(corpus, "key", ctx);
    let matches = find_line_containing(corpus, "key");
    assert_eq!(found.len(), matches.len());
    for (window, (i, line)) in found.iter().zip(matches.iter()) {
        assert!(window.len() <= 2 * ctx + 1);
        assert!(window.contains(&(*i, line.clone())));
        for w in window.windows(2) {
            assert_eq!(w[0].0 + 1, w[1].0);
        }
    }
    assert_eq!(found[1], hits(&[(4, "l4"), (5, "l5"), (6, "key2")]));
}

#[test]
fn joining_two_texts_renumbers_the_second() {
    let (a, b) = ("cat\ndog", "catalog\nbird\ncat");
    let joined = format!("{}\n{}", a, b);
    let mut expected = find_line_containing(a, "cat");
    let shift = split_lines(a).len();
    expected.extend(find_line_containing(b, "cat").into_iter().map(|(i, s)| (i + shift, s)));
    assert_eq!(find_line_containing(&joined, "cat"), expected);
}

#[test]
fn longer_term_matches_no_more_lines() {
    let corpus = "concatenate\ncat\ncatalog\ndog";
    let short = find_line_containing(corpus, "cat");
    let long = find_line_containing(corpus, "catalog");
    assert!(long.iter().all(|p| short.contains(p)));
    assert_eq!(long, hits(&[(2, "catalog")]));
}

#[test]
fn reading_twice_gives_the_same_text() {
    for s in ["a\nb", "a\nb\n", "\n\nx", "", "only"] {
        let once = read_file(&split_lines(s).into_iter().map(Some).collect());
        let twice = read_file(&split_lines(&once).into_iter().map(Some).collect());
        assert_eq!(once, twice, "text {:?}", s);
    }
}

#[test]
fn zero_context_groups_are_the_matches() {
    let corpus = "x\ny\nxx\nz";
    let groups = find_line_containing_with_context(corpus, "x", 0);
    let expected: Vec<Vec<(usize, String)>> =
        find_line_containing(corpus, "x").into_iter().map(|p| vec![p]).collect();
    assert_eq!(groups, expected);
}
