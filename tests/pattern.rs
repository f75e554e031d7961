use sbak::ignore::EntryPath;
use sbak::parser::parse;
use sbak::pattern::{Match, NamePattern, NamePatternPart};

const PATTERN_TEXT: &str = "
*.txt
*.mp4
dir/
/rdir/
!note.txt
a/sample.png
a/**/sample.jpg
!a/x.mp4
#xxx";

fn match_cases() -> Vec<(Match, &'static str, bool)> {
    vec![
        (Match::Parent, "/d/a", false),
        (Match::Ignored, "/d/a.txt", false),
        (Match::Ignored, "/d/a.mp4", false),
        (Match::Ignored, "/d/a/a.mp4", false),
        (Match::Parent, "/d/dir", false),
        (Match::Ignored, "/d/dir", true),
        (Match::Ignored, "/d/a/b/dir", true),
        (Match::Parent, "/d/rdir", false),
        (Match::Ignored, "/d/rdir", true),
        (Match::Parent, "/d/a/rdir", true),
        (Match::Allowed, "/d/note.txt", false),
        (Match::Parent, "/d/sample.png", false),
        (Match::Ignored, "/d/a/sample.png", false),
        (Match::Parent, "/d/a/a/sample.png", false),
        (Match::Parent, "/d/sample.jpg", false),
        (Match::Ignored, "/d/a/sample.jpg", false),
        (Match::Ignored, "/d/a/a/sample.jpg", false),
        (Match::Allowed, "/d/a/x.mp4", false),
        (Match::Parent, "/d/#xxx", false),
    ]
}

fn run_match_cases() {
    let patterns = parse(PATTERN_TEXT).unwrap();
    for (to_be, path_str, is_dir) in match_cases() {
        let entry_path = EntryPath::from_path("/d", path_str, is_dir).unwrap();
        let actual = patterns.matches(&entry_path);
        assert_eq!(to_be, actual, "path = {}, is_dir = {}", path_str, is_dir);
    }
}

#[test]
fn pattern_test_matches() {
    run_match_cases();
}

#[test]
fn test_test_matches() {
    run_match_cases();
}

fn s(x: &str) -> NamePatternPart {
    NamePatternPart::Str(x.to_owned())
}

fn name_cases() -> Vec<(Vec<NamePatternPart>, Vec<(&'static str, bool)>)> {
    vec![
        (
            vec![s("a")],
            vec![("", false), ("a", true), ("b", false), ("aa", false), ("ab", false)],
        ),
        (
            vec![s("ab")],
            vec![("", false), ("a", false), ("b", false), ("aa", false), ("ab", true), ("aba", false)],
        ),
        (
            vec![s("a"), s("b")],
            vec![("", false), ("a", false), ("b", false), ("aa", false), ("ab", true), ("aba", false)],
        ),
        (
            vec![NamePatternPart::AnyChar],
            vec![("", false), ("a", true), ("b", true), ("aa", false)],
        ),
        (
            vec![s("a"), NamePatternPart::AnyChar, s("a")],
            vec![
                ("", false),
                ("a", false),
                ("aa", false),
                ("aaa", true),
                ("aba", true),
                ("baa", false),
                ("aaaa", false),
            ],
        ),
        (
            vec![NamePatternPart::AnyStr],
            vec![("", true), ("a", true), ("aa", true), ("aaa", true)],
        ),
        (
            vec![s("a"), NamePatternPart::AnyStr, s("a")],
            vec![
                ("", false),
                ("a", false),
                ("aa", true),
                ("aaa", true),
                ("aba", true),
                ("baa", false),
                ("aaaa", true),
                ("abca", true),
                ("aaaab", false),
            ],
        ),
        (
            vec![s("a"), NamePatternPart::AnyStr, NamePatternPart::AnyStr, s("a")],
            vec![
                ("", false),
                ("a", false),
                ("aa", true),
                ("aaa", true),
                ("aba", true),
                ("baa", false),
                ("aaaa", true),
                ("abca", true),
                ("aaaab", false),
            ],
        ),
    ]
}

fn run_name_cases() {
    for (parts, strs) in name_cases() {
        let pat = NamePattern::from_parts(parts.clone());
        for (text, to_be) in strs {
            let actual = pat.match_str(text);
            if to_be {
                assert!(actual, "pattern {:?} should match with {}", parts, text);
            } else {
                assert!(!actual, "pattern {:?} should not match with {}", parts, text);
            }
        }
    }
}

#[test]
fn pattern_test_match_name_pattern() {
    run_name_cases();
}

#[test]
fn test_test_match_name_pattern() {
    run_name_cases();
}

#[test]
fn star_matches_empty_run() {
    let pat = NamePattern::from_parts(vec![NamePatternPart::AnyStr, s(".txt")]);
    assert!(pat.match_str("a.txt"));
    assert!(pat.match_str(".txt"));
    assert!(!pat.match_str("a"));
}

#[test]
fn question_mark_takes_one_unicode_char() {
    let pat = NamePattern::from_parts(vec![s("a"), NamePatternPart::AnyChar, s("a")]);
    assert!(pat.match_str("aéa"));
    assert!(!pat.match_str("aééa"));
}

#[test]
fn last_matching_pattern_decides() {
    let patterns = parse("*.txt\n!keep.txt\n").unwrap();
    let keep = EntryPath::from_path("/r", "/r/keep.txt", false).unwrap();
    let other = EntryPath::from_path("/r", "/r/x/other.txt", false).unwrap();
    let none = EntryPath::from_path("/r", "/r/x.md", false).unwrap();
    assert_eq!(patterns.matches(&keep), Match::Allowed);
    assert_eq!(patterns.matches(&other), Match::Ignored);
    assert_eq!(patterns.matches(&none), Match::Parent);
}

#[test]
fn double_star_spans_zero_or_more_components() {
    let patterns = parse("a/**/c").unwrap();
    let zero = EntryPath::from_path("/r", "/r/a/c", false).unwrap();
    let two = EntryPath::from_path("/r", "/r/a/b/b/c", false).unwrap();
    let other = EntryPath::from_path("/r", "/r/x/a/c", false).unwrap();
    assert_eq!(patterns.matches(&zero), Match::Ignored);
    assert_eq!(patterns.matches(&two), Match::Ignored);
    assert_eq!(patterns.matches(&other), Match::Parent);
}

#[test]
fn trailing_double_star_spans_zero_or_more_components() {
    let patterns = parse("a/**").unwrap();
    let a = EntryPath::from_path("/r", "/r/a", true).unwrap();
    let inner = EntryPath::from_path("/r", "/r/a/b/c", false).unwrap();
    let other = EntryPath::from_path("/r", "/r/b/c", false).unwrap();
    assert_eq!(patterns.matches(&a), Match::Ignored);
    assert_eq!(patterns.matches(&inner), Match::Ignored);
    assert_eq!(patterns.matches(&other), Match::Parent);
    let all = parse("/**").unwrap();
    assert_eq!(all.matches(&other), Match::Ignored);
}
