use sbak::parser::{parse, parse_name_pattern, parse_pattern, pattern_split, ParseError};
use sbak::pattern::{NamePattern as NP, NamePatternPart as NPP, Pattern as P, PatternPart as PP};

fn s(x: &str) -> NPP {
    NPP::Str(x.to_owned())
}

#[test]
fn str_test() {
    let mut chs = r"\/".chars();

    assert_eq!(chs.next(), Some('\\'));
    assert_eq!(chs.next(), Some('/'));
    assert_eq!(chs.next(), None);
}

#[test]
fn test_parse_pattern_success() {
    let a = PP::Normal(NP::from_parts(vec![s("a")]));
    let b = PP::Normal(NP::from_parts(vec![s("b")]));
    let a_s = PP::Normal(NP::from_parts(vec![s("a/")]));
    let any_txt = PP::Normal(NP::from_parts(vec![NPP::AnyStr, s(".txt")]));
    let any = PP::Normal(NP::from_parts(vec![NPP::AnyStr]));

    let cases = vec![
        ("a", P::from_parts(false, true, false, vec![a.clone()])),
        ("/a", P::from_parts(false, false, false, vec![a.clone()])),
        ("!a", P::from_parts(true, true, false, vec![a.clone()])),
        ("!/a", P::from_parts(true, false, false, vec![a.clone()])),
        ("a/", P::from_parts(false, true, true, vec![a.clone()])),
        ("/a/", P::from_parts(false, false, true, vec![a.clone()])),
        ("!a/", P::from_parts(true, true, true, vec![a.clone()])),
        ("!/a/", P::from_parts(true, false, true, vec![a.clone()])),
        ("a/a", P::from_parts(false, false, false, vec![a.clone(), a.clone()])),
        ("/a/a", P::from_parts(false, false, false, vec![a.clone(), a.clone()])),
        ("!a/a", P::from_parts(true, false, false, vec![a.clone(), a.clone()])),
        ("!/a/a", P::from_parts(true, false, false, vec![a.clone(), a.clone()])),
        ("a/a/", P::from_parts(false, false, true, vec![a.clone(), a.clone()])),
        ("/a/a/", P::from_parts(false, false, true, vec![a.clone(), a.clone()])),
        ("!a/a/", P::from_parts(true, false, true, vec![a.clone(), a.clone()])),
        ("!/a/a/", P::from_parts(true, false, true, vec![a.clone(), a.clone()])),
        (r"a\//a", P::from_parts(false, false, false, vec![a_s.clone(), a.clone()])),
        ("a/*/b", P::from_parts(false, false, false, vec![a.clone(), any.clone(), b.clone()])),
        ("a/**/b", P::from_parts(false, false, false, vec![a.clone(), PP::AnyPath, b.clone()])),
        ("a/*.txt", P::from_parts(false, false, false, vec![a.clone(), any_txt.clone()])),
    ];

    for (pat_str, to_be) in cases {
        let actual = parse_pattern(pat_str).unwrap();

        assert_eq!(
            actual, to_be,
            "\n  '{}' should be parsed to\n    {:?},\n  but\n    {:?}",
            pat_str, to_be, actual
        );
    }
}

#[test]
fn test_parse_name_pattern_success() {
    let cases = vec![
        ("a", NP::from_parts(vec![s("a")])),
        ("aa", NP::from_parts(vec![s("aa")])),
        (r"a\?", NP::from_parts(vec![s("a?")])),
        (r"a\?\?", NP::from_parts(vec![s("a??")])),
        (r"a\*", NP::from_parts(vec![s("a*")])),
        ("a?", NP::from_parts(vec![s("a"), NPP::AnyChar])),
        ("a*", NP::from_parts(vec![s("a"), NPP::AnyStr])),
        ("a**", NP::from_parts(vec![s("a"), NPP::AnyStr])),
        ("?*", NP::from_parts(vec![NPP::AnyChar, NPP::AnyStr])),
    ];

    for (pat_str, to_be) in cases {
        let actual = parse_name_pattern(pat_str).unwrap();

        assert_eq!(
            actual, to_be,
            "\n    '{}' should be parsed to {:?}, but {:?}",
            pat_str, to_be, actual
        );
    }
}

#[test]
fn test_parse_name_pattern_fails() {
    let cases = vec![r"\", r"\\\", r"\a"];

    for pat_str in cases {
        let _ = parse_name_pattern(pat_str).unwrap_err();
    }
}

#[test]
fn name_pattern_error_names_the_text() {
    assert_eq!(
        parse_name_pattern(r"x\a"),
        Err(ParseError::InvalidPattern(r"x\a".to_owned()))
    );
}

#[test]
fn parse_error_names_the_line() {
    assert_eq!(
        parse("ok.txt\nbad\\q\n"),
        Err(ParseError::InvalidPattern("bad\\q".to_owned()))
    );
}

#[test]
fn split_keeps_escaped_slash_and_drops_trailing_slash() {
    assert_eq!(pattern_split(r"a\/b/c/"), vec!["a/b".to_owned(), "c".to_owned()]);
    assert_eq!(pattern_split("a//b"), vec!["a".to_owned(), "".to_owned(), "b".to_owned()]);
    assert_eq!(pattern_split(r"\*x"), vec![r"\*x".to_owned()]);
    assert!(pattern_split("").is_empty());
}

#[test]
fn escaped_star_in_pattern_line_is_literal() {
    let p = parse_pattern(r"\*.log").unwrap();
    let to_be = P::from_parts(false, true, false, vec![PP::Normal(NP::from_parts(vec![s("*.log")]))]);
    assert_eq!(p, to_be);
}

#[test]
fn comments_blank_lines_and_crlf() {
    let a = parse("  # note\r\n\r\nx\r\n").unwrap();
    let b = parse("x").unwrap();
    assert_eq!(a, b);
}
