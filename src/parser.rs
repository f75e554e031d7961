//! The text form of exclusion patterns: one pattern per line.

use vstd::prelude::*;

use crate::ignore::strings_view;
use crate::pattern::{
    NamePart, NamePattern, NamePatternPart, PathPart, Pattern, PatternPart, PatternView,
    Patterns, merge_names, merge_paths, names_view, paths_view, patterns_view,
};
use crate::text::{chars_of, str_is, string_of};

verus! {

/// Whether the character has the Unicode White_Space property.
pub open spec fn is_white(c: char) -> bool {
    ('\u{9}' <= c && c <= '\u{d}') || c == ' ' || c == '\u{85}' || c == '\u{a0}' || c == '\u{1680}'
        || ('\u{2000}' <= c && c <= '\u{200a}') || c == '\u{2028}' || c == '\u{2029}' || c == '\u{202f}'
        || c == '\u{205f}' || c == '\u{3000}'
}

/// Whether the character has the Unicode White_Space property, as
/// `char::is_whitespace` decides it.
fn white(c: char) -> (r: bool)
    ensures
        r == is_white(c),
{
    ('\u{9}' <= c && c <= '\u{d}') || c == ' ' || c == '\u{85}' || c == '\u{a0}' || c == '\u{1680}'
        || ('\u{2000}' <= c && c <= '\u{200a}') || c == '\u{2028}' || c == '\u{2029}' || c == '\u{202f}'
        || c == '\u{205f}' || c == '\u{3000}'
}

/// A failure to read pattern text.
#[derive(Debug, PartialEq)]
pub enum ParseError {
    /// The text holds a bad escape; the offending text is given.
    InvalidPattern(String),
}

/// `x` in front of a successful tokenisation.
pub open spec fn cons<A>(x: A, o: Option<Seq<A>>) -> Option<Seq<A>> {
    match o {
        Some(t) => Some(seq![x] + t),
        None => None,
    }
}

/// `a` in front of a successful tokenisation.
pub open spec fn prepend<A>(a: Seq<A>, o: Option<Seq<A>>) -> Option<Seq<A>> {
    match o {
        Some(t) => Some(a + t),
        None => None,
    }
}

proof fn lemma_prepend_cons<A>(a: Seq<A>, x: A, o: Option<Seq<A>>)
    ensures
        prepend(a, cons(x, o)) == prepend(a.push(x), o),
{
    if let Some(t) = o {
        assert(a + (seq![x] + t) =~= a.push(x) + t);
    }
}

/// The pieces of a name-pattern text, one per character or escape, before
/// adjacent pieces are joined; `None` on a bad escape.
pub open spec fn name_tokens(s: Seq<char>) -> Option<Seq<NamePart>>
    decreases s.len(),
{
    if s.len() == 0 {
        Some(Seq::empty())
    } else if s[0] == '\\' {
        if s.len() >= 2 && (s[1] == '\\' || s[1] == '?' || s[1] == '*') {
            cons(NamePart::Lit(seq![s[1]]), name_tokens(s.skip(2)))
        } else {
            None
        }
    } else if s[0] == '?' {
        cons(NamePart::One, name_tokens(s.skip(1)))
    } else if s[0] == '*' {
        cons(NamePart::Many, name_tokens(s.skip(1)))
    } else {
        cons(NamePart::Lit(seq![s[0]]), name_tokens(s.skip(1)))
    }
}

/// The components of a path-pattern text from a point on, `cur` being the
/// component read so far. `\/` is a slash inside a component; another escape
/// is kept whole for the name pattern.
pub open spec fn split_rec(s: Seq<char>, cur: Seq<char>) -> Seq<Seq<char>>
    decreases s.len(),
{
    if s.len() == 0 {
        seq![cur]
    } else if s[0] == '\\' && s.len() >= 2 {
        if s[1] == '/' {
            split_rec(s.skip(2), cur.push('/'))
        } else {
            split_rec(s.skip(2), cur.push('\\').push(s[1]))
        }
    } else if s[0] == '/' {
        if s.len() == 1 {
            seq![cur]
        } else {
            seq![cur] + split_rec(s.skip(1), Seq::empty())
        }
    } else {
        split_rec(s.skip(1), cur.push(s[0]))
    }
}

/// The components of a path-pattern text, split on `/`.
pub open spec fn split_pattern(s: Seq<char>) -> Seq<Seq<char>> {
    if s.len() == 0 {
        Seq::empty()
    } else {
        split_rec(s, Seq::empty())
    }
}

/// The path pattern of a list of component texts; `None` on a bad escape.
pub open spec fn path_parts_of(pieces: Seq<Seq<char>>) -> Option<Seq<PathPart>>
    decreases pieces.len(),
{
    if pieces.len() == 0 {
        Some(Seq::empty())
    } else if pieces[0] == seq!['*', '*'] {
        cons(PathPart::Any, path_parts_of(pieces.drop_first()))
    } else {
        match name_tokens(pieces[0]) {
            Some(t) => cons(PathPart::Name(merge_names(t)), path_parts_of(pieces.drop_first())),
            None => None,
        }
    }
}

/// The pattern that one line denotes; `None` on a bad escape.
pub open spec fn pattern_of(line: Seq<char>) -> Option<PatternView> {
    let allow = line.len() > 0 && line[0] == '!';
    let a = if allow {
        line.skip(1)
    } else {
        line
    };
    let anchored = a.len() > 0 && a[0] == '/';
    let b = if anchored {
        a.skip(1)
    } else {
        a
    };
    let dir_only = b.len() > 0 && b.last() == '/';
    let c = if dir_only {
        b.drop_last()
    } else {
        b
    };
    match path_parts_of(split_pattern(c)) {
        Some(parts) => Some(
            PatternView {
                parts: merge_paths(
                    if !anchored && parts.len() < 2 {
                        seq![PathPart::Any] + parts
                    } else {
                        parts
                    },
                ),
                allow,
                dir_only,
            },
        ),
        None => None,
    }
}

/// The lines of a text from a point on, `cur` being the line read so far.
pub open spec fn split_lines(t: Seq<char>, cur: Seq<char>) -> Seq<Seq<char>>
    decreases t.len(),
{
    if t.len() == 0 {
        if cur.len() == 0 {
            Seq::empty()
        } else {
            seq![cur]
        }
    } else if t[0] == '\n' {
        seq![cur] + split_lines(t.skip(1), Seq::empty())
    } else {
        split_lines(t.skip(1), cur.push(t[0]))
    }
}

/// A line without the `\r` of a `\r\n` ending.
pub open spec fn strip_cr(l: Seq<char>) -> Seq<char> {
    if l.len() > 0 && l.last() == '\r' {
        l.drop_last()
    } else {
        l
    }
}

/// The lines of a text, split at `\n`, each without a final `\r`.
pub open spec fn lines_of(t: Seq<char>) -> Seq<Seq<char>> {
    split_lines(t, Seq::empty()).map_values(|l: Seq<char>| strip_cr(l))
}

/// Whether the first character that is not white space is `#`.
pub open spec fn is_comment(l: Seq<char>) -> bool
    decreases l.len(),
{
    l.len() > 0 && (l[0] == '#' || (is_white(l[0]) && is_comment(l.drop_first())))
}

/// The patterns of a list of lines, skipping comments and empty lines; the
/// first line that does not parse is the error.
pub open spec fn patterns_of(lines: Seq<Seq<char>>) -> Result<Seq<PatternView>, Seq<char>>
    decreases lines.len(),
{
    if lines.len() == 0 {
        Ok(Seq::empty())
    } else {
        let l = lines[0];
        if is_comment(l) || l.len() == 0 {
            patterns_of(lines.drop_first())
        } else {
            match pattern_of(l) {
                None => Err(l),
                Some(p) => match patterns_of(lines.drop_first()) {
                    Ok(ps) => Ok(seq![p] + ps),
                    Err(e) => Err(e),
                },
            }
        }
    }
}

/// Parses a name pattern: `?` is one character, `*` any run of characters,
/// and `\\`, `\?`, `\*` are the literal characters.
pub fn parse_name_pattern(input: &str) -> (r: Result<NamePattern, ParseError>)
    ensures
        match name_tokens(input@) {
            Some(t) => r matches Ok(np) && np@ == merge_names(t),
            None => r matches Err(ParseError::InvalidPattern(s)) && s@ == input@,
        },
{
    let c = chars_of(input);
    let n = c.len();
    let mut toks: Vec<NamePatternPart> = Vec::new();
    let mut i: usize = 0;
    assert(c@.skip(0) =~= c@);
    assert(names_view(toks@) + Seq::<NamePart>::empty() =~= Seq::<NamePart>::empty());
    while i < n
        invariant
            n == c@.len(),
            i <= n,
            c@ == input@,
            name_tokens(c@) == prepend(names_view(toks@), name_tokens(c@.skip(i as int))),
        decreases n - i,
    {
        let ghost rest = c@.skip(i as int);
        let ghost before = names_view(toks@);
        let ch = c[i];
        if ch == '\\' {
            if i + 1 < n && (c[i + 1] == '\\' || c[i + 1] == '?' || c[i + 1] == '*') {
                let lit = string_of(&c, i + 1, i + 2);
                assert(lit@ =~= seq![rest[1]]);
                toks.push(NamePatternPart::Str(lit));
                assert(rest.skip(2) =~= c@.skip(i + 2));
                assert(names_view(toks@) =~= before.push(NamePart::Lit(seq![rest[1]])));
                proof {
                    lemma_prepend_cons(before, NamePart::Lit(seq![rest[1]]), name_tokens(rest.skip(2)));
                }
                i = i + 2;
            } else {
                return Err(ParseError::InvalidPattern(input.to_owned()));
            }
        } else {
            let tok = if ch == '?' {
                NamePatternPart::AnyChar
            } else if ch == '*' {
                NamePatternPart::AnyStr
            } else {
                let lit = string_of(&c, i, i + 1);
                assert(lit@ =~= seq![rest[0]]);
                NamePatternPart::Str(lit)
            };
            let ghost tv = tok@;
            toks.push(tok);
            assert(rest.skip(1) =~= c@.skip(i + 1));
            assert(names_view(toks@) =~= before.push(tv));
            proof {
                lemma_prepend_cons(before, tv, name_tokens(rest.skip(1)));
            }
            i = i + 1;
        }
    }
    assert(names_view(toks@) + Seq::<NamePart>::empty() =~= names_view(toks@));
    Ok(NamePattern::from_parts(toks))
}

/// Splits a path-pattern text into its component texts at `/`; `\/` is a
/// slash inside a component, and other escapes are left for the name pattern.
pub fn pattern_split(input: &str) -> (r: Vec<String>)
    ensures
        strings_view(r@) == split_pattern(input@),
{
    let c = chars_of(input);
    let n = c.len();
    let mut res: Vec<String> = Vec::new();
    let mut cur: Vec<char> = Vec::new();
    let mut i: usize = 0;
    assert(c@.skip(0) =~= c@);
    assert(strings_view(res@) =~= Seq::<Seq<char>>::empty());
    if n > 0 {
        assert(split_pattern(c@) =~= strings_view(res@) + split_rec(c@.skip(0), cur@));
    }
    while i < n
        invariant
            n == c@.len(),
            i <= n,
            c@ == input@,
            split_pattern(c@) == strings_view(res@) + (if i < n {
                split_rec(c@.skip(i as int), cur@)
            } else {
                Seq::empty()
            }),
        decreases n - i,
    {
        let ghost rest = c@.skip(i as int);
        let ghost before = strings_view(res@);
        let ch = c[i];
        if ch == '\\' && i + 1 < n {
            if c[i + 1] == '/' {
                cur.push('/');
            } else {
                cur.push('\\');
                cur.push(c[i + 1]);
            }
            assert(rest.skip(2) =~= c@.skip(i + 2));
            i = i + 2;
            if i == n {
                assert(c@.skip(i as int) =~= Seq::<char>::empty());
                assert(split_rec(c@.skip(i as int), cur@) == seq![cur@]);
                let part = string_of(&cur, 0, cur.len());
                assert(part@ =~= cur@);
                res.push(part);
                assert(strings_view(res@) =~= before + seq![cur@]);
                assert(strings_view(res@) + Seq::<Seq<char>>::empty() =~= strings_view(res@));
            }
        } else if ch == '/' {
            let part = string_of(&cur, 0, cur.len());
            assert(part@ =~= cur@);
            res.push(part);
            assert(strings_view(res@) =~= before + seq![cur@]);
            cur = Vec::new();
            assert(rest.skip(1) =~= c@.skip(i + 1));
            i = i + 1;
            if i == n {
                assert(strings_view(res@) + Seq::<Seq<char>>::empty() =~= strings_view(res@));
            } else {
                assert(before + (seq![part@] + split_rec(c@.skip(i as int), cur@)) =~= strings_view(
                    res@,
                ) + split_rec(c@.skip(i as int), cur@));
            }
        } else {
            cur.push(ch);
            assert(rest.skip(1) =~= c@.skip(i + 1));
            i = i + 1;
            if i == n {
                assert(c@.skip(i as int) =~= Seq::<char>::empty());
                assert(split_rec(c@.skip(i as int), cur@) == seq![cur@]);
                let part = string_of(&cur, 0, cur.len());
                assert(part@ =~= cur@);
                res.push(part);
                assert(strings_view(res@) =~= before + seq![cur@]);
                assert(strings_view(res@) + Seq::<Seq<char>>::empty() =~= strings_view(res@));
            }
        }
    }
    if n == 0 {
        assert(strings_view(res@) =~= Seq::<Seq<char>>::empty());
    }
    assert(strings_view(res@) + Seq::<Seq<char>>::empty() =~= strings_view(res@));
    res
}

/// Parses one pattern line: a leading `!` allows, a leading `/` anchors the
/// pattern to its directory, a trailing `/` restricts it to directories, and a
/// pattern of one component that is not anchored applies at any depth.
pub fn parse_pattern(input: &str) -> (r: Result<Pattern, ParseError>)
    ensures
        match pattern_of(input@) {
            Some(p) => r matches Ok(pat) && pat@ == p,
            None => r matches Err(ParseError::InvalidPattern(s)) && s@ == input@,
        },
{
    let c = chars_of(input);
    let n = c.len();
    let allow = n > 0 && c[0] == '!';
    let mut st: usize = if allow { 1 } else { 0 };
    let anchored = st < n && c[st] == '/';
    if anchored {
        st = st + 1;
    }
    let dir_only = st < n && c[n - 1] == '/';
    let en: usize = if dir_only { n - 1 } else { n };
    let ghost a = if allow { c@.skip(1) } else { c@ };
    let ghost b = if anchored { a.skip(1) } else { a };
    let ghost body = if dir_only { b.drop_last() } else { b };
    assert(a =~= c@.subrange(if allow { 1 } else { 0 }, n as int));
    assert(b =~= c@.subrange(st as int, n as int));
    assert(body =~= c@.subrange(st as int, en as int));
    let text = string_of(&c, st, en);
    let pieces = pattern_split(text.as_str());
    let ghost pv = strings_view(pieces@);
    let mut parts: Vec<PatternPart> = Vec::new();
    let mut i: usize = 0;
    assert(pv.skip(0) =~= pv);
    assert(paths_view(parts@) + Seq::<PathPart>::empty() =~= Seq::<PathPart>::empty());
    assert(path_parts_of(pv) is None ==> pattern_of(input@) is None);
    while i < pieces.len()
        invariant
            i <= pieces@.len(),
            pv == strings_view(pieces@),
            path_parts_of(pv) is None ==> pattern_of(input@) is None,
            path_parts_of(pv) == prepend(paths_view(parts@), path_parts_of(pv.skip(i as int))),
        decreases pieces@.len() - i,
    {
        let ghost rest = pv.skip(i as int);
        let ghost before = paths_view(parts@);
        assert(rest[0] == pieces@[i as int]@);
        assert(rest.drop_first() =~= pv.skip(i + 1));
        let dstar = vec!['*', '*'];
        assert(dstar@ =~= seq!['*', '*']);
        let part = if str_is(pieces[i].as_str(), &dstar) {
            PatternPart::AnyPath
        } else {
            match parse_name_pattern(pieces[i].as_str()) {
                Ok(np) => PatternPart::Normal(np),
                Err(_) => {
                    return Err(ParseError::InvalidPattern(input.to_owned()));
                },
            }
        };
        let ghost pview = part@;
        parts.push(part);
        assert(paths_view(parts@) =~= before.push(pview));
        proof {
            lemma_prepend_cons(before, pview, path_parts_of(pv.skip(i + 1)));
        }
        i = i + 1;
    }
    assert(pv.skip(i as int) =~= Seq::<Seq<char>>::empty());
    assert(paths_view(parts@) + Seq::<PathPart>::empty() =~= paths_view(parts@));
    let cascade = !anchored && parts.len() < 2;
    Ok(Pattern::from_parts(allow, cascade, dir_only, parts))
}

/// Splits a text into lines at `\n`, dropping the `\r` of a `\r\n` ending.
fn split_text_lines(t: &Vec<char>) -> (r: Vec<Vec<char>>)
    ensures
        r@.map_values(|l: Vec<char>| l@) == lines_of(t@),
{
    let n = t.len();
    let mut raw: Vec<Vec<char>> = Vec::new();
    let mut cur: Vec<char> = Vec::new();
    let mut i: usize = 0;
    assert(t@.skip(0) =~= t@);
    assert(raw@.map_values(|l: Vec<char>| l@) + split_lines(t@, cur@) =~= split_lines(t@, Seq::empty()));
    while i < n
        invariant
            n == t@.len(),
            i <= n,
            raw@.map_values(|l: Vec<char>| l@) + split_lines(t@.skip(i as int), cur@) == split_lines(t@, Seq::empty()),
        decreases n - i,
    {
        let ghost rest = t@.skip(i as int);
        let ghost before = raw@.map_values(|l: Vec<char>| l@);
        assert(rest.skip(1) =~= t@.skip(i + 1));
        if t[i] == '\n' {
            let ghost cv = cur@;
            raw.push(cur);
            cur = Vec::new();
            assert(raw@.map_values(|l: Vec<char>| l@) =~= before.push(cv));
            assert(before + (seq![cv] + split_lines(t@.skip(i + 1), Seq::empty())) =~= before.push(cv)
                + split_lines(t@.skip(i + 1), Seq::empty()));
        } else {
            cur.push(t[i]);
        }
        i = i + 1;
    }
    assert(t@.skip(n as int) =~= Seq::<char>::empty());
    if cur.len() > 0 {
        let ghost before = raw@.map_values(|l: Vec<char>| l@);
        let ghost cv = cur@;
        raw.push(cur);
        assert(raw@.map_values(|l: Vec<char>| l@) =~= before + seq![cv]);
    } else {
        assert(raw@.map_values(|l: Vec<char>| l@) + Seq::<Seq<char>>::empty() =~= raw@.map_values(|l: Vec<char>| l@));
    }
    let ghost all = raw@.map_values(|l: Vec<char>| l@);
    let mut r: Vec<Vec<char>> = Vec::new();
    let mut j: usize = 0;
    while j < raw.len()
        invariant
            j <= raw@.len(),
            all == raw@.map_values(|l: Vec<char>| l@),
            r@.map_values(|l: Vec<char>| l@) == all.take(j as int).map_values(|l: Seq<char>| strip_cr(l)),
        decreases raw@.len() - j,
    {
        let l = &raw[j];
        let m = l.len();
        let ghost lv = l@;
        let line = if m > 0 && l[m - 1] == '\r' {
            let mut x: Vec<char> = Vec::new();
            let mut k: usize = 0;
            while k < m - 1
                invariant
                    k <= m - 1,
                    m == lv.len(),
                    l@ == lv,
                    m > 0,
                    x@ == lv.take(k as int),
                decreases m - 1 - k,
            {
                x.push(l[k]);
                k = k + 1;
                assert(x@ =~= lv.take(k as int));
            }
            assert(x@ =~= lv.drop_last());
            x
        } else {
            let mut x: Vec<char> = Vec::new();
            let mut k: usize = 0;
            while k < m
                invariant
                    k <= m,
                    m == lv.len(),
                    l@ == lv,
                    x@ == lv.take(k as int),
                decreases m - k,
            {
                x.push(l[k]);
                k = k + 1;
                assert(x@ =~= lv.take(k as int));
            }
            assert(x@ =~= lv);
            x
        };
        let ghost before = r@.map_values(|l: Vec<char>| l@);
        let ghost xv = line@;
        assert(xv == strip_cr(all[j as int]));
        r.push(line);
        assert(r@.map_values(|l: Vec<char>| l@) =~= before.push(xv));
        j = j + 1;
        assert(all.take(j as int).map_values(|l: Seq<char>| strip_cr(l)) =~= all.take(j - 1).map_values(
            |l: Seq<char>| strip_cr(l),
        ).push(strip_cr(all[j - 1])));
    }
    assert(all.take(j as int) =~= all);
    r
}

/// Whether the first character that is not white space is `#`.
fn comment_line(l: &Vec<char>) -> (r: bool)
    ensures
        r == is_comment(l@),
{
    let n = l.len();
    let mut i: usize = 0;
    assert(l@.skip(0) =~= l@);
    while i < n
        invariant
            n == l@.len(),
            i <= n,
            is_comment(l@) == is_comment(l@.skip(i as int)),
        decreases n - i,
    {
        assert(l@.skip(i as int).drop_first() =~= l@.skip(i + 1));
        if l[i] == '#' {
            return true;
        }
        if !white(l[i]) {
            return false;
        }
        i = i + 1;
    }
    false
}

/// Parses a pattern text: one pattern per line; lines whose first character
/// that is not white space is `#` are comments, and empty lines are skipped.
pub fn parse(text: &str) -> (r: Result<Patterns, ParseError>)
    ensures
        match patterns_of(lines_of(text@)) {
            Ok(ps) => r matches Ok(p) && p@ == ps,
            Err(l) => r matches Err(ParseError::InvalidPattern(s)) && s@ == l,
        },
{
    let c = chars_of(text);
    let lines = split_text_lines(&c);
    let ghost lv = lines@.map_values(|l: Vec<char>| l@);
    let mut pats: Vec<Pattern> = Vec::new();
    let mut i: usize = 0;
    assert(lv.skip(0) =~= lv);
    while i < lines.len()
        invariant
            i <= lines@.len(),
            lv == lines@.map_values(|l: Vec<char>| l@),
            lv == lines_of(text@),
            patterns_of(lv) == (match patterns_of(lv.skip(i as int)) {
                Ok(ps) => Ok(patterns_view(pats@) + ps),
                Err(e) => Err(e),
            }),
        decreases lines@.len() - i,
    {
        let ghost rest = lv.skip(i as int);
        let ghost before = patterns_view(pats@);
        assert(rest[0] == lines@[i as int]@);
        assert(rest.drop_first() =~= lv.skip(i + 1));
        let l = &lines[i];
        if comment_line(l) || l.len() == 0 {
        } else {
            let s = string_of(l, 0, l.len());
            assert(s@ =~= l@);
            match parse_pattern(s.as_str()) {
                Ok(p) => {
                    let ghost pv = p@;
                    pats.push(p);
                    assert(patterns_view(pats@) =~= before.push(pv));
                    assert forall|ps: Seq<PatternView>| true implies before + (seq![pv] + ps) =~= before.push(pv) + ps by {}
                },
                Err(_) => {
                    return Err(ParseError::InvalidPattern(s));
                },
            }
        }
        i = i + 1;
    }
    assert(lv.skip(i as int) =~= Seq::<Seq<char>>::empty());
    assert(patterns_view(pats@) + Seq::<PatternView>::empty() =~= patterns_view(pats@));
    Ok(Patterns::new(pats))
}

} // verus!
