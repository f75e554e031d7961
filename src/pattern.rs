//! Gitignore-style exclusion patterns and how they match entry paths.

use vstd::prelude::*;

use crate::ignore::{EntryPath, EntryPathView, chars_view};
use crate::text::{chars_of, occurs_at};

verus! {

/// One piece of a name pattern, as a mathematical value.
pub enum NamePart {
    /// These characters, literally.
    Lit(Seq<char>),
    /// Exactly one character.
    One,
    /// Zero or more characters.
    Many,
}

/// One piece of a path pattern, as a mathematical value.
pub enum PathPart {
    /// One path component that matches the name pattern.
    Name(Seq<NamePart>),
    /// Zero or more path components.
    Any,
}

/// A pattern as a mathematical value.
pub struct PatternView {
    pub parts: Seq<PathPart>,
    pub allow: bool,
    pub dir_only: bool,
}

/// Whether the name pattern `parts` matches the whole of `s`.
pub open spec fn name_match(parts: Seq<NamePart>, s: Seq<char>) -> bool
    decreases parts.len(), 0int,
{
    if parts.len() == 0 {
        s.len() == 0
    } else {
        let rest = parts.drop_first();
        match parts[0] {
            NamePart::Lit(p) => p.is_prefix_of(s) && name_match(rest, s.skip(p.len() as int)),
            NamePart::One => s.len() > 0 && name_match(rest, s.drop_first()),
            NamePart::Many => rest.len() == 0 || many_match(rest, s),
        }
    }
}

/// Whether `rest` matches some suffix of `s` (the whole of `s` included):
/// what a `*` followed by `rest` needs.
pub open spec fn many_match(rest: Seq<NamePart>, s: Seq<char>) -> bool
    decreases rest.len(), s.len() + 1,
{
    name_match(rest, s) || (s.len() > 0 && many_match(rest, s.drop_first()))
}

/// Whether the path pattern `parts` matches the whole component list `path`.
pub open spec fn path_match(parts: Seq<PathPart>, path: Seq<Seq<char>>) -> bool
    decreases parts.len(), 0int,
{
    if parts.len() == 0 {
        path.len() == 0
    } else {
        let rest = parts.drop_first();
        match parts[0] {
            PathPart::Name(np) => path.len() > 0 && name_match(np, path[0]) && path_match(
                rest,
                path.drop_first(),
            ),
            PathPart::Any => any_match(rest, path),
        }
    }
}

/// Whether `rest` matches some suffix of `path` (the whole of `path` and
/// the empty suffix included): what a `**` followed by `rest` needs, as `**`
/// spans zero or more components.
pub open spec fn any_match(rest: Seq<PathPart>, path: Seq<Seq<char>>) -> bool
    decreases rest.len(), path.len() + 1,
{
    path_match(rest, path) || (path.len() > 0 && any_match(rest, path.drop_first()))
}

/// Adjacent literals joined into one, adjacent `Many` into one.
pub open spec fn merge_names(t: Seq<NamePart>) -> Seq<NamePart>
    decreases t.len(),
{
    if t.len() == 0 {
        t
    } else {
        let r = merge_names(t.drop_last());
        let x = t.last();
        if r.len() > 0 && r.last() is Lit && x is Lit {
            r.drop_last().push(NamePart::Lit(r.last()->Lit_0 + x->Lit_0))
        } else if r.len() > 0 && r.last() is Many && x is Many {
            r
        } else {
            r.push(x)
        }
    }
}

/// Adjacent `Any` joined into one.
pub open spec fn merge_paths(t: Seq<PathPart>) -> Seq<PathPart>
    decreases t.len(),
{
    if t.len() == 0 {
        t
    } else {
        let r = merge_paths(t.drop_last());
        let x = t.last();
        if r.len() > 0 && r.last() is Any && x is Any {
            r
        } else {
            r.push(x)
        }
    }
}

/// What one pattern says of an entry.
pub open spec fn pattern_result(p: PatternView, e: EntryPathView) -> Match {
    if p.dir_only && !e.is_dir {
        Match::Parent
    } else if path_match(p.parts, e.parts) {
        if p.allow {
            Match::Allowed
        } else {
            Match::Ignored
        }
    } else {
        Match::Parent
    }
}

/// What a list of patterns says of an entry: the last pattern that decides wins.
pub open spec fn patterns_result(ps: Seq<PatternView>, e: EntryPathView) -> Match
    decreases ps.len(),
{
    if ps.len() == 0 {
        Match::Parent
    } else {
        let r = pattern_result(ps.last(), e);
        if r != Match::Parent {
            r
        } else {
            patterns_result(ps.drop_last(), e)
        }
    }
}

/// The outcome of matching an entry against exclusion patterns.
#[derive(Debug, Clone, Copy, PartialEq, Eq, Structural, PartialOrd, Ord, Hash)]
pub enum Match {
    /// Explicitly excluded.
    Ignored,
    /// No decision here: the enclosing directory's rules apply.
    Parent,
    /// Explicitly allowed.
    Allowed,
}

/// One piece of a name pattern.
#[derive(Debug, PartialEq)]
pub enum NamePatternPart {
    /// A literal run of characters.
    Str(String),
    /// `?`: exactly one character.
    AnyChar,
    /// `*`: zero or more characters.
    AnyStr,
}

impl Clone for NamePatternPart {
    fn clone(&self) -> (r: NamePatternPart)
        ensures
            r == *self,
    {
        match self {
            NamePatternPart::Str(s) => NamePatternPart::Str(s.clone()),
            NamePatternPart::AnyChar => NamePatternPart::AnyChar,
            NamePatternPart::AnyStr => NamePatternPart::AnyStr,
        }
    }
}

impl View for NamePatternPart {
    type V = NamePart;

    open spec fn view(&self) -> NamePart {
        match self {
            NamePatternPart::Str(s) => NamePart::Lit(s@),
            NamePatternPart::AnyChar => NamePart::One,
            NamePatternPart::AnyStr => NamePart::Many,
        }
    }
}

/// The values of a list of name pattern pieces.
pub open spec fn names_view(v: Seq<NamePatternPart>) -> Seq<NamePart> {
    v.map_values(|p: NamePatternPart| p@)
}

/// A pattern for one path component.
#[derive(Debug, Clone, PartialEq)]
pub struct NamePattern {
    parts: Vec<NamePatternPart>,
}

impl View for NamePattern {
    type V = Seq<NamePart>;

    closed spec fn view(&self) -> Seq<NamePart> {
        names_view(self.parts@)
    }
}

impl NamePattern {
    /// Builds a name pattern, joining adjacent literals and adjacent `*`.
    pub fn from_parts(parts: Vec<NamePatternPart>) -> (r: NamePattern)
        ensures
            r@ == merge_names(names_view(parts@)),
    {
        let ghost input = names_view(parts@);
        let mut out: Vec<NamePatternPart> = Vec::new();
        let mut i: usize = 0;
        assert(input.take(0) =~= Seq::<NamePart>::empty());
        assert(names_view(out@) =~= Seq::<NamePart>::empty());
        while i < parts.len()
            invariant
                i <= parts@.len(),
                input == names_view(parts@),
                names_view(out@) == merge_names(input.take(i as int)),
            decreases parts@.len() - i,
        {
            let x = parts[i].clone();
            let ghost before = names_view(out@);
            assert(input.take(i + 1).drop_last() =~= input.take(i as int));
            assert(input.take(i + 1).last() == x@);
            let n = out.len();
            if n > 0 && matches!(out[n - 1], NamePatternPart::Str(_)) && matches!(x, NamePatternPart::Str(_)) {
                let last = out.pop().unwrap();
                match (last, x) {
                    (NamePatternPart::Str(mut s1), NamePatternPart::Str(s2)) => {
                        s1.append(s2.as_str());
                        out.push(NamePatternPart::Str(s1));
                    },
                    _ => {},
                }
                assert(names_view(out@) =~= before.drop_last().push(
                    NamePart::Lit(before.last()->Lit_0 + input[i as int]->Lit_0),
                ));
            } else if n > 0 && matches!(out[n - 1], NamePatternPart::AnyStr) && matches!(x, NamePatternPart::AnyStr) {
            } else {
                out.push(x);
                assert(names_view(out@) =~= before.push(input[i as int]));
            }
            i = i + 1;
        }
        assert(input.take(parts@.len() as int) =~= input);
        NamePattern { parts: out }
    }

    /// Whether the pattern matches the whole of `s`.
    pub fn match_str(&self, s: &str) -> (r: bool)
        ensures
            r == name_match(self@, s@),
    {
        let c = chars_of(s);
        assert(names_view(self.parts@).skip(0) =~= names_view(self.parts@));
        assert(c@.skip(0) =~= c@);
        match_np(&self.parts, 0, &c, 0)
    }
}

fn match_np(parts: &Vec<NamePatternPart>, pi: usize, s: &Vec<char>, si: usize) -> (r: bool)
    requires
        pi <= parts@.len(),
        si <= s@.len(),
    ensures
        r == name_match(names_view(parts@).skip(pi as int), s@.skip(si as int)),
    decreases parts@.len() - pi,
{
    let ghost ps = names_view(parts@).skip(pi as int);
    let ghost ss = s@.skip(si as int);
    let slen = s.len();
    if pi == parts.len() {
        return si == s.len();
    }
    assert(ps.drop_first() =~= names_view(parts@).skip(pi + 1));
    assert(ps[0] == parts@[pi as int]@);
    match &parts[pi] {
        NamePatternPart::Str(p) => {
            let pc = chars_of(p.as_str());
            if occurs_at(&pc, s, si) {
                assert(si + pc@.len() <= s@.len());
                assert(ss.skip(pc@.len() as int) =~= s@.skip(si + pc@.len()));
                match_np(parts, pi + 1, s, si + pc.len())
            } else {
                false
            }
        },
        NamePatternPart::AnyChar => {
            if si == s.len() {
                false
            } else {
                assert(ss.drop_first() =~= s@.skip(si + 1));
                match_np(parts, pi + 1, s, si + 1)
            }
        },
        NamePatternPart::AnyStr => {
            if pi + 1 == parts.len() {
                return true;
            }
            let ghost rest = names_view(parts@).skip(pi + 1);
            assert(ps[0] == NamePart::Many);
            assert(ps.drop_first() == rest);
            let n = s.len();
            let np = parts.len();
            let mut k: usize = si;
            while k < n
                invariant
                    n == s@.len(),
                    np == parts@.len(),
                    si <= k <= n,
                    pi + 1 < np,
                    rest == names_view(parts@).skip(pi + 1),
                    name_match(names_view(parts@).skip(pi as int), s@.skip(si as int)) == many_match(
                        rest,
                        s@.skip(k as int),
                    ),
                decreases n - k,
            {
                if match_np(parts, pi + 1, s, k) {
                    return true;
                }
                assert(s@.skip(k as int).drop_first() =~= s@.skip(k + 1));
                k = k + 1;
            }
            match_np(parts, pi + 1, s, n)
        },
    }
}

/// One piece of a path pattern.
#[derive(Debug, Clone, PartialEq)]
pub enum PatternPart {
    /// One path component that matches the name pattern.
    Normal(NamePattern),
    /// `**`: zero or more path components.
    AnyPath,
}

impl View for PatternPart {
    type V = PathPart;

    open spec fn view(&self) -> PathPart {
        match self {
            PatternPart::Normal(np) => PathPart::Name(np@),
            PatternPart::AnyPath => PathPart::Any,
        }
    }
}

/// The values of a list of path pattern pieces.
pub open spec fn paths_view(v: Seq<PatternPart>) -> Seq<PathPart> {
    v.map_values(|p: PatternPart| p@)
}

fn match_path(parts: &Vec<PatternPart>, pi: usize, path: &Vec<Vec<char>>, qi: usize) -> (r: bool)
    requires
        pi <= parts@.len(),
        qi <= path@.len(),
    ensures
        r == path_match(paths_view(parts@).skip(pi as int), chars_view(path@).skip(qi as int)),
    decreases parts@.len() - pi,
{
    let ghost ps = paths_view(parts@).skip(pi as int);
    let ghost qs = chars_view(path@).skip(qi as int);
    if pi == parts.len() {
        return qi == path.len();
    }
    assert(ps.drop_first() =~= paths_view(parts@).skip(pi + 1));
    assert(ps[0] == parts@[pi as int]@);
    match &parts[pi] {
        PatternPart::Normal(np) => {
            if qi == path.len() {
                return false;
            }
            assert(qs[0] == path@[qi as int]@);
            assert(np.parts@.skip(0) =~= np.parts@);
            assert(names_view(np.parts@).skip(0) =~= names_view(np.parts@));
            assert(path@[qi as int]@.skip(0) =~= path@[qi as int]@);
            if !match_np(&np.parts, 0, &path[qi], 0) {
                return false;
            }
            assert(qs.drop_first() =~= chars_view(path@).skip(qi + 1));
            match_path(parts, pi + 1, path, qi + 1)
        },
        PatternPart::AnyPath => {
            let ghost rest = paths_view(parts@).skip(pi + 1);
            assert(ps[0] == PathPart::Any);
            assert(ps.drop_first() == rest);
            let np = parts.len();
            let mut k: usize = qi;
            while k < path.len()
                invariant
                    qi <= k <= path@.len(),
                    np == parts@.len(),
                    pi < np,
                    rest == paths_view(parts@).skip(pi + 1),
                    path_match(paths_view(parts@).skip(pi as int), chars_view(path@).skip(qi as int))
                        == any_match(rest, chars_view(path@).skip(k as int)),
                decreases path@.len() - k,
            {
                if match_path(parts, pi + 1, path, k) {
                    return true;
                }
                assert(chars_view(path@).skip(k as int).drop_first() =~= chars_view(path@).skip(k + 1));
                k = k + 1;
            }
            match_path(parts, pi + 1, path, path.len())
        },
    }
}

/// One exclusion pattern: a path pattern and its flags.
#[derive(Debug, PartialEq)]
pub struct Pattern {
    parts: Vec<PatternPart>,
    allow: bool,
    dir_only: bool,
}

impl View for Pattern {
    type V = PatternView;

    closed spec fn view(&self) -> PatternView {
        PatternView { parts: paths_view(self.parts@), allow: self.allow, dir_only: self.dir_only }
    }
}

impl Pattern {
    /// What this pattern says of an entry: `Parent` when it does not apply.
    pub fn matches(&self, entry_path: &EntryPath) -> (r: Match)
        ensures
            r == pattern_result(self@, entry_path@),
    {
        if self.dir_only && !entry_path.is_dir() {
            return Match::Parent;
        }
        let path = entry_path.chars_parts();
        assert(paths_view(self.parts@).skip(0) =~= paths_view(self.parts@));
        assert(chars_view(path@).skip(0) =~= chars_view(path@));
        if match_path(&self.parts, 0, &path, 0) {
            if self.allow {
                Match::Allowed
            } else {
                Match::Ignored
            }
        } else {
            Match::Parent
        }
    }

    /// Builds a pattern; a cascading one is prefixed with `**`, and adjacent
    /// `**` are joined into one.
    pub fn from_parts(allow: bool, cascade: bool, dir_only: bool, parts: Vec<PatternPart>) -> (r:
        Pattern)
        ensures
            r@.allow == allow,
            r@.dir_only == dir_only,
            r@.parts == merge_paths(
                if cascade {
                    seq![PathPart::Any] + paths_view(parts@)
                } else {
                    paths_view(parts@)
                },
            ),
    {
        let ghost input = if cascade {
            seq![PathPart::Any] + paths_view(parts@)
        } else {
            paths_view(parts@)
        };
        let mut out: Vec<PatternPart> = Vec::new();
        let mut i: usize = 0;
        if cascade {
            out.push(PatternPart::AnyPath);
            assert(input.take(1) =~= seq![PathPart::Any]);
            assert(seq![PathPart::Any].drop_last() =~= Seq::<PathPart>::empty());
            assert(merge_paths(Seq::<PathPart>::empty()) =~= Seq::<PathPart>::empty());
            assert(Seq::<PathPart>::empty().push(PathPart::Any) =~= seq![PathPart::Any]);
            assert(paths_view(out@) =~= merge_paths(input.take(1)));
        } else {
            assert(paths_view(out@) =~= merge_paths(input.take(0)));
        }
        let ghost off: int = if cascade { 1 } else { 0 };
        while i < parts.len()
            invariant
                i <= parts@.len(),
                off == (if cascade { 1int } else { 0 }),
                input.len() == parts@.len() + off,
                forall|j: int| 0 <= j < parts@.len() ==> input[j + off] == #[trigger] parts@[j]@,
                paths_view(out@) == merge_paths(input.take(i + off)),
            decreases parts@.len() - i,
        {
            let x = parts[i].clone_part();
            let ghost before = paths_view(out@);
            assert(input.take(i + off + 1).drop_last() =~= input.take(i + off));
            assert(input.take(i + off + 1).last() == x@);
            let n = out.len();
            if n > 0 && matches!(out[n - 1], PatternPart::AnyPath) && matches!(x, PatternPart::AnyPath) {
            } else {
                out.push(x);
                assert(paths_view(out@) =~= before.push(parts@[i as int]@));
            }
            i = i + 1;
        }
        assert(input.take(parts@.len() + off) =~= input);
        Pattern { parts: out, allow, dir_only }
    }
}

impl Clone for Pattern {
    fn clone(&self) -> (r: Pattern)
        ensures
            r@ == self@,
    {
        let mut parts: Vec<PatternPart> = Vec::new();
        let mut i: usize = 0;
        while i < self.parts.len()
            invariant
                i <= self.parts@.len(),
                paths_view(parts@) == paths_view(self.parts@).take(i as int),
            decreases self.parts@.len() - i,
        {
            let x = self.parts[i].clone_part();
            let ghost before = paths_view(parts@);
            parts.push(x);
            assert(paths_view(parts@) =~= before.push(self.parts@[i as int]@));
            assert(paths_view(self.parts@).take(i + 1) =~= paths_view(self.parts@).take(i as int).push(
                self.parts@[i as int]@,
            ));
            i = i + 1;
            assert(paths_view(parts@) =~= paths_view(self.parts@).take(i as int));
        }
        assert(paths_view(self.parts@).take(i as int) =~= paths_view(self.parts@));
        Pattern { parts, allow: self.allow, dir_only: self.dir_only }
    }
}

impl Clone for Patterns {
    fn clone(&self) -> (r: Patterns)
        ensures
            r@ == self@,
    {
        let mut patterns: Vec<Pattern> = Vec::new();
        let mut i: usize = 0;
        while i < self.patterns.len()
            invariant
                i <= self.patterns@.len(),
                patterns_view(patterns@) == patterns_view(self.patterns@).take(i as int),
            decreases self.patterns@.len() - i,
        {
            let x = self.patterns[i].clone();
            let ghost before = patterns_view(patterns@);
            patterns.push(x);
            assert(patterns_view(patterns@) =~= before.push(self.patterns@[i as int]@));
            assert(patterns_view(self.patterns@).take(i + 1) =~= patterns_view(self.patterns@).take(
                i as int,
            ).push(self.patterns@[i as int]@));
            i = i + 1;
            assert(patterns_view(patterns@) =~= patterns_view(self.patterns@).take(i as int));
        }
        assert(patterns_view(self.patterns@).take(i as int) =~= patterns_view(self.patterns@));
        Patterns { patterns }
    }
}

impl PatternPart {
    fn clone_part(&self) -> (r: PatternPart)
        ensures
            r@ == self@,
    {
        match self {
            PatternPart::Normal(np) => PatternPart::Normal(NamePattern { parts: clone_names(&np.parts) }),
            PatternPart::AnyPath => PatternPart::AnyPath,
        }
    }
}

fn clone_names(v: &Vec<NamePatternPart>) -> (r: Vec<NamePatternPart>)
    ensures
        names_view(r@) == names_view(v@),
{
    let mut r: Vec<NamePatternPart> = Vec::new();
    let mut i: usize = 0;
    while i < v.len()
        invariant
            i <= v@.len(),
            r@ == v@.take(i as int),
        decreases v@.len() - i,
    {
        r.push(v[i].clone());
        i = i + 1;
        assert(r@ =~= v@.take(i as int));
    }
    assert(v@.take(v@.len() as int) =~= v@);
    r
}

/// The values of a list of patterns.
pub open spec fn patterns_view(v: Seq<Pattern>) -> Seq<PatternView> {
    v.map_values(|p: Pattern| p@)
}

/// An ordered list of exclusion patterns.
#[derive(Debug, PartialEq)]
pub struct Patterns {
    patterns: Vec<Pattern>,
}

impl View for Patterns {
    type V = Seq<PatternView>;

    closed spec fn view(&self) -> Seq<PatternView> {
        patterns_view(self.patterns@)
    }
}

impl Patterns {
    /// A list holding these patterns in this order.
    pub fn new(patterns: Vec<Pattern>) -> (r: Patterns)
        ensures
            r@ == patterns_view(patterns@),
    {
        Patterns { patterns }
    }

    /// The empty list: it decides nothing.
    pub fn empty() -> (r: Patterns)
        ensures
            r@ == Seq::<PatternView>::empty(),
    {
        let r = Patterns { patterns: Vec::new() };
        assert(r@ =~= Seq::<PatternView>::empty());
        r
    }

    /// What the list says of an entry: the last pattern that decides wins,
    /// and `Parent` when none does.
    pub fn matches(&self, entry_path: &EntryPath) -> (r: Match)
        ensures
            r == patterns_result(self@, entry_path@),
    {
        let ghost all = patterns_view(self.patterns@);
        let mut i: usize = self.patterns.len();
        assert(all.take(i as int) =~= all);
        while i > 0
            invariant
                i <= self.patterns@.len(),
                all == patterns_view(self.patterns@),
                patterns_result(all, entry_path@) == patterns_result(all.take(i as int), entry_path@),
            decreases i,
        {
            let r = self.patterns[i - 1].matches(entry_path);
            assert(all.take(i as int).drop_last() =~= all.take(i - 1));
            match r {
                Match::Allowed => return Match::Allowed,
                Match::Ignored => return Match::Ignored,
                Match::Parent => {},
            }
            i = i - 1;
        }
        assert(all.take(0) =~= Seq::<PatternView>::empty());
        Match::Parent
    }
}

} // verus!

verus! {

/// `p` matches the first `k` characters of `s` and `q` the rest.
pub open spec fn split_match(p: Seq<NamePart>, q: Seq<NamePart>, s: Seq<char>, k: int) -> bool {
    name_match(p, s.take(k)) && name_match(q, s.skip(k))
}

/// Whether `s` splits into a part that `p` matches followed by one that `q` matches.
pub open spec fn splits(p: Seq<NamePart>, q: Seq<NamePart>, s: Seq<char>) -> bool {
    exists|k: int| 0 <= k <= s.len() && #[trigger] split_match(p, q, s, k)
}

proof fn lemma_many_match(r: Seq<NamePart>, s: Seq<char>)
    ensures
        many_match(r, s) == exists|k: int| 0 <= k <= s.len() && #[trigger] name_match(r, s.skip(k)),
    decreases s.len(),
{
    assert(s.skip(0) =~= s);
    if name_match(r, s) {
        assert(name_match(r, s.skip(0)));
    }
    if s.len() > 0 {
        lemma_many_match(r, s.drop_first());
        if many_match(r, s) && !name_match(r, s) {
            let k = choose|k: int| 0 <= k <= s.drop_first().len() && #[trigger] name_match(r, s.drop_first().skip(k));
            assert(s.drop_first().skip(k) =~= s.skip(k + 1));
            assert(name_match(r, s.skip(k + 1)));
        }
        if exists|k: int| 0 <= k <= s.len() && #[trigger] name_match(r, s.skip(k)) {
            let k = choose|k: int| 0 <= k <= s.len() && #[trigger] name_match(r, s.skip(k));
            if k > 0 {
                assert(s.drop_first().skip(k - 1) =~= s.skip(k));
                assert(name_match(r, s.drop_first().skip(k - 1)));
                assert(many_match(r, s.drop_first()));
            }
        }
    } else {
        if exists|k: int| 0 <= k <= s.len() && #[trigger] name_match(r, s.skip(k)) {
            let k = choose|k: int| 0 <= k <= s.len() && #[trigger] name_match(r, s.skip(k));
            assert(k == 0);
        }
    }
}

proof fn lemma_concat(p: Seq<NamePart>, q: Seq<NamePart>, s: Seq<char>)
    ensures
        name_match(p + q, s) == splits(p, q, s),
    decreases p.len(),
{
    if p.len() == 0 {
        assert(p + q =~= q);
        assert(s.take(0) =~= Seq::<char>::empty());
        assert(s.skip(0) =~= s);
        if name_match(q, s) {
            assert(split_match(p, q, s, 0));
        }
        if splits(p, q, s) {
            let k = choose|k: int| 0 <= k <= s.len() && #[trigger] split_match(p, q, s, k);
            assert(s.take(k).len() == k);
            assert(k == 0);
        }
    } else {
        let pp = p.drop_first();
        assert((p + q).drop_first() =~= pp + q);
        assert((p + q)[0] == p[0]);
        match p[0] {
            NamePart::Lit(a) => {
                let n = a.len() as int;
                if a.is_prefix_of(s) {
                    let t = s.skip(n);
                    lemma_concat(pp, q, t);
                    if name_match(p + q, s) {
                        let k2 = choose|k: int| 0 <= k <= t.len() && #[trigger] split_match(pp, q, t, k);
                        let k = n + k2;
                        assert(s.take(k).skip(n) =~= t.take(k2));
                        assert(s.skip(k) =~= t.skip(k2));
                        assert(s.take(k).take(n) =~= s.take(n));
                        assert(a.is_prefix_of(s.take(k)));
                        assert(split_match(p, q, s, k));
                    }
                    if splits(p, q, s) {
                        let k = choose|k: int| 0 <= k <= s.len() && #[trigger] split_match(p, q, s, k);
                        let k2 = k - n;
                        assert(s.take(k).skip(n) =~= t.take(k2));
                        assert(s.skip(k) =~= t.skip(k2));
                        assert(split_match(pp, q, t, k2));
                    }
                } else {
                    if splits(p, q, s) {
                        let k = choose|k: int| 0 <= k <= s.len() && #[trigger] split_match(p, q, s, k);
                        assert(a.is_prefix_of(s.take(k)));
                        assert(s.take(k).take(n) =~= s.take(n));
                        assert(a.is_prefix_of(s));
                    }
                }
            },
            NamePart::One => {
                if s.len() > 0 {
                    let t = s.drop_first();
                    lemma_concat(pp, q, t);
                    if name_match(p + q, s) {
                        let k2 = choose|k: int| 0 <= k <= t.len() && #[trigger] split_match(pp, q, t, k);
                        let k = 1 + k2;
                        assert(s.take(k).drop_first() =~= t.take(k2));
                        assert(s.skip(k) =~= t.skip(k2));
                        assert(split_match(p, q, s, k));
                    }
                    if splits(p, q, s) {
                        let k = choose|k: int| 0 <= k <= s.len() && #[trigger] split_match(p, q, s, k);
                        let k2 = k - 1;
                        assert(s.take(k).drop_first() =~= t.take(k2));
                        assert(s.skip(k) =~= t.skip(k2));
                        assert(split_match(pp, q, t, k2));
                    }
                } else {
                    if splits(p, q, s) {
                        let k = choose|k: int| 0 <= k <= s.len() && #[trigger] split_match(p, q, s, k);
                        assert(s.take(k).len() == 0);
                    }
                }
            },
            NamePart::Many => {
                if pp.len() == 0 {
                    assert(pp + q =~= q);
                    lemma_many_match(q, s);
                    if q.len() == 0 {
                        assert(s.skip(s.len() as int) =~= Seq::<char>::empty());
                        assert(split_match(p, q, s, s.len() as int));
                    } else {
                        if name_match(p + q, s) {
                            let k = choose|k: int| 0 <= k <= s.len() && #[trigger] name_match(q, s.skip(k));
                            assert(split_match(p, q, s, k));
                        }
                        if splits(p, q, s) {
                            let k = choose|k: int| 0 <= k <= s.len() && #[trigger] split_match(p, q, s, k);
                            assert(name_match(q, s.skip(k)));
                        }
                    }
                } else {
                    lemma_many_match(pp + q, s);
                    if name_match(p + q, s) {
                        let j = choose|j: int| 0 <= j <= s.len() && #[trigger] name_match(pp + q, s.skip(j));
                        let u = s.skip(j);
                        lemma_concat(pp, q, u);
                        let k2 = choose|k: int| 0 <= k <= u.len() && #[trigger] split_match(pp, q, u, k);
                        let k = j + k2;
                        lemma_many_match(pp, s.take(k));
                        assert(s.take(k).skip(j) =~= u.take(k2));
                        assert(name_match(pp, s.take(k).skip(j)));
                        assert(s.skip(k) =~= u.skip(k2));
                        assert(split_match(p, q, s, k));
                    }
                    if splits(p, q, s) {
                        let k = choose|k: int| 0 <= k <= s.len() && #[trigger] split_match(p, q, s, k);
                        lemma_many_match(pp, s.take(k));
                        let j = choose|j: int| 0 <= j <= s.take(k).len() && #[trigger] name_match(pp, s.take(k).skip(j));
                        let u = s.skip(j);
                        lemma_concat(pp, q, u);
                        let k2 = k - j;
                        assert(s.take(k).skip(j) =~= u.take(k2));
                        assert(s.skip(k) =~= u.skip(k2));
                        assert(split_match(pp, q, u, k2));
                        assert(name_match(pp + q, s.skip(j)));
                    }
                }
            },
        }
    }
}

proof fn lemma_same_language(m: Seq<NamePart>, q1: Seq<NamePart>, q2: Seq<NamePart>, s: Seq<char>)
    requires
        forall|u: Seq<char>| #[trigger] name_match(q1, u) == name_match(q2, u),
    ensures
        name_match(m + q1, s) == name_match(m + q2, s),
{
    lemma_concat(m, q1, s);
    lemma_concat(m, q2, s);
    if splits(m, q1, s) {
        let k = choose|k: int| 0 <= k <= s.len() && #[trigger] split_match(m, q1, s, k);
        assert(name_match(q1, s.skip(k)) == name_match(q2, s.skip(k)));
        assert(split_match(m, q2, s, k));
    }
    if splits(m, q2, s) {
        let k = choose|k: int| 0 <= k <= s.len() && #[trigger] split_match(m, q2, s, k);
        assert(name_match(q1, s.skip(k)) == name_match(q2, s.skip(k)));
        assert(split_match(m, q1, s, k));
    }
}

proof fn lemma_two_lits(a: Seq<char>, b: Seq<char>, u: Seq<char>)
    ensures
        name_match(seq![NamePart::Lit(a + b)], u) == name_match(seq![NamePart::Lit(a), NamePart::Lit(b)], u),
{
    reveal_with_fuel(name_match, 3);
    let one = seq![NamePart::Lit(a + b)];
    let two = seq![NamePart::Lit(a), NamePart::Lit(b)];
    assert(one[0] == NamePart::Lit(a + b));
    assert(two[0] == NamePart::Lit(a) && two[1] == NamePart::Lit(b));
    assert(one.drop_first() =~= Seq::<NamePart>::empty());
    assert(two.drop_first() =~= seq![NamePart::Lit(b)]);
    assert(seq![NamePart::Lit(b)].drop_first() =~= Seq::<NamePart>::empty());
    let n = a.len() as int;
    let nb = b.len() as int;
    assert((a + b).len() == n + nb);
    if name_match(one, u) {
        assert((a + b).is_prefix_of(u));
        assert(name_match(Seq::<NamePart>::empty(), u.skip(n + nb)));
        assert(u.skip(n + nb).len() == 0);
        assert(u =~= a + b);
        assert(u.take(n) =~= a);
        assert(u.skip(n).take(nb) =~= b);
        assert(u.skip(n).skip(nb) =~= u.skip(n + nb));
        assert(name_match(two, u));
    }
    if name_match(two, u) {
        assert(u.skip(n).skip(nb).len() == 0);
        assert(u.take(n) =~= a);
        assert(u.skip(n).take(nb) =~= b);
        assert(u =~= a + b);
        assert(u.take(n + nb) =~= a + b);
        assert(name_match(one, u));
    }
}

proof fn lemma_two_stars(u: Seq<char>)
    ensures
        name_match(seq![NamePart::Many], u) == name_match(seq![NamePart::Many, NamePart::Many], u),
{
    let one = seq![NamePart::Many];
    let two = seq![NamePart::Many, NamePart::Many];
    assert(one.drop_first() =~= Seq::<NamePart>::empty());
    assert(two.drop_first() =~= one);
    lemma_many_match(one, u);
    assert(u.skip(0) =~= u);
    assert(name_match(one, u.skip(0)));
}

/// Joining adjacent literals into one and adjacent `*` into one does not
/// change which names a name pattern matches.
pub proof fn lemma_merge_names_keeps_matches(t: Seq<NamePart>, s: Seq<char>)
    ensures
        name_match(merge_names(t), s) == name_match(t, s),
    decreases t.len(),
{
    if t.len() > 0 {
        let init = t.drop_last();
        let m = merge_names(init);
        let x = t.last();
        let sx = seq![x];
        assert(t =~= init + sx);
        if m.len() > 0 && m.last() is Lit && x is Lit {
            let a = m.last()->Lit_0;
            let b = x->Lit_0;
            assert(merge_names(t) =~= m.drop_last() + seq![NamePart::Lit(a + b)]);
            assert(m + sx =~= m.drop_last() + seq![NamePart::Lit(a), NamePart::Lit(b)]);
            assert forall|u: Seq<char>|
                #[trigger] name_match(seq![NamePart::Lit(a + b)], u) == name_match(
                    seq![NamePart::Lit(a), NamePart::Lit(b)],
                    u,
                ) by {
                lemma_two_lits(a, b, u);
            }
            lemma_same_language(m.drop_last(), seq![NamePart::Lit(a + b)], seq![NamePart::Lit(a), NamePart::Lit(b)], s);
        } else if m.len() > 0 && m.last() is Many && x is Many {
            assert(merge_names(t) == m);
            assert(m =~= m.drop_last() + seq![NamePart::Many]);
            assert(m + sx =~= m.drop_last() + seq![NamePart::Many, NamePart::Many]);
            assert forall|u: Seq<char>|
                #[trigger] name_match(seq![NamePart::Many], u) == name_match(
                    seq![NamePart::Many, NamePart::Many],
                    u,
                ) by {
                lemma_two_stars(u);
            }
            lemma_same_language(m.drop_last(), seq![NamePart::Many], seq![NamePart::Many, NamePart::Many], s);
        } else {
            assert(merge_names(t) =~= m + sx);
        }
        lemma_concat(m, sx, s);
        lemma_concat(init, sx, s);
        if splits(m, sx, s) {
            let k = choose|k: int| 0 <= k <= s.len() && #[trigger] split_match(m, sx, s, k);
            lemma_merge_names_keeps_matches(init, s.take(k));
            assert(split_match(init, sx, s, k));
        }
        if splits(init, sx, s) {
            let k = choose|k: int| 0 <= k <= s.len() && #[trigger] split_match(init, sx, s, k);
            lemma_merge_names_keeps_matches(init, s.take(k));
            assert(split_match(m, sx, s, k));
        }
    }
}

proof fn lemma_path_congruence(m: Seq<PathPart>, q1: Seq<PathPart>, q2: Seq<PathPart>, s: Seq<Seq<char>>)
    requires
        forall|u: Seq<Seq<char>>| #[trigger] path_match(q1, u) == path_match(q2, u),
    ensures
        path_match(m + q1, s) == path_match(m + q2, s),
        any_match(m + q1, s) == any_match(m + q2, s),
    decreases m.len(), s.len(),
{
    if m.len() == 0 {
        assert(m + q1 =~= q1);
        assert(m + q2 =~= q2);
        if s.len() > 0 {
            lemma_path_congruence(m, q1, q2, s.drop_first());
        }
    } else {
        let mm = m.drop_first();
        assert((m + q1).drop_first() =~= mm + q1);
        assert((m + q2).drop_first() =~= mm + q2);
        assert((m + q1)[0] == m[0] && (m + q2)[0] == m[0]);
        match m[0] {
            PathPart::Name(np) => {
                if s.len() > 0 {
                    lemma_path_congruence(mm, q1, q2, s.drop_first());
                }
            },
            PathPart::Any => {
                lemma_path_congruence(mm, q1, q2, s);
            },
        }
        if s.len() > 0 {
            lemma_path_congruence(m, q1, q2, s.drop_first());
        }
    }
}

proof fn lemma_any_twice(r: Seq<PathPart>, s: Seq<Seq<char>>)
    ensures
        any_match(seq![PathPart::Any] + r, s) == any_match(r, s),
    decreases s.len(),
{
    let ar = seq![PathPart::Any] + r;
    assert(ar[0] == PathPart::Any);
    assert(ar.drop_first() =~= r);
    assert(path_match(ar, s) == any_match(r, s));
    if s.len() > 0 {
        lemma_any_twice(r, s.drop_first());
        lemma_any_from(r, s);
        assert(any_match(ar, s) == (path_match(ar, s) || any_match(ar, s.drop_first())));
    }
}

proof fn lemma_any_from(r: Seq<PathPart>, s: Seq<Seq<char>>)
    requires
        s.len() > 0,
    ensures
        any_match(r, s.drop_first()) ==> any_match(r, s),
{
}

proof fn lemma_path_step_any(m0: Seq<PathPart>, r: Seq<PathPart>, s: Seq<Seq<char>>)
    ensures
        path_match(m0 + seq![PathPart::Any] + r, s) == path_match(m0 + seq![PathPart::Any, PathPart::Any] + r, s),
{
    let q1 = seq![PathPart::Any] + r;
    let q2 = seq![PathPart::Any, PathPart::Any] + r;
    assert forall|u: Seq<Seq<char>>| #[trigger] path_match(q1, u) == path_match(q2, u) by {
        assert(q1[0] == PathPart::Any && q1.drop_first() =~= r);
        assert(q2[0] == PathPart::Any && q2.drop_first() =~= seq![PathPart::Any] + r);
        lemma_any_twice(r, u);
    }
    lemma_path_congruence(m0, q1, q2, s);
    assert(m0 + seq![PathPart::Any] + r =~= m0 + q1);
    assert(m0 + seq![PathPart::Any, PathPart::Any] + r =~= m0 + q2);
}

/// Joining adjacent `**` into one does not change which paths a path
/// pattern matches, whatever follows it.
pub proof fn lemma_merge_paths_keeps_matches(t: Seq<PathPart>, r: Seq<PathPart>, s: Seq<Seq<char>>)
    ensures
        path_match(merge_paths(t) + r, s) == path_match(t + r, s),
    decreases t.len(),
{
    if t.len() == 0 {
        assert(merge_paths(t) =~= t);
    } else {
        let init = t.drop_last();
        let m = merge_paths(init);
        let x = t.last();
        assert(t + r =~= init + (seq![x] + r));
        lemma_merge_paths_keeps_matches(init, seq![x] + r, s);
        if m.len() > 0 && m.last() is Any && x is Any {
            assert(merge_paths(t) == m);
            let m0 = m.drop_last();
            assert(m =~= m0 + seq![PathPart::Any]);
            assert(m + r =~= m0 + seq![PathPart::Any] + r);
            assert(m + (seq![x] + r) =~= m0 + seq![PathPart::Any, PathPart::Any] + r);
            lemma_path_step_any(m0, r, s);
        } else {
            assert(merge_paths(t) =~= m.push(x));
            assert(m.push(x) + r =~= m + (seq![x] + r));
        }
    }
}

} // verus!
