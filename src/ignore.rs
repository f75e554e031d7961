//! Entry paths relative to a bank root, and the stack of per-directory
//! exclusion rules.

use vstd::prelude::*;

use crate::pattern::{Match, Pattern, Patterns, PatternView, patterns_result, patterns_view};
use crate::text::{chars_of, has_char, string_of};

verus! {

/// An entry path as a mathematical value.
pub struct EntryPathView {
    pub parts: Seq<Seq<char>>,
    pub is_dir: bool,
}

/// The values of a list of strings.
pub open spec fn strings_view(v: Seq<String>) -> Seq<Seq<char>> {
    v.map_values(|s: String| s@)
}

/// The values of a list of character vectors.
pub open spec fn chars_view(v: Seq<Vec<char>>) -> Seq<Seq<char>> {
    v.map_values(|s: Vec<char>| s@)
}

/// A path relative to a bank root, as its components, with whether it names
/// a directory.
#[derive(Debug, Clone, PartialEq, Eq, PartialOrd, Ord, Hash)]
pub struct EntryPath {
    parts: Vec<String>,
    is_dir: bool,
}

impl View for EntryPath {
    type V = EntryPathView;

    closed spec fn view(&self) -> EntryPathView {
        EntryPathView { parts: strings_view(self.parts@), is_dir: self.is_dir }
    }
}

impl EntryPath {
    /// The components, root first.
    pub fn parts(&self) -> (r: &[String])
        ensures
            strings_view(r@) == self@.parts,
    {
        self.parts.as_slice()
    }

    /// Whether the path names a directory.
    pub fn is_dir(&self) -> (r: bool)
        ensures
            r == self@.is_dir,
    {
        self.is_dir
    }

    pub(crate) fn chars_parts(&self) -> (r: Vec<Vec<char>>)
        ensures
            chars_view(r@) == self@.parts,
    {
        let mut r: Vec<Vec<char>> = Vec::new();
        let mut i: usize = 0;
        while i < self.parts.len()
            invariant
                i <= self.parts@.len(),
                chars_view(r@) == strings_view(self.parts@).take(i as int),
            decreases self.parts@.len() - i,
        {
            let c = chars_of(self.parts[i].as_str());
            let ghost before = r@;
            r.push(c);
            assert(r@ == before.push(c));
            assert(chars_view(r@) =~= chars_view(before).push(self.parts@[i as int]@));
            i = i + 1;
            assert(chars_view(r@) =~= strings_view(self.parts@).take(i as int));
        }
        assert(strings_view(self.parts@).take(i as int) =~= strings_view(self.parts@));
        r
    }
}

/// A path separator: `/`, and `\\` too in Windows-style texts.
pub open spec fn is_sep(win: bool, c: char) -> bool {
    c == '/' || (win && c == '\\')
}

/// Whether a path text is written the Windows way: backslashes and no
/// slash. On other texts a backslash is an ordinary character of a name.
pub open spec fn win_text(s: Seq<char>) -> bool {
    !s.contains('/') && s.contains('\\')
}

/// The non-empty runs between separators from a point on, `cur` being the
/// run read so far.
pub open spec fn comp_rec(win: bool, s: Seq<char>, cur: Seq<char>) -> Seq<Seq<char>>
    decreases s.len(),
{
    if s.len() == 0 {
        if cur.len() == 0 {
            Seq::empty()
        } else {
            seq![cur]
        }
    } else if is_sep(win, s[0]) {
        (if cur.len() == 0 {
            Seq::empty()
        } else {
            seq![cur]
        }) + comp_rec(win, s.skip(1), Seq::empty())
    } else {
        comp_rec(win, s.skip(1), cur.push(s[0]))
    }
}

/// The components of a path text: an empty first component for a leading
/// separator (the root), then the non-empty runs between separators.
pub open spec fn path_components(win: bool, s: Seq<char>) -> Seq<Seq<char>> {
    if s.len() > 0 && is_sep(win, s[0]) {
        seq![Seq::empty()] + comp_rec(win, s, Seq::empty())
    } else {
        comp_rec(win, s, Seq::empty())
    }
}

/// The text without its trailing separators.
pub open spec fn trim_seps(win: bool, s: Seq<char>) -> Seq<char>
    decreases s.len(),
{
    if s.len() > 0 && is_sep(win, s.last()) {
        trim_seps(win, s.drop_last())
    } else {
        s
    }
}

/// The position of the last separator, or -1.
pub open spec fn last_sep(win: bool, s: Seq<char>) -> int
    decreases s.len(),
{
    if s.len() == 0 {
        -1
    } else if is_sep(win, s.last()) {
        s.len() - 1
    } else {
        last_sep(win, s.drop_last())
    }
}

/// The text of the directory that holds a path: empty when there is none.
pub open spec fn parent_of(win: bool, s: Seq<char>) -> Seq<char> {
    let t = trim_seps(win, s);
    let p = last_sep(win, t);
    if p < 0 {
        Seq::empty()
    } else if p == 0 {
        t.take(1)
    } else {
        trim_seps(win, t.take(p))
    }
}

/// Why a path could not be taken relative to a root.
pub enum PathFault {
    /// The path leaves the root: the two texts named.
    NotChild(Seq<char>, Seq<char>),
    /// A component that is not a name.
    Unexpected(Seq<char>),
}

/// The components that remain after walking `rel` from `acc`, `..` going one
/// level up.
pub open spec fn walk(rel: Seq<Seq<char>>, acc: Seq<Seq<char>>) -> Option<Seq<Seq<char>>>
    decreases rel.len(),
{
    if rel.len() == 0 {
        Some(acc)
    } else if rel[0] == seq!['.', '.'] {
        if acc.len() == 0 {
            None
        } else {
            walk(rel.drop_first(), acc.drop_last())
        }
    } else if rel[0].len() == 0 || rel[0] == seq!['.'] {
        None
    } else {
        walk(rel.drop_first(), acc.push(rel[0]))
    }
}

/// The first fault that walking `rel` from `acc` meets.
pub open spec fn walk_fault(win: bool, rel: Seq<Seq<char>>, acc: Seq<Seq<char>>, root: Seq<char>) -> PathFault
    decreases rel.len(),
{
    if rel.len() == 0 {
        PathFault::Unexpected(Seq::empty())
    } else if rel[0] == seq!['.', '.'] {
        if acc.len() == 0 {
            PathFault::NotChild(parent_of(win, root), root)
        } else {
            walk_fault(win, rel.drop_first(), acc.drop_last(), root)
        }
    } else if rel[0].len() == 0 || rel[0] == seq!['.'] {
        PathFault::Unexpected(rel[0])
    } else {
        walk_fault(win, rel.drop_first(), acc.push(rel[0]), root)
    }
}

/// Whether a root and an entry are both written the Windows way: no slash,
/// and a backslash in one of them.
pub open spec fn win_pair(root: Seq<char>, entry: Seq<char>) -> bool {
    !root.contains('/') && !entry.contains('/') && (root.contains('\\') || entry.contains('\\'))
}

/// The components of `entry` relative to `root`, or why there are none.
pub open spec fn relative_parts(root: Seq<char>, entry: Seq<char>) -> Result<Seq<Seq<char>>, PathFault> {
    let win = win_pair(root, entry);
    let rc = path_components(win, root);
    let ec = path_components(win, entry);
    if !rc.is_prefix_of(ec) {
        Err(PathFault::NotChild(entry, root))
    } else {
        let rel = ec.skip(rc.len() as int);
        match walk(rel, Seq::empty()) {
            Some(parts) => Ok(parts),
            None => Err(walk_fault(win, rel, Seq::empty(), root)),
        }
    }
}

/// A failure to place a path under a root.
#[derive(Debug, PartialEq)]
pub enum IgnoreError {
    /// The entry (first) is not inside the root (second).
    NotChild(String, String),
    /// The path holds a component that is not a name.
    UnexpectedComponent(String),
}

/// The value of an error.
pub open spec fn error_view(e: IgnoreError) -> PathFault {
    match e {
        IgnoreError::NotChild(a, b) => PathFault::NotChild(a@, b@),
        IgnoreError::UnexpectedComponent(c) => PathFault::Unexpected(c@),
    }
}

fn components(win: bool, s: &Vec<char>) -> (r: Vec<Vec<char>>)
    ensures
        chars_view(r@) == path_components(win, s@),
{
    let n = s.len();
    let mut r: Vec<Vec<char>> = Vec::new();
    if n > 0 && (s[0] == '/' || (win && s[0] == '\\')) {
        r.push(Vec::new());
    }
    let ghost head = chars_view(r@);
    assert(path_components(win, s@) == head + comp_rec(win, s@, Seq::empty()));
    let mut cur: Vec<char> = Vec::new();
    let mut i: usize = 0;
    assert(s@.skip(0) =~= s@);
    while i < n
        invariant
            n == s@.len(),
            i <= n,
            path_components(win, s@) == chars_view(r@) + comp_rec(win, s@.skip(i as int), cur@),
        decreases n - i,
    {
        let ghost rest = s@.skip(i as int);
        let ghost before = chars_view(r@);
        assert(rest.skip(1) =~= s@.skip(i + 1));
        if s[i] == '/' || (win && s[i] == '\\') {
            if cur.len() > 0 {
                let ghost cv = cur@;
                r.push(cur);
                assert(chars_view(r@) =~= before + seq![cv]);
                assert(before + (seq![cv] + comp_rec(win, s@.skip(i + 1), Seq::empty())) =~= chars_view(r@)
                    + comp_rec(win, s@.skip(i + 1), Seq::empty()));
            } else {
                assert(Seq::<Seq<char>>::empty() + comp_rec(win, s@.skip(i + 1), Seq::empty()) =~= comp_rec(
                    win,
                    s@.skip(i + 1),
                    Seq::empty(),
                ));
            }
            cur = Vec::new();
        } else {
            cur.push(s[i]);
        }
        i = i + 1;
    }
    assert(s@.skip(n as int) =~= Seq::<char>::empty());
    if cur.len() > 0 {
        let ghost before = chars_view(r@);
        let ghost cv = cur@;
        r.push(cur);
        assert(chars_view(r@) =~= before + seq![cv]);
    } else {
        assert(chars_view(r@) + Seq::<Seq<char>>::empty() =~= chars_view(r@));
    }
    r
}

fn parent_text(win: bool, s: &Vec<char>) -> (r: String)
    ensures
        r@ == parent_of(win, s@),
{
    let mut t: usize = s.len();
    assert(s@.take(t as int) =~= s@);
    while t > 0 && (s[t - 1] == '/' || (win && s[t - 1] == '\\'))
        invariant
            t <= s@.len(),
            trim_seps(win, s@) == trim_seps(win, s@.take(t as int)),
        decreases t,
    {
        assert(s@.take(t as int).drop_last() =~= s@.take(t - 1));
        t = t - 1;
    }
    let ghost tv = s@.take(t as int);
    assert(trim_seps(win, s@) == tv);
    let mut p: usize = t;
    assert(tv.take(p as int) =~= tv);
    while p > 0 && !(s[p - 1] == '/' || (win && s[p - 1] == '\\'))
        invariant
            p <= t <= s@.len(),
            tv == s@.take(t as int),
            last_sep(win, tv) == last_sep(win, tv.take(p as int)),
        decreases p,
    {
        assert(tv.take(p as int).drop_last() =~= tv.take(p - 1));
        p = p - 1;
    }
    if p == 0 {
        assert(tv.take(0) =~= Seq::<char>::empty());
        return String::new();
    }
    assert(last_sep(win, tv) == p - 1);
    if p == 1 {
        let r = string_of(s, 0, 1);
        assert(r@ =~= tv.take(1));
        return r;
    }
    let mut q: usize = p - 1;
    assert(tv.take(p - 1) =~= s@.take(q as int));
    while q > 0 && (s[q - 1] == '/' || (win && s[q - 1] == '\\'))
        invariant
            q <= p - 1,
            p <= t <= s@.len(),
            trim_seps(win, tv.take(p - 1)) == trim_seps(win, s@.take(q as int)),
        decreases q,
    {
        assert(s@.take(q as int).drop_last() =~= s@.take(q - 1));
        q = q - 1;
    }
    let r = string_of(s, 0, q);
    assert(r@ =~= s@.take(q as int));
    r
}

impl EntryPath {
    /// The path `entry` relative to the root `root`: its components after
    /// those of `root`, with `..` going one level up. Both `/` and `\\`
    /// separate components.
    ///
    /// Fails with `NotChild(entry, root)` when `entry` is not under `root`,
    /// with `NotChild(parent of root, root)` when `..` leaves the root, and
    /// with `UnexpectedComponent` on an empty or `.` component.
    pub fn from_path(root: &str, entry: &str, is_dir: bool) -> (r: Result<EntryPath, IgnoreError>)
        ensures
            match relative_parts(root@, entry@) {
                Ok(parts) => r matches Ok(ep) && ep@ == (EntryPathView { parts, is_dir }),
                Err(f) => r matches Err(e) && error_view(e) == f,
            },
    {
        let rch = chars_of(root);
        let ech = chars_of(entry);
        let win = !has_char(&rch, '/') && !has_char(&ech, '/') && (has_char(&rch, '\\') || has_char(
            &ech,
            '\\',
        ));
        let rc = components(win, &rch);
        let ec = components(win, &ech);
        let ghost rcv = chars_view(rc@);
        let ghost ecv = chars_view(ec@);
        assert(win == win_pair(root@, entry@));
        assert(rcv == path_components(win, root@) && ecv == path_components(win, entry@));
        if rc.len() > ec.len() {
            return Err(IgnoreError::NotChild(entry.to_owned(), root.to_owned()));
        }
        let mut i: usize = 0;
        while i < rc.len()
            invariant
                i <= rc@.len() <= ec@.len(),
                rcv == chars_view(rc@),
                ecv == chars_view(ec@),
                win == win_pair(root@, entry@),
                rcv == path_components(win, root@),
                ecv == path_components(win, entry@),
                forall|j: int| 0 <= j < i ==> rcv[j] == ecv[j],
            decreases rc@.len() - i,
        {
            let a = &rc[i];
            let b = &ec[i];
            let same = a.len() == b.len() && crate::text::occurs_at(a, b, 0);
            if same {
                assert(b@.skip(0) =~= b@);
                assert(a@ =~= b@);
            }
            if !same {
                assert(rcv[i as int] != ecv[i as int]) by {
                    if a.len() == b.len() {
                        assert(b@.skip(0) =~= b@);
                    }
                }
                assert(!rcv.is_prefix_of(ecv)) by {
                    if rcv.is_prefix_of(ecv) {
                        assert(ecv.subrange(0, rcv.len() as int)[i as int] == ecv[i as int]);
                    }
                }
                return Err(IgnoreError::NotChild(entry.to_owned(), root.to_owned()));
            }
            i = i + 1;
        }
        assert(rcv =~= ecv.take(rcv.len() as int));
        assert(rcv.is_prefix_of(ecv));
        let ghost rel = ecv.skip(rcv.len() as int);
        let mut parts: Vec<String> = Vec::new();
        let mut k: usize = rc.len();
        assert(rel.skip(0) =~= rel);
        assert(strings_view(parts@) =~= Seq::<Seq<char>>::empty());
        while k < ec.len()
            invariant
                rc@.len() <= k <= ec@.len(),
                ecv == chars_view(ec@),
                rcv == chars_view(rc@),
                win == win_pair(root@, entry@),
                rcv == path_components(win, root@),
                ecv == path_components(win, entry@),
                rcv.is_prefix_of(ecv),
                rch@ == root@,
                rel == ecv.skip(rc@.len() as int),
                walk(rel, Seq::empty()) == walk(ecv.skip(k as int), strings_view(parts@)),
                walk_fault(win, rel, Seq::empty(), root@) == walk_fault(win, ecv.skip(k as int), strings_view(parts@), root@),
            decreases ec@.len() - k,
        {
            let ghost rest = ecv.skip(k as int);
            let ghost acc = strings_view(parts@);
            assert(rest.drop_first() =~= ecv.skip(k + 1));
            assert(rest[0] == ec@[k as int]@);
            let c = &ec[k];
            let dotdot = vec!['.', '.'];
            let dot = vec!['.'];
            assert(dotdot@ =~= seq!['.', '.']);
            assert(dot@ =~= seq!['.']);
            let is_dotdot = c.len() == 2 && crate::text::occurs_at(&dotdot, c, 0);
            let is_dot = c.len() == 1 && crate::text::occurs_at(&dot, c, 0);
            assert(c@.skip(0) =~= c@);
            if is_dotdot {
                assert(c@ =~= seq!['.', '.']);
            }
            if !is_dotdot && c.len() == 2 {
                assert(c@ != seq!['.', '.']) by {
                    if c@ == seq!['.', '.'] {
                        assert(dotdot@.is_prefix_of(c@.skip(0)));
                    }
                }
            }
            if is_dot {
                assert(c@ =~= seq!['.']);
            }
            if !is_dot && c.len() == 1 {
                assert(c@ != seq!['.']) by {
                    if c@ == seq!['.'] {
                        assert(dot@.is_prefix_of(c@.skip(0)));
                    }
                }
            }
            if is_dotdot {
                if parts.len() == 0 {
                    let p = parent_text(win, &rch);
                    return Err(IgnoreError::NotChild(p, root.to_owned()));
                }
                parts.pop();
                assert(strings_view(parts@) =~= acc.drop_last());
            } else if c.len() == 0 || is_dot {
                let t = string_of(c, 0, c.len());
                assert(t@ =~= c@);
                return Err(IgnoreError::UnexpectedComponent(t));
            } else {
                let t = string_of(c, 0, c.len());
                assert(t@ =~= c@);
                parts.push(t);
                assert(strings_view(parts@) =~= acc.push(c@));
            }
            k = k + 1;
        }
        assert(ecv.skip(k as int) =~= Seq::<Seq<char>>::empty());
        Ok(EntryPath { parts, is_dir })
    }
}

/// One frame of an ignore stack as a value: the directory that its
/// patterns are relative to, and the patterns.
pub struct FrameView {
    pub root: Seq<char>,
    pub patterns: Seq<PatternView>,
}

/// `name` under the directory `dir`.
pub open spec fn join_path(dir: Seq<char>, name: Seq<char>) -> Seq<char> {
    if dir.len() == 0 || is_sep(win_text(dir), dir.last()) {
        dir + name
    } else if win_text(dir) {
        dir + seq!['\\'] + name
    } else {
        dir + seq!['/'] + name
    }
}

/// `name` under the directory `dir`.
pub(crate) fn join(dir: &str, name: &str) -> (r: String)
    ensures
        r@ == join_path(dir@, name@),
{
    let c = chars_of(dir);
    let win = !has_char(&c, '/') && has_char(&c, '\\');
    let n = c.len();
    let mut r = dir.to_owned();
    if !(n == 0 || c[n - 1] == '/' || (win && c[n - 1] == '\\')) {
        if win {
            r.push('\\');
        } else {
            r.push('/');
        }
    }
    r.append(name);
    r
}

/// Whether a stack of frames excludes a path, the innermost frame (last)
/// asked first: `Allowed` and `Ignored` decide, `Parent` defers outwards, and
/// a path on which no frame decides is kept.
pub open spec fn stack_ignored(frames: Seq<FrameView>, path: Seq<char>, is_dir: bool) -> Result<bool, PathFault>
    decreases frames.len(),
{
    if frames.len() == 0 {
        Ok(false)
    } else {
        let f = frames.last();
        match relative_parts(f.root, path) {
            Err(e) => Err(e),
            Ok(parts) => match patterns_result(f.patterns, EntryPathView { parts, is_dir }) {
                Match::Allowed => Ok(false),
                Match::Ignored => Ok(true),
                Match::Parent => stack_ignored(frames.drop_last(), path, is_dir),
            },
        }
    }
}

/// The exclusion rules in force in a directory of the tree being scanned:
/// the bank-wide rules at the bottom, then one frame per directory.
pub struct IgnoreStack {
    roots: Vec<String>,
    frames: Vec<Patterns>,
}

impl View for IgnoreStack {
    type V = Seq<FrameView>;

    closed spec fn view(&self) -> Seq<FrameView> {
        Seq::new(
            self.frames@.len(),
            |i: int| FrameView { root: self.roots@[i]@, patterns: self.frames@[i]@ },
        )
    }
}

impl IgnoreStack {
    #[verifier::type_invariant]
    spec fn wf(&self) -> bool {
        self.roots@.len() == self.frames@.len() && self.frames@.len() > 0
    }

    /// The bottom frame: the bank-wide patterns, relative to the bank root.
    pub fn new(root_path: &str, bank_patterns: Patterns) -> (r: IgnoreStack)
        ensures
            r@ == seq![FrameView { root: root_path@, patterns: bank_patterns@ }],
    {
        let ghost pv = bank_patterns@;
        let r = IgnoreStack { roots: vec![root_path.to_owned()], frames: vec![bank_patterns] };
        assert(r@ =~= seq![FrameView { root: root_path@, patterns: pv }]);
        r
    }

    /// The stack for the directory `dir_name` inside this one, with the
    /// patterns read in it. The first frame above the bottom stands for the
    /// bank root itself, so it keeps the bottom's directory.
    pub fn child(&self, dir_name: &str, patterns: Patterns) -> (r: IgnoreStack)
        ensures
            r@ == self@.push(
                FrameView {
                    root: if self@.len() > 1 {
                        join_path(self@.last().root, dir_name@)
                    } else {
                        self@.last().root
                    },
                    patterns: patterns@,
                },
            ),
    {
        proof {
            use_type_invariant(self);
        }
        let ghost pv = patterns@;
        let n = self.frames.len();
        let mut roots: Vec<String> = Vec::new();
        let mut frames: Vec<Patterns> = Vec::new();
        let mut i: usize = 0;
        while i < n
            invariant
                n == self.frames@.len(),
                n == self.roots@.len(),
                i <= n,
                roots@.len() == i,
                frames@.len() == i,
                forall|j: int| 0 <= j < i ==> roots@[j]@ == self.roots@[j]@ && frames@[j]@ == self.frames@[j]@,
            decreases n - i,
        {
            roots.push(self.roots[i].clone());
            frames.push(self.frames[i].clone());
            i = i + 1;
        }
        let last = self.roots[n - 1].as_str();
        let root = if n > 1 {
            join(last, dir_name)
        } else {
            last.to_owned()
        };
        assert(root@ == (if self@.len() > 1 {
            join_path(self@.last().root, dir_name@)
        } else {
            self@.last().root
        }));
        roots.push(root);
        frames.push(patterns);
        let r = IgnoreStack { roots, frames };
        assert(r@ =~= self@.push(
            FrameView {
                root: if self@.len() > 1 {
                    join_path(self@.last().root, dir_name@)
                } else {
                    self@.last().root
                },
                patterns: pv,
            },
        ));
        r
    }

    /// Whether `path` is excluded: the innermost frame is asked first, and
    /// a path on which no frame decides is kept.
    pub fn ignored(&self, path: &str, is_dir: bool) -> (r: Result<bool, IgnoreError>)
        ensures
            match stack_ignored(self@, path@, is_dir) {
                Ok(b) => r == Ok::<bool, IgnoreError>(b),
                Err(f) => r matches Err(e) && error_view(e) == f,
            },
    {
        proof {
            use_type_invariant(self);
        }
        let ghost all = self@;
        let mut i: usize = self.frames.len();
        assert(all.take(i as int) =~= all);
        while i > 0
            invariant
                i <= self.frames@.len(),
                self.frames@.len() == self.roots@.len(),
                all == self@,
                i <= all.len(),
                stack_ignored(all, path@, is_dir) == stack_ignored(all.take(i as int), path@, is_dir),
            decreases i,
        {
            assert(all.take(i as int).drop_last() =~= all.take(i - 1));
            assert(all.take(i as int).last() == all[i - 1]);
            let ep = EntryPath::from_path(self.roots[i - 1].as_str(), path, is_dir);
            match ep {
                Err(e) => return Err(e),
                Ok(ep) => match self.frames[i - 1].matches(&ep) {
                    Match::Allowed => return Ok(false),
                    Match::Ignored => return Ok(true),
                    Match::Parent => {},
                },
            }
            i = i - 1;
        }
        assert(all.take(0) =~= Seq::<FrameView>::empty());
        Ok(false)
    }
}

} // verus!
