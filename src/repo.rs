//! The repository layout, bank histories and object verification.

use vstd::prelude::*;

use crate::entry::chars_cmp;
use crate::hash::{HashID, hash_id_of};
use crate::ignore::{join, join_path};
use crate::text::{chars_of, occurs_at};
use crate::timestamp::Timestamp;

verus! {

broadcast use {vstd::seq_lib::to_multiset_insert, vstd::seq_lib::to_multiset_build};

/// The name of the file that holds a bank's configuration.
pub const BANK_CONFIG_FILE: &'static str = "config.json";

/// The ending of the name of a history file.
pub const HISTORY_SUFFIX: &'static str = ".history.json";

/// The decimal digit for a value below 10.
pub open spec fn digit_char(d: int) -> char {
    seq!['0', '1', '2', '3', '4', '5', '6', '7', '8', '9'][d]
}

/// The decimal text of a number, without leading zeros.
pub open spec fn decimal(n: nat) -> Seq<char>
    decreases n,
{
    if n < 10 {
        seq![digit_char(n as int)]
    } else {
        decimal(n / 10).push(digit_char((n % 10) as int))
    }
}

fn push_decimal(s: &mut String, n: u64)
    ensures
        final(s)@ == old(s)@ + decimal(n as nat),
    decreases n,
{
    let digits: [char; 10] = ['0', '1', '2', '3', '4', '5', '6', '7', '8', '9'];
    assert(digits@ =~= seq!['0', '1', '2', '3', '4', '5', '6', '7', '8', '9']);
    if n >= 10 {
        push_decimal(s, n / 10);
    }
    let ghost mid = s@;
    s.push(digits[(n % 10) as usize]);
    if n >= 10 {
        assert(s@ =~= old(s)@ + decimal(n as nat));
    } else {
        assert(s@ =~= old(s)@ + decimal(n as nat));
    }
}

/// A history record as a mathematical value.
pub struct HistoryView {
    pub timestamp: u64,
    pub id: Seq<char>,
}

/// Histories ordered by timestamp, then by id.
pub open spec fn history_cmp(a: HistoryView, b: HistoryView) -> int {
    if a.timestamp < b.timestamp {
        -1
    } else if a.timestamp > b.timestamp {
        1
    } else {
        chars_cmp(a.id, b.id)
    }
}

/// Whether each history comes no later than the next.
pub open spec fn histories_sorted(s: Seq<HistoryView>) -> bool {
    forall|i: int| 0 <= i < s.len() - 1 ==> history_cmp(#[trigger] s[i], s[i + 1]) <= 0
}

/// One snapshot of a bank: when its scan started and the id of its root.
#[derive(Debug, PartialEq, Eq, PartialOrd, Ord)]
pub struct History {
    timestamp: Timestamp,
    id: HashID,
}

impl Clone for History {
    fn clone(&self) -> (r: History)
        ensures
            r == *self,
    {
        History { timestamp: self.timestamp, id: self.id.clone() }
    }
}

impl View for History {
    type V = HistoryView;

    closed spec fn view(&self) -> HistoryView {
        HistoryView { timestamp: self.timestamp@, id: self.id@ }
    }
}

/// The values of a list of histories.
pub open spec fn histories_view(v: Seq<History>) -> Seq<HistoryView> {
    v.map_values(|h: History| h@)
}

impl History {
    /// The record of a scan that started at `timestamp` and produced `id`.
    pub fn new(timestamp: Timestamp, id: HashID) -> (r: History)
        ensures
            r@ == (HistoryView { timestamp: timestamp@, id: id@ }),
    {
        History { timestamp, id }
    }

    /// The id of the snapshot's root directory entry.
    pub fn id(&self) -> (r: &HashID)
        ensures
            r@ == self@.id,
    {
        &self.id
    }

    /// When the scan started.
    pub fn timestamp(&self) -> (r: Timestamp)
        ensures
            r@ == self@.timestamp,
    {
        self.timestamp
    }

    /// The name of the history file: the epoch seconds and `.history.json`.
    pub fn file_name(&self) -> (r: String)
        ensures
            r@ == decimal(self@.timestamp as nat) + HISTORY_SUFFIX@,
    {
        let mut s = String::new();
        push_decimal(&mut s, self.timestamp.unix_epoch());
        s.append(HISTORY_SUFFIX);
        s
    }
}

fn cmp_history(a: &History, b: &History) -> (r: i8)
    ensures
        r as int == history_cmp(a@, b@),
{
    let ta = a.timestamp.unix_epoch();
    let tb = b.timestamp.unix_epoch();
    if ta < tb {
        -1
    } else if ta > tb {
        1
    } else {
        crate::entry::cmp_text(a.id.as_str(), b.id.as_str())
    }
}

/// Histories in ascending order: by timestamp, then by id.
pub fn sort_histories(v: Vec<History>) -> (r: Vec<History>)
    ensures
        histories_view(r@).to_multiset() == histories_view(v@).to_multiset(),
        histories_sorted(histories_view(r@)),
{
    let ghost input = histories_view(v@);
    let mut out: Vec<History> = Vec::new();
    let mut i: usize = 0;
    assert(input.take(0) =~= Seq::<HistoryView>::empty());
    assert(histories_view(out@) =~= Seq::<HistoryView>::empty());
    while i < v.len()
        invariant
            i <= v@.len(),
            input == histories_view(v@),
            histories_view(out@).to_multiset() == input.take(i as int).to_multiset(),
            histories_sorted(histories_view(out@)),
        decreases v@.len() - i,
    {
        let x = v[i].clone();
        let ghost ov = histories_view(out@);
        let mut p: usize = 0;
        while p < out.len() && cmp_history(&x, &out[p]) >= 0
            invariant
                p <= out@.len(),
                ov == histories_view(out@),
                p > 0 ==> history_cmp(x@, ov[p - 1]) >= 0,
            decreases out@.len() - p,
        {
            p = p + 1;
        }
        proof {
            if p > 0 {
                crate::entry::lemma_chars_cmp_antisym(x@.id, ov[p - 1].id);
            }
        }
        out.insert(p, x);
        assert(histories_view(out@) =~= ov.insert(p as int, x@));
        assert(input.take(i + 1) =~= input.take(i as int).push(x@));
        proof {
            let nv = ov.insert(p as int, x@);
            assert forall|k: int| 0 <= k < nv.len() - 1 implies history_cmp(#[trigger] nv[k], nv[k + 1]) <= 0 by {
                if k < p - 1 {
                    assert(nv[k] == ov[k] && nv[k + 1] == ov[k + 1]);
                } else if k == p - 1 {
                    assert(nv[k] == ov[k] && nv[k + 1] == x@);
                } else if k == p {
                    assert(nv[k] == x@ && nv[k + 1] == ov[k]);
                } else {
                    assert(nv[k] == ov[k - 1] && nv[k + 1] == ov[k]);
                }
            }
        }
        i = i + 1;
    }
    assert(input.take(i as int) =~= input);
    out
}

/// Whether a file name is that of a history record.
pub fn is_history_file(name: &str) -> (r: bool)
    ensures
        r == HISTORY_SUFFIX@.is_suffix_of(name@),
{
    let n = chars_of(name);
    let suf = chars_of(HISTORY_SUFFIX);
    if suf.len() > n.len() {
        return false;
    }
    let at = n.len() - suf.len();
    let r = occurs_at(&suf, &n, at);
    assert(n@.skip(at as int) =~= n@.subrange(at as int, n@.len() as int));
    r
}

/// The histories of the list whose id begins with `prefix`, in list order.
pub open spec fn with_prefix(hs: Seq<HistoryView>, prefix: Seq<char>) -> Seq<HistoryView> {
    hs.filter(|h: HistoryView| prefix.is_prefix_of(h.id))
}

fn id_has_prefix(h: &History, p: &Vec<char>) -> (r: bool)
    ensures
        r == p@.is_prefix_of(h@.id),
{
    let c = chars_of(h.id.as_str());
    assert(c@.skip(0) =~= c@);
    occurs_at(p, &c, 0)
}

/// Why no single snapshot matches a revision prefix.
#[derive(Debug, PartialEq)]
pub enum RevisionError {
    /// No history has an id with the prefix.
    NoMatch,
    /// Histories with different ids have the prefix; the first two are given.
    Ambiguous(HashID, HashID),
}

/// The configuration of a bank: the directory that it backs up.
#[derive(Debug, PartialEq)]
pub struct BankConfig {
    pub target_path: String,
}

/// A bank: a named directory under the repository's `banks/`, holding the
/// history of one source directory.
#[derive(Debug)]
pub struct Bank {
    name: String,
    path: String,
    config: BankConfig,
}

/// A bank as a mathematical value.
pub struct BankView {
    pub name: Seq<char>,
    pub path: Seq<char>,
    pub target_path: Seq<char>,
}

impl View for Bank {
    type V = BankView;

    closed spec fn view(&self) -> BankView {
        BankView { name: self.name@, path: self.path@, target_path: self.config.target_path@ }
    }
}

impl Bank {
    /// The source directory that the bank backs up.
    pub fn target_path(&self) -> (r: &str)
        ensures
            r@ == self@.target_path,
    {
        self.config.target_path.as_str()
    }

    /// The bank's name.
    pub fn name(&self) -> (r: &str)
        ensures
            r@ == self@.name,
    {
        self.name.as_str()
    }

    /// The bank's directory.
    pub fn path(&self) -> (r: &str)
        ensures
            r@ == self@.path,
    {
        self.path.as_str()
    }

    /// The directory of history records.
    pub fn history_dir(&self) -> (r: String)
        ensures
            r@ == join_path(self@.path, "history"@),
    {
        join(self.path.as_str(), "history")
    }

    /// The file that records the newest history.
    pub fn last_scan_file(&self) -> (r: String)
        ensures
            r@ == join_path(self@.path, "last_scan.json"@),
    {
        join(self.path.as_str(), "last_scan.json")
    }

    /// The file of bank-wide exclusion patterns.
    pub fn ignore_file(&self) -> (r: String)
        ensures
            r@ == join_path(self@.path, "ignore"@),
    {
        join(self.path.as_str(), "ignore")
    }

    /// The file of the bank's configuration.
    pub fn config_file(&self) -> (r: String)
        ensures
            r@ == join_path(self@.path, BANK_CONFIG_FILE@),
    {
        join(self.path.as_str(), BANK_CONFIG_FILE)
    }

    /// The histories whose id begins with `hash_prefix`, in the order given.
    pub fn find_hash(histories: &Vec<History>, hash_prefix: &str) -> (r: Vec<History>)
        ensures
            histories_view(r@) == with_prefix(histories_view(histories@), hash_prefix@),
    {
        let p = chars_of(hash_prefix);
        let ghost all = histories_view(histories@);
        let mut r: Vec<History> = Vec::new();
        let mut i: usize = 0;
        assert(all.take(0) =~= Seq::<HistoryView>::empty());
        assert(histories_view(r@) =~= Seq::<HistoryView>::empty());
        while i < histories.len()
            invariant
                i <= histories@.len(),
                all == histories_view(histories@),
                p@ == hash_prefix@,
                histories_view(r@) == with_prefix(all.take(i as int), hash_prefix@),
            decreases histories@.len() - i,
        {
            let h = &histories[i];
            let ghost before = histories_view(r@);
            assert(all.take(i + 1).drop_last() =~= all.take(i as int));
            assert(all.take(i + 1).last() == h@);
            reveal(Seq::filter);
            if id_has_prefix(h, &p) {
                r.push(h.clone());
                assert(histories_view(r@) =~= before.push(h@));
            }
            i = i + 1;
        }
        assert(all.take(i as int) =~= all);
        r
    }

    /// The snapshot a revision prefix names in a sorted history list: the
    /// newest of those whose id begins with the prefix, provided they all
    /// share one id.
    pub fn select_revision(histories: &Vec<History>, hash_prefix: &str) -> (r: Result<History, RevisionError>)
        ensures
            with_prefix(histories_view(histories@), hash_prefix@).len() == 0 <==> r == Err::<History, RevisionError>(RevisionError::NoMatch),
            r is Ok <==> (with_prefix(histories_view(histories@), hash_prefix@).len() > 0 && forall|i: int|
                0 <= i < with_prefix(histories_view(histories@), hash_prefix@).len() ==> (#[trigger] with_prefix(histories_view(histories@), hash_prefix@)[i]).id
                    == with_prefix(histories_view(histories@), hash_prefix@).last().id),
            r matches Ok(h) ==> h@ == with_prefix(histories_view(histories@), hash_prefix@).last(),
    {
        let found = Bank::find_hash(histories, hash_prefix);
        let ghost fv = histories_view(found@);
        let n = found.len();
        if n == 0 {
            return Err(RevisionError::NoMatch);
        }
        let last = found[n - 1].clone();
        let lc = chars_of(last.id.as_str());
        let mut i: usize = 0;
        while i < n
            invariant
                n == found@.len(),
                n > 0,
                i <= n,
                fv == histories_view(found@),
                fv == with_prefix(histories_view(histories@), hash_prefix@),
                last@ == fv[n - 1],
                lc@ == last@.id,
                forall|j: int| 0 <= j < i ==> (#[trigger] fv[j]).id == fv[n - 1].id,
            decreases n - i,
        {
            let c = chars_of(found[i].id.as_str());
            let same = c.len() == lc.len() && occurs_at(&c, &lc, 0);
            assert(lc@.skip(0) =~= lc@);
            if same {
                assert(c@ =~= lc@);
            } else {
                assert(fv[i as int].id != fv[n - 1].id) by {
                    if c.len() == lc.len() {
                        assert(c@.is_prefix_of(lc@.skip(0)) == (c@ == lc@));
                    }
                }
                return Err(RevisionError::Ambiguous(found[i].id.clone(), last.id.clone()));
            }
            i = i + 1;
        }
        Ok(last)
    }
}

/// The last `count` histories of a list, all of them when it is shorter.
pub fn tail_histories(histories: &Vec<History>, count: usize) -> (r: Vec<History>)
    ensures
        histories_view(r@) == histories_view(histories@).skip(
            if histories@.len() > count { histories@.len() - count } else { 0 },
        ),
{
    let n = histories.len();
    let start: usize = if n > count { n - count } else { 0 };
    let ghost all = histories_view(histories@);
    let mut r: Vec<History> = Vec::new();
    let mut i: usize = start;
    assert(histories_view(r@) =~= all.subrange(start as int, start as int));
    while i < n
        invariant
            n == histories@.len(),
            start <= i <= n,
            all == histories_view(histories@),
            histories_view(r@) == all.subrange(start as int, i as int),
        decreases n - i,
    {
        let ghost before = histories_view(r@);
        r.push(histories[i].clone());
        assert(histories_view(r@) =~= before.push(all[i as int]));
        i = i + 1;
        assert(all.subrange(start as int, i as int) =~= before.push(all[i - 1]));
    }
    assert(all.subrange(start as int, n as int) =~= all.skip(start as int));
    r
}

/// A failure of the repository.
#[derive(Debug, PartialEq)]
pub enum RepoError {
    /// The object's bytes do not hash to its id.
    BrokenObject { to_be: HashID, actual: HashID },
    /// No object has this id.
    EntryNotFound(HashID),
    /// A directory that a repository needs is missing or read-only: which
    /// one, and the reason.
    IncompleteRepo(String, String),
    /// An input value is unusable.
    InvalidInput(String),
}

/// What the filesystem says of a directory that a repository needs.
#[derive(Debug, Clone, Copy, PartialEq, Eq, Structural)]
pub enum DirState {
    Missing,
    ReadOnly,
    Writable,
}

/// Checks a directory that a repository needs: it must exist and be writable.
pub fn check_path(state: DirState, name: &str) -> (r: Result<(), RepoError>)
    ensures
        state == DirState::Missing ==> (r matches Err(RepoError::IncompleteRepo(w, why)) && w@ == name@ && why@ == "missing"@),
        state == DirState::ReadOnly ==> (r matches Err(RepoError::IncompleteRepo(w, why)) && w@ == name@ && why@ == "read only"@),
        state == DirState::Writable ==> r is Ok,
{
    match state {
        DirState::Missing => Err(RepoError::IncompleteRepo(name.to_owned(), "missing".to_owned())),
        DirState::ReadOnly => Err(RepoError::IncompleteRepo(name.to_owned(), "read only".to_owned())),
        DirState::Writable => Ok(()),
    }
}

/// Checks bytes read from the store against the id they were stored under.
pub fn verify_object(id: &HashID, data: &[u8]) -> (r: Result<(), RepoError>)
    ensures
        r is Ok <==> hash_id_of(data@) == id@,
        r matches Err(RepoError::BrokenObject { to_be, actual }) ==> to_be@ == id@ && actual@ == hash_id_of(data@),
        r is Err ==> r matches Err(RepoError::BrokenObject { .. }),
{
    let actual = HashID::of_bytes(data);
    if crate::entry::cmp_text(actual.as_str(), id.as_str()) == 0 {
        proof {
            crate::entry::lemma_chars_cmp_antisym(actual@, id@);
        }
        Ok(())
    } else {
        proof {
            crate::entry::lemma_chars_cmp_antisym(actual@, id@);
        }
        Err(RepoError::BrokenObject { to_be: id.clone(), actual })
    }
}

/// A repository: the shared object store and the banks.
#[derive(Debug)]
pub struct Repository {
    path: String,
    objects_dir: String,
    banks_dir: String,
}

/// A repository as a mathematical value.
pub struct RepositoryView {
    pub path: Seq<char>,
    pub objects_dir: Seq<char>,
    pub banks_dir: Seq<char>,
}

impl View for Repository {
    type V = RepositoryView;

    closed spec fn view(&self) -> RepositoryView {
        RepositoryView { path: self.path@, objects_dir: self.objects_dir@, banks_dir: self.banks_dir@ }
    }
}

impl Repository {
    /// The layout of the repository at `path`: `objects/` and `banks/` inside it.
    pub fn new(path: &str) -> (r: Repository)
        ensures
            r@ == (RepositoryView {
                path: path@,
                objects_dir: join_path(path@, "objects"@),
                banks_dir: join_path(path@, "banks"@),
            }),
    {
        Repository { path: path.to_owned(), objects_dir: join(path, "objects"), banks_dir: join(path, "banks") }
    }

    /// The repository's directory.
    pub fn path(&self) -> (r: &str)
        ensures
            r@ == self@.path,
    {
        self.path.as_str()
    }

    /// The object store's directory.
    pub fn object_dir(&self) -> (r: &str)
        ensures
            r@ == self@.objects_dir,
    {
        self.objects_dir.as_str()
    }

    /// The directory of the banks.
    pub fn banks_dir(&self) -> (r: &str)
        ensures
            r@ == self@.banks_dir,
    {
        self.banks_dir.as_str()
    }

    /// Where the object `id` is stored: `objects/` then the id split 4-4-56.
    pub fn object_path(&self, id: &HashID) -> (r: String)
        ensures
            r@ == join_path(
                join_path(join_path(self@.objects_dir, id@.subrange(0, 4)), id@.subrange(4, 8)),
                id@.subrange(8, 64),
            ),
    {
        let (head, mid, leaf) = id.parts();
        let a = join(self.objects_dir.as_str(), head);
        let b = join(a.as_str(), mid);
        join(b.as_str(), leaf)
    }

    /// The directory of the bank `name`.
    pub fn bank_path(&self, name: &str) -> (r: String)
        ensures
            r@ == join_path(self@.banks_dir, name@),
    {
        join(self.banks_dir.as_str(), name)
    }

    /// The handle of the bank `name`, with the configuration read for it.
    pub fn bank(&self, name: &str, config: BankConfig) -> (r: Bank)
        ensures
            r@ == (BankView { name: name@, path: join_path(self@.banks_dir, name@), target_path: config.target_path@ }),
    {
        Bank { name: name.to_owned(), path: self.bank_path(name), config }
    }

    /// The banks to open, from the names found under `banks/`: in
    /// ascending name order.
    pub fn open_all_banks(&self, names: Vec<String>) -> (r: Banks)
        ensures
            r@.to_multiset() == names@.map_values(|s: String| s@).to_multiset(),
            forall|i: int| 0 <= i < r@.len() - 1 ==> chars_cmp(#[trigger] r@[i], r@[i + 1]) <= 0,
    {
        let ghost input = names@.map_values(|s: String| s@);
        let mut out: Vec<String> = Vec::new();
        let mut i: usize = 0;
        assert(input.take(0) =~= Seq::<Seq<char>>::empty());
        assert(out@.map_values(|s: String| s@) =~= Seq::<Seq<char>>::empty());
        while i < names.len()
            invariant
                i <= names@.len(),
                input == names@.map_values(|s: String| s@),
                out@.map_values(|s: String| s@).to_multiset() == input.take(i as int).to_multiset(),
                forall|k: int| 0 <= k < out@.len() - 1 ==> chars_cmp(#[trigger] out@[k]@, out@[k + 1]@) <= 0,
            decreases names@.len() - i,
        {
            let x = names[i].clone();
            let ghost ov = out@.map_values(|s: String| s@);
            let mut p: usize = 0;
            while p < out.len() && crate::entry::cmp_text(x.as_str(), out[p].as_str()) >= 0
                invariant
                    p <= out@.len(),
                    ov == out@.map_values(|s: String| s@),
                    p > 0 ==> chars_cmp(x@, ov[p - 1]) >= 0,
                decreases out@.len() - p,
            {
                p = p + 1;
            }
            proof {
                if p > 0 {
                    crate::entry::lemma_chars_cmp_antisym(x@, ov[p - 1]);
                }
            }
            let ghost old_out = out@;
            out.insert(p, x);
            assert(out@.map_values(|s: String| s@) =~= ov.insert(p as int, x@));
            assert(input.take(i + 1) =~= input.take(i as int).push(x@));
            proof {
                assert forall|k: int| 0 <= k < out@.len() - 1 implies chars_cmp(#[trigger] out@[k]@, out@[k + 1]@) <= 0 by {
                    if k < p - 1 {
                        assert(out@[k] == old_out[k] && out@[k + 1] == old_out[k + 1]);
                    } else if k == p - 1 {
                        assert(out@[k] == old_out[k] && out@[k + 1] == x);
                    } else if k == p {
                        assert(out@[k] == x && out@[k + 1] == old_out[k]);
                    } else {
                        assert(out@[k] == old_out[k - 1] && out@[k + 1] == old_out[k]);
                    }
                }
            }
            i = i + 1;
        }
        assert(input.take(i as int) =~= input);
        let r = Banks { names: out, next: 0 };
        assert(r@ =~= out@.map_values(|s: String| s@));
        r
    }
}

/// The names of the banks still to open, in ascending order.
#[derive(Debug)]
pub struct Banks {
    names: Vec<String>,
    next: usize,
}

impl View for Banks {
    type V = Seq<Seq<char>>;

    closed spec fn view(&self) -> Seq<Seq<char>> {
        self.names@.map_values(|s: String| s@).skip(self.next as int)
    }
}

impl Banks {
    #[verifier::type_invariant]
    spec fn wf(&self) -> bool {
        self.next <= self.names@.len()
    }

    /// The next bank name, in ascending order; `None` when all are done.
    pub fn next_name(&mut self) -> (r: Option<String>)
        ensures
            old(self)@.len() == 0 ==> r is None && final(self)@ == old(self)@,
            old(self)@.len() > 0 ==> (r matches Some(s) && s@ == old(self)@[0] && final(self)@ == old(self)@.drop_first()),
    {
        proof {
            use_type_invariant(&*self);
        }
        if self.next < self.names.len() {
            let s = self.names[self.next].clone();
            self.next = self.next + 1;
            assert(self@ =~= old(self)@.drop_first());
            Some(s)
        } else {
            None
        }
    }
}

} // verus!
