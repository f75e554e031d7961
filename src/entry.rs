//! The snapshot tree model: directory, file and symbolic link entries, and
//! the references by hash that a directory holds to its children.

use vstd::prelude::*;

use crate::hash::HashID;
use crate::text::chars_of;
use crate::timestamp::Timestamp;

verus! {

broadcast use {vstd::seq_lib::to_multiset_insert, vstd::seq_lib::to_multiset_build};

/// Three-way lexicographic comparison of character sequences, by code point:
/// -1, 0 or 1.
pub open spec fn chars_cmp(a: Seq<char>, b: Seq<char>) -> int
    decreases a.len(),
{
    if a.len() == 0 {
        if b.len() == 0 {
            0
        } else {
            -1
        }
    } else if b.len() == 0 {
        1
    } else if a[0] < b[0] {
        -1
    } else if a[0] > b[0] {
        1
    } else {
        chars_cmp(a.drop_first(), b.drop_first())
    }
}

pub proof fn lemma_chars_cmp_antisym(a: Seq<char>, b: Seq<char>)
    ensures
        chars_cmp(a, b) == -chars_cmp(b, a),
        chars_cmp(a, b) == 0 <==> a == b,
    decreases a.len(),
{
    if a.len() == 0 && b.len() == 0 {
        assert(a =~= b);
    }
    if a.len() > 0 && b.len() > 0 && a[0] == b[0] {
        lemma_chars_cmp_antisym(a.drop_first(), b.drop_first());
        if a.drop_first() == b.drop_first() {
            assert(a =~= seq![a[0]] + a.drop_first());
            assert(b =~= seq![b[0]] + b.drop_first());
        }
    }
}

/// The kind of an entry.
pub enum EntryKind {
    Dir,
    File,
    Symlink,
}

/// The rank of a kind, for the last tie-break of the child order.
pub open spec fn kind_rank(k: EntryKind) -> int {
    match k {
        EntryKind::Dir => 0,
        EntryKind::File => 1,
        EntryKind::Symlink => 2,
    }
}

/// Attributes as a mathematical value.
pub struct AttrView {
    pub name: Seq<char>,
    pub readonly: bool,
    pub modified: u64,
}

/// A child reference as a mathematical value.
pub struct FsHashView {
    pub kind: EntryKind,
    pub attr: AttrView,
    pub id: Seq<char>,
}

/// A reference of known kind as a mathematical value.
pub struct RefView {
    pub attr: AttrView,
    pub id: Seq<char>,
}

/// Attributes ordered by name, then read-only flag (`false` first), then
/// modification time.
pub open spec fn attr_cmp(a: AttrView, b: AttrView) -> int {
    let c = chars_cmp(a.name, b.name);
    if c != 0 {
        c
    } else if a.readonly != b.readonly {
        if !a.readonly {
            -1
        } else {
            1
        }
    } else if a.modified < b.modified {
        -1
    } else if a.modified > b.modified {
        1
    } else {
        0
    }
}

/// The canonical order of children: attributes, then id, then kind.
pub open spec fn hash_cmp(a: FsHashView, b: FsHashView) -> int {
    let c = attr_cmp(a.attr, b.attr);
    if c != 0 {
        c
    } else {
        let d = chars_cmp(a.id, b.id);
        if d != 0 {
            d
        } else if kind_rank(a.kind) < kind_rank(b.kind) {
            -1
        } else if kind_rank(a.kind) > kind_rank(b.kind) {
            1
        } else {
            0
        }
    }
}

proof fn lemma_hash_cmp_antisym(a: FsHashView, b: FsHashView)
    ensures
        hash_cmp(a, b) == -hash_cmp(b, a),
{
    lemma_chars_cmp_antisym(a.attr.name, b.attr.name);
    lemma_chars_cmp_antisym(a.id, b.id);
}

proof fn lemma_chars_cmp_trans(a: Seq<char>, b: Seq<char>, c: Seq<char>)
    ensures
        chars_cmp(a, b) <= 0 && chars_cmp(b, c) <= 0 ==> chars_cmp(a, c) <= 0,
    decreases a.len(),
{
    if a.len() > 0 && b.len() > 0 && c.len() > 0 && a[0] == b[0] && b[0] == c[0] {
        lemma_chars_cmp_trans(a.drop_first(), b.drop_first(), c.drop_first());
    }
}

proof fn lemma_hash_cmp_order(a: FsHashView, b: FsHashView, c: FsHashView)
    ensures
        hash_cmp(a, b) <= 0 && hash_cmp(b, c) <= 0 ==> hash_cmp(a, c) <= 0,
        hash_cmp(a, b) == 0 ==> a == b,
{
    lemma_chars_cmp_antisym(a.attr.name, b.attr.name);
    lemma_chars_cmp_antisym(b.attr.name, c.attr.name);
    lemma_chars_cmp_antisym(a.attr.name, c.attr.name);
    lemma_chars_cmp_antisym(a.id, b.id);
    lemma_chars_cmp_antisym(b.id, c.id);
    lemma_chars_cmp_antisym(a.id, c.id);
    lemma_chars_cmp_trans(a.attr.name, b.attr.name, c.attr.name);
    lemma_chars_cmp_trans(a.id, b.id, c.id);
    if hash_cmp(a, b) == 0 {
        assert(a.attr == b.attr);
        assert(a.kind == b.kind);
    }
}

/// Whether the child at `i` comes no later than the next one.
pub open spec fn sorted_at(s: Seq<FsHashView>, i: int) -> bool {
    hash_cmp(s[i], s[i + 1]) <= 0
}

/// Whether each child comes no later than the next in the canonical order.
pub open spec fn is_sorted(s: Seq<FsHashView>) -> bool {
    forall|i: int| 0 <= i < s.len() - 1 ==> #[trigger] sorted_at(s, i)
}

/// Compares two strings by `chars_cmp`.
pub(crate) fn cmp_text(a: &str, b: &str) -> (r: i8)
    ensures
        r as int == chars_cmp(a@, b@),
{
    cmp_chars(&chars_of(a), &chars_of(b))
}

proof fn lemma_sorted_first_is_least(s: Seq<FsHashView>, j: int)
    requires
        is_sorted(s),
        0 <= j < s.len(),
    ensures
        hash_cmp(s[0], s[j]) <= 0,
    decreases j,
{
    if j == 0 {
        lemma_hash_cmp_antisym(s[0], s[0]);
    } else {
        lemma_sorted_first_is_least(s, j - 1);
        assert(sorted_at(s, j - 1));
        lemma_hash_cmp_order(s[0], s[j - 1], s[j]);
    }
}

proof fn lemma_sorted_tail(a: Seq<FsHashView>)
    requires
        is_sorted(a),
        a.len() > 0,
    ensures
        is_sorted(a.drop_first()),
{
    assert forall|i: int| 0 <= i < a.drop_first().len() - 1 implies #[trigger] sorted_at(
        a.drop_first(),
        i,
    ) by {
        assert(a.drop_first()[i] == a[i + 1]);
        assert(sorted_at(a, i + 1));
    }
}

proof fn lemma_in_both(a: Seq<FsHashView>, b: Seq<FsHashView>, x: FsHashView) -> (j: int)
    requires
        a.to_multiset() == b.to_multiset(),
        a.contains(x),
    ensures
        0 <= j < b.len() && b[j] == x,
{
    vstd::seq_lib::to_multiset_contains(a, x);
    vstd::seq_lib::to_multiset_contains(b, x);
    choose|j: int| 0 <= j < b.len() && b[j] == x
}

/// The canonical order leaves no choice: two sorted lists that hold the same
/// children are the same list.
pub proof fn lemma_sorted_children_unique(a: Seq<FsHashView>, b: Seq<FsHashView>)
    requires
        is_sorted(a),
        is_sorted(b),
        a.to_multiset() == b.to_multiset(),
    ensures
        a == b,
    decreases a.len(),
{
    vstd::seq_lib::to_multiset_len(a);
    vstd::seq_lib::to_multiset_len(b);
    if a.len() == 0 {
        assert(b =~= a);
    } else {
        assert(a.contains(a[0]));
        assert(b.contains(b[0]));
        let j = lemma_in_both(a, b, a[0]);
        let k = lemma_in_both(b, a, b[0]);
        lemma_sorted_first_is_least(b, j);
        lemma_sorted_first_is_least(a, k);
        lemma_hash_cmp_antisym(a[0], b[0]);
        lemma_hash_cmp_order(a[0], b[0], b[0]);
        assert(a[0] == b[0]);
        vstd::seq_lib::to_multiset_remove(a, 0);
        vstd::seq_lib::to_multiset_remove(b, 0);
        assert(a.remove(0) =~= a.drop_first());
        assert(b.remove(0) =~= b.drop_first());
        lemma_sorted_tail(a);
        lemma_sorted_tail(b);
        lemma_sorted_children_unique(a.drop_first(), b.drop_first());
        assert forall|i: int| 0 <= i < a.len() implies a[i] == b[i] by {
            if i > 0 {
                assert(a[i] == a.drop_first()[i - 1]);
                assert(b[i] == b.drop_first()[i - 1]);
            }
        }
        assert(a =~= b);
    }
}

/// Determinism of directory entries: two builds with the same attributes
/// and the same children, appended in any order, give the same entry. The
/// premises are what `DirEntryBuilder::build` ensures of its result.
pub proof fn lemma_build_independent_of_order(
    b1: BuilderView,
    b2: BuilderView,
    r1: DirEntryView,
    r2: DirEntryView,
)
    requires
        b1.attr == b2.attr,
        b1.children.to_multiset() == b2.children.to_multiset(),
        r1.id is None && r1.attr == b1.attr && r1.children.to_multiset() == b1.children.to_multiset()
            && is_sorted(r1.children),
        r2.id is None && r2.attr == b2.attr && r2.children.to_multiset() == b2.children.to_multiset()
            && is_sorted(r2.children),
    ensures
        r1 == r2,
{
    lemma_sorted_children_unique(r1.children, r2.children);
}

fn cmp_chars(a: &Vec<char>, b: &Vec<char>) -> (r: i8)
    ensures
        r as int == chars_cmp(a@, b@),
{
    let n = a.len();
    let m = b.len();
    let mut i: usize = 0;
    assert(a@.skip(0) =~= a@ && b@.skip(0) =~= b@);
    while i < n && i < m
        invariant
            n == a@.len(),
            m == b@.len(),
            i <= n,
            i <= m,
            chars_cmp(a@, b@) == chars_cmp(a@.skip(i as int), b@.skip(i as int)),
        decreases n - i,
    {
        assert(a@.skip(i as int).drop_first() =~= a@.skip(i + 1));
        assert(b@.skip(i as int).drop_first() =~= b@.skip(i + 1));
        if a[i] < b[i] {
            return -1;
        }
        if a[i] > b[i] {
            return 1;
        }
        i = i + 1;
    }
    if i == n && i == m {
        0
    } else if i == n {
        -1
    } else {
        1
    }
}

/// The name and flags of an entry.
#[derive(Debug, PartialEq, Eq, PartialOrd, Ord)]
pub struct Attributes {
    name: String,
    readonly: bool,
    modified: Timestamp,
}

impl Clone for Attributes {
    fn clone(&self) -> (r: Attributes)
        ensures
            r == *self,
    {
        Attributes { name: self.name.clone(), readonly: self.readonly, modified: self.modified }
    }
}

impl View for Attributes {
    type V = AttrView;

    closed spec fn view(&self) -> AttrView {
        AttrView { name: self.name@, readonly: self.readonly, modified: self.modified@ }
    }
}

impl Attributes {
    /// Attributes with these values.
    pub fn new(name: String, readonly: bool, modified: Timestamp) -> (r: Attributes)
        ensures
            r@ == (AttrView { name: name@, readonly, modified: modified@ }),
    {
        Attributes { name, readonly, modified }
    }

    /// The entry's name: the last component of its path.
    pub fn name(&self) -> (r: &str)
        ensures
            r@ == self@.name,
    {
        self.name.as_str()
    }

    /// Whether the entry is read-only.
    pub fn readonly(&self) -> (r: bool)
        ensures
            r == self@.readonly,
    {
        self.readonly
    }

    /// The modification time.
    pub fn modified(&self) -> (r: Timestamp)
        ensures
            r@ == self@.modified,
    {
        self.modified
    }
}

fn cmp_attr(a: &Attributes, b: &Attributes) -> (r: i8)
    ensures
        r as int == attr_cmp(a@, b@),
{
    let c = cmp_chars(&chars_of(a.name.as_str()), &chars_of(b.name.as_str()));
    if c != 0 {
        c
    } else if a.readonly != b.readonly {
        if !a.readonly {
            -1
        } else {
            1
        }
    } else if a.modified.unix_epoch() < b.modified.unix_epoch() {
        -1
    } else if a.modified.unix_epoch() > b.modified.unix_epoch() {
        1
    } else {
        0
    }
}

/// A child directory: its attributes and the id of its entry.
#[derive(Debug, PartialEq, Eq, PartialOrd, Ord)]
pub struct DirHash {
    attr: Attributes,
    id: HashID,
}

/// A child file: its attributes and the id of its contents.
#[derive(Debug, PartialEq, Eq, PartialOrd, Ord)]
pub struct FileHash {
    attr: Attributes,
    id: HashID,
}

/// A child symbolic link: its attributes and the id of its entry.
#[derive(Debug, PartialEq, Eq, PartialOrd, Ord)]
pub struct SymlinkHash {
    attr: Attributes,
    id: HashID,
}

impl Clone for DirHash {
    fn clone(&self) -> (r: DirHash)
        ensures
            r == *self,
    {
        DirHash { attr: self.attr.clone(), id: self.id.clone() }
    }
}

impl Clone for FileHash {
    fn clone(&self) -> (r: FileHash)
        ensures
            r == *self,
    {
        FileHash { attr: self.attr.clone(), id: self.id.clone() }
    }
}

impl Clone for SymlinkHash {
    fn clone(&self) -> (r: SymlinkHash)
        ensures
            r == *self,
    {
        SymlinkHash { attr: self.attr.clone(), id: self.id.clone() }
    }
}

impl View for DirHash {
    type V = RefView;

    closed spec fn view(&self) -> RefView {
        RefView { attr: self.attr@, id: self.id@ }
    }
}

impl View for FileHash {
    type V = RefView;

    closed spec fn view(&self) -> RefView {
        RefView { attr: self.attr@, id: self.id@ }
    }
}

impl View for SymlinkHash {
    type V = RefView;

    closed spec fn view(&self) -> RefView {
        RefView { attr: self.attr@, id: self.id@ }
    }
}

impl DirHash {
    /// A reference with these attributes and id.
    pub fn new(attr: Attributes, id: HashID) -> (r: DirHash)
        ensures
            r@ == (RefView { attr: attr@, id: id@ }),
    {
        DirHash { attr, id }
    }

    /// The id of the directory's entry.
    pub fn id(&self) -> (r: HashID)
        ensures
            r@ == self@.id,
    {
        self.id.clone()
    }

    /// The directory's attributes.
    pub fn attr(&self) -> (r: &Attributes)
        ensures
            r@ == self@.attr,
    {
        &self.attr
    }

    /// The reference to a hashed directory entry; fails when it has no id.
    pub fn try_from_entry(e: DirEntry) -> (r: Result<DirHash, NoIdError>)
        ensures
            match e@.id {
                Some(id) => r matches Ok(h) && h@ == (RefView { attr: e@.attr, id }),
                None => r is Err,
            },
    {
        match e.id {
            Some(id) => Ok(DirHash { attr: e.attr, id }),
            None => Err(NoIdError::NoId),
        }
    }

    /// The directory reference inside a child reference; fails on another kind.
    pub fn try_from_hash(h: FsHash) -> (r: Result<DirHash, MismatchHashType>)
        ensures
            h@.kind is Dir <==> r is Ok,
            r matches Ok(x) ==> x@.attr == h@.attr && x@.id == h@.id,
    {
        match h {
            FsHash::Dir(x) => Ok(x),
            h => Err(MismatchHashType(h)),
        }
    }
}

impl FileHash {
    /// A reference with these attributes and id.
    pub fn new(attr: Attributes, id: HashID) -> (r: FileHash)
        ensures
            r@ == (RefView { attr: attr@, id: id@ }),
    {
        FileHash { attr, id }
    }

    /// The id of the file's contents.
    pub fn id(&self) -> (r: HashID)
        ensures
            r@ == self@.id,
    {
        self.id.clone()
    }

    /// The file's attributes.
    pub fn attr(&self) -> (r: &Attributes)
        ensures
            r@ == self@.attr,
    {
        &self.attr
    }

    /// The reference to a hashed file entry; fails when it has no id.
    pub fn try_from_entry(e: FileEntry) -> (r: Result<FileHash, NoIdError>)
        ensures
            match e@.id {
                Some(id) => r matches Ok(h) && h@ == (RefView { attr: e@.attr, id }),
                None => r is Err,
            },
    {
        match e.id {
            Some(id) => Ok(FileHash { attr: e.attr, id }),
            None => Err(NoIdError::NoId),
        }
    }

    /// The file reference inside a child reference; fails on another kind.
    pub fn try_from_hash(h: FsHash) -> (r: Result<FileHash, MismatchHashType>)
        ensures
            h@.kind is File <==> r is Ok,
            r matches Ok(x) ==> x@.attr == h@.attr && x@.id == h@.id,
    {
        match h {
            FsHash::File(x) => Ok(x),
            h => Err(MismatchHashType(h)),
        }
    }
}

impl SymlinkHash {
    /// A reference with these attributes and id.
    pub fn new(attr: Attributes, id: HashID) -> (r: SymlinkHash)
        ensures
            r@ == (RefView { attr: attr@, id: id@ }),
    {
        SymlinkHash { attr, id }
    }

    /// The id of the link's entry.
    pub fn id(&self) -> (r: HashID)
        ensures
            r@ == self@.id,
    {
        self.id.clone()
    }

    /// The link's attributes.
    pub fn attr(&self) -> (r: &Attributes)
        ensures
            r@ == self@.attr,
    {
        &self.attr
    }

    /// The reference to a hashed link entry; fails when it has no id.
    pub fn try_from_entry(e: SymlinkEntry) -> (r: Result<SymlinkHash, NoIdError>)
        ensures
            match e@.id {
                Some(id) => r matches Ok(h) && h@ == (RefView { attr: e@.attr, id }),
                None => r is Err,
            },
    {
        match e.id {
            Some(id) => Ok(SymlinkHash { attr: e.attr, id }),
            None => Err(NoIdError::NoId),
        }
    }

    /// The link reference inside a child reference; fails on another kind.
    pub fn try_from_hash(h: FsHash) -> (r: Result<SymlinkHash, MismatchHashType>)
        ensures
            h@.kind is Symlink <==> r is Ok,
            r matches Ok(x) ==> x@.attr == h@.attr && x@.id == h@.id,
    {
        match h {
            FsHash::Symlink(x) => Ok(x),
            h => Err(MismatchHashType(h)),
        }
    }
}

/// A reference from a directory to one child.
#[derive(Debug, PartialEq, Eq, PartialOrd, Ord)]
pub enum FsHash {
    Dir(DirHash),
    File(FileHash),
    Symlink(SymlinkHash),
}

impl Clone for FsHash {
    fn clone(&self) -> (r: FsHash)
        ensures
            r == *self,
    {
        match self {
            FsHash::Dir(x) => FsHash::Dir(x.clone()),
            FsHash::File(x) => FsHash::File(x.clone()),
            FsHash::Symlink(x) => FsHash::Symlink(x.clone()),
        }
    }
}

impl View for FsHash {
    type V = FsHashView;

    open spec fn view(&self) -> FsHashView {
        match self {
            FsHash::Dir(x) => FsHashView { kind: EntryKind::Dir, attr: x@.attr, id: x@.id },
            FsHash::File(x) => FsHashView { kind: EntryKind::File, attr: x@.attr, id: x@.id },
            FsHash::Symlink(x) => FsHashView { kind: EntryKind::Symlink, attr: x@.attr, id: x@.id },
        }
    }
}

/// The values of a list of child references.
pub open spec fn hashes_view(v: Seq<FsHash>) -> Seq<FsHashView> {
    v.map_values(|h: FsHash| h@)
}

impl FsHash {
    /// The id of the child.
    pub fn id(&self) -> (r: HashID)
        ensures
            r@ == self@.id,
    {
        match self {
            FsHash::Dir(x) => x.id(),
            FsHash::File(x) => x.id(),
            FsHash::Symlink(x) => x.id(),
        }
    }

    /// The child's attributes.
    pub fn attr(&self) -> (r: &Attributes)
        ensures
            r@ == self@.attr,
    {
        match self {
            FsHash::Dir(x) => x.attr(),
            FsHash::File(x) => x.attr(),
            FsHash::Symlink(x) => x.attr(),
        }
    }

    /// The reference to a hashed directory entry; fails when it has no id.
    pub fn try_from_dir(e: DirEntry) -> (r: Result<FsHash, NoIdError>)
        ensures
            match e@.id {
                Some(id) => r matches Ok(h) && h@ == (FsHashView { kind: EntryKind::Dir, attr: e@.attr, id }),
                None => r is Err,
            },
    {
        match DirHash::try_from_entry(e) {
            Ok(h) => Ok(FsHash::Dir(h)),
            Err(e) => Err(e),
        }
    }

    /// The reference to a hashed file entry; fails when it has no id.
    pub fn try_from_file(e: FileEntry) -> (r: Result<FsHash, NoIdError>)
        ensures
            match e@.id {
                Some(id) => r matches Ok(h) && h@ == (FsHashView { kind: EntryKind::File, attr: e@.attr, id }),
                None => r is Err,
            },
    {
        match FileHash::try_from_entry(e) {
            Ok(h) => Ok(FsHash::File(h)),
            Err(e) => Err(e),
        }
    }

    /// The reference to a hashed link entry; fails when it has no id.
    pub fn try_from_symlink(e: SymlinkEntry) -> (r: Result<FsHash, NoIdError>)
        ensures
            match e@.id {
                Some(id) => r matches Ok(h) && h@ == (FsHashView { kind: EntryKind::Symlink, attr: e@.attr, id }),
                None => r is Err,
            },
    {
        match SymlinkHash::try_from_entry(e) {
            Ok(h) => Ok(FsHash::Symlink(h)),
            Err(e) => Err(e),
        }
    }
}

fn cmp_hash(a: &FsHash, b: &FsHash) -> (r: i8)
    ensures
        r as int == hash_cmp(a@, b@),
{
    let c = cmp_attr(a.attr(), b.attr());
    if c != 0 {
        return c;
    }
    let d = cmp_chars(&chars_of(a.id().as_str()), &chars_of(b.id().as_str()));
    if d != 0 {
        return d;
    }
    let ra: u8 = match a {
        FsHash::Dir(_) => 0,
        FsHash::File(_) => 1,
        FsHash::Symlink(_) => 2,
    };
    let rb: u8 = match b {
        FsHash::Dir(_) => 0,
        FsHash::File(_) => 1,
        FsHash::Symlink(_) => 2,
    };
    assert(ra as int == kind_rank(a@.kind) && rb as int == kind_rank(b@.kind));
    if ra < rb {
        -1
    } else if ra > rb {
        1
    } else {
        0
    }
}

/// A directory entry as a mathematical value.
pub struct DirEntryView {
    pub id: Option<Seq<char>>,
    pub attr: AttrView,
    pub children: Seq<FsHashView>,
}

/// A file entry as a mathematical value.
pub struct FileEntryView {
    pub id: Option<Seq<char>>,
    pub attr: AttrView,
}

/// A symbolic link entry as a mathematical value.
pub struct SymlinkEntryView {
    pub id: Option<Seq<char>>,
    pub attr: AttrView,
    pub target: Seq<char>,
    pub is_dir: bool,
}

/// The value of an optional id.
pub open spec fn id_view(id: Option<HashID>) -> Option<Seq<char>> {
    match id {
        Some(x) => Some(x@),
        None => None,
    }
}

/// The first child with this name, if any.
pub open spec fn first_named(s: Seq<FsHashView>, name: Seq<char>) -> Option<FsHashView>
    decreases s.len(),
{
    if s.len() == 0 {
        None
    } else if s[0].attr.name == name {
        Some(s[0])
    } else {
        first_named(s.drop_first(), name)
    }
}

/// Whether some child has this name.
pub open spec fn has_named(s: Seq<FsHashView>, name: Seq<char>) -> bool {
    exists|i: int| 0 <= i < s.len() && (#[trigger] s[i]).attr.name == name
}

/// `first_named` finds a child exactly when some child has the name.
pub proof fn lemma_first_named(s: Seq<FsHashView>, name: Seq<char>)
    ensures
        first_named(s, name) is Some <==> has_named(s, name),
    decreases s.len(),
{
    if s.len() > 0 {
        lemma_first_named(s.drop_first(), name);
        if has_named(s.drop_first(), name) {
            let i = choose|i: int| 0 <= i < s.drop_first().len() && (#[trigger] s.drop_first()[i]).attr.name == name;
            assert(s[i + 1] == s.drop_first()[i]);
        }
        if has_named(s, name) && s[0].attr.name != name {
            let i = choose|i: int| 0 <= i < s.len() && (#[trigger] s[i]).attr.name == name;
            assert(s.drop_first()[i - 1] == s[i]);
        }
    }
}

/// A directory: its attributes and its children in canonical order.
#[derive(Debug, PartialEq, Eq)]
pub struct DirEntry {
    id: Option<HashID>,
    attr: Attributes,
    children: Vec<FsHash>,
}

impl View for DirEntry {
    type V = DirEntryView;

    closed spec fn view(&self) -> DirEntryView {
        DirEntryView { id: id_view(self.id), attr: self.attr@, children: hashes_view(self.children@) }
    }
}

impl DirEntry {
    /// The children, in canonical order.
    pub fn children(&self) -> (r: &[FsHash])
        ensures
            hashes_view(r@) == self@.children,
    {
        self.children.as_slice()
    }

    /// The first child with this name, if any.
    pub fn find_child(&self, name: &str) -> (r: Option<&FsHash>)
        ensures
            match first_named(self@.children, name@) {
                Some(h) => r matches Some(x) && x@ == h,
                None => r is None,
            },
    {
        let target = chars_of(name);
        let ghost all = hashes_view(self.children@);
        let mut i: usize = 0;
        assert(all.skip(0) =~= all);
        while i < self.children.len()
            invariant
                i <= self.children@.len(),
                target@ == name@,
                all == hashes_view(self.children@),
                first_named(all, name@) == first_named(all.skip(i as int), name@),
            decreases self.children@.len() - i,
        {
            let ch = &self.children[i];
            assert(all.skip(i as int)[0] == ch@);
            assert(all.skip(i as int).drop_first() =~= all.skip(i + 1));
            let c = chars_of(ch.attr().name());
            proof {
                lemma_chars_cmp_antisym(c@, target@);
            }
            if cmp_chars(&c, &target) == 0 {
                return Some(ch);
            }
            i = i + 1;
        }
        None
    }

    /// The child directory with this name, if the first child so named is one.
    pub fn find_dir(&self, name: &str) -> (r: Option<&DirHash>)
        ensures
            match first_named(self@.children, name@) {
                Some(h) => if h.kind is Dir {
                    r matches Some(d) && d@ == (RefView { attr: h.attr, id: h.id })
                } else {
                    r is None
                },
                None => r is None,
            },
    {
        match self.find_child(name) {
            Some(FsHash::Dir(x)) => Some(x),
            _ => None,
        }
    }

    /// The child file with this name, if the first child so named is one.
    pub fn find_file(&self, name: &str) -> (r: Option<&FileHash>)
        ensures
            match first_named(self@.children, name@) {
                Some(h) => if h.kind is File {
                    r matches Some(f) && f@ == (RefView { attr: h.attr, id: h.id })
                } else {
                    r is None
                },
                None => r is None,
            },
    {
        match self.find_child(name) {
            Some(FsHash::File(x)) => Some(x),
            _ => None,
        }
    }

    /// The id, once hashed.
    pub fn id(&self) -> (r: Option<HashID>)
        ensures
            id_view(r) == self@.id,
    {
        match &self.id {
            Some(x) => Some(x.clone()),
            None => None,
        }
    }

    /// Records the id.
    pub fn set_id(&mut self, id: HashID)
        ensures
            final(self)@ == (DirEntryView { id: Some(id@), ..old(self)@ }),
    {
        self.id = Some(id);
    }

    /// The directory's attributes.
    pub fn attr(&self) -> (r: &Attributes)
        ensures
            r@ == self@.attr,
    {
        &self.attr
    }
}

/// Collects the children of a directory, then puts them in canonical order.
pub struct DirEntryBuilder {
    attr: Attributes,
    children: Vec<FsHash>,
}

/// A builder as a mathematical value.
pub struct BuilderView {
    pub attr: AttrView,
    pub children: Seq<FsHashView>,
}

impl View for DirEntryBuilder {
    type V = BuilderView;

    closed spec fn view(&self) -> BuilderView {
        BuilderView { attr: self.attr@, children: hashes_view(self.children@) }
    }
}

impl DirEntryBuilder {
    /// A builder with no children.
    pub fn new(attr: Attributes) -> (r: DirEntryBuilder)
        ensures
            r@ == (BuilderView { attr: attr@, children: Seq::empty() }),
    {
        let r = DirEntryBuilder { attr, children: Vec::new() };
        assert(hashes_view(r.children@) =~= Seq::<FsHashView>::empty());
        r
    }

    /// Adds a child.
    pub fn append(&mut self, ch: FsHash)
        ensures
            final(self)@ == (BuilderView { attr: old(self)@.attr, children: old(self)@.children.push(ch@) }),
    {
        let ghost before = hashes_view(self.children@);
        self.children.push(ch);
        assert(hashes_view(self.children@) =~= before.push(ch@));
    }

    /// The directory entry, without id, with the children sorted into
    /// canonical order: the same children, each no later than the next.
    pub fn build(self) -> (r: DirEntry)
        ensures
            r@.id is None,
            r@.attr == self@.attr,
            r@.children.to_multiset() == self@.children.to_multiset(),
            is_sorted(r@.children),
    {
        let ghost input = hashes_view(self.children@);
        let mut out: Vec<FsHash> = Vec::new();
        let mut i: usize = 0;
        assert(input.take(0) =~= Seq::<FsHashView>::empty());
        assert(hashes_view(out@) =~= Seq::<FsHashView>::empty());
        while i < self.children.len()
            invariant
                i <= self.children@.len(),
                input == hashes_view(self.children@),
                hashes_view(out@).to_multiset() == input.take(i as int).to_multiset(),
                is_sorted(hashes_view(out@)),
            decreases self.children@.len() - i,
        {
            let x = self.children[i].clone();
            let ghost ov = hashes_view(out@);
            let mut p: usize = 0;
            while p < out.len() && cmp_hash(&x, &out[p]) >= 0
                invariant
                    p <= out@.len(),
                    ov == hashes_view(out@),
                    p > 0 ==> hash_cmp(x@, ov[p - 1]) >= 0,
                decreases out@.len() - p,
            {
                p = p + 1;
            }
            proof {
                if p > 0 {
                    lemma_hash_cmp_antisym(x@, ov[p - 1]);
                }
                if p < ov.len() {
                    assert(hash_cmp(x@, ov[p as int]) < 0);
                }
            }
            out.insert(p, x);
            assert(hashes_view(out@) =~= ov.insert(p as int, x@));
            assert(input.take(i + 1) =~= input.take(i as int).push(x@));
            proof {
                let nv = ov.insert(p as int, x@);
                assert forall|k: int| 0 <= k < nv.len() - 1 implies #[trigger] sorted_at(nv, k) by {
                    if k < p - 1 {
                        assert(sorted_at(ov, k));
                        assert(nv[k] == ov[k] && nv[k + 1] == ov[k + 1]);
                    } else if k == p - 1 {
                        assert(nv[k] == ov[k] && nv[k + 1] == x@);
                    } else if k == p {
                        assert(nv[k] == x@ && nv[k + 1] == ov[k]);
                    } else {
                        assert(sorted_at(ov, k - 1));
                        assert(nv[k] == ov[k - 1] && nv[k + 1] == ov[k]);
                    }
                }
            }
            i = i + 1;
        }
        assert(input.take(i as int) =~= input);
        DirEntry { id: None, attr: self.attr, children: out }
    }
}

/// A regular file: its attributes; its contents are the object named by its id.
#[derive(Debug, PartialEq, Eq)]
pub struct FileEntry {
    id: Option<HashID>,
    attr: Attributes,
}

impl View for FileEntry {
    type V = FileEntryView;

    closed spec fn view(&self) -> FileEntryView {
        FileEntryView { id: id_view(self.id), attr: self.attr@ }
    }
}

impl FileEntry {
    /// A file entry without id.
    pub fn new(attr: Attributes) -> (r: FileEntry)
        ensures
            r@ == (FileEntryView { id: None, attr: attr@ }),
    {
        FileEntry { id: None, attr }
    }

    /// The id, once hashed.
    pub fn id(&self) -> (r: Option<HashID>)
        ensures
            id_view(r) == self@.id,
    {
        match &self.id {
            Some(x) => Some(x.clone()),
            None => None,
        }
    }

    /// Records the id.
    pub fn set_id(&mut self, id: HashID)
        ensures
            final(self)@ == (FileEntryView { id: Some(id@), ..old(self)@ }),
    {
        self.id = Some(id);
    }

    /// The file's attributes.
    pub fn attr(&self) -> (r: &Attributes)
        ensures
            r@ == self@.attr,
    {
        &self.attr
    }
}

/// A symbolic link: its attributes, its target and whether the target is a
/// directory. The link is not followed.
#[derive(Debug, PartialEq, Eq)]
pub struct SymlinkEntry {
    id: Option<HashID>,
    attr: Attributes,
    target: String,
    is_dir: bool,
}

impl View for SymlinkEntry {
    type V = SymlinkEntryView;

    closed spec fn view(&self) -> SymlinkEntryView {
        SymlinkEntryView { id: id_view(self.id), attr: self.attr@, target: self.target@, is_dir: self.is_dir }
    }
}

impl SymlinkEntry {
    /// A link entry without id.
    pub fn new(attr: Attributes, target: String, is_dir: bool) -> (r: SymlinkEntry)
        ensures
            r@ == (SymlinkEntryView { id: None, attr: attr@, target: target@, is_dir }),
    {
        SymlinkEntry { id: None, attr, target, is_dir }
    }

    /// The path the link points to.
    pub fn target(&self) -> (r: &str)
        ensures
            r@ == self@.target,
    {
        self.target.as_str()
    }

    /// Whether the link points to a directory.
    pub fn is_dir(&self) -> (r: bool)
        ensures
            r == self@.is_dir,
    {
        self.is_dir
    }

    /// The id, once hashed.
    pub fn id(&self) -> (r: Option<HashID>)
        ensures
            id_view(r) == self@.id,
    {
        match &self.id {
            Some(x) => Some(x.clone()),
            None => None,
        }
    }

    /// Records the id.
    pub fn set_id(&mut self, id: HashID)
        ensures
            final(self)@ == (SymlinkEntryView { id: Some(id@), ..old(self)@ }),
    {
        self.id = Some(id);
    }

    /// The link's attributes.
    pub fn attr(&self) -> (r: &Attributes)
        ensures
            r@ == self@.attr,
    {
        &self.attr
    }
}

/// Any entry.
#[derive(Debug, PartialEq, Eq)]
pub enum FsEntry {
    Dir(DirEntry),
    File(FileEntry),
    Symlink(SymlinkEntry),
}

/// The id of any entry, as a value.
pub open spec fn entry_id(e: FsEntry) -> Option<Seq<char>> {
    match e {
        FsEntry::Dir(x) => x@.id,
        FsEntry::File(x) => x@.id,
        FsEntry::Symlink(x) => x@.id,
    }
}

/// The attributes of any entry, as a value.
pub open spec fn entry_attr(e: FsEntry) -> AttrView {
    match e {
        FsEntry::Dir(x) => x@.attr,
        FsEntry::File(x) => x@.attr,
        FsEntry::Symlink(x) => x@.attr,
    }
}

impl FsEntry {
    /// The id, once hashed.
    pub fn id(&self) -> (r: Option<HashID>)
        ensures
            id_view(r) == entry_id(*self),
    {
        match self {
            FsEntry::Dir(x) => x.id(),
            FsEntry::File(x) => x.id(),
            FsEntry::Symlink(x) => x.id(),
        }
    }

    /// Records the id; the kind and everything else stay.
    pub fn set_id(&mut self, id: HashID)
        ensures
            entry_id(*final(self)) == Some(id@),
            entry_attr(*final(self)) == entry_attr(*old(self)),
            (*old(self) is Dir) == (*final(self) is Dir),
            (*old(self) is File) == (*final(self) is File),
            (*old(self) is Symlink) == (*final(self) is Symlink),
            *old(self) matches FsEntry::Dir(a) ==> (*final(self) matches FsEntry::Dir(b) && b@.children == a@.children),
            *old(self) matches FsEntry::Symlink(a) ==> (*final(self) matches FsEntry::Symlink(b) && b@.target == a@.target && b@.is_dir == a@.is_dir),
    {
        match self {
            FsEntry::Dir(x) => x.set_id(id),
            FsEntry::File(x) => x.set_id(id),
            FsEntry::Symlink(x) => x.set_id(id),
        }
    }

    /// The entry's attributes.
    pub fn attr(&self) -> (r: &Attributes)
        ensures
            r@ == entry_attr(*self),
    {
        match self {
            FsEntry::Dir(x) => x.attr(),
            FsEntry::File(x) => x.attr(),
            FsEntry::Symlink(x) => x.attr(),
        }
    }
}

/// An entry that has no id yet cannot be referenced.
#[derive(Debug, Clone, Copy, PartialEq, Eq, Structural)]
pub enum NoIdError {
    /// The entry has not been hashed.
    NoId,
}

/// A child reference of another kind than the one asked for.
#[derive(Debug)]
pub struct MismatchHashType(pub FsHash);

} // verus!
