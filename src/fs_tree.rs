//! A scanned tree held whole in memory, each node with its path.

use vstd::prelude::*;

verus! {

/// Seconds since the Unix epoch.
#[derive(Debug, Clone, Copy, PartialEq, Eq, Structural, PartialOrd, Ord)]
pub struct Timestamp(u64);

impl View for Timestamp {
    type V = u64;

    closed spec fn view(&self) -> u64 {
        self.0
    }
}

impl Timestamp {
    /// The timestamp `t` seconds after the epoch.
    pub fn from_unix_time(t: u64) -> (r: Timestamp)
        ensures
            r@ == t,
    {
        Timestamp(t)
    }
}

/// Flags of a node.
#[derive(Debug, Clone, Copy, PartialEq, Eq, Structural)]
pub struct Metadata {
    readonly: bool,
    modified: Timestamp,
}

impl Metadata {
    /// Flags with these values.
    pub fn new(readonly: bool, modified: Timestamp) -> (r: Metadata)
        ensures
            r.readonly() == readonly,
            r.modified() == modified,
    {
        Metadata { readonly, modified }
    }

    /// Whether the node is read-only.
    pub closed spec fn readonly(&self) -> bool {
        self.readonly
    }

    /// The modification time.
    pub closed spec fn modified(&self) -> Timestamp {
        self.modified
    }
}

/// A node of the tree.
#[derive(Debug, PartialEq, Eq)]
pub enum FsEntry {
    Dir(DirEntry),
    File(FileEntry),
}

/// A directory and its children.
#[derive(Debug, PartialEq, Eq)]
pub struct DirEntry {
    path: String,
    meta: Metadata,
    childlen: Vec<FsEntry>,
}

/// A regular file.
#[derive(Debug, PartialEq, Eq)]
pub struct FileEntry {
    path: String,
    meta: Metadata,
}

impl DirEntry {
    /// A directory without children.
    pub fn new(path: String, meta: Metadata) -> (r: DirEntry)
        ensures
            r.path_view() == path@,
            r.meta() == meta,
            r.children() == Seq::<FsEntry>::empty(),
    {
        DirEntry { path, meta, childlen: Vec::new() }
    }

    /// The flags.
    pub closed spec fn meta(&self) -> Metadata {
        self.meta
    }

    /// The children, in the order added.
    pub closed spec fn children(&self) -> Seq<FsEntry> {
        self.childlen@
    }

    /// The path, as a value.
    pub closed spec fn path_view(&self) -> Seq<char> {
        self.path@
    }

    /// Adds a child at the end.
    pub fn append(&mut self, ch: FsEntry)
        ensures
            final(self).children() == old(self).children().push(ch),
            final(self).path_view() == old(self).path_view(),
            final(self).meta() == old(self).meta(),
    {
        self.childlen.push(ch);
    }

    /// The path from the scan origin.
    pub fn path(&self) -> (r: &str)
        ensures
            r@ == self.path_view(),
    {
        self.path.as_str()
    }
}

impl FileEntry {
    /// The flags.
    pub closed spec fn meta(&self) -> Metadata {
        self.meta
    }

    /// A file node.
    pub fn new(path: String, meta: Metadata) -> (r: FileEntry)
        ensures
            r.path_view() == path@,
            r.meta() == meta,
    {
        FileEntry { path, meta }
    }

    /// The path, as a value.
    pub closed spec fn path_view(&self) -> Seq<char> {
        self.path@
    }

    /// The path from the scan origin.
    pub fn path(&self) -> (r: &str)
        ensures
            r@ == self.path_view(),
    {
        self.path.as_str()
    }
}

impl FsEntry {
    /// The path from the scan origin.
    pub fn path(&self) -> (r: &str)
        ensures
            r@ == match self {
                FsEntry::Dir(d) => d.path_view(),
                FsEntry::File(f) => f.path_view(),
            },
    {
        match self {
            FsEntry::Dir(d) => d.path(),
            FsEntry::File(f) => f.path(),
        }
    }
}

} // verus!
