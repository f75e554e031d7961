//! The decisions of an incremental scan: what is reused from the previous
//! snapshot, what gets hashed, and which failures skip a node.

use vstd::prelude::*;

use crate::entry::{
    AttrView, Attributes, DirEntry, DirHash, EntryKind, FileHash, FsHash, FsHashView,
    SymlinkEntry, SymlinkHash,
};
use crate::hash::{HashID, hash_id_of};
use crate::ignore::IgnoreError;
use crate::repo::{Bank, RepoError};
use crate::timestamp::{Timestamp, TimestampError};

verus! {

/// A failure while scanning.
#[derive(Debug)]
pub enum ScanError {
    /// Encoding an entry failed.
    Encode(String),
    /// The exclusion rules could not be applied.
    Ignore(IgnoreError),
    /// Reading a node was refused: the node is left out.
    PermissionDenied(String),
    /// Another input or output failure.
    IO(String),
    /// A path has no last component: the path is given.
    NameIsEmpty(String),
    /// A name or link target is not valid Unicode: the path is given.
    NameIsInvalidUnicode(String),
    /// The repository failed.
    Repo(RepoError),
    /// A time earlier than the epoch.
    Timestamp(TimestampError),
}

/// Scans a bank's source directory into its object store.
#[derive(Debug)]
pub struct Scanner {
    bank: Bank,
}

impl View for Scanner {
    type V = crate::repo::BankView;

    closed spec fn view(&self) -> crate::repo::BankView {
        self.bank@
    }
}

impl Scanner {
    /// A scanner for this bank.
    pub fn new(bank: Bank) -> (r: Scanner)
        ensures
            r@ == bank@,
    {
        Scanner { bank }
    }

    /// The bank scanned.
    pub fn bank(&self) -> (r: &Bank)
        ensures
            r@ == self@,
    {
        &self.bank
    }

    /// The attributes of a node from what its metadata says: fails when the
    /// path has no last component.
    pub fn attributes(
        path: &str,
        name: Option<String>,
        readonly: bool,
        modified: Timestamp,
    ) -> (r: Result<Attributes, ScanError>)
        ensures
            match name {
                Some(n) => r matches Ok(a) && a@ == (AttrView { name: n@, readonly, modified: modified@ }),
                None => r matches Err(ScanError::NameIsEmpty(p)) && p@ == path@,
            },
    {
        match name {
            Some(n) => Ok(Attributes::new(n, readonly, modified)),
            None => Err(ScanError::NameIsEmpty(path.to_owned())),
        }
    }

    /// The incremental fast path: the previous snapshot's reference to a
    /// file is reused when it is a file with the same modification time.
    pub fn reuse_file(prior: Option<&FsHash>, attr: &Attributes) -> (r: Option<FsHash>)
        ensures
            match prior {
                Some(p) => if p@.kind is File && p@.attr.modified == attr@.modified {
                    r matches Some(h) && h@ == p@
                } else {
                    r is None
                },
                None => r is None,
            },
    {
        match prior {
            Some(FsHash::File(f)) => {
                if f.attr().modified().unix_epoch() == attr.modified().unix_epoch() {
                    Some(FsHash::File(f.clone()))
                } else {
                    None
                }
            },
            _ => None,
        }
    }

    /// The reference to a file whose contents are `content`.
    pub fn hash_file(attr: Attributes, content: &[u8]) -> (r: FsHash)
        ensures
            r@ == (FsHashView { kind: EntryKind::File, attr: attr@, id: hash_id_of(content@) }),
    {
        FsHash::File(FileHash::new(attr, HashID::of_bytes(content)))
    }

    /// The reference to a directory entry whose encoding is `encoded`.
    pub fn hash_dir(entry: &DirEntry, encoded: &[u8]) -> (r: FsHash)
        ensures
            r@ == (FsHashView { kind: EntryKind::Dir, attr: entry@.attr, id: hash_id_of(encoded@) }),
    {
        FsHash::Dir(DirHash::new(entry.attr().clone(), HashID::of_bytes(encoded)))
    }

    /// The reference to a link entry whose encoding is `encoded`.
    pub fn hash_symlink(entry: &SymlinkEntry, encoded: &[u8]) -> (r: FsHash)
        ensures
            r@ == (FsHashView { kind: EntryKind::Symlink, attr: entry@.attr, id: hash_id_of(encoded@) }),
    {
        FsHash::Symlink(SymlinkHash::new(entry.attr().clone(), HashID::of_bytes(encoded)))
    }

    /// The outcome of scanning one node: a refused read leaves the node out
    /// of its parent, and any other failure stops the scan.
    pub fn settle_node(r: Result<Option<FsHash>, ScanError>) -> (out: Result<Option<FsHash>, ScanError>)
        ensures
            r matches Err(ScanError::PermissionDenied(_)) ==> out matches Ok(None),
            !(r matches Err(ScanError::PermissionDenied(_))) ==> out == r,
    {
        match r {
            Ok(v) => Ok(v),
            Err(ScanError::PermissionDenied(_)) => Ok(None),
            Err(e) => Err(e),
        }
    }
}

} // verus!
