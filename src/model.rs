//! Identifiers and records of the stored data model.

use vstd::prelude::*;

use crate::hash::{hex_encode, hex_of};
use crate::timestamp::Timestamp;

verus! {

/// The identifier of stored data: the hexadecimal text of a digest.
#[derive(Debug, Clone, PartialEq, Eq, PartialOrd, Ord, Hash)]
pub struct HashId(String);

impl View for HashId {
    type V = Seq<char>;

    closed spec fn view(&self) -> Seq<char> {
        self.0@
    }
}

impl HashId {
    /// The identifier of digest bytes: two lowercase hexadecimal digits per byte.
    pub fn from_bytes(bs: &[u8]) -> (r: HashId)
        ensures
            r@ == hex_of(bs@),
    {
        HashId(hex_encode(bs))
    }

    /// The hexadecimal text.
    pub fn as_str(&self) -> (r: &str)
        ensures
            r@ == self@,
    {
        self.0.as_str()
    }
}

/// A stored file.
#[derive(Debug, Clone)]
pub struct FileData {
    modified: Timestamp,
    data_id: HashId,
    size: u64,
}

impl FileData {
    /// A record with these values.
    pub fn new(modified: Timestamp, data_id: HashId, size: u64) -> (r: FileData)
        ensures
            r.data_id_view() == data_id@,
            r.modified() == modified,
            r.size() == size,
    {
        FileData { modified, data_id, size }
    }

    /// The modification time.
    pub closed spec fn modified(&self) -> Timestamp {
        self.modified
    }

    /// The size in bytes.
    pub closed spec fn size(&self) -> u64 {
        self.size
    }

    /// The id of the file's contents.
    pub fn data_id(&self) -> (r: &HashId)
        ensures
            r@ == self.data_id_view(),
    {
        &self.data_id
    }

    /// The id, as a value.
    pub closed spec fn data_id_view(&self) -> Seq<char> {
        self.data_id@
    }
}

/// A stored folder: the id of its node list.
#[derive(Debug, Clone)]
pub struct DirData {
    data_id: HashId,
    node_count: u64,
}

impl DirData {
    /// A record with these values.
    pub fn new(data_id: HashId, node_count: u64) -> (r: DirData)
        ensures
            r.data_id_view() == data_id@,
            r.node_count() == node_count,
    {
        DirData { data_id, node_count }
    }

    /// The number of nodes in the folder.
    pub closed spec fn node_count(&self) -> u64 {
        self.node_count
    }

    /// The id of the folder's node list.
    pub fn data_id(&self) -> (r: &HashId)
        ensures
            r@ == self.data_id_view(),
    {
        &self.data_id
    }

    /// The id, as a value.
    pub closed spec fn data_id_view(&self) -> Seq<char> {
        self.data_id@
    }
}

} // verus!
