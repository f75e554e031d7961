//! Content-addressed, incremental directory backup engine.
//!
//! The library holds the logic of the engine: the hash identifiers of
//! stored objects, the snapshot tree model, the gitignore-style exclusion
//! rules, the bookkeeping of bank histories and the decisions taken while
//! scanning and restoring a tree. Reading and writing the filesystem is left
//! to the caller, which hands plain values in and takes plain values back.

pub mod config;
pub mod entry;
pub mod extend;
pub mod fs_tree;
pub mod hash;
pub mod ignore;
pub mod model;
pub mod parser;
pub mod pattern;
pub mod repo;
pub mod scan;
pub mod text;
pub mod timestamp;
