//! The types of the data source registry, which has no methods yet.

use vstd::prelude::*;

use crate::table::ByteMap;

verus! {

/// The name of a file.
#[derive(Debug, PartialEq, Eq)]
pub struct Filename(pub Vec<u8>);

/// A content identifier.
#[derive(Debug, PartialEq, Eq)]
pub struct CID(pub Vec<u8>);

/// A predicate that opens a file.
#[derive(Debug, PartialEq, Eq)]
pub struct Predicate(pub Vec<u8>);

/// What is registered for a file.
#[derive(Debug, PartialEq, Eq)]
pub struct Entry {
    pub cid: CID,
    pub predicate: Vec<u8>,
}

/// What is registered for a file.
pub struct EntryView {
    pub cid: Seq<u8>,
    pub predicate: Seq<u8>,
}

impl View for Entry {
    type V = EntryView;

    open spec fn view(&self) -> EntryView {
        EntryView { cid: self.cid.0@, predicate: self.predicate@ }
    }
}

/// Why the registry refuses a call.
#[derive(Debug, PartialEq, Eq, Structural, Clone, Copy)]
pub enum DatasourceRegistryError {
    FilenameAlreadyExists,
    FilenameNotFound,
    Unauthorized,
}

/// The registry.
pub struct PredicateRegistry {
    /// What is registered for each file.
    pub predicate_registry: ByteMap<Entry>,
    /// All registered files.
    pub filenames: Vec<Filename>,
    /// Decryption requests, first come first served.
    pub decryption_request_pool: Vec<Vec<u8>>,
}

} // verus!
