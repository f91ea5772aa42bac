//! Telling files, directories and missing targets apart.

use vstd::prelude::*;

verus! {

/// What a successful metadata query reports about a path.
#[derive(Clone, Copy, Debug, PartialEq, Eq, Structural)]
pub struct Metadata {
    /// The path names a directory.
    pub is_dir: bool,
}

/// What a resolved path turns out to be.
#[derive(Clone, Copy, Debug, PartialEq, Eq, Structural)]
pub enum EntryKind {
    /// The metadata could not be read, for whatever reason.
    Missing,
    /// Anything that is there and is not a directory.
    File,
    /// A directory.
    Directory,
}

/// The kind that a metadata query stands for; `None` is a failed query.
pub open spec fn kind_of(metadata: Option<Metadata>) -> EntryKind {
    match metadata {
        None => EntryKind::Missing,
        Some(found) => if found.is_dir {
            EntryKind::Directory
        } else {
            EntryKind::File
        },
    }
}

/// Classifies a path by the outcome of its metadata query. Every failure of
/// the query, whatever its cause, counts as `Missing`.
pub fn classify(metadata: Option<Metadata>) -> (kind: EntryKind)
    ensures
        kind == kind_of(metadata),
{
    match metadata {
        None => EntryKind::Missing,
        Some(found) => if found.is_dir {
            EntryKind::Directory
        } else {
            EntryKind::File
        },
    }
}

} // verus!
