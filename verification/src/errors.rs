//! Per-entry failures of the renaming engine. None is fatal to a run: each is
//! reported and the batch continues with the next entry.

use vstd::prelude::*;

verus! {

/// What can go wrong while processing a single root, directory or file.
#[derive(Clone, Copy, PartialEq, Eq, Structural, Debug)]
pub enum RenameError {
    /// A user-supplied root path does not exist.
    PathNotFound,
    /// A directory could not be listed; its subtree is skipped.
    DirectoryReadError,
    /// A file's creation time could not be obtained; the file is skipped.
    MetadataReadError,
    /// The rename call failed; the file is left in its original state.
    RenameIoError,
    /// The file vanished between discovery and rename.
    RaceNotFound,
}

pub open spec fn message_of(e: RenameError) -> Seq<char> {
    match e {
        RenameError::PathNotFound => "path not found"@,
        RenameError::DirectoryReadError => "directory could not be read"@,
        RenameError::MetadataReadError => "file metadata could not be read"@,
        RenameError::RenameIoError => "rename failed"@,
        RenameError::RaceNotFound => "file vanished before rename"@,
    }
}

impl RenameError {
    /// A human-readable description of the failure.
    pub fn message(&self) -> (r: String)
        ensures
            r@ == message_of(*self),
    {
        match self {
            RenameError::PathNotFound => String::from_str("path not found"),
            RenameError::DirectoryReadError => String::from_str("directory could not be read"),
            RenameError::MetadataReadError => String::from_str("file metadata could not be read"),
            RenameError::RenameIoError => String::from_str("rename failed"),
            RenameError::RaceNotFound => String::from_str("file vanished before rename"),
        }
    }
}

} // verus!
