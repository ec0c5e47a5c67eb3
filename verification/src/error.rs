//! Typed outcomes of filesystem calls and of record-store operations.

use vstd::prelude::*;

verus! {

/// Why a filesystem call was refused.
#[derive(Clone, Copy, Debug, PartialEq, Eq, Structural)]
pub enum FsError {
    /// The name or inode is not in the catalog.
    NotFound,
    /// The name is longer than the namespace allows.
    NameTooLong,
    /// A file of that name already exists.
    AlreadyExists,
    /// The parent is not the root directory.
    BadParent,
    /// The call asked to change a file's size.
    OperationNotSupported,
    /// The store could not apply an attribute update.
    InvalidArgument,
    /// The directory handle is not the one of the open session.
    InvalidHandle,
    /// The store failed, or a payload was not text.
    Io,
}

/// Why a record-store operation was refused.
#[derive(Clone, Copy, Debug, PartialEq, Eq, Structural)]
pub enum StoreError {
    /// No catalog row matches.
    NotFound,
    /// The name is already mapped.
    AlreadyExists,
    /// The storage layer itself failed.
    Failure,
}

} // verus!
