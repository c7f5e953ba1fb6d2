//! Deciding how a path is to be removed.

use vstd::prelude::*;
use crate::status::PathStatus;

verus! {

/// The single file-system operation that removes a path.
#[derive(Clone, Copy, Debug, PartialEq, Eq, Structural)]
pub enum RemovalAction {
    /// The path is already gone: nothing to do, and that is success.
    Nothing,
    /// Delete one file.
    RemoveFile,
    /// Delete one directory, which must be empty.
    RemoveDirectory,
    /// Delete a directory with everything below it.
    RemoveTree,
}

/// The action that removes a path of the given status.
pub open spec fn removal_of(status: PathStatus, recursive: bool) -> RemovalAction {
    match status {
        PathStatus::Missing => RemovalAction::Nothing,
        PathStatus::File => RemovalAction::RemoveFile,
        PathStatus::Directory => if recursive {
            RemovalAction::RemoveTree
        } else {
            RemovalAction::RemoveDirectory
        },
    }
}

/// Chooses how to remove a path. A missing path needs no action, a file is
/// deleted whatever `recursive` says, and a directory is deleted with its
/// contents only when `recursive` is set.
pub fn remove_path(status: PathStatus, recursive: bool) -> (action: RemovalAction)
    ensures
        action == removal_of(status, recursive),
        status == PathStatus::Missing ==> action == RemovalAction::Nothing,
{
    match status {
        PathStatus::Missing => RemovalAction::Nothing,
        PathStatus::File => RemovalAction::RemoveFile,
        PathStatus::Directory => {
            if recursive {
                RemovalAction::RemoveTree
            } else {
                RemovalAction::RemoveDirectory
            }
        },
    }
}

} // verus!
