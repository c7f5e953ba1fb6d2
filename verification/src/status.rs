//! What a path names, and the checks that an action makes before it starts.

use vstd::prelude::*;
use crate::error::{Error, ErrorView};

verus! {

/// What a path names at the moment it is looked at.
#[derive(Clone, Copy, Debug, PartialEq, Eq, Structural)]
pub enum PathStatus {
    /// Nothing is there.
    Missing,
    /// Something that is not a directory.
    File,
    /// A directory.
    Directory,
}

/// The status that two probes of a path add up to.
pub open spec fn status_of(exists: bool, is_directory: bool) -> PathStatus {
    if !exists {
        PathStatus::Missing
    } else if is_directory {
        PathStatus::Directory
    } else {
        PathStatus::File
    }
}

/// What the check for an existing path comes to.
pub open spec fn existing_check(path: Seq<char>, status: PathStatus) -> Result<(), ErrorView> {
    match status {
        PathStatus::Missing => Err(ErrorView::NotFound(path)),
        _ => Ok(()),
    }
}

/// What the check for a directory comes to.
pub open spec fn directory_check(path: Seq<char>, status: PathStatus) -> Result<(), ErrorView> {
    match status {
        PathStatus::Missing => Err(ErrorView::NotFound(path)),
        PathStatus::File => Err(ErrorView::NotADirectory(path)),
        PathStatus::Directory => Ok(()),
    }
}

/// The status of a path from whether it exists and whether it is a
/// directory. Nothing that does not exist is a directory.
pub fn path_status(exists: bool, is_directory: bool) -> (status: PathStatus)
    ensures
        status == status_of(exists, is_directory),
{
    if !exists {
        PathStatus::Missing
    } else if is_directory {
        PathStatus::Directory
    } else {
        PathStatus::File
    }
}

/// Accepts a path that names something, and reports one that names nothing.
pub fn require_existing(path: &str, status: PathStatus) -> (checked: Result<(), Error>)
    ensures
        existing_check(path@, status) == (match checked {
            Ok(_) => Ok::<(), ErrorView>(()),
            Err(e) => Err::<(), ErrorView>(e@),
        }),
{
    match status {
        PathStatus::Missing => Err(Error::NotFound(String::from_str(path))),
        _ => Ok(()),
    }
}

/// Accepts a path that names a directory, and reports one that names
/// nothing or something else.
pub fn require_directory(path: &str, status: PathStatus) -> (checked: Result<(), Error>)
    ensures
        directory_check(path@, status) == (match checked {
            Ok(_) => Ok::<(), ErrorView>(()),
            Err(e) => Err::<(), ErrorView>(e@),
        }),
{
    match status {
        PathStatus::Missing => Err(Error::NotFound(String::from_str(path))),
        PathStatus::File => Err(Error::NotADirectory(String::from_str(path))),
        PathStatus::Directory => Ok(()),
    }
}

} // verus!
