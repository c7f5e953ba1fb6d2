//! The failures that the library reports.

use vstd::prelude::*;
use crate::text::{decimal, decimal_spec};

verus! {

/// What went wrong with one entry of an archive.
#[derive(Clone, Copy, Debug, PartialEq, Eq, Structural)]
pub enum EntryFault {
    /// The archive would not hand the entry out.
    Inaccessible,
    /// The entry's name is absolute or climbs out of the destination.
    UnsafeName,
    /// The entry's content could not be decoded.
    Unreadable,
    /// The directory for the entry could not be created.
    CreateDirectory,
    /// The file for the entry could not be created.
    CreateFile,
    /// The entry's content could not be written out in full.
    Write,
}

/// A failure, with the path or detail that it is about.
#[derive(Clone, Debug, PartialEq, Eq)]
pub enum Error {
    /// The path names nothing.
    NotFound(String),
    /// The path names something that is not a directory.
    NotADirectory(String),
    /// Access to the path was refused.
    PermissionDenied(String),
    /// Reading, writing or creating failed; the text says how.
    IOError(String),
    /// The archive at the path could not be read.
    ArchiveOpenError(String),
    /// The bytes are not an archive that can be decoded; the text says why.
    ArchiveParseError(String),
    /// The entry with this index in the archive failed in this way; the
    /// text gives the cause, or the name that was refused.
    ArchiveEntryError(usize, EntryFault, String),
}

/// An [`Error`] with its texts as sequences of characters.
pub enum ErrorView {
    NotFound(Seq<char>),
    NotADirectory(Seq<char>),
    PermissionDenied(Seq<char>),
    IOError(Seq<char>),
    ArchiveOpenError(Seq<char>),
    ArchiveParseError(Seq<char>),
    ArchiveEntryError(usize, EntryFault, Seq<char>),
}

impl View for Error {
    type V = ErrorView;

    open spec fn view(&self) -> ErrorView {
        match *self {
            Error::NotFound(path) => ErrorView::NotFound(path@),
            Error::NotADirectory(path) => ErrorView::NotADirectory(path@),
            Error::PermissionDenied(path) => ErrorView::PermissionDenied(path@),
            Error::IOError(detail) => ErrorView::IOError(detail@),
            Error::ArchiveOpenError(path) => ErrorView::ArchiveOpenError(path@),
            Error::ArchiveParseError(cause) => ErrorView::ArchiveParseError(cause@),
            Error::ArchiveEntryError(index, fault, cause) => ErrorView::ArchiveEntryError(
                index,
                fault,
                cause@,
            ),
        }
    }
}

/// What a fault is called in a message.
pub open spec fn fault_text(fault: EntryFault) -> Seq<char> {
    match fault {
        EntryFault::Inaccessible => "Failed to access zip entry "@,
        EntryFault::UnsafeName => "Refused unsafe path of zip entry "@,
        EntryFault::Unreadable => "Failed to read zip entry "@,
        EntryFault::CreateDirectory => "Failed to create directory for zip entry "@,
        EntryFault::CreateFile => "Failed to create file for zip entry "@,
        EntryFault::Write => "Failed to write file for zip entry "@,
    }
}

/// The message for a failure: what went wrong, followed by the path, the
/// detail, or the index and the cause that the failure carries.
pub open spec fn message_spec(e: ErrorView) -> Seq<char> {
    match e {
        ErrorView::NotFound(path) => "Path does not exist: "@ + path,
        ErrorView::NotADirectory(path) => "Path is not a directory: "@ + path,
        ErrorView::PermissionDenied(path) => "Permission denied: "@ + path,
        ErrorView::IOError(detail) => detail,
        ErrorView::ArchiveOpenError(path) => "Failed to open zip file: "@ + path,
        ErrorView::ArchiveParseError(cause) => "Failed to parse zip: "@ + cause,
        ErrorView::ArchiveEntryError(index, fault, cause) => fault_text(fault) + decimal_spec(
            index as nat,
        ) + ": "@ + cause,
    }
}

impl EntryFault {
    /// What the fault is called in a message.
    pub fn text(&self) -> (text: &'static str)
        ensures
            text@ == fault_text(*self),
    {
        match self {
            EntryFault::Inaccessible => "Failed to access zip entry ",
            EntryFault::UnsafeName => "Refused unsafe path of zip entry ",
            EntryFault::Unreadable => "Failed to read zip entry ",
            EntryFault::CreateDirectory => "Failed to create directory for zip entry ",
            EntryFault::CreateFile => "Failed to create file for zip entry ",
            EntryFault::Write => "Failed to write file for zip entry ",
        }
    }
}

impl Error {
    /// The message that describes the failure to the user.
    pub fn message(&self) -> (text: String)
        ensures
            text@ == message_spec(self@),
    {
        match self {
            Error::NotFound(path) => String::from_str("Path does not exist: ").concat(
                path.as_str(),
            ),
            Error::NotADirectory(path) => String::from_str("Path is not a directory: ").concat(
                path.as_str(),
            ),
            Error::PermissionDenied(path) => String::from_str("Permission denied: ").concat(
                path.as_str(),
            ),
            Error::IOError(detail) => detail.clone(),
            Error::ArchiveOpenError(path) => String::from_str("Failed to open zip file: ").concat(
                path.as_str(),
            ),
            Error::ArchiveParseError(cause) => String::from_str("Failed to parse zip: ").concat(
                cause.as_str(),
            ),
            Error::ArchiveEntryError(index, fault, cause) => {
                let number = decimal(*index);
                String::from_str(fault.text()).concat(number.as_str()).concat(": ").concat(
                    cause.as_str(),
                )
            },
        }
    }
}

} // verus!
