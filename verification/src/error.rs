//! The errors that the store reports.

use vstd::prelude::*;

verus! {

/// What went wrong in the operating system, as far as the store's rules
/// tell failures apart.
#[derive(Debug, Clone, Copy, PartialEq, Eq, Structural)]
pub enum IoErrorKind {
    /// The file or directory does not exist.
    NotFound,
    /// The name is already taken.
    AlreadyExists,
    /// A lock is held by someone else.
    WouldBlock,
    /// An argument was refused.
    InvalidInput,
    /// Any other failure.
    Other,
}

/// The failures of the store.
#[derive(Debug, Clone, Copy, PartialEq, Eq, Structural)]
pub enum Error {
    /// The manifest has no row for the key.
    NoSuchKey,
    /// The operating system failed a file operation.
    Io(IoErrorKind),
    /// The manifest failed a query or a commit.
    Manifest,
    /// An offset or a length does not fit the integer type that has to carry it.
    Conversion,
    /// A number of milliseconds is no point in time that a timestamp can hold.
    TimestampOutOfRange(i64),
    /// A state machine was handed an event that it was not waiting for.
    UnexpectedEvent,
    /// A hole was punched, and data is still found inside it.
    HoleNotPunched,
    /// A value file is already held where it was to be put.
    FileHeldTwice,
    /// A snapshot needs a clone of a value file, and none was made.
    CloneMissing,
    /// A clone of a value file is shorter than a value that is read from it.
    CloneTooShort,
}

impl Error {
    /// The kind of operating system failure that this error is reported as.
    pub open spec fn spec_kind(self) -> IoErrorKind {
        match self {
            Error::NoSuchKey => IoErrorKind::NotFound,
            Error::Io(kind) => kind,
            Error::Conversion => IoErrorKind::InvalidInput,
            Error::TimestampOutOfRange(_) => IoErrorKind::InvalidInput,
            Error::UnexpectedEvent => IoErrorKind::InvalidInput,
            Error::Manifest => IoErrorKind::Other,
            Error::HoleNotPunched => IoErrorKind::Other,
            Error::FileHeldTwice => IoErrorKind::AlreadyExists,
            Error::CloneMissing => IoErrorKind::NotFound,
            Error::CloneTooShort => IoErrorKind::Other,
        }
    }

    /// The kind of operating system failure that this error is reported as.
    pub fn kind(&self) -> (kind: IoErrorKind)
        ensures
            kind == self.spec_kind(),
    {
        match self {
            Error::NoSuchKey => IoErrorKind::NotFound,
            Error::Io(kind) => *kind,
            Error::Conversion => IoErrorKind::InvalidInput,
            Error::TimestampOutOfRange(_) => IoErrorKind::InvalidInput,
            Error::UnexpectedEvent => IoErrorKind::InvalidInput,
            Error::Manifest => IoErrorKind::Other,
            Error::HoleNotPunched => IoErrorKind::Other,
            Error::FileHeldTwice => IoErrorKind::AlreadyExists,
            Error::CloneMissing => IoErrorKind::NotFound,
            Error::CloneTooShort => IoErrorKind::Other,
        }
    }
}

} // verus!
