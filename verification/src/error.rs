//! Failure taxonomy of the core, and the single message-carrying error
//! that crosses the service boundary.

use vstd::prelude::*;

verus! {

/// The internal failure kinds. At the service boundary they all collapse
/// to a [`Error`] carrying only a human-readable message.
#[derive(Clone, Copy, PartialEq, Eq, Structural, Debug)]
pub enum ErrorKind {
    /// A referenced filesystem or subvolume is absent.
    NotFound,
    /// The destination path is already occupied.
    Conflict,
    /// The operation was refused because of the current mount or usage state.
    Busy,
    /// The operation requires an active filesystem selection that is absent.
    NoActiveFilesystem,
    /// The filesystem driver reported a failure.
    Operation,
    /// Enumeration of filesystems or devices failed or produced bad data.
    Discovery,
}

/// The error representation presented to external callers: a message string.
#[derive(Debug)]
pub struct Error {
    msg: String,
}

impl View for Error {
    type V = Seq<char>;

    closed spec fn view(&self) -> Seq<char> {
        self.msg@
    }
}

impl Error {
    /// Builds an error carrying the given message.
    pub fn new(msg: String) -> (e: Error)
        ensures
            e@ == msg@,
    {
        Error { msg }
    }

    /// The message carried by this error.
    pub fn message(&self) -> (m: &String)
        ensures
            m@ == self@,
    {
        &self.msg
    }
}

/// The message text under which each internal failure kind is reported
/// at the service boundary.
pub open spec fn error_message(k: ErrorKind) -> Seq<char> {
    match k {
        ErrorKind::NotFound => "subvolume or filesystem not found"@,
        ErrorKind::Conflict => "destination path is already occupied"@,
        ErrorKind::Busy => "resource is busy"@,
        ErrorKind::NoActiveFilesystem => "no filesystem is selected"@,
        ErrorKind::Operation => "filesystem driver reported an error"@,
        ErrorKind::Discovery => "filesystem discovery failed"@,
    }
}

/// Renders an internal failure kind as the boundary error.
pub fn render_error(k: ErrorKind) -> (e: Error)
    ensures
        e@ == error_message(k),
{
    match k {
        ErrorKind::NotFound => Error::new("subvolume or filesystem not found".to_owned()),
        ErrorKind::Conflict => Error::new("destination path is already occupied".to_owned()),
        ErrorKind::Busy => Error::new("resource is busy".to_owned()),
        ErrorKind::NoActiveFilesystem => Error::new("no filesystem is selected".to_owned()),
        ErrorKind::Operation => Error::new("filesystem driver reported an error".to_owned()),
        ErrorKind::Discovery => Error::new("filesystem discovery failed".to_owned()),
    }
}

} // verus!
