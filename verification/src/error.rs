//! Error taxonomy shared by the store, the resolver and the engine.

use vstd::prelude::*;

verus! {

/// The kinds of failure the library reports.
#[derive(Clone, Copy, Debug, PartialEq, Eq, Structural)]
pub enum ErrorKind {
    /// A profile or a binding that was asked for does not exist,
    /// or no repository marker was found for a path.
    NotFound,
    /// A profile with the given id already exists.
    AlreadyExists,
    /// A field is not allowed for the profile's stored authentication mode,
    /// or a piece of text could not be understood.
    InvalidData,
    /// A path argument is unusable (missing, or not a repository).
    InvalidInput,
    /// An input/output step failed; raised only by unverified callers.
    IOFailure,
}

/// An error: a kind plus a human-readable message.
#[derive(Debug)]
pub struct Error {
    pub kind: ErrorKind,
    pub message: String,
}

impl Error {
    pub fn new(kind: ErrorKind, message: String) -> (e: Error)
        ensures
            e.kind == kind,
            e.message@ == message@,
    {
        Error { kind, message }
    }

    pub fn kind(&self) -> (k: ErrorKind)
        ensures
            k == self.kind,
    {
        self.kind
    }

    pub fn message(&self) -> (m: String)
        ensures
            m@ == self.message@,
    {
        self.message.clone()
    }
}

} // verus!
