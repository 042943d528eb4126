//! The crate's error type: two kinds suffice for the whole pipeline.

use vstd::prelude::*;

verus! {

/// The list of the possible error kinds.
#[derive(Debug, Clone, Copy, PartialEq, Eq, Structural)]
pub enum ErrorKind {
    /// Caller-side misuse: a non-directory root, unsupported mask bits,
    /// non-UTF-8 bytes where text was required.
    InvalidInput,
    /// Everything else: a failed kernel call, an I/O error, a disconnected
    /// channel peer.
    Other,
}

/// An error carrying one of the two kinds.
#[derive(Debug, Clone, Copy, PartialEq, Eq, Structural)]
pub struct Error {
    pub kind: ErrorKind,
}

impl Error {
    /// Makes an error of the given kind.
    pub fn new(kind: ErrorKind) -> (r: Error)
        ensures
            r.kind == kind,
    {
        Error { kind }
    }

    /// The kind of this error.
    pub fn kind(&self) -> (r: ErrorKind)
        ensures
            r == self.kind,
    {
        self.kind
    }
}

} // verus!
