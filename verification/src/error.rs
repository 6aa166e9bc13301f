use vstd::prelude::*;

verus! {

/// The failure categories of the translator and the tooling around it.
#[derive(Copy, Clone, PartialEq, Eq, Structural, Debug)]
pub enum ErrorKind {
    /// The source bytes could not be read, or the output could not be written.
    Io,
    /// The source is malformed: an invalid token or a bracket mismatch.
    InvalidInput,
    /// The completed instruction tree could not be turned into a module.
    Ice,
}

/// A failure: its kind and, where one is known, the index of the offending
/// source byte.
#[derive(Copy, Clone, Debug)]
pub struct Error {
    pub kind: ErrorKind,
    pub at: Option<usize>,
}

impl Error {
    /// The category this failure falls under.
    pub fn kind(&self) -> (k: ErrorKind)
        ensures
            k == self.kind,
    {
        self.kind
    }

    /// The index of the offending source byte, where one is known.
    pub fn position(&self) -> (p: Option<usize>)
        ensures
            p == self.at,
    {
        self.at
    }
}

impl From<ErrorKind> for Error {
    /// A failure of the given kind with no position attached.
    fn from(kind: ErrorKind) -> (e: Error) {
        Error { kind, at: None }
    }
}

impl vstd::std_specs::convert::FromSpecImpl<ErrorKind> for Error {
    open spec fn obeys_from_spec() -> bool {
        true
    }

    open spec fn from_spec(kind: ErrorKind) -> Error {
        Error { kind, at: None }
    }
}

} // verus!
