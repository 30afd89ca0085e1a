//! Numerical failures reported by the decompositions.
use vstd::prelude::*;

verus! {

/// The category of a numerical failure.
#[derive(Clone, Copy, Debug, PartialEq, Eq, Structural)]
pub enum ErrorKind {
    /// The decomposition cannot proceed on this input.
    DecompFailure,
    /// A pivot is zero to working precision.
    DivByZero,
}

/// A numerical failure: its category and a human-readable explanation.
#[derive(Clone, Debug)]
pub struct Error {
    pub kind: ErrorKind,
    pub description: String,
}

impl Error {
    /// A failure of the given kind with the given explanation.
    pub fn new(kind: ErrorKind, description: &str) -> (r: Error)
        ensures
            r.kind == kind,
            r.description@ == description@,
    {
        Error { kind, description: String::from_str(description) }
    }
}

} // verus!
