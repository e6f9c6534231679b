//! The error type surfaced by the fallible operations of the tracker.

use vstd::prelude::*;

verus! {

/// An operation failed: a malformed status name, a missing task, a violated
/// start/stop precondition. The message says which.
#[derive(Debug)]
pub enum Error {
    Generic(String),
}

impl Error {
    /// The human-readable message carried by this error.
    pub fn message(&self) -> (r: &str)
        ensures
            self matches Error::Generic(m) && r@ == m@,
    {
        match self {
            Error::Generic(m) => m.as_str(),
        }
    }
}

} // verus!
