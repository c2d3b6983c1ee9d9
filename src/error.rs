//! Errors that the library reports to its callers.
use vstd::prelude::*;

verus! {

/// What went wrong in an operation of the library.
#[derive(Debug)]
pub enum Error {
    /// The registry could not be read or written.
    Io(String),
    /// The stored registry document does not match its schema.
    Parse(String),
    /// The given text is not a well-formed address.
    Validation(String),
}

} // verus!
