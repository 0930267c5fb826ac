//! Errors reported by the log.

use std::io::ErrorKind;
use vstd::prelude::*;
use vstd::string::StringExecFns;

verus! {

/// `std::io::ErrorKind`, with its variants visible.
#[verifier::external_type_specification]
pub struct ExErrorKind(std::io::ErrorKind);

/// A failed operation: what kind of failure, and a message for people.
#[derive(Debug)]
pub struct Error {
    /// The kind of failure, as the operating system interface classifies it.
    pub kind: ErrorKind,
    /// What went wrong.
    pub message: String,
}

impl Error {
    /// Creates an error of the given kind.
    pub fn new(kind: ErrorKind, message: &str) -> (r: Self)
        ensures
            r.kind == kind,
            r.message@ == message@,
    {
        Error { kind, message: String::from_str(message) }
    }

    /// Returns the kind of failure.
    pub fn kind(&self) -> (r: ErrorKind)
        ensures
            r == self.kind,
    {
        self.kind
    }

    /// Returns the message.
    pub fn to_string(&self) -> (r: String)
        ensures
            r@ == self.message@,
    {
        self.message.clone()
    }
}

impl Clone for Error {
    fn clone(&self) -> (r: Self)
        ensures
            r == *self,
    {
        Error { kind: self.kind, message: self.message.clone() }
    }
}

/// Copies the outcome of an operation.
pub fn clone_outcome(outcome: &Result<(), Error>) -> (r: Result<(), Error>)
    ensures
        r == *outcome,
{
    match outcome {
        Ok(unit) => Ok(*unit),
        Err(error) => Err(error.clone()),
    }
}

/// Reports a file name that does not name a chunk.
#[derive(Debug, Clone, PartialEq, Eq)]
pub struct InvalidChunkFileName {
    /// The rejected name.
    pub bad_file_name: String,
    /// Why it was rejected.
    pub reason: String,
}

impl InvalidChunkFileName {
    /// Creates the error for `bad_file_name`.
    pub fn new(bad_file_name: &str, reason: &str) -> (r: Self)
        ensures
            r.bad_file_name@ == bad_file_name@,
            r.reason@ == reason@,
    {
        InvalidChunkFileName {
            bad_file_name: String::from_str(bad_file_name),
            reason: String::from_str(reason),
        }
    }
}

} // verus!
