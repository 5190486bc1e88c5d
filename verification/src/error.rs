//! The error type the server core reports when a request cannot be
//! carried to a response.
use vstd::prelude::*;

verus! {

/// What went wrong while serving: text that is not UTF-8, an input or
/// output failure, a number that would not parse, or something unforeseen.
#[derive(Clone, Copy, PartialEq, Eq, Structural, Debug)]
pub enum ServerError {
    ParseUtf8Error,
    IOError,
    ParseIntError,
    UnknownError,
}

impl ServerError {
    /// A short description of the error.
    pub fn message(&self) -> (r: &'static str) {
        match self {
            ServerError::ParseUtf8Error => "request data is not valid UTF-8",
            ServerError::IOError => "input or output failed",
            ServerError::ParseIntError => "a number would not parse",
            ServerError::UnknownError => "unknown error",
        }
    }
}

} // verus!
