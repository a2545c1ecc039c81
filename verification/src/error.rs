//! The library's error type.
use vstd::prelude::*;

verus! {

/// An operation failed; the text says why.
#[derive(Debug)]
pub enum Error {
    /// A failure reported with a message.
    Msg(String),
    /// Input that could not be read.
    Invalid(String),
}

impl Error {
    /// An error carrying `text`.
    pub fn msg(text: String) -> (e: Error)
        ensures
            e == Error::Msg(text),
    {
        Error::Msg(text)
    }

    /// The text of the error.
    pub fn message(&self) -> (r: &str)
        ensures
            r@ == match self {
                Error::Msg(t) => t@,
                Error::Invalid(t) => t@,
            },
    {
        match self {
            Error::Msg(t) => t.as_str(),
            Error::Invalid(t) => t.as_str(),
        }
    }
}

} // verus!
