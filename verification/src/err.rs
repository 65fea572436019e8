//! The error type shared by the parsers and the event extractor.

use vstd::prelude::*;

verus! {

/// An error carrying a human-readable message.
#[derive(Debug, Clone)]
pub struct AppError {
    pub msg: String,
}

impl AppError {
    /// Wraps a message into an error.
    pub fn new(msg: String) -> (r: Self)
        ensures
            r.msg@ == msg@,
    {
        AppError { msg }
    }

    /// The message text.
    pub fn message(&self) -> (r: &String)
        ensures
            r@ == self.msg@,
    {
        &self.msg
    }
}

} // verus!
