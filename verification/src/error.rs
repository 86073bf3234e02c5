//! Errors the library reports, by the kind of answer they call for.

use vstd::prelude::*;

verus! {

/// An error with the kind of failure and a message for the user.
#[derive(Debug)]
pub enum IrError {
    /// The request itself is wrong.
    BadRequest(String),
    /// The named remote, button or device does not exist.
    NotFound(String),
    /// The request clashes with the current state.
    Conflict(String),
    /// The hardware or an internal step failed.
    Internal(String),
    /// The code library could not be read or written.
    Persistence(String),
}

impl IrError {
    /// The message carried by the error.
    pub open spec fn message(&self) -> Seq<char> {
        match self {
            IrError::BadRequest(m) => m@,
            IrError::NotFound(m) => m@,
            IrError::Conflict(m) => m@,
            IrError::Internal(m) => m@,
            IrError::Persistence(m) => m@,
        }
    }

    /// The message carried by the error.
    pub fn message_text(&self) -> (r: String)
        ensures
            r@ == self.message(),
    {
        match self {
            IrError::BadRequest(m) => m.clone(),
            IrError::NotFound(m) => m.clone(),
            IrError::Conflict(m) => m.clone(),
            IrError::Internal(m) => m.clone(),
            IrError::Persistence(m) => m.clone(),
        }
    }
}

} // verus!
