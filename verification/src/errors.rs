//! The error taxonomy at the subsystem's boundary. Low-level store and
//! crypto failures are collapsed into these kinds, and authentication
//! failures deliberately share one kind and one generic message, so that no
//! failure cause is distinguishable to a caller.

use vstd::prelude::*;

verus! {

/// What a failed operation reports: a missing row, a refused credential or
/// token, a constraint violation on insert, or an internal failure.
#[derive(Clone, Copy, PartialEq, Eq, Structural, Debug)]
pub enum ErrorKind {
    NotFound,
    Unauthorized,
    Conflict,
    Internal,
}

impl ErrorKind {
    /// The generic message for the kind.
    pub fn message(&self) -> (r: &'static str)
        ensures
            *self == ErrorKind::NotFound ==> r@ == "Not Found"@,
            *self == ErrorKind::Unauthorized ==> r@ == "Unauthorized"@,
            *self == ErrorKind::Conflict ==> r@ == "Conflict"@,
            *self == ErrorKind::Internal ==> r@ == "Internal Server Error"@,
    {
        match self {
            ErrorKind::NotFound => "Not Found",
            ErrorKind::Unauthorized => "Unauthorized",
            ErrorKind::Conflict => "Conflict",
            ErrorKind::Internal => "Internal Server Error",
        }
    }
}

/// The body of an error response: a single generic message.
#[derive(Clone, Debug)]
pub struct ErrorJson {
    pub message: String,
}

impl ErrorJson {
    pub fn new(message: String) -> (r: ErrorJson)
        ensures
            r.message@ == message@,
    {
        ErrorJson { message: message }
    }
}

} // verus!
