//! The error taxonomy of the core: a missing thing (`NotFound`) and an
//! internal fault (`Internal`). Only the HTTP boundary outside the library
//! turns a kind into a status code and a response body.

use vstd::prelude::*;

verus! {

/// What went wrong, as far as a client may learn.
#[derive(Clone, Copy, Debug, PartialEq, Eq, Structural)]
pub enum ApiErrorKind {
    NotFound,
    Internal,
}

/// An error carried from the core to the HTTP boundary.
#[derive(Debug)]
pub struct ApiError {
    pub kind: ApiErrorKind,
    pub message: String,
}

impl ApiError {
    /// A missing record, job, file or format.
    pub fn not_found(message: &str) -> (r: Self)
        ensures
            r.kind == ApiErrorKind::NotFound,
            r.message@ == message@,
    {
        ApiError { kind: ApiErrorKind::NotFound, message: String::from_str(message) }
    }

    /// A fault inside the process; the message never reaches the client
    /// verbatim beyond a generic error body.
    pub fn internal(message: &str) -> (r: Self)
        ensures
            r.kind == ApiErrorKind::Internal,
            r.message@ == message@,
    {
        ApiError { kind: ApiErrorKind::Internal, message: String::from_str(message) }
    }
}

} // verus!
