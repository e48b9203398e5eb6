use vstd::prelude::*;

use crate::text::{i32_value, parse_i32};

verus! {

/// The kinds of failure a request can meet.
#[derive(Clone, Copy, Debug, PartialEq, Eq, Structural)]
pub enum ErrorKind {
    /// The store failed.
    Database,
    /// An id that resolves to nothing.
    NotFound,
    /// A malformed identifier or input.
    BadRequest,
    /// A failed step or a filesystem error, with its text kept by the caller.
    Internal,
}

impl ErrorKind {
    /// The HTTP status that reports this kind of failure.
    pub fn http_status(self) -> (r: u16)
        ensures
            r == match self {
                ErrorKind::NotFound => 404u16,
                ErrorKind::BadRequest => 400u16,
                _ => 500u16,
            },
    {
        match self {
            ErrorKind::Database => 500,
            ErrorKind::NotFound => 404,
            ErrorKind::BadRequest => 400,
            ErrorKind::Internal => 500,
        }
    }
}

/// Reads an id given in a request path; a malformed one is a bad request.
pub fn parse_id(text: &str) -> (r: Result<i32, ErrorKind>)
    ensures
        match i32_value(text@) {
            Some(v) => r == Ok::<i32, ErrorKind>(v),
            None => r == Err::<i32, ErrorKind>(ErrorKind::BadRequest),
        },
{
    match parse_i32(text) {
        Some(v) => Ok(v),
        None => Err(ErrorKind::BadRequest),
    }
}

} // verus!
