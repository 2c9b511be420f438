//! What the provider answers when it answers with an error in the body.

use vstd::prelude::*;
use vstd::string::StringExecFns;
use crate::text::{contains_text, str_contains};

verus! {

/// The outcome of a call.
#[derive(Debug, Clone)]
pub enum ApiResponse<T> {
    /// The request succeeded.
    Success(T),
    /// The provider answered with an error in the body.
    Error(ApiError),
}

/// An error that the provider states in the body of its answer.
#[derive(Debug, Clone)]
pub struct ApiError {
    pub message: String,
    pub kind: ErrorKind,
}

/// What kind of error the provider states.
#[derive(Debug, Clone, Copy, PartialEq, Eq, Structural)]
pub enum ErrorKind {
    /// The request was not understood.
    InvalidInput,
    /// The key's call volume is used up.
    RateLimit,
    /// Anything else.
    Unknown,
}

/// The kind of the error that the provider states with `message`.
pub open spec fn kind_of(message: Seq<char>) -> ErrorKind {
    if contains_text(message, "Invalid API call"@) {
        ErrorKind::InvalidInput
    } else if contains_text(message, "Thank you"@) || contains_text(message, "call volume"@) {
        ErrorKind::RateLimit
    } else {
        ErrorKind::Unknown
    }
}

impl ApiError {
    /// Classifies the provider's message.
    pub fn new(message: &str) -> (e: Self)
        ensures
            e.message@ == message@,
            e.kind == kind_of(message@),
    {
        let kind = if str_contains(message, "Invalid API call") {
            ErrorKind::InvalidInput
        } else if str_contains(message, "Thank you") || str_contains(message, "call volume") {
            ErrorKind::RateLimit
        } else {
            ErrorKind::Unknown
        };
        ApiError { message: String::from_str(message), kind }
    }
}

} // verus!
