//! The service-level error surface: a coarse error code, a message,
//! and optional details. Rendering and serialization belong to the
//! outer layer.

use vstd::prelude::*;

verus! {

/// The coarse classification of a service-level failure.
#[derive(Debug, Clone, PartialEq, Eq, Structural)]
pub enum ErrorCode {
    /// Invalid input provided.
    InvalidInput,
    /// Resource not found.
    NotFound,
    /// Operation not authorized.
    Unauthorized,
    /// Resource conflict.
    Conflict,
    /// Internal system error.
    SystemError,
    /// Validation failed.
    ValidationFailed,
    /// Rate limit exceeded.
    RateLimited,
}

/// The one-field error body sent to clients.
#[derive(Debug, Clone)]
pub struct ErrorResponse {
    /// The user-facing message.
    pub error: String,
}

/// A service-level error: code, message, and optional details.
#[derive(Debug, Clone)]
pub struct Error {
    /// The coarse classification.
    pub code: ErrorCode,
    /// The user-facing message.
    pub message: String,
    /// Extra context, where there is any.
    pub details: Option<String>,
}

impl Error {
    /// An error with no details.
    pub fn new(code: ErrorCode, message: String) -> (r: Error)
        ensures
            r.code == code,
            r.message@ == message@,
            r.details is None,
    {
        Error { code, message, details: None }
    }

    /// An error carrying details.
    pub fn with_details(code: ErrorCode, message: String, details: String) -> (r: Error)
        ensures
            r.code == code,
            r.message@ == message@,
            r.details matches Some(d) && d@ == details@,
    {
        Error { code, message, details: Some(details) }
    }
}

} // verus!
