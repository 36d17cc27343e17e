//! Error values of the scheduling core and of the API layer around it.
//! All failures are data returned to the caller; nothing here aborts.

use vstd::prelude::*;

verus! {

/// Failure modes of a suggestion run.
#[derive(Clone, Debug, PartialEq, Eq)]
pub enum SchedulingError {
    /// The teacher has no courses to schedule; non-retryable.
    NoCoursesFound,
    /// The named course asks for a zero-length slot or one longer than the
    /// work window; the caller must correct the input.
    InvalidDuration(String),
    /// The greedy search exhausted every day and start time for the named
    /// courses; no partial result is returned.
    InsufficientSlots(Vec<String>),
    /// Opaque pass-through of a collaborator failure; the core neither
    /// interprets nor retries it.
    RepositoryFailure(String),
}

/// Error surface of the REST layer: an HTTP status paired with a message.
#[derive(Clone, Debug, PartialEq, Eq)]
pub enum ApiError {
    NotFound(String),
    BadRequest(String),
    InternalServerError(String),
}

impl ApiError {
    /// The HTTP status code the response for this error carries.
    pub fn status_code(&self) -> (r: u16)
        ensures
            r == match *self {
                ApiError::NotFound(_) => 404u16,
                ApiError::BadRequest(_) => 400u16,
                ApiError::InternalServerError(_) => 500u16,
            },
    {
        match self {
            ApiError::NotFound(_) => 404,
            ApiError::BadRequest(_) => 400,
            ApiError::InternalServerError(_) => 500,
        }
    }

    /// The message the response body for this error carries.
    pub fn message(&self) -> (r: &String)
        ensures
            r@ == match *self {
                ApiError::NotFound(m) => m@,
                ApiError::BadRequest(m) => m@,
                ApiError::InternalServerError(m) => m@,
            },
    {
        match self {
            ApiError::NotFound(m) => m,
            ApiError::BadRequest(m) => m,
            ApiError::InternalServerError(m) => m,
        }
    }
}

} // verus!
