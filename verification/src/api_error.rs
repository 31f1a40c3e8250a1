//! The errors that a request can end in, and what each tells the caller.

use vstd::prelude::*;
use vstd::string::*;

verus! {

/// What is wrong with a weak password: hints to make it stronger and, if there is
/// one, a warning about what makes it weak.
#[derive(Debug)]
pub struct PasswordFeedback {
    pub suggestions: Vec<String>,
    pub warning: Option<String>,
}

/// The ways in which a request can fail.
#[derive(Debug)]
pub enum ApiError {
    InternalServerError,
    NotFound,
    Unauthorized,
    BadRequest,
    WeakPassword(PasswordFeedback),
    ExceededFileSizeLimit,
}

/// The status that answers a request which failed with `error`.
pub open spec fn status_of(error: ApiError) -> u16 {
    match error {
        ApiError::InternalServerError => 500,
        ApiError::NotFound => 404,
        ApiError::Unauthorized => 401,
        ApiError::BadRequest => 400,
        ApiError::WeakPassword(_) => 400,
        ApiError::ExceededFileSizeLimit => 400,
    }
}

/// The message that answers a request which failed with `error`.
pub open spec fn message_of(error: ApiError) -> Seq<char> {
    match error {
        ApiError::InternalServerError => "Internal server error"@,
        ApiError::NotFound => "Not found"@,
        ApiError::Unauthorized => "Unauthorized"@,
        ApiError::BadRequest => "Bad request"@,
        ApiError::WeakPassword(_) => "Weak password"@,
        ApiError::ExceededFileSizeLimit => "Exceeded file size limit"@,
    }
}

impl ApiError {
    /// The status of the answer.
    pub fn status_code(&self) -> (status: u16)
        ensures
            status == status_of(*self),
    {
        match self {
            ApiError::InternalServerError => 500,
            ApiError::NotFound => 404,
            ApiError::Unauthorized => 401,
            ApiError::BadRequest => 400,
            ApiError::WeakPassword(_) => 400,
            ApiError::ExceededFileSizeLimit => 400,
        }
    }

    /// The text of the answer's `error` field.
    pub fn message(&self) -> (message: &'static str)
        ensures
            message@ == message_of(*self),
    {
        match self {
            ApiError::InternalServerError => "Internal server error",
            ApiError::NotFound => "Not found",
            ApiError::Unauthorized => "Unauthorized",
            ApiError::BadRequest => "Bad request",
            ApiError::WeakPassword(_) => "Weak password",
            ApiError::ExceededFileSizeLimit => "Exceeded file size limit",
        }
    }

    /// Whether the failure is the server's own and is to be logged as such.
    pub fn is_internal(&self) -> (internal: bool)
        ensures
            internal == (*self is InternalServerError),
    {
        match self {
            ApiError::InternalServerError => true,
            _ => false,
        }
    }
}

} // verus!
