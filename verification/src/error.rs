//! The ways in which a request can fail.

use vstd::prelude::*;

verus! {

/// Why a request was not served.
#[derive(Clone, Copy, Debug, PartialEq, Eq, Structural)]
pub enum AppError {
    /// The session never existed, has expired, or was deleted.
    GameNotFound,
    /// The store could not be reached or did not answer.
    InternalServerError,
    /// The request itself is malformed.
    BadRequest,
}

impl AppError {
    /// The HTTP status that stands for this error.
    pub open spec fn status(self) -> int {
        match self {
            AppError::GameNotFound => 404,
            AppError::InternalServerError => 500,
            AppError::BadRequest => 400,
        }
    }

    /// The text reported to the client under the key `error`.
    pub open spec fn reason(self) -> Seq<char> {
        match self {
            AppError::GameNotFound => "Game not found"@,
            AppError::InternalServerError => "Internal server error"@,
            AppError::BadRequest => "Bad request"@,
        }
    }

    pub fn status_code(&self) -> (code: u16)
        ensures
            code == self.status(),
    {
        match self {
            AppError::GameNotFound => 404,
            AppError::InternalServerError => 500,
            AppError::BadRequest => 400,
        }
    }

    pub fn message(&self) -> (text: &'static str)
        ensures
            text@ == self.reason(),
    {
        match self {
            AppError::GameNotFound => "Game not found",
            AppError::InternalServerError => "Internal server error",
            AppError::BadRequest => "Bad request",
        }
    }
}

} // verus!
