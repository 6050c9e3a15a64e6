//! The application's error taxonomy and its mapping to HTTP status codes.

use vstd::prelude::*;

verus! {

/// The result type used by every fallible operation of the library.
pub type CustomResult<T> = Result<T, CustomError>;

/// Every failure the library can report, each carrying a human-readable
/// message.
///
/// * `InternalServerError` — a server-side fault (e.g. the id space ran out).
/// * `BadRequest` — the request data is outside what the operation accepts.
/// * `Unauthorized` — missing or bad credentials, or an invalid token subject.
/// * `Forbidden` — a valid identity without permission for the action.
/// * `NotFound` — the addressed record does not exist.
/// * `Conflict` — a uniqueness violation (duplicate username or email).
/// * `BcryptError` — password hashing or verification failed for a reason
///   other than a wrong password.
/// * `JwtError` — token signing or decoding failed.
/// * `ValidationError` — a request payload failed its field constraints.
#[derive(Debug)]
pub enum CustomError {
    InternalServerError(String),
    BadRequest(String),
    Unauthorized(String),
    Forbidden(String),
    NotFound(String),
    Conflict(String),
    BcryptError(String),
    JwtError(String),
    ValidationError(String),
}

/// The HTTP status code that each error kind renders as.
pub open spec fn spec_http_status(e: CustomError) -> u16 {
    match e {
        CustomError::InternalServerError(_) => 500,
        CustomError::BadRequest(_) => 400,
        CustomError::Unauthorized(_) => 401,
        CustomError::Forbidden(_) => 403,
        CustomError::NotFound(_) => 404,
        CustomError::Conflict(_) => 409,
        CustomError::BcryptError(_) => 500,
        CustomError::JwtError(_) => 401,
        CustomError::ValidationError(_) => 400,
    }
}

/// The message carried by an error.
pub open spec fn spec_message(e: CustomError) -> Seq<char> {
    match e {
        CustomError::InternalServerError(m) => m@,
        CustomError::BadRequest(m) => m@,
        CustomError::Unauthorized(m) => m@,
        CustomError::Forbidden(m) => m@,
        CustomError::NotFound(m) => m@,
        CustomError::Conflict(m) => m@,
        CustomError::BcryptError(m) => m@,
        CustomError::JwtError(m) => m@,
        CustomError::ValidationError(m) => m@,
    }
}

impl CustomError {
    /// The HTTP status code this error renders as.
    pub fn http_status(&self) -> (code: u16)
        ensures
            code == spec_http_status(*self),
    {
        match self {
            CustomError::InternalServerError(_) => 500,
            CustomError::BadRequest(_) => 400,
            CustomError::Unauthorized(_) => 401,
            CustomError::Forbidden(_) => 403,
            CustomError::NotFound(_) => 404,
            CustomError::Conflict(_) => 409,
            CustomError::BcryptError(_) => 500,
            CustomError::JwtError(_) => 401,
            CustomError::ValidationError(_) => 400,
        }
    }

    /// The message carried by this error.
    pub fn message(&self) -> (m: &String)
        ensures
            m@ == spec_message(*self),
    {
        match self {
            CustomError::InternalServerError(m) => m,
            CustomError::BadRequest(m) => m,
            CustomError::Unauthorized(m) => m,
            CustomError::Forbidden(m) => m,
            CustomError::NotFound(m) => m,
            CustomError::Conflict(m) => m,
            CustomError::BcryptError(m) => m,
            CustomError::JwtError(m) => m,
            CustomError::ValidationError(m) => m,
        }
    }
}

} // verus!
