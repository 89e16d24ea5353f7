//! The single API error envelope: every failure the service returns is a status, a stable
//! code slug and a human message, so a client can branch on the code and show the message.
//! A conformance [`Rejection`] surfaces its own stable code unchanged.

use vstd::prelude::*;

use crate::profile::{rejection_slug, Rejection};

verus! {

/// A request-handling failure, rendered as the shared error envelope.
#[derive(Debug)]
pub enum ApiError {
    /// Malformed request (bad base64, missing field, unusable value) — 400.
    BadRequest(String),
    /// Missing or invalid credentials — 401.
    Unauthorized(String),
    /// Authenticated, but lacking the role the action needs — 403.
    Forbidden(String),
    /// The request conflicts with the resource's current state — 409.
    Conflict(String),
    /// The Facet was refused by the conformance profile — 422, carrying the rejection's stable
    /// code and message.
    Rejected(Rejection),
    /// An admitted Facet trapped or errored while rendering this input — 422.
    RenderFailed(String),
    /// The requested resource does not exist — 404.
    NotFound(String),
    /// An internal failure — 500. The message is generic; details are logged, not leaked.
    Internal(String),
}

/// The HTTP status of an error.
pub open spec fn error_status(e: ApiError) -> u16 {
    match e {
        ApiError::BadRequest(_) => 400,
        ApiError::Unauthorized(_) => 401,
        ApiError::Forbidden(_) => 403,
        ApiError::Conflict(_) => 409,
        ApiError::Rejected(_) => 422,
        ApiError::RenderFailed(_) => 422,
        ApiError::NotFound(_) => 404,
        ApiError::Internal(_) => 500,
    }
}

/// The stable code slug of an error.
pub open spec fn error_code(e: ApiError) -> Seq<char> {
    match e {
        ApiError::BadRequest(_) => "bad_request"@,
        ApiError::Unauthorized(_) => "unauthorized"@,
        ApiError::Forbidden(_) => "forbidden"@,
        ApiError::Conflict(_) => "conflict"@,
        ApiError::Rejected(r) => rejection_slug(r.code),
        ApiError::RenderFailed(_) => "render_failed"@,
        ApiError::NotFound(_) => "not_found"@,
        ApiError::Internal(_) => "internal"@,
    }
}

/// The human message of an error.
pub open spec fn error_message(e: ApiError) -> Seq<char> {
    match e {
        ApiError::BadRequest(m) => m@,
        ApiError::Unauthorized(m) => m@,
        ApiError::Forbidden(m) => m@,
        ApiError::Conflict(m) => m@,
        ApiError::Rejected(r) => r.message@,
        ApiError::RenderFailed(m) => m@,
        ApiError::NotFound(m) => m@,
        ApiError::Internal(m) => m@,
    }
}

impl ApiError {
    pub fn bad_request(message: String) -> (e: ApiError)
        ensures
            e == ApiError::BadRequest(message),
    {
        ApiError::BadRequest(message)
    }

    pub fn unauthorized(message: String) -> (e: ApiError)
        ensures
            e == ApiError::Unauthorized(message),
    {
        ApiError::Unauthorized(message)
    }

    pub fn forbidden(message: String) -> (e: ApiError)
        ensures
            e == ApiError::Forbidden(message),
    {
        ApiError::Forbidden(message)
    }

    pub fn conflict(message: String) -> (e: ApiError)
        ensures
            e == ApiError::Conflict(message),
    {
        ApiError::Conflict(message)
    }

    pub fn not_found(message: String) -> (e: ApiError)
        ensures
            e == ApiError::NotFound(message),
    {
        ApiError::NotFound(message)
    }

    pub fn render_failed(message: String) -> (e: ApiError)
        ensures
            e == ApiError::RenderFailed(message),
    {
        ApiError::RenderFailed(message)
    }

    pub fn internal(message: String) -> (e: ApiError)
        ensures
            e == ApiError::Internal(message),
    {
        ApiError::Internal(message)
    }

    /// The envelope this error renders as: HTTP status, stable code slug, message.
    pub fn envelope(&self) -> (r: (u16, String, String))
        ensures
            r.0 == error_status(*self),
            r.1@ == error_code(*self),
            r.2@ == error_message(*self),
    {
        match self {
            ApiError::BadRequest(m) => (400, "bad_request".to_owned(), m.clone()),
            ApiError::Unauthorized(m) => (401, "unauthorized".to_owned(), m.clone()),
            ApiError::Forbidden(m) => (403, "forbidden".to_owned(), m.clone()),
            ApiError::Conflict(m) => (409, "conflict".to_owned(), m.clone()),
            ApiError::Rejected(r) => (422, r.code.as_str().to_owned(), r.message.clone()),
            ApiError::RenderFailed(m) => (422, "render_failed".to_owned(), m.clone()),
            ApiError::NotFound(m) => (404, "not_found".to_owned(), m.clone()),
            ApiError::Internal(m) => (500, "internal".to_owned(), m.clone()),
        }
    }
}

} // verus!
