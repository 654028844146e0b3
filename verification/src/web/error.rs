//! The failure of an endpoint, with the HTTP status that it answers with.

use vstd::prelude::*;
use vstd::string::*;
use crate::web::types::ApiResponse;

verus! {

/// HTTP status 400.
pub const STATUS_BAD_REQUEST: u16 = 400;

/// HTTP status 404.
pub const STATUS_NOT_FOUND: u16 = 404;

/// HTTP status 500.
pub const STATUS_INTERNAL_SERVER_ERROR: u16 = 500;

/// Why an endpoint failed, with the message for the client.
#[derive(Debug)]
pub enum WebError {
    BadRequest(String),
    NotFound(String),
    InternalError(String),
}

impl WebError {
    /// The HTTP status of each kind of failure.
    pub open spec fn status(self) -> u16 {
        match self {
            WebError::BadRequest(_) => STATUS_BAD_REQUEST,
            WebError::NotFound(_) => STATUS_NOT_FOUND,
            WebError::InternalError(_) => STATUS_INTERNAL_SERVER_ERROR,
        }
    }

    /// The message of the failure.
    pub open spec fn text(self) -> String {
        match self {
            WebError::BadRequest(msg) => msg,
            WebError::NotFound(msg) => msg,
            WebError::InternalError(msg) => msg,
        }
    }

    /// Runtime form of [`WebError::status`].
    pub fn status_code(&self) -> (code: u16)
        ensures
            code == self.status(),
    {
        match self {
            WebError::BadRequest(_) => STATUS_BAD_REQUEST,
            WebError::NotFound(_) => STATUS_NOT_FOUND,
            WebError::InternalError(_) => STATUS_INTERNAL_SERVER_ERROR,
        }
    }

    /// Runtime form of [`WebError::text`].
    pub fn message(&self) -> (msg: &String)
        ensures
            *msg == self.text(),
    {
        match self {
            WebError::BadRequest(msg) => msg,
            WebError::NotFound(msg) => msg,
            WebError::InternalError(msg) => msg,
        }
    }

    /// The status and the body that the failure is answered with: a body
    /// without data that carries the message.
    pub fn into_parts(self) -> (parts: (u16, ApiResponse<()>))
        ensures
            parts.0 == self.status(),
            !parts.1.success,
            parts.1.data is None,
            parts.1.error == Some(self.text()),
    {
        match self {
            WebError::BadRequest(msg) => (STATUS_BAD_REQUEST, ApiResponse::error(msg)),
            WebError::NotFound(msg) => (STATUS_NOT_FOUND, ApiResponse::error(msg)),
            WebError::InternalError(msg) => (STATUS_INTERNAL_SERVER_ERROR, ApiResponse::error(msg)),
        }
    }
}

impl WebError {
    /// An internal error with the given message.
    pub fn internal(msg: &str) -> (e: Self)
        ensures
            e is InternalError,
            e.text()@ == msg@,
    {
        WebError::InternalError(msg.to_string())
    }
}

impl From<String> for WebError {
    /// A bare message is an internal error.
    fn from(msg: String) -> (e: Self) {
        WebError::InternalError(msg)
    }
}

impl vstd::std_specs::convert::FromSpecImpl<String> for WebError {
    open spec fn obeys_from_spec() -> bool {
        true
    }

    open spec fn from_spec(msg: String) -> Self {
        WebError::InternalError(msg)
    }
}

} // verus!
