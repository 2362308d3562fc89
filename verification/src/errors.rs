//! The error taxonomy of the engine and its mapping onto HTTP-style
//! status codes and user-facing messages.

use vstd::prelude::*;

verus! {

/// One failure of an engine operation. Storage and token failures carry the
/// underlying error rendered as text, since the engine only reports them.
#[derive(Debug, Clone)]
pub enum ApiError {
    Database(String),
    Unauthorized(String),
    BadRequest(String),
    InternalError(String),
    JwtError(String),
    PasswordHashError,
    SystemError(String),
}

/// The body sent back for a failed request.
#[derive(Debug, Clone)]
pub struct ErrorResponse {
    pub success: bool,
    pub msg: String,
}

impl ApiError {
    /// The HTTP status code that this error is reported with.
    pub fn status_code(&self) -> (code: u16)
        ensures
            code == match self {
                ApiError::Database(_) => 500u16,
                ApiError::Unauthorized(_) => 401u16,
                ApiError::BadRequest(_) => 400u16,
                ApiError::InternalError(_) => 500u16,
                ApiError::JwtError(_) => 401u16,
                ApiError::PasswordHashError => 500u16,
                ApiError::SystemError(_) => 500u16,
            },
    {
        match self {
            ApiError::Database(_) => 500,
            ApiError::Unauthorized(_) => 401,
            ApiError::BadRequest(_) => 400,
            ApiError::InternalError(_) => 500,
            ApiError::JwtError(_) => 401,
            ApiError::PasswordHashError => 500,
            ApiError::SystemError(_) => 500,
        }
    }

    /// What `response_message` returns: storage and token details are
    /// replaced by fixed texts; the other variants expose their message.
    pub open spec fn spec_message(&self) -> Seq<char> {
        match self {
            ApiError::Database(_) => "Database error"@,
            ApiError::Unauthorized(m) => m@,
            ApiError::BadRequest(m) => m@,
            ApiError::InternalError(m) => m@,
            ApiError::JwtError(_) => "Invalid token"@,
            ApiError::PasswordHashError => "Authentication error"@,
            ApiError::SystemError(m) => m@,
        }
    }

    /// The message shown to the caller.
    pub fn response_message(&self) -> (msg: String)
        ensures
            msg@ == self.spec_message(),
    {
        match self {
            ApiError::Database(_) => String::from_str("Database error"),
            ApiError::Unauthorized(m) => m.clone(),
            ApiError::BadRequest(m) => m.clone(),
            ApiError::InternalError(m) => m.clone(),
            ApiError::JwtError(_) => String::from_str("Invalid token"),
            ApiError::PasswordHashError => String::from_str("Authentication error"),
            ApiError::SystemError(m) => m.clone(),
        }
    }

    /// The response body for this error: never marked successful, and
    /// carrying exactly the caller-facing message.
    pub fn response(&self) -> (r: ErrorResponse)
        ensures
            !r.success,
            r.msg@ == self.spec_message(),
    {
        ErrorResponse { success: false, msg: self.response_message() }
    }
}

} // verus!
