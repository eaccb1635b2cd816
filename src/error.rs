//! The failures that framing and correlation report.

use crate::text::{int_to_string, signed_decimal};
use vstd::prelude::*;
use vstd::string::*;

pub mod error_codes;

verus! {

/// `std::io::Error`, carried opaquely in [`LspError::Io`].
#[verifier::external_type_specification]
#[verifier::external_body]
pub struct ExIoError(std::io::Error);

/// `serde_json::Error`, carried opaquely in [`LspError::Json`].
#[verifier::external_type_specification]
#[verifier::external_body]
pub struct ExJsonError(serde_json::Error);

/// `serde_json::Value`, carried opaquely as parameters, results and error data.
#[verifier::external_type_specification]
#[verifier::external_body]
pub struct ExJsonValue(serde_json::Value);

/// Every way an operation of this crate can fail.
#[derive(Debug)]
pub enum LspError {
    /// The underlying stream failed.
    Io(std::io::Error),
    /// A body was not JSON, or not of the expected shape.
    Json(serde_json::Error),
    /// The peer answered with an error object.
    Protocol(ResponseError),
    /// The framing was broken: a bad header line, a missing or bad
    /// `Content-Length`, an unsupported charset or a body that is not UTF-8.
    Transport(String),
    /// The connection could not be used.
    Connection(String),
    /// A deadline passed.
    Timeout,
    /// The initialize handshake failed.
    InitializationFailed(String),
    /// Anything else, such as a waiter dropped before its response came.
    Other(String),
}

/// A result whose error is an [`LspError`].
pub type Result<T> = std::result::Result<T, LspError>;

/// The error object of a JSON-RPC response.
#[derive(Debug, Clone)]
pub struct ResponseError {
    pub code: i32,
    pub message: String,
    pub data: Option<serde_json::Value>,
}

impl ResponseError {
    /// The error as people read it: `Error <code>: <message>`.
    pub fn to_string(&self) -> (r: String)
        ensures
            r@ == "Error "@ + signed_decimal(self.code as int) + ": "@ + self.message@,
    {
        let code = int_to_string(self.code as i64);
        "Error ".to_owned().concat(code.as_str()).concat(": ").concat(self.message.as_str())
    }

    pub fn new(code: i32, message: &str) -> (r: Self)
        ensures
            r.code == code,
            r.message@ == message@,
            r.data is None,
    {
        ResponseError { code, message: message.to_owned(), data: None }
    }

    pub fn with_data(code: i32, message: &str, data: serde_json::Value) -> (r: Self)
        ensures
            r.code == code,
            r.message@ == message@,
            r.data == Some(data),
    {
        ResponseError { code, message: message.to_owned(), data: Some(data) }
    }

    pub fn parse_error(message: &str) -> (r: Self)
        ensures
            r.code == error_codes::PARSE_ERROR,
            r.message@ == message@,
            r.data is None,
    {
        Self::new(error_codes::PARSE_ERROR, message)
    }

    pub fn invalid_request(message: &str) -> (r: Self)
        ensures
            r.code == error_codes::INVALID_REQUEST,
            r.message@ == message@,
            r.data is None,
    {
        Self::new(error_codes::INVALID_REQUEST, message)
    }

    pub fn method_not_found(message: &str) -> (r: Self)
        ensures
            r.code == error_codes::METHOD_NOT_FOUND,
            r.message@ == message@,
            r.data is None,
    {
        Self::new(error_codes::METHOD_NOT_FOUND, message)
    }

    pub fn invalid_params(message: &str) -> (r: Self)
        ensures
            r.code == error_codes::INVALID_PARAMS,
            r.message@ == message@,
            r.data is None,
    {
        Self::new(error_codes::INVALID_PARAMS, message)
    }

    pub fn internal_error(message: &str) -> (r: Self)
        ensures
            r.code == error_codes::INTERNAL_ERROR,
            r.message@ == message@,
            r.data is None,
    {
        Self::new(error_codes::INTERNAL_ERROR, message)
    }

    pub fn server_not_initialized(message: &str) -> (r: Self)
        ensures
            r.code == error_codes::SERVER_NOT_INITIALIZED,
            r.message@ == message@,
            r.data is None,
    {
        Self::new(error_codes::SERVER_NOT_INITIALIZED, message)
    }

    pub fn request_cancelled(message: &str) -> (r: Self)
        ensures
            r.code == error_codes::REQUEST_CANCELLED,
            r.message@ == message@,
            r.data is None,
    {
        Self::new(error_codes::REQUEST_CANCELLED, message)
    }

    pub fn content_modified(message: &str) -> (r: Self)
        ensures
            r.code == error_codes::CONTENT_MODIFIED,
            r.message@ == message@,
            r.data is None,
    {
        Self::new(error_codes::CONTENT_MODIFIED, message)
    }
}

} // verus!
