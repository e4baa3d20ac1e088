//! Error values.  A per-request error is a value carrying a status code and
//! a message; the boundary turns it into a response.  Construction errors
//! (`InitError`) abort building the subtree they occur in.

use vstd::prelude::*;

use crate::response::RespModel;
use crate::response::Response;

verus! {

/// The mathematical model of an error.
pub ghost struct ErrModel {
    pub status: u16,
    pub message: Seq<char>,
}

/// The response an error is turned into at the boundary: its status, with
/// the message as body.
pub open spec fn spec_error_response(e: ErrModel) -> RespModel {
    RespModel { status: e.status, headers: Seq::empty(), body: e.message }
}

/// A per-request error: a status code and a message.
#[derive(Debug)]
pub struct Error {
    status: u16,
    message: String,
}

impl View for Error {
    type V = ErrModel;

    closed spec fn view(&self) -> ErrModel {
        ErrModel { status: self.status, message: self.message@ }
    }
}

impl Error {
    pub fn new(status: u16, message: String) -> (r: Error)
        ensures
            r@ == (ErrModel { status, message: message@ }),
    {
        Error { status, message }
    }

    /// A 400 Bad Request error.
    pub fn bad_request(message: String) -> (r: Error)
        ensures
            r@ == (ErrModel { status: 400, message: message@ }),
    {
        Error::new(400, message)
    }

    /// A 404 Not Found error.
    pub fn not_found(message: String) -> (r: Error)
        ensures
            r@ == (ErrModel { status: 404, message: message@ }),
    {
        Error::new(404, message)
    }

    /// A 500 Internal Server Error.
    pub fn internal(message: String) -> (r: Error)
        ensures
            r@ == (ErrModel { status: 500, message: message@ }),
    {
        Error::new(500, message)
    }

    /// A 413 Payload Too Large error.
    pub fn payload_too_large(message: String) -> (r: Error)
        ensures
            r@ == (ErrModel { status: 413, message: message@ }),
    {
        Error::new(413, message)
    }

    /// A 415 Unsupported Media Type error.
    pub fn unsupported_media_type(message: String) -> (r: Error)
        ensures
            r@ == (ErrModel { status: 415, message: message@ }),
    {
        Error::new(415, message)
    }

    pub fn status(&self) -> (r: u16)
        ensures
            r == self@.status,
    {
        self.status
    }

    pub fn message(&self) -> (r: &String)
        ensures
            r@ == self@.message,
    {
        &self.message
    }

    /// The response this error is rendered as at the boundary.
    pub fn error_response(self) -> (r: Response)
        ensures
            r@ == spec_error_response(self@),
    {
        let mut r = Response::new(self.status);
        r.set_body(self.message);
        r
    }
}

/// Why a urlencoded form body could not be extracted.
#[derive(Clone, Copy, PartialEq, Eq, Structural, Debug)]
pub enum UrlencodedError {
    /// The request's content type is not `application/x-www-form-urlencoded`.
    ContentType,
    /// The body is longer than the configured limit.
    Overflow,
    /// The body is not a well-formed urlencoded form.
    Parse,
}

impl UrlencodedError {
    /// The status code this error carries to the boundary.
    pub open spec fn spec_status(self) -> u16 {
        match self {
            UrlencodedError::ContentType => 415u16,
            UrlencodedError::Overflow => 413u16,
            UrlencodedError::Parse => 400u16,
        }
    }

    /// Turn the extraction error into a boundary error value.
    pub fn to_error(self) -> (r: Error)
        ensures
            r@.status == self.spec_status(),
    {
        match self {
            UrlencodedError::ContentType => Error::unsupported_media_type(
                "unexpected content type for a urlencoded form".to_owned(),
            ),
            UrlencodedError::Overflow => Error::payload_too_large(
                "urlencoded payload is too large".to_owned(),
            ),
            UrlencodedError::Parse => Error::bad_request(
                "can not parse urlencoded payload".to_owned(),
            ),
        }
    }
}

/// Why a JSON body could not be extracted.
#[derive(Clone, Copy, PartialEq, Eq, Structural, Debug)]
pub enum JsonPayloadError {
    /// The request's content type is not `application/json`.
    ContentType,
    /// The body is longer than the configured limit.
    Overflow,
    /// The body is not well-formed JSON.
    Deserialize,
}

impl JsonPayloadError {
    /// The status code this error carries to the boundary.
    pub open spec fn spec_status(self) -> u16 {
        match self {
            JsonPayloadError::ContentType => 400u16,
            JsonPayloadError::Overflow => 413u16,
            JsonPayloadError::Deserialize => 400u16,
        }
    }

    /// Turn the extraction error into a boundary error value.
    pub fn to_error(self) -> (r: Error)
        ensures
            r@.status == self.spec_status(),
    {
        match self {
            JsonPayloadError::ContentType => Error::bad_request(
                "unexpected content type for a json payload".to_owned(),
            ),
            JsonPayloadError::Overflow => Error::payload_too_large(
                "json payload is too large".to_owned(),
            ),
            JsonPayloadError::Deserialize => Error::bad_request(
                "can not parse json payload".to_owned(),
            ),
        }
    }
}

/// A construction failure: fatal to the subtree being built, reported once
/// at startup.
#[derive(Clone, Copy, PartialEq, Eq, Structural, Debug)]
pub struct InitError;

} // verus!
