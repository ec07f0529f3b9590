//! The error taxonomy of the routing core.
//!
//! Every error carries an HTTP status code and is either *advisory* or
//! *hard*.  An advisory error is a routing mismatch produced while matching
//! request metadata; an enclosing alternative combinator may catch it and
//! try the other branch.  A hard error is terminal: it is propagated to the
//! dispatcher unchanged and becomes the response.

use vstd::prelude::*;

verus! {

/// An error surfaced from an endpoint or one of its combinators.
///
/// `advisory` marks a recoverable routing mismatch; `status` is the HTTP
/// status code the dispatcher uses when the error reaches the top.
#[derive(Debug)]
pub struct Error {
    pub advisory: bool,
    pub status: u16,
    pub message: String,
}

impl Error {
    /// True when this error is a recoverable routing mismatch.
    pub fn is_advisory(&self) -> (r: bool)
        ensures
            r == self.advisory,
    {
        self.advisory
    }

    /// The HTTP status code associated with this error.
    pub fn status_code(&self) -> (r: u16)
        ensures
            r == self.status,
    {
        self.status
    }
}

/// A hard client error: the request is malformed (status 400).
#[derive(Debug)]
pub struct BadRequest {
    pub message: String,
}

impl BadRequest {
    /// Wraps a message as a hard 400-class error value.
    pub fn new(message: String) -> (r: BadRequest)
        ensures
            r.message == message,
    {
        BadRequest { message }
    }

    /// The status code of every `BadRequest`: 400.
    pub fn status_code(&self) -> (r: u16)
        ensures
            r == 400u16,
    {
        400
    }

    /// Converts this value into the common error type (hard, 400).
    pub fn into_error(self) -> (r: Error)
        ensures
            r == (Error { advisory: false, status: 400u16, message: self.message }),
    {
        Error { advisory: false, status: 400, message: self.message }
    }
}

/// A hard internal error (status 500).
#[derive(Debug)]
pub struct ServerError {
    pub message: String,
}

impl ServerError {
    /// Wraps a message as a hard 500-class error value.
    pub fn new(message: String) -> (r: ServerError)
        ensures
            r.message == message,
    {
        ServerError { message }
    }

    /// The status code of every `ServerError`: 500.
    pub fn status_code(&self) -> (r: u16)
        ensures
            r == 500u16,
    {
        500
    }

    /// Converts this value into the common error type (hard, 500).
    pub fn into_error(self) -> (r: Error)
        ensures
            r == (Error { advisory: false, status: 500u16, message: self.message }),
    {
        Error { advisory: false, status: 500, message: self.message }
    }
}

/// An advisory error: a value the route needed is absent or unusable
/// (status 400, eligible for alternative-route fallback).
#[derive(Debug)]
pub struct NotPresent {
    pub message: String,
}

impl NotPresent {
    /// Wraps a message as an advisory 400-class error value.
    pub fn new(message: String) -> (r: NotPresent)
        ensures
            r.message == message,
    {
        NotPresent { message }
    }

    /// The status code of every `NotPresent`: 400.
    pub fn status_code(&self) -> (r: u16)
        ensures
            r == 400u16,
    {
        400
    }

    /// Converts this value into the common error type (advisory, 400).
    pub fn into_error(self) -> (r: Error)
        ensures
            r == (Error { advisory: true, status: 400u16, message: self.message }),
    {
        Error { advisory: true, status: 400, message: self.message }
    }
}

/// An advisory routing miss: no route matched the request (status 404).
#[derive(Debug)]
pub struct NoRoute {
    _priv: (),
}

impl NoRoute {
    /// Creates the routing-miss marker.
    pub fn new() -> (r: NoRoute) {
        NoRoute { _priv: () }
    }

    /// The status code of every `NoRoute`: 404.
    pub fn status_code(&self) -> (r: u16)
        ensures
            r == 404u16,
    {
        404
    }

    /// Converts this value into the common error type (advisory, 404).
    pub fn into_error(self) -> (r: Error)
        ensures
            r.advisory,
            r.status == 404u16,
            r.message@ == "no route"@,
    {
        Error { advisory: true, status: 404, message: String::from_str("no route") }
    }
}

} // verus!
