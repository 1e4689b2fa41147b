//! The failures a registry node reports.

use std::time::SystemTimeError;
use vstd::prelude::*;
use vstd::std_specs::convert::FromSpecImpl;

verus! {

/// The format of the body that reports a failure.
pub const ERROR_CONTENT_TYPE: &'static str = "text/html; charset=utf-8";

/// The answer that reports a failure to an HTTP caller: its status, the
/// format of its body, and the text of its body.
#[derive(Debug, Clone, Copy, PartialEq, Eq)]
pub struct ErrorResponse {
    pub status: u16,
    pub content_type: &'static str,
    pub body: &'static str,
}

/// A failure of a registry operation or of the check that guards it.
#[derive(Debug, Clone, Copy, PartialEq, Eq, Structural)]
pub enum WatchtowerError {
    /// The clock or the codec misbehaved.
    InternalError,
    /// The credentials of a request were missing, malformed or wrong.
    Unauthorized,
}

impl WatchtowerError {
    /// The HTTP status that reports this failure.
    pub open spec fn spec_status_code(&self) -> u16 {
        match self {
            WatchtowerError::InternalError => 500,
            WatchtowerError::Unauthorized => 401,
        }
    }

    /// The HTTP status that reports this failure.
    #[verifier::when_used_as_spec(spec_status_code)]
    pub fn status_code(&self) -> (r: u16)
        ensures
            r == self.spec_status_code(),
    {
        match self {
            WatchtowerError::InternalError => 500,
            WatchtowerError::Unauthorized => 401,
        }
    }

    /// The text that a response carries for this failure.
    pub fn message(&self) -> (r: &'static str)
        ensures
            r@ == match self {
                WatchtowerError::InternalError => "Internal Server Error"@,
                WatchtowerError::Unauthorized => "Unauthorized"@,
            },
    {
        match self {
            WatchtowerError::InternalError => "Internal Server Error",
            WatchtowerError::Unauthorized => "Unauthorized",
        }
    }
}

impl WatchtowerError {
    /// The answer that reports this failure.
    pub fn error_response(&self) -> (r: ErrorResponse)
        ensures
            r.status == self.spec_status_code(),
            r.content_type@ == ERROR_CONTENT_TYPE@,
            r.body@ == match self {
                WatchtowerError::InternalError => "Internal Server Error"@,
                WatchtowerError::Unauthorized => "Unauthorized"@,
            },
    {
        ErrorResponse {
            status: self.status_code(),
            content_type: ERROR_CONTENT_TYPE,
            body: self.message(),
        }
    }
}

impl From<SystemTimeError> for WatchtowerError {
    /// A clock that stands before the epoch is an internal error.
    fn from(error: SystemTimeError) -> (r: Self) {
        WatchtowerError::InternalError
    }
}

impl FromSpecImpl<SystemTimeError> for WatchtowerError {
    open spec fn obeys_from_spec() -> bool {
        true
    }

    open spec fn from_spec(v: SystemTimeError) -> Self {
        WatchtowerError::InternalError
    }
}

/// The kinds of failure that a request handler reports to an HTTP caller.
#[derive(Debug, Clone, Copy, PartialEq, Eq, Structural)]
pub enum WatchTowerError {
    InternalError,
    BadClientData,
    Timeout,
}

impl WatchTowerError {
    /// The HTTP status that reports this failure.
    pub open spec fn spec_status_code(&self) -> u16 {
        match self {
            WatchTowerError::InternalError => 500,
            WatchTowerError::BadClientData => 400,
            WatchTowerError::Timeout => 504,
        }
    }

    /// The HTTP status that reports this failure.
    #[verifier::when_used_as_spec(spec_status_code)]
    pub fn status_code(&self) -> (r: u16)
        ensures
            r == self.spec_status_code(),
    {
        match self {
            WatchTowerError::InternalError => 500,
            WatchTowerError::BadClientData => 400,
            WatchTowerError::Timeout => 504,
        }
    }

    /// The text that a response carries for this failure.
    pub fn message(&self) -> (r: &'static str)
        ensures
            r@ == match self {
                WatchTowerError::InternalError => "Internal Server Error"@,
                WatchTowerError::BadClientData => "bad request"@,
                WatchTowerError::Timeout => "timeout"@,
            },
    {
        match self {
            WatchTowerError::InternalError => "Internal Server Error",
            WatchTowerError::BadClientData => "bad request",
            WatchTowerError::Timeout => "timeout",
        }
    }
}

impl WatchTowerError {
    /// The answer that reports this failure.
    pub fn error_response(&self) -> (r: ErrorResponse)
        ensures
            r.status == self.spec_status_code(),
            r.content_type@ == ERROR_CONTENT_TYPE@,
            r.body@ == match self {
                WatchTowerError::InternalError => "Internal Server Error"@,
                WatchTowerError::BadClientData => "bad request"@,
                WatchTowerError::Timeout => "timeout"@,
            },
    {
        ErrorResponse {
            status: self.status_code(),
            content_type: ERROR_CONTENT_TYPE,
            body: self.message(),
        }
    }
}

impl From<SystemTimeError> for WatchTowerError {
    /// A clock that stands before the epoch is an internal error.
    fn from(error: SystemTimeError) -> (r: Self) {
        WatchTowerError::InternalError
    }
}

impl FromSpecImpl<SystemTimeError> for WatchTowerError {
    open spec fn obeys_from_spec() -> bool {
        true
    }

    open spec fn from_spec(v: SystemTimeError) -> Self {
        WatchTowerError::InternalError
    }
}

} // verus!
