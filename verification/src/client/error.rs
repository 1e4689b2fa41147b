//! The failures a client reports.

use std::time::SystemTimeError;
use vstd::prelude::*;
use vstd::std_specs::convert::FromSpecImpl;

verus! {

/// A failure of a call of the client.
#[derive(Debug, Clone, Copy, PartialEq, Eq, Structural)]
pub enum WatchtowerError {
    /// The transport, the codec or the clock misbehaved, or a registry
    /// answered with a status that no rule covers.
    InternalError,
    /// The service is not known or has no instance, or there is no
    /// registration to cancel.
    NotFound,
    /// A registry refused the credentials.
    Unauthorized,
    /// The client holds a registration already.
    InstanceAlreadyRegistered,
    /// Every registry failed.
    MaxRetryReached,
}

impl From<SystemTimeError> for WatchtowerError {
    /// A clock that stands before the epoch is an internal error.
    fn from(error: SystemTimeError) -> (r: Self) {
        WatchtowerError::InternalError
    }
}

impl FromSpecImpl<SystemTimeError> for WatchtowerError {
    open spec fn obeys_from_spec() -> bool {
        true
    }

    open spec fn from_spec(v: SystemTimeError) -> Self {
        WatchtowerError::InternalError
    }
}

} // verus!
