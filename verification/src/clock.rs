//! The wall clock, read as whole seconds since the Unix epoch.

use std::time::{Duration, SystemTime, SystemTimeError, UNIX_EPOCH};
use vstd::prelude::*;

verus! {

/// `std::time::SystemTime`, a point in time as the system clock reports it.
/// Nothing is known of a value but that it can be handed on.
#[verifier::external_type_specification]
#[verifier::external_body]
pub struct ExSystemTime(SystemTime);

/// `std::time::SystemTimeError`, the failure of `SystemTime::duration_since`
/// when the earlier time is in fact the later one.
#[verifier::external_type_specification]
#[verifier::external_body]
pub struct ExSystemTimeError(SystemTimeError);

/// `SystemTime::now` reads the system clock. The reading differs from call
/// to call, so nothing is claimed of it.
pub assume_specification[ SystemTime::now ]() -> (t: SystemTime);

/// `Duration::as_secs` gives the whole seconds that a duration holds. The
/// duration is opaque here, so nothing is claimed of the number.
pub assume_specification[ Duration::as_secs ](d: &Duration) -> (s: u64);

/// Calls `SystemTime::duration_since` with `UNIX_EPOCH` as the earlier
/// time. It fails when `t` lies before the epoch. Nothing is claimed of
/// the outcome.
#[verifier::external_body]
fn since_unix_epoch(t: &SystemTime) -> (r: Result<Duration, SystemTimeError>) {
    t.duration_since(UNIX_EPOCH)
}

/// The current time in whole seconds since the Unix epoch, or the error of
/// a clock that stands before the epoch.
pub fn unix_time() -> (r: Result<u64, SystemTimeError>) {
    let t = SystemTime::now();
    match since_unix_epoch(&t) {
        Ok(d) => Ok(d.as_secs()),
        Err(e) => Err(e),
    }
}

/// The number of seconds after its last update for which a lease, or a
/// cached service list, stays valid.
pub const LEASE_TTL_SECONDS: u64 = 30;

/// Whether something last updated at `last_updated` has outlived its
/// lifetime at time `now`.
pub open spec fn expired_at(last_updated: u64, now: u64) -> bool {
    last_updated + LEASE_TTL_SECONDS < now
}

/// Decides `expired_at` without leaving the range of `u64`.
pub fn is_expired_at(last_updated: u64, now: u64) -> (r: bool)
    ensures
        r == expired_at(last_updated, now),
{
    now > LEASE_TTL_SECONDS && last_updated < now - LEASE_TTL_SECONDS
}

} // verus!
