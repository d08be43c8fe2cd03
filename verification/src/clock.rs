//! The system clock, read as whole seconds since the Unix epoch.
use std::time::{Duration, SystemTime, SystemTimeError, UNIX_EPOCH};
use vstd::prelude::*;

verus! {

#[verifier::external_type_specification]
#[verifier::external_body]
pub struct ExSystemTime(SystemTime);

#[verifier::external_type_specification]
#[verifier::external_body]
pub struct ExSystemTimeError(SystemTimeError);

/// `UNIX_EPOCH`: the time 1970-01-01 00:00:00 UTC. Times are opaque, so
/// nothing is stated.
#[verifier::external_body]
fn unix_epoch() -> SystemTime {
    UNIX_EPOCH
}

/// `SystemTime::now`: the system clock's current time. It depends on the
/// clock, so nothing is stated of it.
pub assume_specification[ std::time::SystemTime::now ]() -> SystemTime;

/// `SystemTime::duration_since`: the time elapsed since `earlier`, or an
/// error when `earlier` is later. Times are opaque, so nothing is stated.
pub assume_specification[ std::time::SystemTime::duration_since ](
    time: &SystemTime,
    earlier: SystemTime,
) -> Result<Duration, SystemTimeError>;

/// `Duration::as_secs`: the whole seconds of a duration. Durations are
/// opaque, so nothing is stated.
pub assume_specification[ std::time::Duration::as_secs ](duration: &Duration) -> u64;

/// Whole seconds since the Unix epoch on the system clock, or `None` when
/// the clock reads before the epoch.
pub fn now() -> Option<u64> {
    match SystemTime::now().duration_since(unix_epoch()) {
        Ok(elapsed) => Some(elapsed.as_secs()),
        Err(_) => None,
    }
}

} // verus!
