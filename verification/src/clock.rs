//! The wall clock, read as whole seconds since the Unix epoch.

use std::time::{Duration, SystemTimeError, UNIX_EPOCH};
use vstd::prelude::*;

verus! {

/// The error of `std::time`'s `SystemTime::elapsed` and
/// `SystemTime::duration_since`. Nothing is said of what it holds.
#[verifier::external_type_specification]
#[verifier::external_body]
pub struct ExSystemTimeError(SystemTimeError);

/// `SystemTime::elapsed` on `UNIX_EPOCH`: the time that has passed since the
/// Unix epoch by the system clock, or an error when the clock is set before
/// the epoch. The result depends on the clock, so nothing is promised of it.
#[verifier::external_body]
fn since_unix_epoch() -> Result<Duration, SystemTimeError> {
    UNIX_EPOCH.elapsed()
}

/// `Duration::as_secs`: the whole seconds of a duration. Nothing is promised
/// of the number, since nothing is known of the duration.
pub assume_specification[ Duration::as_secs ](duration: &Duration) -> u64
;

/// The whole seconds of a clock reading: those of the time that has passed
/// since the epoch, and 0 where the clock was set before the epoch.
pub fn seconds_of(reading: Result<Duration, SystemTimeError>) -> (seconds: u64)
    ensures
        reading is Err ==> seconds == 0,
{
    match reading {
        Ok(elapsed) => elapsed.as_secs(),
        Err(_) => 0,
    }
}

/// The current time in whole seconds since the Unix epoch; 0 when the system
/// clock is set before the epoch. Two calls may differ.
pub fn unix_timestamp() -> u64 {
    seconds_of(since_unix_epoch())
}

} // verus!
