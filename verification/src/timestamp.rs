//! The clock that stamps keystrokes.

use vstd::prelude::*;
use std::time::{Duration, SystemTime, SystemTimeError, UNIX_EPOCH};

verus! {

/// A point in time as the operating system gives it.
#[verifier::external_type_specification]
#[verifier::external_body]
pub struct ExSystemTime(SystemTime);

/// The failure of a clock that stands before the point it is measured from.
#[verifier::external_type_specification]
#[verifier::external_body]
pub struct ExSystemTimeError(SystemTimeError);

/// Reads the system clock. Stands for `SystemTime::now`; what it returns
/// depends on the moment of the call, so nothing is stated of it.
#[verifier::external_body]
fn system_time_now() -> SystemTime {
    SystemTime::now()
}

/// The time that has passed between the Unix epoch and `time`, or the error
/// of a clock that stands before the epoch. Stands for
/// `SystemTime::duration_since`.
#[verifier::external_body]
fn since_epoch(time: &SystemTime) -> Result<Duration, SystemTimeError> {
    time.duration_since(UNIX_EPOCH)
}

/// The whole milliseconds of a duration. Stands for `Duration::as_millis`.
#[verifier::external_body]
fn whole_millis(duration: &Duration) -> u128 {
    duration.as_millis()
}

/// The milliseconds that a reading of the clock amounts to: those since the
/// epoch where they fit, the largest value where they do not, and zero for a
/// clock that stands before the epoch.
pub open spec fn clock_millis(reading: Option<u128>) -> u64 {
    match reading {
        Some(ms) => if ms > u64::MAX {
            u64::MAX
        } else {
            ms as u64
        },
        None => 0,
    }
}

/// Turns a reading of the clock into milliseconds.
pub fn millis_of(reading: Option<u128>) -> (ms: u64)
    ensures
        ms == clock_millis(reading),
{
    match reading {
        Some(ms) => if ms > 0xFFFF_FFFF_FFFF_FFFFu128 {
            u64::MAX
        } else {
            ms as u64
        },
        None => 0,
    }
}

/// The current time in milliseconds since the Unix epoch, as
/// [`clock_millis`] gives it for the reading of the system clock.
pub fn now() -> u64 {
    let time = system_time_now();
    let reading = match since_epoch(&time) {
        Ok(duration) => Some(whole_millis(&duration)),
        Err(_) => None,
    };
    millis_of(reading)
}

} // verus!
