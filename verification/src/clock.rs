//! Readings of the system clock. Nothing is stated of a reading: it depends
//! on the machine, so the functions that use one are verified for every value.

use std::time::{Duration, SystemTime, SystemTimeError};
use vstd::prelude::*;

verus! {

#[verifier::external_type_specification]
#[verifier::external_body]
pub struct ExSystemTime(SystemTime);

#[verifier::external_type_specification]
#[verifier::external_body]
pub struct ExSystemTimeError(SystemTimeError);

/// Calls `SystemTime::now`; the reading is left unstated.
#[verifier::external_body]
fn system_now() -> SystemTime {
    SystemTime::now()
}

/// Calls `SystemTime::duration_since` with `UNIX_EPOCH`; std returns an
/// error for a time before the epoch. Nothing further is stated.
#[verifier::external_body]
fn since_unix_epoch(t: &SystemTime) -> Result<Duration, SystemTimeError> {
    t.duration_since(std::time::UNIX_EPOCH)
}

/// Calls `Duration::as_secs`; left unstated.
#[verifier::external_body]
fn duration_secs(d: &Duration) -> u64 {
    d.as_secs()
}

/// Calls `Duration::as_millis`; left unstated.
#[verifier::external_body]
fn duration_millis(d: &Duration) -> u128 {
    d.as_millis()
}

/// Whole seconds since the Unix epoch, or 0 when the clock reads earlier.
pub fn unix_time_secs() -> u64 {
    let now = system_now();
    match since_unix_epoch(&now) {
        Ok(d) => duration_secs(&d),
        Err(_) => 0,
    }
}

/// Whole milliseconds since the Unix epoch, or 0 when the clock reads earlier.
pub fn unix_time_millis() -> u128 {
    let now = system_now();
    match since_unix_epoch(&now) {
        Ok(d) => duration_millis(&d),
        Err(_) => 0,
    }
}

} // verus!
