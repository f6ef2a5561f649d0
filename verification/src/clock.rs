//! The wall clock, read where the original reads it. Nothing is promised of
//! the readings: functions that decide by time take them as arguments.

use vstd::prelude::*;

verus! {

/// Seconds since the Unix epoch (`SystemTime::now`), 0 if the clock is set
/// before the epoch. Nothing is stated of the value: it is the time.
#[verifier::external_body]
pub(crate) fn unix_seconds() -> (r: u64) {
    std::time::SystemTime::now().duration_since(std::time::UNIX_EPOCH).unwrap_or_default().as_secs()
}

/// Milliseconds since the Unix epoch (`SystemTime::now`), 0 if the clock is
/// set before the epoch; truncated to 64 bits. Nothing is stated of the value.
#[verifier::external_body]
pub(crate) fn unix_millis() -> (r: u64) {
    std::time::SystemTime::now().duration_since(std::time::UNIX_EPOCH).unwrap_or_default().as_millis() as u64
}

} // verus!
