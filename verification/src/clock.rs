//! The wall clock, as whole seconds since the Unix epoch.

use vstd::prelude::*;

verus! {

/// A reading of the system clock. Nothing of its inside is known here.
#[verifier::external_type_specification]
#[verifier::external_body]
pub struct ExSystemTime(std::time::SystemTime);

/// Reads the system clock with `std::time::SystemTime::now`. Nothing is
/// claimed of the reading: it is whatever the machine's clock says.
#[verifier::external_body]
fn read_system_clock() -> (r: std::time::SystemTime) {
    std::time::SystemTime::now()
}

/// Measures a reading of the clock against the Unix epoch with
/// `std::time::SystemTime::duration_since`, and converts the duration to
/// whole seconds. Nothing is claimed of the number; it is `None` where the
/// reading lies before the epoch.
#[verifier::external_body]
fn seconds_since_epoch(reading: &std::time::SystemTime) -> (r: Option<u64>) {
    reading.duration_since(std::time::UNIX_EPOCH).ok().map(|d| d.as_secs())
}

/// The current time in seconds since the Unix epoch; a clock that stands
/// before the epoch reads as zero.
pub fn current_time() -> (r: u64) {
    let reading = read_system_clock();
    seconds_or_zero(seconds_since_epoch(&reading))
}

/// The time that a measurement of the clock stands for: its seconds, or
/// zero where the clock stands before the epoch and there are none.
pub fn seconds_or_zero(measured: Option<u64>) -> (r: u64)
    ensures
        r == match measured {
            Some(seconds) => seconds,
            None => 0,
        },
{
    match measured {
        Some(seconds) => seconds,
        None => 0,
    }
}

} // verus!
