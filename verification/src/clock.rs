//! The system clock.

use vstd::prelude::*;

verus! {

/// Seconds since the Unix epoch, as `chrono::Utc::now()` reads the system
/// clock and `DateTime::timestamp` counts them. Nothing is claimed of the
/// value: two readings may differ in either direction. `Utc::now()` ends the
/// program where the system clock stands before the epoch.
#[verifier::external_body]
pub(crate) fn now_seconds() -> (seconds: i64) {
    chrono::Utc::now().timestamp()
}

/// Milliseconds since the Unix epoch, as `chrono::Utc::now()` reads the
/// system clock and `DateTime::timestamp_millis` counts them. Nothing is
/// claimed of the value: two readings may differ in either direction.
/// `Utc::now()` ends the program where the system clock stands before the
/// epoch.
#[verifier::external_body]
pub(crate) fn now_millis() -> (millis: i64) {
    chrono::Utc::now().timestamp_millis()
}

} // verus!
