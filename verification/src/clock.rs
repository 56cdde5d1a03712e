//! Trusted access to the system clock.
//!
//! A clock reading depends on when it is made, so nothing is promised of
//! the values; every component whose behaviour depends on time takes the
//! current instant as an argument and is verified for every value of it.

use vstd::prelude::*;

verus! {

/// Relies on `std::time::SystemTime::now` and `duration_since`: whole
/// seconds since the Unix epoch, 0 for a clock set before it.
#[verifier::external_body]
pub(crate) fn unix_now_secs() -> u64 {
    match std::time::SystemTime::now().duration_since(std::time::UNIX_EPOCH) {
        Ok(d) => d.as_secs(),
        Err(_) => 0,
    }
}

/// Relies on `std::time::SystemTime::now` and `duration_since`: whole
/// milliseconds since the Unix epoch, truncated to 64 bits; 0 for a clock
/// set before the epoch.
#[verifier::external_body]
pub(crate) fn now_millis() -> u64 {
    match std::time::SystemTime::now().duration_since(std::time::UNIX_EPOCH) {
        Ok(d) => d.as_millis() as u64,
        Err(_) => 0,
    }
}

} // verus!
