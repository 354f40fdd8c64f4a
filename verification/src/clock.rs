//! Readings of the system clock.
use vstd::prelude::*;

verus! {

/// `a + b`, saturated at `u64::MAX`.
pub open spec fn sat_add(a: u64, b: u64) -> u64 {
    if a + b > u64::MAX {
        u64::MAX
    } else {
        (a + b) as u64
    }
}

/// Time left from `now` until `until`: `until - now`, or 0 once `until`
/// has passed.
pub open spec fn remaining_until(until: u64, now: u64) -> u64 {
    if now >= until {
        0
    } else {
        (until - now) as u64
    }
}

/// Whether the moment `t` has come at `now`.
pub open spec fn reached(t: u64, now: u64) -> bool {
    now >= t
}

/// Seconds since the Unix epoch, read from `std::time::SystemTime::now`
/// (0 if the clock reads before the epoch). Nothing is stated of the value:
/// it depends on the machine's clock.
#[verifier::external_body]
pub(crate) fn unix_time_secs() -> u64 {
    match std::time::SystemTime::now().duration_since(std::time::UNIX_EPOCH) {
        Ok(d) => d.as_secs(),
        Err(_) => 0,
    }
}

/// Milliseconds since the Unix epoch, read from `std::time::SystemTime::now`
/// (0 if the clock reads before the epoch, saturated at `u64::MAX`). Nothing
/// is stated of the value: it depends on the machine's clock.
#[verifier::external_body]
pub(crate) fn unix_time_millis() -> u64 {
    match std::time::SystemTime::now().duration_since(std::time::UNIX_EPOCH) {
        Ok(d) => u64::try_from(d.as_millis()).unwrap_or(u64::MAX),
        Err(_) => 0,
    }
}

} // verus!
