//! Wall-clock readings. Their values depend on the machine's clock, so no
//! contract names them; the logic that uses them takes the reading as an argument.

use vstd::prelude::*;

verus! {

/// Seconds since the Unix epoch, from `SystemTime::now()`; 0 when the clock reads before the epoch.
#[verifier::external_body]
pub fn unix_now_secs() -> u64 {
    std::time::SystemTime::now().duration_since(std::time::UNIX_EPOCH).map(|d| d.as_secs()).unwrap_or(0)
}

/// Milliseconds since the Unix epoch, from `SystemTime::now()`; 0 when the clock reads before the epoch.
#[verifier::external_body]
pub fn unix_now_millis() -> u64 {
    std::time::SystemTime::now().duration_since(std::time::UNIX_EPOCH).map(|d| d.as_millis() as u64).unwrap_or(0)
}

/// Microseconds since the Unix epoch, from `SystemTime::now()`; 0 when the clock reads before the epoch.
#[verifier::external_body]
pub fn unix_now_micros() -> u64 {
    std::time::SystemTime::now().duration_since(std::time::UNIX_EPOCH).map(|d| d.as_micros() as u64).unwrap_or(0)
}

/// `std::hint::spin_loop()`: tells the processor that the caller is spinning; it has no effect on values.
#[verifier::external_body]
pub fn spin_hint() {
    std::hint::spin_loop()
}

} // verus!
