//! Readings of the process clocks. What they return depends on when they are
//! called, so nothing is promised of their values.

use vstd::prelude::*;

verus! {

/// A monotonic clock reading (`Instant::now`).
#[verifier::external_body]
pub(crate) fn clock_now() -> std::time::Instant {
    std::time::Instant::now()
}

/// Whole milliseconds elapsed since `start` (`Instant::elapsed`).
#[verifier::external_body]
pub(crate) fn millis_since(start: &std::time::Instant) -> u64 {
    start.elapsed().as_millis() as u64
}

/// Wall-clock milliseconds since the Unix epoch, 0 before it
/// (`SystemTime::now`).
#[verifier::external_body]
pub(crate) fn now_ms() -> u64 {
    match std::time::SystemTime::now().duration_since(std::time::UNIX_EPOCH) {
        Ok(d) => d.as_millis() as u64,
        Err(_) => 0,
    }
}

} // verus!
