//! A monotonic clock, read as nanoseconds since the clock was started.

use vstd::prelude::*;

verus! {

#[verifier::external_type_specification]
#[verifier::external_body]
pub struct ExInstant(std::time::Instant);

/// Calls `Instant::now`.
#[verifier::external_body]
fn instant_now() -> std::time::Instant {
    std::time::Instant::now()
}

/// Calls `Instant::elapsed` and converts the duration to whole nanoseconds
/// (kept in 64 bits, enough for five centuries). The reading depends on the
/// time, so nothing is stated of it.
#[verifier::external_body]
fn elapsed_nanos(origin: &std::time::Instant) -> u64 {
    origin.elapsed().as_nanos() as u64
}

/// A monotonic clock started at construction.
pub struct Clock {
    origin: std::time::Instant,
}

impl Clock {
    pub fn new() -> Self {
        Clock { origin: instant_now() }
    }

    /// Nanoseconds since the clock was started.
    pub fn now_nanos(&self) -> u64 {
        elapsed_nanos(&self.origin)
    }
}

/// The time from `earlier` to `later`, zero when `later` comes first
/// (what `Instant::duration_since` gives).
pub open spec fn spec_duration_since(later: u64, earlier: u64) -> u64 {
    if later >= earlier {
        (later - earlier) as u64
    } else {
        0
    }
}

pub fn duration_since(later: u64, earlier: u64) -> (r: u64)
    ensures
        r == spec_duration_since(later, earlier),
{
    if later >= earlier {
        later - earlier
    } else {
        0
    }
}

} // verus!
