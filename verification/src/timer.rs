//! A stopwatch over the system's monotonic clock.
use vstd::prelude::*;

use std::time::Instant;

verus! {

#[verifier::external_type_specification]
#[verifier::external_body]
pub struct ExInstant(std::time::Instant);

/// `std::time::Instant::now`: the current reading of the monotonic clock.
/// Nothing is claimed about the value.
#[verifier::external_body]
fn instant_now() -> Instant {
    Instant::now()
}

/// Measures time since it was created or last reset.
pub struct Timer {
    pub start_time: Instant,
}

impl Timer {
    /// A timer that measures from `now`.
    pub fn started_at(now: Instant) -> (r: Timer)
        ensures
            r.start_time == now,
    {
        Timer { start_time: now }
    }

    /// Measures anew from `now`.
    pub fn reset_to(&mut self, now: Instant)
        ensures
            final(self).start_time == now,
    {
        self.start_time = now;
    }

    /// A timer started now.
    pub fn new() -> Timer {
        Timer::started_at(instant_now())
    }

    /// Starts measuring anew from now.
    pub fn reset(&mut self) {
        self.reset_to(instant_now());
    }
}

} // verus!
