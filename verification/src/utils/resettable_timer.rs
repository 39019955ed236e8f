//! A timer that tells whether a duration has passed since it was last reset.
use std::time::{Duration, Instant};
use vstd::prelude::*;

verus! {

#[verifier::external_type_specification]
#[verifier::external_body]
pub struct ExInstant(Instant);

/// The length of a `Duration` in nanoseconds, as `Duration::as_nanos` gives it.
pub uninterp spec fn duration_nanos(d: Duration) -> nat;

/// Calls `Duration::as_nanos`, which gives the whole length of the duration
/// in nanoseconds; the contract names that number [duration_nanos].
#[verifier::external_body]
fn as_nanos(d: &Duration) -> (n: u128)
    ensures
        n == duration_nanos(*d),
{
    d.as_nanos()
}

/// Calls `Instant::now`, which reads the monotonic clock; nothing is stated
/// of the reading.
#[verifier::external_body]
fn instant_now() -> Instant {
    Instant::now()
}

/// Calls `Instant::elapsed`, the time passed since `start`; it depends on the
/// clock, so nothing is stated of it.
#[verifier::external_body]
fn instant_elapsed(start: &Instant) -> Duration {
    start.elapsed()
}

/// A timer that is done once more than `duration` has passed since it was
/// created or last reset.
#[derive(Debug, Clone, Copy)]
pub struct ResettableTimer {
    pub duration: Duration,
    pub timer: Instant,
}

impl ResettableTimer {
    pub fn new(duration: Duration) -> (r: Self)
        ensures
            r.duration == duration,
    {
        Self { duration, timer: instant_now() }
    }

    /// Restarts the timer from now; the duration is kept.
    pub fn reset(&mut self)
        ensures
            final(self).duration == old(self).duration,
    {
        self.timer = instant_now();
    }

    /// Whether a timer that has been running for `elapsed` is done: whether
    /// `elapsed` is longer than the timer's duration.
    pub fn is_done_after(&self, elapsed: Duration) -> (r: bool)
        ensures
            r == (duration_nanos(elapsed) > duration_nanos(self.duration)),
    {
        as_nanos(&elapsed) > as_nanos(&self.duration)
    }

    /// Whether more than the timer's duration has passed since it was last
    /// reset; the answer depends on the clock (see [Self::is_done_after]).
    pub fn is_done(&self) -> bool {
        let elapsed = instant_elapsed(&self.timer);
        self.is_done_after(elapsed)
    }
}

} // verus!
