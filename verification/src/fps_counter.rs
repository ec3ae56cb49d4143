//! Reports frames that took longer than a threshold.
use std::time::{Duration, Instant};
use vstd::prelude::*;

verus! {

/// The clock's instants.
#[verifier::external_type_specification]
#[verifier::external_body]
pub struct ExInstant(Instant);

/// Calls `Instant::now`, the current instant of the monotonic clock.
#[verifier::external_body]
fn instant_now() -> Instant {
    Instant::now()
}

/// Calls `Instant::duration_since`: the time from `earlier` to `later`, or
/// zero if `earlier` is the later one.
#[verifier::external_body]
fn duration_since(later: &Instant, earlier: &Instant) -> Duration {
    later.duration_since(*earlier)
}

/// Calls `Duration::as_nanos`: the whole nanoseconds in a duration.
#[verifier::external_body]
fn as_nanos(d: &Duration) -> u128 {
    d.as_nanos()
}

/// Watches the time between frames. Frame times are kept as nanoseconds
/// since the counter was made.
pub struct FpsCounter {
    threshold: u128,
    origin: Instant,
    last_nanos: u128,
}

/// A frame of `millis` milliseconds is slow, and reported, when it took
/// longer than `threshold`.
pub fn slow_frame(threshold: u128, millis: u128) -> (r: Option<u128>)
    ensures
        r == (if millis > threshold { Some(millis) } else { None }),
{
    if millis > threshold {
        Some(millis)
    } else {
        None
    }
}

/// The whole milliseconds from a frame that ended at `last` nanoseconds to
/// one that ends at `now`, or zero if `now` is not later.
pub open spec fn frame_millis(last: u128, now: u128) -> u128 {
    if now >= last {
        ((now - last) / 1_000_000) as u128
    } else {
        0
    }
}

/// What a frame reports: its milliseconds if that is more than the threshold.
pub open spec fn slow_report(threshold: u128, millis: u128) -> Option<u128> {
    if millis > threshold {
        Some(millis)
    } else {
        None
    }
}

impl FpsCounter {
    /// A counter that reports frames longer than `threshold` milliseconds,
    /// counting the first frame from now.
    pub fn new(threshold: u128) -> (c: Self)
        ensures
            c.threshold() == threshold,
            c.last_nanos() == 0,
    {
        FpsCounter { threshold, origin: instant_now(), last_nanos: 0 }
    }

    /// The threshold, in milliseconds.
    pub closed spec fn threshold(&self) -> u128 {
        self.threshold
    }

    /// When the last frame ended, in nanoseconds since the counter was made.
    pub closed spec fn last_nanos(&self) -> u128 {
        self.last_nanos
    }

    /// Records that a frame ended at `now_nanos` (nanoseconds since the
    /// counter was made). Returns how long the frame took, in milliseconds,
    /// if that is longer than the threshold.
    pub fn record_frame(&mut self, now_nanos: u128) -> (r: Option<u128>)
        ensures
            final(self).threshold() == old(self).threshold(),
            final(self).last_nanos() == now_nanos,
            r == slow_report(old(self).threshold(), frame_millis(old(self).last_nanos(), now_nanos)),
    {
        let millis = if now_nanos >= self.last_nanos {
            (now_nanos - self.last_nanos) / 1_000_000
        } else {
            0
        };
        self.last_nanos = now_nanos;
        slow_frame(self.threshold, millis)
    }

    /// Marks the end of a frame: reads the clock and records the frame's
    /// end. Returns how long the frame took, in milliseconds, if that is
    /// longer than the threshold.
    pub fn on_frame(&mut self) -> (r: Option<u128>)
        ensures
            final(self).threshold() == old(self).threshold(),
            r == slow_report(old(self).threshold(), frame_millis(old(self).last_nanos(), final(self).last_nanos())),
    {
        let now = instant_now();
        let since_origin = duration_since(&now, &self.origin);
        let now_nanos = as_nanos(&since_origin);
        self.record_frame(now_nanos)
    }
}

} // verus!
