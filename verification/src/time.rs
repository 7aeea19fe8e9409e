//! Points in time and durations as plain values.

use vstd::prelude::*;

verus! {

pub const NANOS_PER_SEC: u128 = 1_000_000_000;

pub const NANOS_PER_MILLI: u128 = 1_000_000;

/// A point in time: nanoseconds since a fixed origin of the process.
#[derive(Clone, Copy, Debug, PartialEq, Eq, Structural)]
pub struct Instant {
    pub nanos: u64,
}

/// A span of time.
#[derive(Clone, Copy, Debug, PartialEq, Eq, Structural)]
pub struct Duration {
    pub nanos: u128,
}

impl View for Instant {
    type V = Instant;

    open spec fn view(&self) -> Instant {
        *self
    }
}

impl Duration {
    pub fn from_secs(secs: u64) -> (d: Duration)
        ensures
            d.nanos == secs * NANOS_PER_SEC,
    {
        assert(secs * 1_000_000_000 <= u128::MAX) by (nonlinear_arith)
            requires
                secs <= u64::MAX,
        ;
        Duration { nanos: secs as u128 * NANOS_PER_SEC }
    }

    pub fn from_millis(millis: u64) -> (d: Duration)
        ensures
            d.nanos == millis * NANOS_PER_MILLI,
    {
        assert(millis * 1_000_000 <= u128::MAX) by (nonlinear_arith)
            requires
                millis <= u64::MAX,
        ;
        Duration { nanos: millis as u128 * NANOS_PER_MILLI }
    }
}

/// The nanoseconds from `from` to `to`, zero if `to` is not later.
pub open spec fn nanos_between(from: Instant, to: Instant) -> nat {
    if to.nanos >= from.nanos {
        (to.nanos - from.nanos) as nat
    } else {
        0
    }
}

/// The whole seconds from `from` to `to`.
pub open spec fn secs_between(from: Instant, to: Instant) -> nat {
    nanos_between(from, to) / 1_000_000_000
}

/// The whole milliseconds from `from` to `to`.
pub open spec fn millis_between(from: Instant, to: Instant) -> nat {
    nanos_between(from, to) / 1_000_000
}

impl Instant {
    /// How long ago this was, zero if it lies ahead of `now`.
    pub fn elapsed(&self, now: Instant) -> (d: Duration)
        ensures
            d.nanos == nanos_between(*self, now),
    {
        if now.nanos >= self.nanos {
            Duration { nanos: (now.nanos - self.nanos) as u128 }
        } else {
            Duration { nanos: 0 }
        }
    }

    /// The whole seconds since this point.
    pub fn elapsed_secs(&self, now: Instant) -> (s: u64)
        ensures
            s == secs_between(*self, now),
    {
        if now.nanos >= self.nanos {
            (now.nanos - self.nanos) / 1_000_000_000
        } else {
            0
        }
    }

    /// The whole milliseconds since this point.
    pub fn elapsed_millis(&self, now: Instant) -> (s: u64)
        ensures
            s == millis_between(*self, now),
    {
        duration_ms(self.elapsed(now))
    }
}

/// The whole milliseconds of a duration, at most the largest 64-bit number.
pub fn duration_ms(duration: Duration) -> (ms: u64)
    ensures
        ms == (if duration.nanos as nat / 1_000_000 <= u64::MAX {
            duration.nanos as nat / 1_000_000
        } else {
            u64::MAX as nat
        }),
{
    let millis: u128 = duration.nanos / NANOS_PER_MILLI;
    if millis <= u64::MAX as u128 {
        millis as u64
    } else {
        u64::MAX
    }
}

} // verus!
