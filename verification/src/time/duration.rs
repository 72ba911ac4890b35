//! Spans of simulated time.

use vstd::prelude::*;

verus! {

/// Nanoseconds in a second.
pub const NANOS_PER_SEC: u128 = 1_000_000_000;

/// Nanoseconds in a millisecond.
pub const NANOS_PER_MILLI: u128 = 1_000_000;

/// Nanoseconds in a microsecond.
pub const NANOS_PER_MICRO: u128 = 1_000;

/// The longest span: `u64::MAX` seconds and one nanosecond less than a further second.
pub const MAX_NANOS: u128 = 18_446_744_073_709_551_615_999_999_999;

/// A span of time, in whole nanoseconds.
#[derive(Debug, Clone, Copy, PartialEq, Eq, Structural, PartialOrd, Ord, Hash)]
pub struct Duration {
    /// Length of the span in nanoseconds.
    pub nanos: u128,
}

impl Duration {
    /// The span is one whose whole seconds fit in 64 bits.
    pub open spec fn wf(self) -> bool {
        self.nanos <= MAX_NANOS
    }

    /// The empty span.
    pub fn zero() -> (r: Duration)
        ensures
            r.nanos == 0,
    {
        Duration { nanos: 0 }
    }

    /// A span of `secs` seconds.
    pub fn from_secs(secs: u64) -> (r: Duration)
        ensures
            r.nanos == secs * NANOS_PER_SEC,
            r.wf(),
    {
        Duration { nanos: secs as u128 * NANOS_PER_SEC }
    }

    /// A span of `millis` milliseconds.
    pub fn from_millis(millis: u64) -> (r: Duration)
        ensures
            r.nanos == millis * NANOS_PER_MILLI,
            r.wf(),
    {
        Duration { nanos: millis as u128 * NANOS_PER_MILLI }
    }

    /// A span of `micros` microseconds.
    pub fn from_micros(micros: u64) -> (r: Duration)
        ensures
            r.nanos == micros * NANOS_PER_MICRO,
            r.wf(),
    {
        Duration { nanos: micros as u128 * NANOS_PER_MICRO }
    }

    /// A span of `nanos` nanoseconds.
    pub fn from_nanos(nanos: u64) -> (r: Duration)
        ensures
            r.nanos == nanos,
            r.wf(),
    {
        Duration { nanos: nanos as u128 }
    }

    /// A span of `secs` seconds and `nanos` nanoseconds.
    pub fn from_parts(secs: u64, nanos: u32) -> (r: Duration)
        requires
            nanos < NANOS_PER_SEC,
        ensures
            r.nanos == secs * NANOS_PER_SEC + nanos,
            r.wf(),
    {
        Duration { nanos: secs as u128 * NANOS_PER_SEC + nanos as u128 }
    }

    /// The whole seconds of the span.
    pub fn as_secs(self) -> (r: u64)
        requires
            self.wf(),
        ensures
            r == self.nanos / NANOS_PER_SEC,
    {
        (self.nanos / NANOS_PER_SEC) as u64
    }

    /// The part of the span beyond its whole seconds, in nanoseconds.
    pub fn subsec_nanos(self) -> (r: u32)
        ensures
            r == self.nanos % NANOS_PER_SEC,
    {
        (self.nanos % NANOS_PER_SEC) as u32
    }

    /// The part of the span beyond its whole seconds, in whole microseconds.
    pub fn subsec_micros(self) -> (r: u32)
        ensures
            r == (self.nanos % NANOS_PER_SEC) / NANOS_PER_MICRO,
    {
        ((self.nanos % NANOS_PER_SEC) / NANOS_PER_MICRO) as u32
    }

    /// The two spans one after the other.
    pub fn plus(self, other: Duration) -> (r: Duration)
        requires
            self.nanos + other.nanos <= MAX_NANOS,
        ensures
            r.nanos == self.nanos + other.nanos,
            r.wf(),
    {
        Duration { nanos: self.nanos + other.nanos }
    }

    /// What is left of the span once `other` is taken off.
    pub fn minus(self, other: Duration) -> (r: Duration)
        requires
            other.nanos <= self.nanos,
        ensures
            r.nanos == self.nanos - other.nanos,
    {
        Duration { nanos: self.nanos - other.nanos }
    }

    /// A `parts`-th of the span, rounded down to whole nanoseconds.
    pub fn divided_by(self, parts: u32) -> (r: Duration)
        requires
            parts > 0,
        ensures
            r.nanos == self.nanos as int / parts as int,
            r.nanos <= self.nanos,
    {
        proof {
            assert(self.nanos as int / parts as int <= self.nanos) by (nonlinear_arith)
                requires
                    parts > 0,
            ;
        }
        Duration { nanos: self.nanos / parts as u128 }
    }

    /// The longer of two spans.
    pub fn longer(self, other: Duration) -> (r: Duration)
        ensures
            r == (if self.nanos > other.nanos {
                self
            } else {
                other
            }),
    {
        if self.nanos > other.nanos {
            self
        } else {
            other
        }
    }
}

/// The whole seconds and the rest put together again give the span back.
pub proof fn law_parts_give_the_span_back(d: Duration)
    ensures
        (d.nanos / NANOS_PER_SEC) * NANOS_PER_SEC + d.nanos % NANOS_PER_SEC == d.nanos,
        d.nanos % NANOS_PER_SEC < NANOS_PER_SEC,
{
}

} // verus!
