//! The simulated clock.

use crate::time::duration::{Duration, MAX_NANOS, NANOS_PER_MICRO, NANOS_PER_SEC};
use vstd::prelude::*;

verus! {

/// How long a clock has run when a simulation starts, in seconds. Some code subtracts constant
/// spans from the current time, which would not work out if the clock started at nothing.
pub const CLOCK_BASE_SECS: u64 = 86_400;

/// A point in time, as the time that has passed since the zero of the monotonic clock.
#[derive(Debug, Clone, Copy, PartialEq, Eq, Structural, PartialOrd, Ord, Hash)]
pub struct Instant(pub Duration);

/// A point in time, as the time that has passed since the Unix epoch.
#[derive(Debug, Clone, Copy, PartialEq, Eq, Structural, PartialOrd, Ord, Hash)]
pub struct SystemTime(pub Duration);

/// A clock of the operating system.
#[derive(Debug, Clone, Copy, PartialEq, Eq, Structural)]
pub enum ClockId {
    /// The system clock.
    Realtime,
    /// The system clock, read fast.
    RealtimeCoarse,
    /// The monotonic clock.
    Monotonic,
    /// The monotonic clock without adjustments.
    MonotonicRaw,
    /// The monotonic clock, read fast.
    MonotonicCoarse,
}

/// A clock that shows simulated time.
#[derive(Debug, Clone, Copy, PartialEq, Eq, Structural)]
pub struct ClockHandle {
    /// Where the system clock starts.
    pub base_time: SystemTime,
    /// Where the monotonic clock starts.
    pub base_instant: Instant,
    /// The amount of simulated time which has elapsed.
    pub elapsed_time: Duration,
}

impl ClockHandle {
    /// Both clocks could show that `elapsed` nanoseconds have elapsed.
    pub open spec fn shows(&self, elapsed: int) -> bool {
        &&& self.base_time.0.nanos + elapsed <= MAX_NANOS
        &&& self.base_instant.0.nanos + elapsed <= MAX_NANOS
    }

    /// Both clocks show a time that can be represented.
    pub open spec fn wf(&self) -> bool {
        self.shows(self.elapsed_time.nanos as int)
    }

    /// The clock has not been set back to before the start of the simulation.
    pub open spec fn started(&self) -> bool {
        self.elapsed_time.nanos >= CLOCK_BASE_SECS * NANOS_PER_SEC
    }

    /// What the monotonic clock shows.
    pub open spec fn now(&self) -> Instant {
        Instant(
            Duration { nanos: (self.base_instant.0.nanos + self.elapsed_time.nanos) as u128 },
        )
    }

    /// What the clock `clock_id` shows, in nanoseconds.
    pub open spec fn shown(&self, clock_id: ClockId) -> int {
        match clock_id {
            ClockId::Realtime | ClockId::RealtimeCoarse => self.base_time.0.nanos
                + self.elapsed_time.nanos,
            _ => self.base_instant.0.nanos + self.elapsed_time.nanos,
        }
    }

    /// A clock whose system clock started at `base_time` and that has run for a day.
    pub fn new(base_time: SystemTime) -> (r: ClockHandle)
        ensures
            r.base_time == base_time,
            r.base_instant.0.nanos == 0,
            r.elapsed_time.nanos == CLOCK_BASE_SECS * NANOS_PER_SEC,
    {
        ClockHandle {
            base_time,
            base_instant: Instant(Duration::zero()),
            elapsed_time: Duration::from_secs(CLOCK_BASE_SECS),
        }
    }

    /// Returns the time that has elapsed since the start of the simulation.
    pub fn time_since_clock_base(&self) -> (r: Duration)
        requires
            self.started(),
        ensures
            r.nanos == self.elapsed_time.nanos - CLOCK_BASE_SECS * NANOS_PER_SEC,
    {
        self.elapsed().minus(Duration::from_secs(CLOCK_BASE_SECS))
    }

    /// Sets the time that has elapsed.
    pub fn set_elapsed(&mut self, time: Duration)
        ensures
            *final(self) == (ClockHandle { elapsed_time: time, ..*old(self) }),
    {
        self.elapsed_time = time;
    }

    /// Returns the time that has elapsed.
    pub fn elapsed(&self) -> (r: Duration)
        ensures
            r == self.elapsed_time,
    {
        self.elapsed_time
    }

    /// Moves the clock forward.
    pub fn advance(&mut self, duration: Duration)
        requires
            old(self).elapsed_time.nanos + duration.nanos <= MAX_NANOS,
        ensures
            final(self).elapsed_time.nanos == old(self).elapsed_time.nanos + duration.nanos,
            *final(self) == (ClockHandle { elapsed_time: final(self).elapsed_time, ..*old(self) }),
    {
        self.elapsed_time = self.elapsed_time.plus(duration);
    }

    /// Returns where the monotonic clock starts.
    pub fn base_instant(&self) -> (r: Instant)
        ensures
            r == self.base_instant,
    {
        self.base_instant
    }

    /// Returns what the monotonic clock shows.
    pub fn now_instant(&self) -> (r: Instant)
        requires
            self.wf(),
        ensures
            r == self.now(),
    {
        Instant(self.base_instant.0.plus(self.elapsed_time))
    }

    /// Returns what the system clock shows.
    pub fn now_time(&self) -> (r: SystemTime)
        requires
            self.wf(),
        ensures
            r.0.nanos == self.base_time.0.nanos + self.elapsed_time.nanos,
    {
        SystemTime(self.base_time.0.plus(self.elapsed_time))
    }

    /// What the operating system is to report for a clock: whole seconds, and the nanoseconds
    /// beyond them.
    pub fn clock_gettime(&self, clock_id: ClockId) -> (r: (u64, u32))
        requires
            self.wf(),
        ensures
            r.1 < NANOS_PER_SEC,
            r.0 * NANOS_PER_SEC + r.1 == self.shown(clock_id),
    {
        let shown: Duration = match clock_id {
            ClockId::Realtime | ClockId::RealtimeCoarse => self.now_time().0,
            ClockId::Monotonic
            | ClockId::MonotonicRaw
            | ClockId::MonotonicCoarse => self.now_instant().0,
        };
        (shown.as_secs(), shown.subsec_nanos())
    }

    /// What the operating system is to report as the time of day: whole seconds, and the
    /// microseconds beyond them.
    pub fn gettimeofday(&self) -> (r: (u64, u32))
        requires
            self.wf(),
        ensures
            r.1 < 1_000_000,
            r.0 * NANOS_PER_SEC + r.1 * NANOS_PER_MICRO <= self.base_time.0.nanos
                + self.elapsed_time.nanos < r.0 * NANOS_PER_SEC + (r.1 + 1) * NANOS_PER_MICRO,
    {
        let shown: Duration = self.now_time().0;
        (shown.as_secs(), shown.subsec_micros())
    }

    /// The elapsed time in ticks of `numer` in `denom` nanoseconds each.
    pub fn mach_absolute_time(&self, numer: u32, denom: u32) -> (r: u64)
        requires
            numer > 0,
            self.elapsed_time.nanos <= u64::MAX,
            self.elapsed_time.nanos * denom / numer as int <= u64::MAX,
        ensures
            r == self.elapsed_time.nanos * denom / numer as int,
    {
        mul_div_u64(self.elapsed_time.nanos as u64, denom as u64, numer as u64)
    }
}

/// `value` times `numer` divided by `denom`, without overflow on the way.
pub fn mul_div_u64(value: u64, numer: u64, denom: u64) -> (r: u64)
    requires
        0 < denom <= u32::MAX,
        numer <= u32::MAX,
        value * numer / denom as int <= u64::MAX,
    ensures
        r == value * numer / denom as int,
{
    let q: u64 = value / denom;
    let r: u64 = value % denom;
    // Decompose value as (value/denom*denom + value%denom), substitute into
    // (value*numer)/denom and simplify. r < denom, so (denom*numer) is the upper bound of
    // (r*numer).
    proof {
        let v: int = value as int;
        let n: int = numer as int;
        let d: int = denom as int;
        let qi: int = q as int;
        let ri: int = r as int;
        assert(v == qi * d + ri) by {
            vstd::arithmetic::div_mod::lemma_fundamental_div_mod(v, d);
            vstd::arithmetic::mul::lemma_mul_is_commutative(qi, d);
        }
        assert(v * n == (qi * n) * d + ri * n) by (nonlinear_arith)
            requires
                v == qi * d + ri,
        ;
        vstd::arithmetic::div_mod::lemma_hoist_over_denominator(ri * n, qi * n, d as nat);
        assert(ri * n <= 0xffff_ffff * 0xffff_ffff) by (nonlinear_arith)
            requires
                0 <= ri < d,
                d <= 0xffff_ffff,
                0 <= n <= 0xffff_ffff,
        ;
        assert(0 <= ri * n) by (nonlinear_arith)
            requires
                0 <= ri,
                0 <= n,
        ;
        assert(0 <= qi * n) by (nonlinear_arith)
            requires
                0 <= qi,
                0 <= n,
        ;
        vstd::arithmetic::div_mod::lemma_div_pos_is_pos(ri * n, d);
    }
    q * numer + r * numer / denom
}

} // verus!
