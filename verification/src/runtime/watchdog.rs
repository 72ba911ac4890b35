//! Noticing that a simulation does not get on.

use crate::time::clock::Instant;
use crate::time::duration::Duration;
use vstd::prelude::*;

verus! {

/// How often in a row the clock may be seen standing still.
pub const DEADLOCK_LIMIT: u32 = 10;

/// What a look at the clock shows.
#[derive(Debug, Clone, Copy, PartialEq, Eq, Structural)]
pub enum WatchdogVerdict {
    /// Nothing is wrong so far.
    Fine,
    /// The clock has stood still for too long.
    Deadlock,
    /// "clock went backwards!"
    ClockWentBackwards,
}

/// Looks at the clock from time to time. It takes more than ten looks in a row at which the clock
/// has not advanced to make a deadlock, so that a process which is paused in a debugger is not
/// taken for one.
#[derive(Debug, Clone, Copy, PartialEq, Eq, Structural)]
pub struct Watchdog {
    /// What the clock showed at the last look.
    pub prev_time: Instant,
    /// At how many looks in a row it had not advanced.
    pub deadlock_count: u32,
}

impl Watchdog {
    /// No deadlock has been found yet.
    pub open spec fn wf(self) -> bool {
        self.deadlock_count <= DEADLOCK_LIMIT
    }

    /// The watchdog after a look at which the clock shows `now`.
    pub open spec fn looked(self, now: Instant) -> Watchdog {
        Watchdog {
            prev_time: now,
            deadlock_count: if now == self.prev_time {
                (self.deadlock_count + 1) as u32
            } else {
                0
            },
        }
    }

    /// What a look at which the clock shows `now` says.
    pub open spec fn verdict(self, now: Instant) -> WatchdogVerdict {
        if now.0.nanos < self.prev_time.0.nanos {
            WatchdogVerdict::ClockWentBackwards
        } else if self.looked(now).deadlock_count > DEADLOCK_LIMIT {
            WatchdogVerdict::Deadlock
        } else {
            WatchdogVerdict::Fine
        }
    }

    /// A watchdog that starts when the clock shows `now`.
    pub fn new(now: Instant) -> (r: Watchdog)
        ensures
            r == (Watchdog { prev_time: now, deadlock_count: 0 }),
            r.wf(),
    {
        Watchdog { prev_time: now, deadlock_count: 0 }
    }

    /// How long to wait between two looks, if a deadlock should be noticed after about
    /// `timeout`.
    pub fn step(timeout: Duration) -> (r: Duration)
        ensures
            r.nanos == timeout.nanos / 10,
    {
        timeout.divided_by(DEADLOCK_LIMIT)
    }

    /// Takes a look at the clock.
    pub fn look(&mut self, now: Instant) -> (r: WatchdogVerdict)
        requires
            old(self).wf(),
        ensures
            r == old(self).verdict(now),
            r == WatchdogVerdict::ClockWentBackwards ==> *final(self) == *old(self),
            r != WatchdogVerdict::ClockWentBackwards ==> *final(self) == old(self).looked(now),
            r == WatchdogVerdict::Fine ==> final(self).wf(),
    {
        if now.0.nanos < self.prev_time.0.nanos {
            return WatchdogVerdict::ClockWentBackwards;
        }
        if now == self.prev_time {
            self.deadlock_count = self.deadlock_count + 1;
        } else if self.deadlock_count > 0 {
            self.deadlock_count = 0;
        }
        self.prev_time = now;
        if self.deadlock_count > DEADLOCK_LIMIT {
            WatchdogVerdict::Deadlock
        } else {
            WatchdogVerdict::Fine
        }
    }
}

/// The watchdog after `n` looks at which the clock shows `now` each time.
pub open spec fn looked_often(dog: Watchdog, now: Instant, n: nat) -> Watchdog
    decreases n,
{
    if n == 0 {
        dog
    } else {
        looked_often(dog, now, (n - 1) as nat).looked(now)
    }
}

/// A clock that stands still is found out at the eleventh look at which it has not advanced, and
/// not before.
pub proof fn law_standing_clock_is_found_out(dog: Watchdog, now: Instant, n: nat)
    requires
        dog.deadlock_count == 0,
        dog.prev_time == now,
        n <= 10,
    ensures
        looked_often(dog, now, n).deadlock_count == n,
        looked_often(dog, now, n).prev_time == now,
        n < 10 ==> looked_often(dog, now, n).verdict(now) == WatchdogVerdict::Fine,
        n == 10 ==> looked_often(dog, now, n).verdict(now) == WatchdogVerdict::Deadlock,
    decreases n,
{
    if n > 0 {
        law_standing_clock_is_found_out(dog, now, (n - 1) as nat);
    }
}

/// A clock that advances clears the suspicion.
pub proof fn law_advancing_clock_clears_suspicion(dog: Watchdog, now: Instant)
    requires
        now.0.nanos > dog.prev_time.0.nanos,
    ensures
        dog.verdict(now) == WatchdogVerdict::Fine,
        dog.looked(now).deadlock_count == 0,
{
}

/// A clock that shows less than before has gone backwards, and only such a clock has.
pub proof fn law_clock_that_goes_backwards_is_found_out(dog: Watchdog, now: Instant)
    requires
        dog.wf(),
    ensures
        dog.verdict(now) == WatchdogVerdict::ClockWentBackwards <==> now.0.nanos
            < dog.prev_time.0.nanos,
        dog.verdict(now) == WatchdogVerdict::Deadlock <==> now == dog.prev_time
            && dog.deadlock_count == 10,
        dog.looked(now).prev_time == now,
        now == dog.prev_time ==> dog.looked(now).deadlock_count == dog.deadlock_count + 1,
{
}

} // verus!
