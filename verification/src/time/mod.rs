//! Utilities for tracking time.

pub mod clock;
pub mod duration;
pub mod laws;
pub mod timer;

use crate::random::GlobalRng;
use crate::task::NodeId;
use crate::time::clock::{ClockHandle, Instant, SystemTime};
use crate::time::duration::{Duration, MAX_NANOS, NANOS_PER_SEC};
use crate::time::timer::{
    later_than, lemma_without_none, live_from_back, live_of, without, Event, Timer,
};
use std::task::Waker;
use vstd::prelude::*;

verus! {

/// The outcome of asking whether something has completed.
#[derive(Debug, PartialEq, Eq)]
pub enum Poll<T> {
    /// It has completed.
    Ready(T),
    /// It has not completed yet.
    Pending,
}

/// The time was up before the work was done.
#[derive(Debug, Clone, Copy, PartialEq, Eq, Structural)]
pub struct Elapsed;

/// Seconds of a year of 365 days.
pub const SECS_PER_YEAR: u64 = 31_536_000;

/// Where the system clock of a simulation starts at the earliest, in seconds after the epoch: 52
/// years of 365 days.
pub const EARLIEST_BASE_SECS: u64 = 1_639_872_000;

/// How far past a deadline the clock is set, in nanoseconds, so that whoever checks it finds it
/// reached.
pub const DEADLINE_EPSILON_NANOS: u64 = 50;

/// Something that can be scheduled to wake a task.
pub trait FromWaker: Sized {
    /// The event that wakes `waker`.
    spec fn spec_from_waker(waker: Waker) -> Self;

    /// Returns the event that wakes `waker`.
    fn from_waker(waker: Waker) -> (r: Self)
        ensures
            r == Self::spec_from_waker(waker),
    ;
}

/// A wait that ends once `deadline` is reached.
#[derive(Debug, Clone, Copy, PartialEq, Eq, Structural)]
pub struct Sleep {
    /// When the wait ends.
    pub deadline: Instant,
}

impl Sleep {
    /// The wait has ended when the clock shows `now`.
    pub open spec fn is_over(self, now: Instant) -> bool {
        self.deadline.0.nanos <= now.0.nanos
    }
}

/// What work with a deadline comes to: `future` is what asking the work gave, `timer` what asking
/// the deadline gave.
pub open spec fn timed<T>(future: Poll<T>, timer: Poll<()>) -> Poll<Result<T, Elapsed>> {
    match (future, timer) {
        (Poll::Ready(output), _) => Poll::Ready(Ok(output)),
        (Poll::Pending, Poll::Ready(_)) => Poll::Ready(Err(Elapsed)),
        (Poll::Pending, Poll::Pending) => Poll::Pending,
    }
}

/// A time source: a clock, and what is scheduled on it.
pub struct TimeHandle<E> {
    /// The pending events.
    pub timer: Timer<E>,
    /// The simulated clock.
    pub clock: ClockHandle,
}

impl<E> TimeHandle<E> {
    /// The queue of events is in order and the clock shows a representable time.
    pub open spec fn wf(&self) -> bool {
        &&& self.timer.wf()
        &&& self.clock.wf()
    }

    /// Returns the current time.
    pub fn now_instant(&self) -> (r: Instant)
        requires
            self.wf(),
        ensures
            r == self.clock.now(),
    {
        self.clock.now_instant()
    }

    /// Returns the current time of the system clock.
    pub fn now_time(&self) -> (r: SystemTime)
        requires
            self.wf(),
        ensures
            r.0.nanos == self.clock.base_time.0.nanos + self.clock.elapsed_time.nanos,
    {
        self.clock.now_time()
    }

    /// Returns the amount of time that the clock has run.
    pub fn elapsed(&self) -> (r: Duration)
        ensures
            r == self.clock.elapsed_time,
    {
        self.clock.elapsed()
    }

    /// Waits until `duration` has elapsed.
    pub fn sleep(&self, duration: Duration) -> (r: Sleep)
        requires
            self.wf(),
            self.clock.now().0.nanos + duration.nanos <= MAX_NANOS,
        ensures
            r.deadline.0.nanos == self.clock.now().0.nanos + duration.nanos,
    {
        self.sleep_until(Instant(self.clock.now_instant().0.plus(duration)))
    }

    /// Waits until `deadline` is reached.
    pub fn sleep_until(&self, deadline: Instant) -> (r: Sleep)
        ensures
            r == (Sleep { deadline }),
    {
        Sleep { deadline }
    }

    /// Schedules `callback` for `node_id` at `deadline`.
    pub fn add_timer_for_node(&mut self, node_id: NodeId, deadline: Instant, callback: E)
        requires
            old(self).wf(),
            old(self).clock.base_instant.0.nanos <= deadline.0.nanos,
        ensures
            final(self).wf(),
            final(self).clock == old(self).clock,
            final(self).timer.disabled_node_ids@ == old(self).timer.disabled_node_ids@,
            final(self).timer.events@ == old(self).with_event(node_id, deadline, callback),
    {
        let due: Duration = deadline.0.minus(self.clock.base_instant().0);
        self.timer.add(node_id, due, callback);
    }

    /// The queue once `callback` has been scheduled for `node_id` at `deadline`.
    pub open spec fn with_event(&self, node_id: NodeId, deadline: Instant, callback: E) -> Seq<
        Event<E>,
    > {
        let due = Duration {
            nanos: (deadline.0.nanos - self.clock.base_instant.0.nanos) as u128,
        };
        if self.timer.disabled_node_ids@.contains(node_id.0) {
            self.timer.events@
        } else {
            self.timer.events@.insert(
                later_than(self.timer.events@, due) as int,
                Event { deadline: due, node_id, callback },
            )
        }
    }

    /// Removes all that is scheduled for `node_id` and takes nothing more for it. Returns what
    /// was removed; for a node that is disabled already that is nothing.
    pub fn disable_node_and_cancel_timers(&mut self, node_id: NodeId) -> (removed: Vec<E>)
        requires
            old(self).wf(),
        ensures
            final(self).wf(),
            final(self).clock == old(self).clock,
            final(self).timer.disabled_node_ids@ == old(self).timer.disabled_node_ids@.insert(
                node_id.0,
            ),
            final(self).timer.events@ == without(old(self).timer.events@, node_id),
            forall|i: int|
                0 <= i < final(self).timer.events@.len() ==> old(self).timer.events@.contains(
                    #[trigger] final(self).timer.events@[i],
                ),
            removed@ == live_of(old(self).timer.events@, node_id),
    {
        broadcast use vstd::std_specs::hash::group_hash_axioms;

        if self.timer.disabled_node_ids.contains(&node_id.0) {
            assert(self.timer.disabled_node_ids@.insert(node_id.0)
                =~= self.timer.disabled_node_ids@);
            proof {
                lemma_without_none(self.timer.events@, node_id);
            }
            Vec::new()
        } else {
            self.timer.disable_node_and_remove_events(node_id)
        }
    }

    /// Takes events for `node_id` again.
    pub fn enable_node(&mut self, node_id: NodeId)
        requires
            old(self).wf(),
        ensures
            final(self).wf(),
            final(self).clock == old(self).clock,
            final(self).timer.disabled_node_ids@ == old(self).timer.disabled_node_ids@.remove(
                node_id.0,
            ),
            final(self).timer.events@ == old(self).timer.events@,
    {
        broadcast use vstd::std_specs::hash::group_hash_axioms;

        if self.timer.disabled_node_ids.contains(&node_id.0) {
            self.timer.enable_node(node_id);
        } else {
            assert(self.timer.disabled_node_ids@.remove(node_id.0)
                =~= self.timer.disabled_node_ids@);
        }
    }

    /// Returns the time that has elapsed since the beginning of the run.
    pub fn time_since_clock_base(&self) -> (r: Duration)
        requires
            self.clock.started(),
        ensures
            r.nanos == self.clock.elapsed_time.nanos - clock::CLOCK_BASE_SECS * NANOS_PER_SEC,
    {
        self.clock.time_since_clock_base()
    }
}

impl<E: FromWaker> TimeHandle<E> {
    /// Asks whether the wait `sleep` has ended. If not, `waker` is scheduled to be woken at its
    /// end, on behalf of `node_id`.
    pub fn poll_sleep(&mut self, sleep: Sleep, node_id: NodeId, waker: Waker) -> (r: Poll<()>)
        requires
            old(self).wf(),
        ensures
            final(self).wf(),
            final(self).clock == old(self).clock,
            final(self).timer.disabled_node_ids@ == old(self).timer.disabled_node_ids@,
            r is Ready <==> sleep.is_over(old(self).clock.now()),
            final(self).timer.events@ == (if r is Ready {
                old(self).timer.events@
            } else {
                old(self).with_event(node_id, sleep.deadline, E::spec_from_waker(waker))
            }),
    {
        if sleep.deadline.0.nanos <= self.clock.now_instant().0.nanos {
            return Poll::Ready(());
        }
        self.wake_at(node_id, sleep.deadline, waker);
        Poll::Pending
    }

    /// Schedules `waker` to be woken at `deadline`, on behalf of `node_id`.
    pub fn wake_at(&mut self, node_id: NodeId, deadline: Instant, waker: Waker)
        requires
            old(self).wf(),
            old(self).clock.base_instant.0.nanos <= deadline.0.nanos,
        ensures
            final(self).wf(),
            final(self).clock == old(self).clock,
            final(self).timer.disabled_node_ids@ == old(self).timer.disabled_node_ids@,
            final(self).timer.events@ == old(self).with_event(
                node_id,
                deadline,
                E::spec_from_waker(waker),
            ),
    {
        self.add_timer_for_node(node_id, deadline, E::from_waker(waker));
    }
}

/// Requires work to complete before a deadline. `future` is what asking the work gave, `timer`
/// what asking the deadline gave; where both have completed, the work counts.
pub fn timeout<T>(future: Poll<T>, timer: Poll<()>) -> (r: Poll<Result<T, Elapsed>>)
    ensures
        r == timed(future, timer),
{
    match future {
        Poll::Ready(output) => Poll::Ready(Ok(output)),
        Poll::Pending => match timer {
            Poll::Ready(_) => Poll::Ready(Err(Elapsed)),
            Poll::Pending => Poll::Pending,
        },
    }
}

/// A wait that can be started anew.
#[derive(Debug, Clone, Copy, PartialEq, Eq, Structural)]
pub struct Delay {
    /// The wait that is going on.
    pub sleep: Sleep,
}

impl Delay {
    /// A wait of `duration` from now on.
    pub fn new<E>(time: &TimeHandle<E>, duration: Duration) -> (r: Delay)
        requires
            time.wf(),
            time.clock.now().0.nanos + duration.nanos <= MAX_NANOS,
        ensures
            r.sleep.deadline.0.nanos == time.clock.now().0.nanos + duration.nanos,
    {
        Delay { sleep: time.sleep(duration) }
    }

    /// Starts the wait anew: it ends when `duration` has elapsed from now on.
    pub fn reset<E>(&mut self, time: &TimeHandle<E>, duration: Duration)
        requires
            time.wf(),
            time.clock.now().0.nanos + duration.nanos <= MAX_NANOS,
        ensures
            final(self).sleep.deadline.0.nanos == time.clock.now().0.nanos + duration.nanos,
    {
        self.sleep = time.sleep(duration);
    }
}

/// The time source of a simulation.
pub struct TimeRuntime<E> {
    /// The time source itself.
    pub handle: TimeHandle<E>,
}

impl<E> TimeRuntime<E> {
    /// A time source with nothing scheduled, whose system clock starts at a second of the year
    /// from `EARLIEST_BASE_SECS` on that is drawn.
    pub fn new(rand: &mut GlobalRng) -> (r: TimeRuntime<E>)
        ensures
            r.handle.wf(),
            r.handle.clock.started(),
            r.handle.timer.events@ == Seq::<Event<E>>::empty(),
            r.handle.timer.disabled_node_ids@ == Set::<u64>::empty(),
            r.handle.clock.base_instant.0.nanos == 0,
            r.handle.clock.elapsed_time.nanos == clock::CLOCK_BASE_SECS * NANOS_PER_SEC,
            EARLIEST_BASE_SECS * NANOS_PER_SEC <= r.handle.clock.base_time.0.nanos < (
            EARLIEST_BASE_SECS + SECS_PER_YEAR) * NANOS_PER_SEC,
            r.handle.clock.base_time.0.nanos % NANOS_PER_SEC == 0,
            final(rand).seed() == old(rand).seed(),
            old(rand).has_noted(*final(rand)),
            old(rand).gave_in_range(
                0,
                SECS_PER_YEAR,
                (r.handle.clock.base_time.0.nanos / NANOS_PER_SEC - EARLIEST_BASE_SECS) as u64,
                *final(rand),
            ),
    {
        let offset: u64 = rand.gen_range(0, SECS_PER_YEAR);
        let base_time = SystemTime(Duration::from_secs(EARLIEST_BASE_SECS + offset));
        TimeRuntime { handle: TimeHandle { timer: Timer::new(), clock: ClockHandle::new(base_time) } }
    }

    /// Returns the time source.
    pub fn handle(&self) -> (r: &TimeHandle<E>)
        ensures
            *r == self.handle,
    {
        &self.handle
    }

    /// The next event, if there is one, is due at a time that the clock can show.
    pub open spec fn can_advance(&self) -> bool {
        self.handle.timer.events@.len() > 0 ==> self.handle.clock.shows(
            self.handle.timer.events@.last().deadline.nanos + DEADLINE_EPSILON_NANOS,
        )
    }

    /// `after` is the time source once time has been advanced to the closest event: `fired` are
    /// the callbacks that have come due, in the order in which they are to run.
    pub open spec fn advanced(&self, fired: Seq<E>, after: TimeRuntime<E>) -> bool {
        let time = Duration {
            nanos: (self.handle.timer.events@.last().deadline.nanos
                + DEADLINE_EPSILON_NANOS) as u128,
        };
        let kept = later_than(self.handle.timer.events@, time) as int;
        &&& fired == live_from_back(self.handle.timer.events@.skip(kept))
        &&& after.handle.timer.events@ == self.handle.timer.events@.take(kept)
        &&& after.handle.timer.disabled_node_ids@ == self.handle.timer.disabled_node_ids@
        &&& after.handle.clock == (ClockHandle { elapsed_time: time, ..self.handle.clock })
    }

    /// Advances time to the closest timer event. Returns the callbacks that have come due, in
    /// the order in which they are to run, or `None` if nothing is scheduled.
    pub fn advance_to_next_event(&mut self) -> (r: Option<Vec<E>>)
        requires
            old(self).handle.wf(),
            old(self).can_advance(),
        ensures
            final(self).handle.wf(),
            r is None <==> old(self).handle.timer.events@.len() == 0,
            r is None ==> *final(self) == *old(self),
            r matches Some(fired) ==> old(self).advanced(fired@, *final(self)),
    {
        match self.handle.timer.next() {
            Some(next) => {
                let time: Duration = next.plus(Duration::from_nanos(DEADLINE_EPSILON_NANOS));
                let fired: Vec<E> = self.handle.timer.expire(time);
                self.handle.clock.set_elapsed(time);
                Some(fired)
            },
            None => None,
        }
    }

    /// Advances time.
    pub fn advance(&mut self, duration: Duration)
        requires
            old(self).handle.wf(),
            old(self).handle.clock.shows(
                old(self).handle.clock.elapsed_time.nanos + duration.nanos,
            ),
        ensures
            final(self).handle.wf(),
            final(self).handle.timer == old(self).handle.timer,
            final(self).handle.clock.elapsed_time.nanos
                == old(self).handle.clock.elapsed_time.nanos + duration.nanos,
            final(self).handle.clock == (ClockHandle {
                elapsed_time: final(self).handle.clock.elapsed_time,
                ..old(self).handle.clock
            }),
    {
        self.handle.clock.advance(duration);
    }

    /// Returns the current time.
    pub fn now_instant(&self) -> (r: Instant)
        requires
            self.handle.wf(),
        ensures
            r == self.handle.clock.now(),
    {
        self.handle.now_instant()
    }
}

/// Advancing leaves nothing behind: whatever is still pending is due later than the clock shows.
pub proof fn law_advance_leaves_no_deadline_behind<E>(
    before: TimeRuntime<E>,
    fired: Seq<E>,
    after: TimeRuntime<E>,
    i: int,
)
    requires
        before.handle.wf(),
        before.can_advance(),
        before.handle.timer.events@.len() > 0,
        before.advanced(fired, after),
        0 <= i < after.handle.timer.events@.len(),
    ensures
        after.handle.timer.events@[i].deadline.nanos > after.handle.clock.elapsed_time.nanos,
{
    timer::law_expired_leaves_later(
        before.handle.timer.events@,
        after.handle.clock.elapsed_time,
        i,
    );
}

/// Advancing to the next event moves the clock forward, unless that event was overdue by
/// `DEADLINE_EPSILON_NANOS` or more.
pub proof fn law_clock_moves_forward<E>(before: TimeRuntime<E>, fired: Seq<E>, after: TimeRuntime<E>)
    requires
        before.handle.wf(),
        before.can_advance(),
        before.handle.timer.events@.len() > 0,
        before.advanced(fired, after),
        before.handle.timer.events@.last().deadline.nanos + DEADLINE_EPSILON_NANOS
            > before.handle.clock.elapsed_time.nanos,
    ensures
        after.handle.clock.elapsed_time.nanos > before.handle.clock.elapsed_time.nanos,
{
}

/// Advancing leaves nothing open: the same time source gives the same callbacks in the same order,
/// and the same time source afterwards.
pub proof fn law_advancing_is_deterministic<E>(
    before: TimeRuntime<E>,
    first: (Seq<E>, TimeRuntime<E>),
    second: (Seq<E>, TimeRuntime<E>),
)
    requires
        before.advanced(first.0, first.1),
        before.advanced(second.0, second.1),
    ensures
        first.0 == second.0,
        first.1.handle.clock == second.1.handle.clock,
        first.1.handle.timer.events@ == second.1.handle.timer.events@,
        first.1.handle.timer.disabled_node_ids@ == second.1.handle.timer.disabled_node_ids@,
{
}

/// A sleeper is not woken early: when time is advanced, the clock has reached the deadline of
/// every event that fires.
pub proof fn law_nothing_fires_early<E>(
    before: TimeRuntime<E>,
    fired: Seq<E>,
    after: TimeRuntime<E>,
    i: int,
)
    requires
        before.handle.wf(),
        before.can_advance(),
        before.handle.timer.events@.len() > 0,
        before.advanced(fired, after),
        after.handle.timer.events@.len() <= i < before.handle.timer.events@.len(),
    ensures
        before.handle.timer.events@[i].deadline.nanos <= after.handle.clock.elapsed_time.nanos,
{
    timer::lemma_later_than(before.handle.timer.events@, after.handle.clock.elapsed_time);
}

} // verus!
