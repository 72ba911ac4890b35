//! What the executor decides.

use crate::random::GlobalRng;
use crate::task::blocking::Unwound;
use crate::task::{all_paused, TaskHandle, TaskView};
use crate::time::clock::ClockHandle;
use crate::time::duration::{Duration, NANOS_PER_SEC};
use crate::time::timer::Event;
use crate::time::{clock, TimeHandle, TimeRuntime, EARLIEST_BASE_SECS, SECS_PER_YEAR};
use vstd::prelude::*;

verus! {

/// How many rounds in a row blocking tasks may stay parked as the only activity before that counts
/// as a deadlock.
pub const MAX_STALLED_ROUNDS: usize = 10_000;

/// The least time that running a task takes, in nanoseconds.
pub const MIN_RUN_NANOS: u64 = 50;

/// What running a task takes less than, in nanoseconds.
pub const MAX_RUN_NANOS: u64 = 100;

/// A request to kill the node on which it was made.
#[derive(Debug, Clone, Copy, PartialEq, Eq, Structural)]
pub struct PanicWrapper {
    /// How long should the node stay down. If `None`, the node does not reboot.
    pub restart_after: Option<Duration>,
}

/// What is to be done about a panic that escaped a task.
#[derive(Debug, Clone, Copy, PartialEq, Eq, Structural)]
pub enum PanicAction {
    /// Nothing: the node has been shut down.
    Ignore,
    /// Restart the node after this time, if it is still there then.
    RestartAfter(Duration),
    /// Let it fail the test.
    Propagate,
}

/// What is to be done about a panic that carries `payload`.
pub open spec fn panic_action(payload: Option<PanicWrapper>) -> PanicAction {
    match payload {
        Some(PanicWrapper { restart_after: Some(after) }) => PanicAction::RestartAfter(after),
        Some(PanicWrapper { restart_after: None }) => PanicAction::Ignore,
        None => PanicAction::Propagate,
    }
}

/// Decides what is to be done about a panic that escaped a task: a request to kill the node
/// schedules the restart that it asks for; anything else fails the test.
pub fn handle_task_panic(payload: Option<PanicWrapper>) -> (r: PanicAction)
    ensures
        r == panic_action(payload),
{
    match payload {
        Some(panic) => match panic.restart_after {
            Some(after) => PanicAction::RestartAfter(after),
            None => PanicAction::Ignore,
        },
        None => PanicAction::Propagate,
    }
}

/// A panic that escaped a blocking job.
pub enum JobPanic<P> {
    /// Its node was killed, or the pool shuts down.
    Abort,
    /// It killed its own node.
    Kill(PanicWrapper),
    /// Any other.
    Other(P),
}

/// Where the outcome of a blocking job goes.
pub enum JobRoute<V, P> {
    /// To whoever waits for the job.
    Send(Result<V, P>),
    /// To the thread of the pool: whoever waits for the job is being killed.
    Unwind(Unwound),
}

/// Where the outcome `end` of a blocking job goes.
pub open spec fn job_route<V, P>(end: Result<V, JobPanic<P>>) -> JobRoute<V, P> {
    match end {
        Ok(value) => JobRoute::Send(Ok(value)),
        Err(JobPanic::Other(payload)) => JobRoute::Send(Err(payload)),
        Err(JobPanic::Abort) => JobRoute::Unwind(Unwound::Abort),
        Err(JobPanic::Kill(panic)) => JobRoute::Unwind(Unwound::Kill(panic)),
    }
}

/// Decides where the outcome of a blocking job goes.
pub fn settle_job<V, P>(end: Result<V, JobPanic<P>>) -> (r: JobRoute<V, P>)
    ensures
        r == job_route(end),
{
    match end {
        Ok(value) => JobRoute::Send(Ok(value)),
        Err(JobPanic::Other(payload)) => JobRoute::Send(Err(payload)),
        Err(JobPanic::Abort) => JobRoute::Unwind(Unwound::Abort),
        Err(JobPanic::Kill(panic)) => JobRoute::Unwind(Unwound::Kill(panic)),
    }
}

/// How a round of the executor ended.
#[derive(Debug, Clone, Copy, PartialEq, Eq, Structural)]
pub enum RoundOutcome {
    /// There is more to do.
    Continue,
    /// "deadlock": blocking tasks wait for something that is never produced.
    Deadlock,
    /// "no events, the task will block forever".
    NoEvents,
    /// "time limit exceeded".
    TimeLimitExceeded(Duration),
}

/// How many rounds in a row have stalled, after `before`, once a round is over in which there was
/// progress or not, something was scheduled or not, and blocking work is pending or not.
pub open spec fn stalled_after(progress: bool, going: bool, pending: bool, before: usize) -> usize {
    if progress || going || !pending {
        0
    } else {
        (before + 1) as usize
    }
}

/// How a round ends, given the time that the clock shows then.
pub open spec fn outcome_of(
    progress: bool,
    going: bool,
    pending: bool,
    stalled_rounds: usize,
    limit: Option<Duration>,
    elapsed: Duration,
) -> RoundOutcome {
    if !progress && !going && !pending {
        RoundOutcome::NoEvents
    } else if stalled_rounds == MAX_STALLED_ROUNDS {
        RoundOutcome::Deadlock
    } else if limit matches Some(limit) && elapsed.nanos >= clock::CLOCK_BASE_SECS * NANOS_PER_SEC
        + limit.nanos {
        RoundOutcome::TimeLimitExceeded(limit->0)
    } else {
        RoundOutcome::Continue
    }
}

/// The end of a round of the executor.
pub struct RoundEnd<E> {
    /// What has come due, in the order in which it is to run.
    pub fired: Vec<E>,
    /// How many rounds in a row have stalled.
    pub stalled_rounds: usize,
    /// How the round ended.
    pub outcome: RoundOutcome,
}

/// The executor: the tasks, the time, and a limit to it.
pub struct Executor<R, I, J, E> {
    /// The tasks.
    pub handle: TaskHandle<R, I, J>,
    /// The time.
    pub time: TimeRuntime<E>,
    /// How long the simulation may run.
    pub time_limit: Option<Duration>,
}

impl<R, I, J, E> Executor<R, I, J, E> {
    /// Tasks and time are in order.
    pub open spec fn wf(&self) -> bool {
        &&& self.handle.wf()
        &&& self.time.handle.wf()
    }

    /// An executor without tasks, with a pool of `num_threads` threads.
    pub fn new(rand: &mut GlobalRng, num_threads: u32) -> (r: Executor<R, I, J, E>)
        requires
            num_threads > 0,
        ensures
            r.wf(),
            r.handle@ == (TaskView::<R, I> {
                queue: Seq::empty(),
                nodes: Map::empty(),
                next_node_id: 1,
                infos: Seq::empty(),
            }),
            !r.handle.blocking.started,
            r.handle.blocking@.current.len() == num_threads,
            r.time.handle.timer.events@ == Seq::<Event<E>>::empty(),
            r.time.handle.timer.disabled_node_ids@ == Set::<u64>::empty(),
            r.time.handle.clock.base_instant.0.nanos == 0,
            r.time.handle.clock.elapsed_time.nanos == clock::CLOCK_BASE_SECS * NANOS_PER_SEC,
            r.time.handle.clock.started(),
            EARLIEST_BASE_SECS * NANOS_PER_SEC <= r.time.handle.clock.base_time.0.nanos < (
            EARLIEST_BASE_SECS + SECS_PER_YEAR) * NANOS_PER_SEC,
            r.time.handle.clock.base_time.0.nanos % NANOS_PER_SEC == 0,
            r.time_limit is None,
            final(rand).seed() == old(rand).seed(),
            old(rand).has_noted(*final(rand)),
            old(rand).gave_in_range(
                0,
                SECS_PER_YEAR,
                (r.time.handle.clock.base_time.0.nanos / NANOS_PER_SEC - EARLIEST_BASE_SECS) as u64,
                *final(rand),
            ),
    {
        let time: TimeRuntime<E> = TimeRuntime::new(rand);
        Executor { handle: TaskHandle::new(num_threads), time, time_limit: None }
    }

    /// Returns the tasks.
    pub fn handle(&self) -> (r: &TaskHandle<R, I, J>)
        ensures
            *r == self.handle,
    {
        &self.handle
    }

    /// Returns the time source.
    pub fn time_handle(&self) -> (r: &TimeHandle<E>)
        ensures
            *r == self.time.handle,
    {
        self.time.handle()
    }

    /// Sets how long the simulation may run.
    pub fn set_time_limit(&mut self, limit: Duration)
        ensures
            final(self).time_limit == Some(limit),
            final(self).handle == old(self).handle,
            final(self).time == old(self).time,
    {
        self.time_limit = Some(limit);
    }

    /// Lets the time pass that running a task takes, and tells the generator.
    pub fn advance_after_run(&mut self, rng: &mut GlobalRng)
        requires
            old(self).wf(),
            old(self).time.handle.clock.shows(
                old(self).time.handle.clock.elapsed_time.nanos + MAX_RUN_NANOS,
            ),
        ensures
            final(self).wf(),
            final(self).handle == old(self).handle,
            final(self).time_limit == old(self).time_limit,
            final(self).time.handle.timer == old(self).time.handle.timer,
            old(self).time.handle.clock.elapsed_time.nanos + MIN_RUN_NANOS
                <= final(self).time.handle.clock.elapsed_time.nanos < old(
                self,
            ).time.handle.clock.elapsed_time.nanos + MAX_RUN_NANOS,
            final(self).time.handle.clock == (ClockHandle {
                elapsed_time: final(self).time.handle.clock.elapsed_time,
                ..old(self).time.handle.clock
            }),
            final(rng).seed() == old(rng).seed(),
            final(rng).now() == final(self).time.handle.clock.elapsed_time,
            exists|drawn: GlobalRng|
                #[trigger] old(rng).gave_in_range(
                    MIN_RUN_NANOS,
                    MAX_RUN_NANOS,
                    (final(self).time.handle.clock.elapsed_time.nanos - old(
                        self,
                    ).time.handle.clock.elapsed_time.nanos) as u64,
                    drawn,
                ) && *final(rng) == drawn.at(final(self).time.handle.clock.elapsed_time),
    {
        let took: u64 = rng.gen_range(MIN_RUN_NANOS, MAX_RUN_NANOS);
        let ghost drawn = *rng;
        self.time.advance(Duration::from_nanos(took));
        rng.set_now(self.time.handle().elapsed());
        proof {
            let passed = (self.time.handle.clock.elapsed_time.nanos - old(
                self,
            ).time.handle.clock.elapsed_time.nanos) as u64;
            assert(old(rng).gave_in_range(MIN_RUN_NANOS, MAX_RUN_NANOS, passed, drawn));
        }
    }

    /// A wake round that started `dequeued` tasks has achieved something, or something is ready.
    pub open spec fn progress(&self, dequeued: usize) -> bool {
        dequeued > 0 || self.handle@.queue.len() > 0
    }

    /// Ends a round in which all ready tasks have run and the blocking pool has had its turns,
    /// started `dequeued` tasks and has work left if `pending`. Where that was progress, time
    /// stands still, because a blocking task waiting at a yield point may be unblocked by it;
    /// otherwise it is advanced to the next event, and the generator is told.
    pub fn finish_round(
        &mut self,
        rng: &mut GlobalRng,
        dequeued: usize,
        pending: bool,
        stalled_rounds: usize,
    ) -> (r: RoundEnd<E>)
        requires
            old(self).wf(),
            old(self).time.can_advance(),
            stalled_rounds < MAX_STALLED_ROUNDS,
        ensures
            *final(rng) == old(rng).at(final(self).time.handle.clock.elapsed_time),
            final(rng).now() == final(self).time.handle.clock.elapsed_time,
            final(self).wf(),
            final(self).handle == old(self).handle,
            final(self).time_limit == old(self).time_limit,
            ({
                let progress = old(self).progress(dequeued);
                let going = old(self).time.handle.timer.events@.len() > 0;
                &&& if !progress && going {
                    old(self).time.advanced(r.fired@, final(self).time)
                } else {
                    final(self).time == old(self).time && r.fired@ == Seq::<E>::empty()
                }
                &&& r.stalled_rounds == stalled_after(progress, going, pending, stalled_rounds)
                &&& r.outcome == outcome_of(
                    progress,
                    going,
                    pending,
                    r.stalled_rounds,
                    old(self).time_limit,
                    final(self).time.handle.clock.elapsed_time,
                )
            }),
    {
        let mut fired: Vec<E> = Vec::new();
        let mut stalled: usize = 0;
        let progress: bool = dequeued > 0 || self.handle.queue.len() > 0;
        if progress {
            rng.set_now(self.time.handle().elapsed());
        } else {
            match self.time.advance_to_next_event() {
                Some(due) => {
                    fired = due;
                    rng.set_now(self.time.handle().elapsed());
                },
                None => {
                    rng.set_now(self.time.handle().elapsed());
                    if !pending {
                        return RoundEnd {
                            fired,
                            stalled_rounds: 0,
                            outcome: RoundOutcome::NoEvents,
                        };
                    }
                    stalled = stalled_rounds + 1;
                    if stalled >= MAX_STALLED_ROUNDS {
                        return RoundEnd {
                            fired,
                            stalled_rounds: stalled,
                            outcome: RoundOutcome::Deadlock,
                        };
                    }
                },
            }
        }
        match self.time_limit {
            Some(limit) => {
                let base: Duration = Duration::from_secs(clock::CLOCK_BASE_SECS);
                let elapsed: Duration = self.time.handle().elapsed();
                // the clock starts with some elapsed time, which does not count.
                if elapsed.nanos >= base.nanos && elapsed.nanos - base.nanos >= limit.nanos {
                    return RoundEnd {
                        fired,
                        stalled_rounds: stalled,
                        outcome: RoundOutcome::TimeLimitExceeded(limit),
                    };
                }
            },
            None => {},
        }
        RoundEnd { fired, stalled_rounds: stalled, outcome: RoundOutcome::Continue }
    }

    /// Takes the executor apart: the pool is shut down, and all nodes are gone. Returns whether
    /// the pool has threads to wait for, and what is to be dropped when they have ended.
    pub fn teardown(&mut self) -> (r: (bool, Vec<R>))
        requires
            old(self).wf(),
        ensures
            final(self).handle@ == (TaskView { nodes: Map::empty(), ..old(self).handle@ }),
            r.0 == old(self).handle.blocking.started,
            final(self).handle.blocking@ == old(self).handle.blocking@.shut_down(),
            final(self).time == old(self).time,
            final(self).time_limit == old(self).time_limit,
            r.1@ == all_paused(
                old(self).handle@.nodes,
                old(self).handle@.next_node_id as nat,
            ),
    {
        let running: bool = self.handle.blocking.shutdown();
        (running, self.handle.clear_nodes())
    }
}

/// A node is restarted after a panic if and only if a task asked for that, after the time that it
/// asked for; one that asked for its node to be killed for good is ignored, and any other panic
/// fails the test.
pub proof fn law_only_requests_restart_a_node(payload: Option<PanicWrapper>, after: Duration)
    ensures
        panic_action(payload) == PanicAction::RestartAfter(after) <==> (payload matches Some(panic)
            && panic.restart_after == Some(after)),
        panic_action(payload) == PanicAction::Propagate <==> payload is None,
        panic_action(payload) == PanicAction::Ignore <==> (payload matches Some(panic)
            && panic.restart_after is None),
{
}

/// Whoever waits for a blocking job gets its value, or the panic by which it ended; only a job whose
/// node is killed, by others or by itself, sends nothing, and the thread learns which it was.
pub proof fn law_job_outcome_reaches_whoever_waits<V, P>(
    end: Result<V, JobPanic<P>>,
    value: V,
    payload: P,
    panic: PanicWrapper,
)
    ensures
        job_route(end) == JobRoute::<V, P>::Send(Ok(value)) <==> end == Ok::<V, JobPanic<P>>(value),
        job_route(end) == JobRoute::<V, P>::Send(Err(payload)) <==> end == Err::<V, JobPanic<P>>(
            JobPanic::Other(payload),
        ),
        job_route(end) == JobRoute::<V, P>::Unwind(Unwound::Kill(panic)) <==> end == Err::<
            V,
            JobPanic<P>,
        >(JobPanic::Kill(panic)),
        job_route(end) == JobRoute::<V, P>::Unwind(Unwound::Abort) <==> end == Err::<
            V,
            JobPanic<P>,
        >(JobPanic::Abort),
{
}

/// Only rounds in which nothing happens, nothing is scheduled and blocking work is parked count as
/// stalled; any other round starts the count anew.
pub proof fn law_any_activity_ends_a_stall(
    progress: bool,
    going: bool,
    pending: bool,
    before: usize,
)
    requires
        before < MAX_STALLED_ROUNDS,
    ensures
        progress || going || !pending ==> stalled_after(progress, going, pending, before) == 0,
        !progress && !going && pending ==> stalled_after(progress, going, pending, before) == before
            + 1,
{
}

/// The simulation goes on unless nothing can happen any more, blocking work has been parked for too
/// many rounds, or the limit of time is reached, in this order; without a limit time does not end
/// it.
pub proof fn law_simulation_goes_on_while_it_can(
    progress: bool,
    going: bool,
    pending: bool,
    stalled_rounds: usize,
    limit: Option<Duration>,
    elapsed: Duration,
)
    requires
        stalled_rounds <= MAX_STALLED_ROUNDS,
        elapsed.nanos >= clock::CLOCK_BASE_SECS * NANOS_PER_SEC,
    ensures
        ({
            let ran = elapsed.nanos - clock::CLOCK_BASE_SECS * NANOS_PER_SEC;
            let r = outcome_of(progress, going, pending, stalled_rounds, limit, elapsed);
            let stuck = !progress && !going && !pending;
            &&& r == RoundOutcome::NoEvents <==> stuck
            &&& r == RoundOutcome::Deadlock <==> !stuck && stalled_rounds == 10_000
            &&& !stuck && stalled_rounds < 10_000 ==> {
                &&& limit is None ==> r == RoundOutcome::Continue
                &&& limit matches Some(most) ==> {
                    &&& ran < most.nanos ==> r == RoundOutcome::Continue
                    &&& ran >= most.nanos ==> r == RoundOutcome::TimeLimitExceeded(most)
                }
            }
        }),
{
}

/// A round has achieved something if and only if a task was started, or one is ready to run.
pub proof fn law_started_and_ready_tasks_are_progress<R, I, J, E>(
    executor: Executor<R, I, J, E>,
    dequeued: usize,
)
    ensures
        dequeued > 0 ==> executor.progress(dequeued),
        executor.handle@.queue.len() > 0 ==> executor.progress(dequeued),
        dequeued == 0 && executor.handle@.queue.len() == 0 ==> !executor.progress(dequeued),
{
}

} // verus!
