//! Deterministic blocking task pool.
//!
//! `spawn_blocking` closures run on real threads, but at most one thread of the simulator (the
//! main executor thread or one pool thread) is running at any moment. Between polling rounds the
//! main executor grants each pool thread a turn, in seeded-random order, so execution remains
//! deterministic.
//!
//! This module holds the decisions: which thread gets which turn, what a thread does with it, and
//! what a round has achieved. The threads themselves wait and wake elsewhere.

use crate::random::GlobalRng;
use crate::task::executor::PanicWrapper;
use crate::task::{aborting, infos_view, InfoView, NodeId, TaskInfo};
use crate::utils::{lemma_swap_removed, swap_removed};
use vstd::prelude::*;

verus! {

/// How many threads a pool has unless it is told otherwise.
///
/// The pool must be large enough that tasks parked at yield points (waiting for sim progress)
/// cannot occupy every thread and starve the task that would unblock them.
pub const DEFAULT_BLOCKING_THREADS: u32 = 128;

/// Whose turn it is.
#[derive(Debug, Clone, Copy, PartialEq, Eq, Structural)]
pub enum Turn {
    /// That of the main executor.
    Idle,
    /// A pool thread may run.
    Run(u32),
    /// A pool thread must unwind its task.
    Abort(u32),
    /// Every pool thread must end.
    Shutdown,
}

/// What a pool thread has a turn for.
#[derive(Debug, Clone, Copy, PartialEq, Eq, Structural)]
pub enum TurnKind {
    /// To run.
    Run,
    /// To unwind its task.
    Abort,
    /// To end.
    Exit,
}

/// Result of a wake round, used for progress and deadlock detection.
pub struct RoundStats {
    /// Number of tasks dequeued (started) during the round.
    pub dequeued: usize,
    /// Whether any blocking work remains (parked mid-task threads or queued tasks).
    pub pending: bool,
    /// Kill requests that escaped blocking tasks this round, for the main loop to schedule node
    /// restarts.
    pub panics: Vec<(NodeId, PanicWrapper)>,
}

/// What a pool thread that was granted a turn finds to do.
pub enum JobStep<J> {
    /// Nothing is queued.
    Nothing,
    /// The job belongs to a killed node: drop it.
    Drop(J, usize),
    /// The job belongs to a paused node: it went back to the queue.
    Requeued,
    /// Run the job.
    Run(J, usize),
}

/// What a pool thread that is not in the middle of a task does with a turn.
#[derive(Debug, Clone, Copy, PartialEq, Eq, Structural)]
pub enum ThreadStep {
    /// It looks for a job.
    Work,
    /// It ends its turn: aborts are for threads that are in the middle of a task.
    Skip,
    /// It ends.
    Exit,
}

/// Decides what a pool thread that is not in the middle of a task does with a turn.
pub fn thread_step(kind: TurnKind) -> (r: ThreadStep)
    ensures
        r == (match kind {
            TurnKind::Run => ThreadStep::Work,
            TurnKind::Abort => ThreadStep::Skip,
            TurnKind::Exit => ThreadStep::Exit,
        }),
{
    match kind {
        TurnKind::Run => ThreadStep::Work,
        TurnKind::Abort => ThreadStep::Skip,
        TurnKind::Exit => ThreadStep::Exit,
    }
}

/// How the work of a pool thread ended, if not by returning.
pub enum Unwound {
    /// Its node was killed, or the pool shuts down.
    Abort,
    /// It killed its own node.
    Kill(PanicWrapper),
}

/// The state of a blocking pool. `J` is what a job runs.
pub struct BlockingPool<J> {
    /// The jobs that wait for a thread, each with its identity.
    pub queue: Vec<(J, usize)>,
    /// Whose turn it is.
    pub turn: Turn,
    /// The identity of the task each pool thread is currently executing (parked at a yield
    /// point), if any.
    pub current: Vec<Option<usize>>,
    /// Deferred abort flags; delivered as `Turn::Abort` at the next wake round.
    pub abort_requested: Vec<bool>,
    /// Tasks dequeued during the current wake round, for progress detection.
    pub dequeued: usize,
    /// Kill requests that escaped blocking tasks, handed to the main loop each wake round.
    pub pending_panics: Vec<(NodeId, PanicWrapper)>,
    /// Whether the threads have been started.
    pub started: bool,
}

/// What a blocking pool holds.
#[verifier::ext_equal]
pub struct PoolView<J> {
    /// The jobs that wait for a thread, each with its identity.
    pub queue: Seq<(J, usize)>,
    /// Whose turn it is.
    pub turn: Turn,
    /// The identity of the task each pool thread is executing.
    pub current: Seq<Option<usize>>,
    /// Which threads must unwind their tasks.
    pub abort_requested: Seq<bool>,
    /// Tasks dequeued during the current wake round.
    pub dequeued: usize,
    /// Kill requests that escaped blocking tasks.
    pub pending_panics: Seq<(NodeId, PanicWrapper)>,
    /// The threads have been started.
    pub started: bool,
}

impl<J> View for BlockingPool<J> {
    type V = PoolView<J>;

    open spec fn view(&self) -> PoolView<J> {
        PoolView {
            queue: self.queue@,
            turn: self.turn,
            current: self.current@,
            abort_requested: self.abort_requested@,
            dequeued: self.dequeued,
            pending_panics: self.pending_panics@,
            started: self.started,
        }
    }
}

impl<J> PoolView<J> {
    /// The pool has threads, and every identity in use is among the first `infos`.
    pub open spec fn wf(self, infos: nat) -> bool {
        &&& 0 < self.current.len() <= u32::MAX
        &&& self.abort_requested.len() == self.current.len()
        &&& forall|i: int| 0 <= i < self.queue.len() ==> (#[trigger] self.queue[i]).1 < infos
        &&& forall|i: int|
            0 <= i < self.current.len() ==> ((#[trigger] self.current[i]) matches Some(info)
                ==> info < infos)
    }

    /// Some thread is in the middle of a task.
    pub open spec fn any_parked(self) -> bool {
        exists|i: int| 0 <= i < self.current.len() && (#[trigger] self.current[i]) is Some
    }

    /// Some thread must unwind its task.
    pub open spec fn any_abort(self) -> bool {
        exists|i: int| 0 <= i < self.abort_requested.len() && #[trigger] self.abort_requested[i]
    }

    /// There is nothing to run, resume or abort.
    pub open spec fn quiet(self) -> bool {
        !self.any_parked() && !self.any_abort() && self.queue.len() == 0
    }

    /// The turn that thread `i` gets in a round, if any: an abort that was requested comes
    /// first; a parked task goes on unless its node is paused; an idle thread picks up a job if
    /// there is one.
    pub open spec fn turn_for(self, i: int, infos: Seq<InfoView>) -> Option<Turn> {
        if self.abort_requested[i] {
            Some(Turn::Abort(i as u32))
        } else {
            match self.current[i] {
                Some(info) => if infos[info as int].paused {
                    None
                } else {
                    Some(Turn::Run(i as u32))
                },
                None => if self.queue.len() == 0 {
                    None
                } else {
                    Some(Turn::Run(i as u32))
                },
            }
        }
    }

    /// What becomes of the job at position `i` of the queue, if thread `me` takes it, and what the
    /// pool holds then: a job of a killed identity is dropped; one of a paused identity goes back,
    /// without counting as progress; any other is run.
    pub open spec fn job_taken(self, me: int, i: int, infos: Seq<InfoView>) -> (
        JobStep<J>,
        PoolView<J>,
    ) {
        let (job, info) = self.queue[i];
        let known = infos[info as int];
        let rest = swap_removed(self.queue, i);
        let started = PoolView {
            queue: rest,
            dequeued: (self.dequeued + 1) as usize,
            ..self
        };
        if known.killed {
            (
                JobStep::Drop(job, info),
                PoolView { current: self.current.update(me, None), ..started },
            )
        } else if known.paused {
            (JobStep::Requeued, PoolView { queue: rest.push((job, info)), ..self })
        } else {
            (
                JobStep::Run(job, info),
                PoolView { current: self.current.update(me, Some(info)), ..started },
            )
        }
    }

    /// What the pool holds once a job of the identity `info` has been queued.
    pub open spec fn queued(self, job: J, info: usize) -> PoolView<J> {
        PoolView { queue: self.queue.push((job, info)), started: true, ..self }
    }

    /// What the pool holds once thread `i` has been granted the turn that it gets.
    pub open spec fn granted(self, i: int, infos: Seq<InfoView>) -> PoolView<J> {
        match self.turn_for(i, infos) {
            Some(turn) => PoolView {
                turn,
                abort_requested: self.abort_requested.update(i, false),
                ..self
            },
            None => self,
        }
    }

    /// What the pool holds once the turn has been ended.
    pub open spec fn turn_ended(self) -> PoolView<J> {
        if self.turn == Turn::Shutdown {
            self
        } else {
            PoolView { turn: Turn::Idle, ..self }
        }
    }

    /// What the pool holds once it has been shut down, if it has threads.
    pub open spec fn shut_down(self) -> PoolView<J> {
        if self.started {
            PoolView { turn: Turn::Shutdown, ..self }
        } else {
            self
        }
    }

    /// Whether the task of thread `me` must unwind when it goes on with a turn of this kind, and
    /// what the pool holds then.
    pub open spec fn gone_on(self, me: int, kind: TurnKind) -> (bool, PoolView<J>) {
        if kind == TurnKind::Run {
            (false, self)
        } else {
            (true, PoolView { current: self.current.update(me, None), ..self })
        }
    }

    /// What the pool holds once the task of thread `me` is complete.
    pub open spec fn completed(self, me: int) -> PoolView<J> {
        PoolView {
            current: self.current.update(me, None),
            abort_requested: self.abort_requested.update(me, false),
            ..self
        }
    }

    /// What the pool holds once the task of thread `me`, which runs on `node`, has been unwound.
    pub open spec fn unwound(self, me: int, how: Unwound, node: NodeId) -> PoolView<J> {
        match how {
            Unwound::Abort => self,
            Unwound::Kill(panic) => PoolView {
                pending_panics: self.pending_panics.push((node, panic)),
                ..self.completed(me)
            },
        }
    }

    /// What a turn makes of thread `me`.
    pub open spec fn kind_for(self, me: u32) -> Option<TurnKind> {
        match self.turn {
            Turn::Shutdown => Some(TurnKind::Exit),
            Turn::Run(i) => if i == me {
                Some(TurnKind::Run)
            } else {
                None
            },
            Turn::Abort(i) => if i == me {
                Some(TurnKind::Abort)
            } else {
                None
            },
            Turn::Idle => None,
        }
    }
}

/// What is to be done in a wake round.
pub enum RoundPlan {
    /// Nothing: this is the result of the round.
    Skip(RoundStats),
    /// To grant each of these threads a turn, in this order.
    Grant(Vec<usize>),
}

/// The first `n` numbers, in their order.
pub open spec fn counting(n: nat) -> Seq<usize> {
    Seq::new(n, |i: int| i as usize)
}

/// The identity of a parked task belongs to `node`.
pub open spec fn runs_on(current: Option<usize>, infos: Seq<InfoView>, node: NodeId) -> bool {
    current matches Some(info) && infos[info as int].node == node
}

impl<J> BlockingPool<J> {
    /// A pool of `num_threads` threads, none of which has been started.
    pub fn new(num_threads: u32) -> (r: BlockingPool<J>)
        requires
            num_threads > 0,
        ensures
            r@.wf(0),
            r@ == (PoolView::<J> {
                queue: Seq::empty(),
                turn: Turn::Idle,
                current: Seq::new(num_threads as nat, |i: int| None),
                abort_requested: Seq::new(num_threads as nat, |i: int| false),
                dequeued: 0,
                pending_panics: Seq::empty(),
                started: false,
            }),
    {
        let mut current: Vec<Option<usize>> = Vec::new();
        let mut abort_requested: Vec<bool> = Vec::new();
        let mut i: u32 = 0;
        while i < num_threads
            invariant
                i <= num_threads,
                current@ == Seq::new(i as nat, |j: int| None::<usize>),
                abort_requested@ == Seq::new(i as nat, |j: int| false),
            decreases num_threads - i,
        {
            current.push(None);
            abort_requested.push(false);
            i = i + 1;
            assert(current@ =~= Seq::new(i as nat, |j: int| None::<usize>));
            assert(abort_requested@ =~= Seq::new(i as nat, |j: int| false));
        }
        BlockingPool {
            queue: Vec::new(),
            turn: Turn::Idle,
            current,
            abort_requested,
            dequeued: 0,
            pending_panics: Vec::new(),
            started: false,
        }
    }

    /// Enqueues a blocking job. Returns whether the threads of the pool have to be started
    /// first, which is so for the first job.
    pub fn spawn(&mut self, job: J, info: usize) -> (start: bool)
        ensures
            final(self)@ == old(self)@.queued(job, info),
            start == !old(self).started,
    {
        let start: bool = self.ensure_started();
        self.queue.push((job, info));
        start
    }

    /// Whether the threads of the pool have to be started. From now on they do not.
    pub fn ensure_started(&mut self) -> (start: bool)
        ensures
            final(self)@ == (PoolView { started: true, ..old(self)@ }),
            start == !old(self).started,
    {
        let start: bool = !self.started;
        self.started = true;
        start
    }

    /// Whether some thread is in the middle of a task.
    fn is_any_parked(&self) -> (r: bool)
        ensures
            r == self@.any_parked(),
    {
        let mut i: usize = 0;
        while i < self.current.len()
            invariant
                i <= self.current@.len(),
                forall|j: int| 0 <= j < i ==> (#[trigger] self.current@[j]) is None,
            decreases self.current@.len() - i,
        {
            if self.current[i].is_some() {
                assert(self@.current[i as int] is Some);
                return true;
            }
            i = i + 1;
        }
        false
    }

    /// Whether some thread must unwind its task.
    fn is_any_abort(&self) -> (r: bool)
        ensures
            r == self@.any_abort(),
    {
        let mut i: usize = 0;
        while i < self.abort_requested.len()
            invariant
                i <= self.abort_requested@.len(),
                forall|j: int| 0 <= j < i ==> !(#[trigger] self.abort_requested@[j]),
            decreases self.abort_requested@.len() - i,
        {
            if self.abort_requested[i] {
                assert(self@.abort_requested[i as int]);
                return true;
            }
            i = i + 1;
        }
        false
    }

    /// Hands out the kill requests that have come in.
    fn take_panics(&mut self) -> (r: Vec<(NodeId, PanicWrapper)>)
        ensures
            r@ == old(self)@.pending_panics,
            final(self)@ == (PoolView { pending_panics: Seq::empty(), ..old(self)@ }),
    {
        let mut taken: Vec<(NodeId, PanicWrapper)> = Vec::new();
        std::mem::swap(&mut taken, &mut self.pending_panics);
        taken
    }

    /// Starts a wake round: decides whether there is anything to do, and in which order the
    /// threads get their turns. Where there is nothing to do no order is drawn.
    pub fn begin_round(&mut self, rng: &mut GlobalRng) -> (r: RoundPlan)
        requires
            old(self)@.current.len() <= u32::MAX,
        ensures
            match r {
                RoundPlan::Skip(stats) => {
                    &&& !old(self).started || old(self)@.quiet()
                    &&& *final(rng) == *old(rng)
                    &&& stats.dequeued == 0
                    &&& !stats.pending
                    &&& if old(self).started {
                        stats.panics@ == old(self)@.pending_panics && final(self)@ == (PoolView {
                            pending_panics: Seq::empty(),
                            ..old(self)@
                        })
                    } else {
                        stats.panics@.len() == 0 && final(self)@ == old(self)@
                    }
                },
                RoundPlan::Grant(order) => {
                    &&& old(self).started && !old(self)@.quiet()
                    &&& order@.to_multiset() == counting(old(self)@.current.len()).to_multiset()
                    &&& old(rng).gave_order(
                        counting(old(self)@.current.len()),
                        order@,
                        *final(rng),
                    )
                    &&& final(self)@ == (PoolView { dequeued: 0, ..old(self)@ })
                },
            },
            final(rng).seed() == old(rng).seed(),
    {
        if !self.started {
            return RoundPlan::Skip(
                RoundStats { dequeued: 0, pending: false, panics: Vec::new() },
            );
        }
        // fast path: nothing to run, resume or abort. (Skipping the shuffle draw is
        // deterministic, since the pool state itself is deterministic.)
        if !self.is_any_parked() && !self.is_any_abort() && self.queue.len() == 0 {
            return RoundPlan::Skip(
                RoundStats { dequeued: 0, pending: false, panics: self.take_panics() },
            );
        }
        let mut order: Vec<usize> = Vec::new();
        let mut i: usize = 0;
        while i < self.current.len()
            invariant
                i <= self.current@.len(),
                order@ == counting(i as nat),
            decreases self.current@.len() - i,
        {
            order.push(i);
            i = i + 1;
            assert(order@ =~= counting(i as nat));
        }
        rng.shuffle(&mut order);
        self.dequeued = 0;
        RoundPlan::Grant(order)
    }

    /// Grants thread `i` the turn that it gets in a round, if any. An abort is granted once.
    pub fn grant(&mut self, i: usize, infos: &Vec<TaskInfo>) -> (r: Option<Turn>)
        requires
            old(self)@.wf(infos@.len()),
            i < old(self)@.current.len(),
        ensures
            r == old(self)@.turn_for(i as int, infos_view(infos@)),
            final(self)@ == old(self)@.granted(i as int, infos_view(infos@)),
            final(self)@.wf(infos@.len()),
    {
        let turn: Turn = if self.abort_requested[i] {
            self.abort_requested.set(i, false);
            Turn::Abort(i as u32)
        } else {
            match self.current[i] {
                Some(info) => {
                    assert(self@.current[i as int] == Some(info));
                    if infos[info].paused {
                        return None;
                    }
                    Turn::Run(i as u32)
                },
                None => {
                    if self.queue.len() == 0 {
                        // idle thread with nothing to pick up
                        return None;
                    }
                    Turn::Run(i as u32)
                },
            }
        };
        self.turn = turn;
        assert(self@.abort_requested =~= old(self)@.abort_requested.update(i as int, false));
        Some(turn)
    }

    /// Ends a wake round.
    pub fn end_round(&mut self) -> (stats: RoundStats)
        ensures
            stats.dequeued == old(self).dequeued,
            stats.pending == (old(self)@.any_parked() || old(self)@.queue.len() > 0),
            stats.panics@ == old(self)@.pending_panics,
            final(self)@ == (PoolView { pending_panics: Seq::empty(), ..old(self)@ }),
    {
        let pending: bool = self.is_any_parked() || self.queue.len() > 0;
        RoundStats { dequeued: self.dequeued, pending, panics: self.take_panics() }
    }

    /// Requests that any thread currently executing a task of `node` unwinds it at the start of
    /// its next turn.
    pub fn request_abort_node(&mut self, node: NodeId, infos: &Vec<TaskInfo>)
        requires
            old(self)@.wf(infos@.len()),
        ensures
            final(self)@ == aborting(old(self)@, infos_view(infos@), node),
            final(self)@.wf(infos@.len()),
    {
        let ghost wanted = Seq::new(
            old(self)@.current.len(),
            |i: int|
                old(self)@.abort_requested[i] || runs_on(
                    old(self)@.current[i],
                    infos_view(infos@),
                    node,
                ),
        );
        let mut i: usize = 0;
        while i < self.current.len()
            invariant
                i <= self.current@.len(),
                old(self)@.wf(infos@.len()),
                wanted.len() == self.current@.len(),
                self@ == (PoolView { abort_requested: self@.abort_requested, ..old(self)@ }),
                self@.abort_requested.len() == old(self)@.current.len(),
                forall|j: int|
                    0 <= j < wanted.len() ==> #[trigger] wanted[j] == (
                    old(self)@.abort_requested[j] || runs_on(
                        old(self)@.current[j],
                        infos_view(infos@),
                        node,
                    )),
                forall|j: int| 0 <= j < i ==> #[trigger] self@.abort_requested[j] == wanted[j],
                forall|j: int|
                    i <= j < wanted.len() ==> #[trigger] self@.abort_requested[j] == old(
                        self,
                    )@.abort_requested[j],
            decreases self.current@.len() - i,
        {
            assert(wanted[i as int] == (old(self)@.abort_requested[i as int] || runs_on(
                old(self)@.current[i as int],
                infos_view(infos@),
                node,
            )));
            match self.current[i] {
                Some(info) => {
                    assert(old(self)@.current[i as int] == Some(info));
                    if infos[info].node == node {
                        self.abort_requested.set(i, true);
                    }
                },
                None => {},
            }
            i = i + 1;
        }
        assert(self@.abort_requested =~= wanted);
    }

    /// Has every thread end, unwinding what is parked. Returns whether there are any.
    pub fn shutdown(&mut self) -> (running: bool)
        ensures
            running == old(self).started,
            final(self)@ == old(self)@.shut_down(),
    {
        if self.started {
            self.turn = Turn::Shutdown;
        }
        self.started
    }

    /// What thread `me` has a turn for, or `None` if it has to wait.
    pub fn wait_turn(&self, me: u32) -> (r: Option<TurnKind>)
        ensures
            r == self@.kind_for(me),
    {
        match self.turn {
            Turn::Shutdown => Some(TurnKind::Exit),
            Turn::Run(i) => if i == me {
                Some(TurnKind::Run)
            } else {
                None
            },
            Turn::Abort(i) => if i == me {
                Some(TurnKind::Abort)
            } else {
                None
            },
            Turn::Idle => None,
        }
    }

    /// Ends the turn of a thread. A shutdown stays, so that other threads still observe it.
    pub fn end_turn(&mut self)
        ensures
            final(self)@ == old(self)@.turn_ended(),
    {
        if self.turn != Turn::Shutdown {
            self.turn = Turn::Idle;
        }
    }

    /// Goes on after a yield, with the turn that has come. Returns whether the task must unwind,
    /// because its node was killed or the pool is shutting down.
    pub fn resume(&mut self, me: u32, kind: TurnKind) -> (unwind: bool)
        requires
            me < old(self)@.current.len(),
        ensures
            (unwind, final(self)@) == old(self)@.gone_on(me as int, kind),
    {
        match kind {
            TurnKind::Run => false,
            TurnKind::Abort | TurnKind::Exit => {
                self.current.set(me as usize, None);
                true
            },
        }
    }

    /// Notes that thread `me` has taken up a task.
    fn note_dequeue(&mut self, me: u32, info: Option<usize>)
        requires
            me < old(self)@.current.len(),
            old(self).dequeued < usize::MAX,
        ensures
            final(self)@ == (PoolView {
                dequeued: (old(self).dequeued + 1) as usize,
                current: old(self)@.current.update(me as int, info),
                ..old(self)@
            }),
    {
        self.dequeued = self.dequeued + 1;
        self.current.set(me as usize, info);
    }

    /// Notes that the task of thread `me` is complete.
    pub fn note_complete(&mut self, me: u32)
        requires
            me < old(self)@.current.len(),
            me < old(self)@.abort_requested.len(),
        ensures
            final(self)@ == old(self)@.completed(me as int),
    {
        self.current.set(me as usize, None);
        // the abort target no longer exists.
        self.abort_requested.set(me as usize, false);
    }

    /// Takes the job at position `i` of the queue for thread `me`, and decides what becomes of
    /// it. One of a paused node goes back, without counting as progress: a paused task must not
    /// prevent time from advancing.
    pub fn take_job(&mut self, me: u32, i: usize, infos: &Vec<TaskInfo>) -> (r: JobStep<J>)
        requires
            old(self)@.wf(infos@.len()),
            me < old(self)@.current.len(),
            i < old(self)@.queue.len(),
            old(self).dequeued < usize::MAX,
        ensures
            (r, final(self)@) == old(self)@.job_taken(me as int, i as int, infos_view(infos@)),
            final(self)@.wf(infos@.len()),
    {
        let ghost queue = self.queue@;
        let (job, info): (J, usize) = self.queue.swap_remove(i);
        proof {
            assert(queue[i as int] == (job, info));
            assert(self.queue@ =~= swap_removed(queue, i as int));
            assert forall|j: int| 0 <= j < self.queue@.len() implies (#[trigger] self.queue@[j]).1
                < infos@.len() by {
                if j == i {
                    assert(self.queue@[j] == queue[queue.len() - 1]);
                } else {
                    assert(self.queue@[j] == queue[j]);
                }
            }
        }
        if infos[info].is_killed() {
            self.note_dequeue(me, None);
            return JobStep::Drop(job, info);
        }
        if infos[info].paused {
            self.queue.push((job, info));
            return JobStep::Requeued;
        }
        self.note_dequeue(me, Some(info));
        JobStep::Run(job, info)
    }

    /// Dequeues a single blocking job for thread `me`, drawn at random. One job per turn keeps
    /// interleaving with async tasks fine-grained.
    pub fn run_one(&mut self, rng: &mut GlobalRng, me: u32, infos: &Vec<TaskInfo>) -> (r: JobStep<J>)
        requires
            old(self)@.wf(infos@.len()),
            me < old(self)@.current.len(),
            old(self).dequeued < usize::MAX,
            old(self)@.queue.len() <= u64::MAX,
        ensures
            r is Nothing <==> old(self)@.queue.len() == 0,
            r is Nothing ==> final(self)@ == old(self)@ && *final(rng) == *old(rng),
            r !is Nothing ==> exists|i: int|
                0 <= i < old(self)@.queue.len() && (r, final(self)@) == #[trigger] old(
                    self,
                )@.job_taken(me as int, i, infos_view(infos@)) && old(rng).gave_in_range(
                    0,
                    old(self)@.queue.len() as u64,
                    i as u64,
                    *final(rng),
                ),
            final(rng).seed() == old(rng).seed(),
            final(self)@.wf(infos@.len()),
    {
        let len: usize = self.queue.len();
        if len == 0 {
            return JobStep::Nothing;
        }
        let i: usize = rng.gen_range(0, len as u64) as usize;
        self.take_job(me, i, infos)
    }

    /// Takes note of how the task of thread `me` was unwound. A kill request is kept for the
    /// main loop: the node of the task is being killed, so that nothing else could deliver it.
    pub fn note_unwound(&mut self, me: u32, how: Unwound, infos: &Vec<TaskInfo>)
        requires
            old(self)@.wf(infos@.len()),
            me < old(self)@.current.len(),
            how is Kill ==> old(self)@.current[me as int] is Some,
        ensures
            final(self)@ == old(self)@.unwound(
                me as int,
                how,
                infos@[old(self)@.current[me as int]->0 as int].node,
            ),
            final(self)@.wf(infos@.len()),
    {
        match how {
            // controlled unwind of a killed task - nothing to do.
            Unwound::Abort => {},
            Unwound::Kill(panic) => {
                assert(self@.current[me as int] is Some);
                let info: usize = self.current[me as usize].unwrap();
                self.current.set(me as usize, None);
                self.abort_requested.set(me as usize, false);
                self.pending_panics.push((infos[info].node(), panic));
            },
        }
    }
}

/// A job that was run or dropped is not in the queue any more, a job that went back is, and so
/// are all others.
pub proof fn law_taking_a_job_takes_one<J>(
    pool: PoolView<J>,
    me: int,
    i: int,
    infos: Seq<InfoView>,
)
    requires
        0 <= i < pool.queue.len(),
    ensures
        ({
            let (step, after) = pool.job_taken(me, i, infos);
            if step is Requeued {
                after.queue.to_multiset() == pool.queue.to_multiset()
            } else {
                after.queue.to_multiset() == pool.queue.to_multiset().remove(pool.queue[i])
            }
        }),
{
    broadcast use vstd::seq_lib::group_to_multiset_ensures;

    let rest = swap_removed(pool.queue, i);
    lemma_swap_removed(pool.queue, i);
    assert(pool.queue.contains(pool.queue[i]));
    assert(rest.push(pool.queue[i]).to_multiset() =~= rest.to_multiset().insert(pool.queue[i]));
    assert(rest.to_multiset().insert(pool.queue[i]) =~= pool.queue.to_multiset());
}

/// A job of a node that was killed since it was queued never runs.
pub proof fn law_job_of_a_killed_node_never_runs<J>(
    pool: PoolView<J>,
    me: int,
    i: int,
    infos: Seq<InfoView>,
)
    requires
        0 <= i < pool.queue.len(),
        infos[pool.queue[i].1 as int].killed,
    ensures
        pool.job_taken(me, i, infos).0 == JobStep::Drop(pool.queue[i].0, pool.queue[i].1),
{
}

/// At most one thread has a turn to run or to unwind its task.
pub proof fn law_one_thread_runs_at_a_time<J>(pool: PoolView<J>, a: u32, b: u32)
    requires
        pool.kind_for(a) == Some(TurnKind::Run) || pool.kind_for(a) == Some(TurnKind::Abort),
        pool.kind_for(b) == Some(TurnKind::Run) || pool.kind_for(b) == Some(TurnKind::Abort),
    ensures
        a == b,
{
}

/// The thread that a turn is granted to, and no other, gets it.
pub proof fn law_granted_turn_reaches_its_thread<J>(
    pool: PoolView<J>,
    i: int,
    infos: Seq<InfoView>,
    me: u32,
)
    requires
        pool.wf(infos.len()),
        0 <= i < pool.current.len(),
        pool.turn_for(i, infos) is Some,
    ensures
        (PoolView { turn: pool.turn_for(i, infos)->0, ..pool }).kind_for(me) is Some <==> me == i,
{
}

/// In a round each thread has its turn once.
pub proof fn law_round_visits_each_thread_once(order: Seq<usize>, n: nat, thread: usize)
    requires
        order.to_multiset() == counting(n).to_multiset(),
        n <= usize::MAX,
        thread < n,
    ensures
        order.len() == n,
        order.contains(thread),
        order.no_duplicates(),
{
    broadcast use vstd::seq_lib::group_to_multiset_ensures;

    assert(order.to_multiset().len() == order.len());
    assert(counting(n).to_multiset().len() == counting(n).len());
    assert(counting(n)[thread as int] == thread);
    assert(counting(n).contains(thread));
    assert(order.to_multiset().count(thread) > 0);
    assert(counting(n).no_duplicates());
    counting(n).lemma_multiset_has_no_duplicates();
    assert forall|x: usize| order.to_multiset().contains(x) implies order.to_multiset().count(x)
        == 1 by {}
    order.lemma_multiset_has_no_duplicates_conv();
}

/// Once aborts have been requested for a node, every thread that executes a task of it gets an
/// abort as its next turn, even if the node is paused, and no other thread does that did not
/// before.
pub proof fn law_killed_task_is_aborted_next<J>(
    pool: PoolView<J>,
    after: PoolView<J>,
    node: NodeId,
    infos: Seq<InfoView>,
    i: int,
)
    requires
        pool.wf(infos.len()),
        after == aborting(pool, infos, node),
        0 <= i < pool.current.len(),
    ensures
        runs_on(pool.current[i], infos, node) ==> after.turn_for(i, infos) == Some(
            Turn::Abort(i as u32),
        ),
        !runs_on(pool.current[i], infos, node) ==> after.turn_for(i, infos) == pool.turn_for(
            i,
            infos,
        ),
{
}

/// After a shutdown every thread that waits for a turn is told to end, and ending turns does not
/// undo it.
pub proof fn law_shutdown_reaches_every_thread<J>(pool: PoolView<J>, me: u32)
    requires
        pool.started,
    ensures
        pool.shut_down().kind_for(me) == Some(TurnKind::Exit),
        pool.shut_down().turn_ended().kind_for(me) == Some(TurnKind::Exit),
        pool.shut_down().queue == pool.queue,
        pool.shut_down().current == pool.current,
        pool.shut_down().started,
{
}

/// A job that is queued waits behind all others, under its identity, and the pool counts as started
/// from then on. Nothing else changes.
pub proof fn law_queued_job_waits_behind_all_others<J>(pool: PoolView<J>, job: J, info: usize)
    ensures
        ({
            let after = pool.queued(job, info);
            &&& after.queue.len() == pool.queue.len() + 1
            &&& after.queue.last() == (job, info)
            &&& after.queue.drop_last() == pool.queue
            &&& after.started
            &&& !after.quiet()
            &&& after.turn == pool.turn && after.current == pool.current
            &&& after.abort_requested == pool.abort_requested && after.dequeued == pool.dequeued
            &&& after.pending_panics == pool.pending_panics
        }),
{
    assert(pool.queued(job, info).queue.drop_last() =~= pool.queue);
}

/// A pool is quiet if and only if no job waits, no thread is in the middle of a task and none has to
/// unwind one.
pub proof fn law_quiet_pool_has_nothing_to_do<J>(pool: PoolView<J>, i: int)
    requires
        pool.abort_requested.len() == pool.current.len(),
        0 <= i < pool.current.len(),
    ensures
        pool.quiet() ==> pool.queue.len() == 0 && pool.current[i] is None
            && !pool.abort_requested[i],
        pool.queue.len() > 0 || pool.current[i] is Some || pool.abort_requested[i] ==> !pool.quiet(),
        pool.queue.len() == 0 && (forall|j: int|
            0 <= j < pool.current.len() ==> (#[trigger] pool.current[j]) is None) && (forall|
            j: int,
        |
            0 <= j < pool.abort_requested.len() ==> !(#[trigger] pool.abort_requested[j]))
            ==> pool.quiet(),
{
}

/// A thread that has to unwind its task gets a turn for that before anything else. A thread in the
/// middle of a task goes on unless the node of the task is paused, and one without a task gets a
/// turn if and only if a job waits.
pub proof fn law_turns_are_for_those_with_something_to_do<J>(
    pool: PoolView<J>,
    i: int,
    infos: Seq<InfoView>,
)
    requires
        pool.wf(infos.len()),
        0 <= i < pool.current.len(),
    ensures
        ({
            let turn = pool.turn_for(i, infos);
            &&& turn is None || turn == Some(Turn::Run(i as u32)) || turn == Some(
                Turn::Abort(i as u32),
            )
            &&& turn == Some(Turn::Abort(i as u32)) <==> pool.abort_requested[i]
            &&& !pool.abort_requested[i] && pool.current[i] is Some ==> (turn is Some
                <==> !infos[pool.current[i]->0 as int].paused)
            &&& !pool.abort_requested[i] && pool.current[i] is None ==> (turn is Some
                <==> pool.queue.len() > 0)
        }),
{
}

/// Granting a turn makes it the turn of that thread, once: an abort that was granted is not granted
/// again, and those of other threads are kept. A thread that gets none changes nothing.
pub proof fn law_abort_is_granted_once<J>(pool: PoolView<J>, i: int, infos: Seq<InfoView>, j: int)
    requires
        pool.wf(infos.len()),
        0 <= i < pool.current.len(),
        0 <= j < pool.current.len(),
    ensures
        ({
            let after = pool.granted(i, infos);
            &&& pool.turn_for(i, infos) matches Some(turn) ==> after.turn == turn
                && !after.abort_requested[i]
            &&& pool.turn_for(i, infos) is None ==> after == pool
            &&& j != i ==> after.abort_requested[j] == pool.abort_requested[j]
            &&& after.abort_requested.len() == pool.abort_requested.len()
            &&& after.queue == pool.queue && after.current == pool.current
            &&& after.dequeued == pool.dequeued && after.pending_panics == pool.pending_panics
            &&& after.started == pool.started
        }),
{
}

/// Once a turn has ended nobody has one, unless the pool is shutting down.
pub proof fn law_ended_turn_is_nobodys<J>(pool: PoolView<J>, me: u32)
    ensures
        pool.turn != Turn::Shutdown ==> pool.turn_ended().kind_for(me) is None,
        pool.turn_ended().queue == pool.queue,
        pool.turn_ended().current == pool.current,
        pool.turn_ended().abort_requested == pool.abort_requested,
        pool.turn_ended().pending_panics == pool.pending_panics,
        pool.turn_ended().dequeued == pool.dequeued,
        pool.turn_ended().started == pool.started,
{
}

/// What becomes of a job that a thread takes rests on its identity: it is dropped if that was
/// killed, put back if that is paused, and run otherwise. Running it makes it the task of the thread.
/// It counts as progress unless it was put back.
pub proof fn law_taken_job_goes_where_its_identity_says<J>(
    pool: PoolView<J>,
    me: int,
    i: int,
    infos: Seq<InfoView>,
    other: int,
)
    requires
        pool.wf(infos.len()),
        0 <= i < pool.queue.len(),
        0 <= me < pool.current.len(),
        0 <= other < pool.current.len(),
        pool.dequeued < usize::MAX,
    ensures
        ({
            let (job, info) = pool.queue[i];
            let known = infos[info as int];
            let (step, after) = pool.job_taken(me, i, infos);
            &&& step == JobStep::Drop(job, info) <==> known.killed
            &&& step is Requeued <==> known.paused && !known.killed
            &&& step == JobStep::Run(job, info) <==> !known.paused && !known.killed
            &&& after.dequeued == pool.dequeued + (if step is Requeued {
                0int
            } else {
                1
            })
            &&& step is Run ==> after.current[me] == Some(info)
            &&& step is Drop ==> after.current[me] is None
            &&& step is Requeued ==> after.current == pool.current && after.queue.last() == (
                job,
                info,
            )
            &&& other != me ==> after.current[other] == pool.current[other]
            &&& after.current.len() == pool.current.len()
            &&& after.turn == pool.turn && after.abort_requested == pool.abort_requested
            &&& after.pending_panics == pool.pending_panics && after.started == pool.started
        }),
{
}

/// A task that goes on with a turn to run goes on; with any other it unwinds, and the thread has no
/// task any more.
pub proof fn law_task_unwinds_unless_it_may_run<J>(
    pool: PoolView<J>,
    me: int,
    kind: TurnKind,
    other: int,
)
    requires
        0 <= me < pool.current.len(),
        0 <= other < pool.current.len(),
    ensures
        ({
            let (unwind, after) = pool.gone_on(me, kind);
            &&& unwind <==> kind == TurnKind::Abort || kind == TurnKind::Exit
            &&& unwind ==> after.current[me] is None
            &&& !unwind ==> after == pool
            &&& other != me ==> after.current[other] == pool.current[other]
            &&& after.queue == pool.queue && after.abort_requested == pool.abort_requested
            &&& after.pending_panics == pool.pending_panics && after.turn == pool.turn
        }),
{
}

/// A thread whose task is complete has none, and nothing to unwind; all other threads are as they
/// were.
pub proof fn law_completed_task_is_done_with<J>(pool: PoolView<J>, me: int, other: int)
    requires
        0 <= me < pool.current.len(),
        0 <= other < pool.current.len(),
        pool.abort_requested.len() == pool.current.len(),
    ensures
        ({
            let after = pool.completed(me);
            &&& after.current[me] is None && !after.abort_requested[me]
            &&& other != me ==> after.current[other] == pool.current[other]
                && after.abort_requested[other] == pool.abort_requested[other]
            &&& after.queue == pool.queue && after.pending_panics == pool.pending_panics
            &&& after.turn == pool.turn && after.dequeued == pool.dequeued
            &&& after.started == pool.started
        }),
{
}

/// A request to kill a node that escaped a task is kept, behind all others, for the node on which
/// the task ran, and the task is done with. A task that was merely aborted asks for nothing.
pub proof fn law_kill_request_is_kept<J>(pool: PoolView<J>, me: int, how: Unwound, node: NodeId)
    requires
        0 <= me < pool.current.len(),
        pool.abort_requested.len() == pool.current.len(),
    ensures
        ({
            let after = pool.unwound(me, how, node);
            &&& how matches Unwound::Kill(panic) ==> after.pending_panics.len()
                == pool.pending_panics.len() + 1 && after.pending_panics.last() == (node, panic)
                && after.pending_panics.drop_last() == pool.pending_panics
                && after.current[me] is None && !after.abort_requested[me]
            &&& how is Abort ==> after == pool
            &&& after.queue == pool.queue && after.turn == pool.turn
        }),
{
    if let Unwound::Kill(panic) = how {
        assert(pool.unwound(me, how, node).pending_panics.drop_last() =~= pool.pending_panics);
    }
}

/// Aborts are requested of those threads whose task runs on the node, whatever was requested before,
/// and of no others.
pub proof fn law_abort_is_requested_of_the_tasks_of_the_node<J>(
    pool: PoolView<J>,
    infos: Seq<InfoView>,
    node: NodeId,
    i: int,
)
    requires
        pool.wf(infos.len()),
        0 <= i < pool.current.len(),
    ensures
        ({
            let after = aborting(pool, infos, node);
            let own = pool.current[i] is Some && infos[pool.current[i]->0 as int].node == node;
            &&& own ==> after.abort_requested[i]
            &&& !own ==> after.abort_requested[i] == pool.abort_requested[i]
            &&& after.abort_requested.len() == pool.abort_requested.len()
            &&& after.current == pool.current && after.queue == pool.queue
            &&& after.turn == pool.turn && after.dequeued == pool.dequeued
            &&& after.pending_panics == pool.pending_panics && after.started == pool.started
        }),
{
}

} // verus!
