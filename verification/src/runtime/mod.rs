//! The simulation runtime.
//!
//! It brings together the random number generator, the timer, the task scheduler and the simulated
//! network.

pub mod builder;
pub mod laws;
pub mod watchdog;

use crate::config::SimConfig;
use crate::net::addr::IpAddr;
use crate::net::network::{Network, NetworkView, NodeView, SimEvent};
use crate::random::{GlobalRng, Log};
use crate::task::blocking::PoolView;
use crate::task::executor::{Executor, PanicWrapper};
use crate::task::{
    aborting, timers_cancelled, NodeId, Remains, TaskHandle, TaskNodeHandle, TaskView,
};
use crate::time::clock::CLOCK_BASE_SECS;
use crate::time::duration::{Duration, NANOS_PER_MILLI, NANOS_PER_SEC};
use crate::time::timer::{lemma_kept_all, lemma_kept_twice, lemma_live_of_kept, live_of, Event};
use crate::time::{TimeHandle, EARLIEST_BASE_SECS, SECS_PER_YEAR};
use vstd::prelude::*;

verus! {

/// The shortest time, in milliseconds, that a node which kills itself stays down by default.
pub const MIN_RESTART_MILLIS: u64 = 1000;

/// What the time that a node which kills itself stays down by default is shorter than, in
/// milliseconds.
pub const MAX_RESTART_MILLIS: u64 = 3000;

/// The task that is running.
#[derive(Debug, Clone, Copy, PartialEq, Eq, Structural)]
pub struct Context {
    /// The identity of the task, if one is running.
    pub current: Option<usize>,
}

/// Keeps a task the current one until it is released, and holds which one was before.
#[derive(Debug, Clone, Copy, PartialEq, Eq, Structural)]
#[must_use]
pub struct NodeEnterGuard(pub Option<usize>);

impl Context {
    /// Makes a task of the identity `info` the current one.
    pub fn enter_task(&mut self, info: usize) -> (r: NodeEnterGuard)
        ensures
            r.0 == old(self).current,
            final(self).current == Some(info),
    {
        let previous: Option<usize> = self.current;
        self.current = Some(info);
        NodeEnterGuard(previous)
    }

    /// Releases a guard: the task that was the current one before is so again.
    pub fn leave_task(&mut self, guard: NodeEnterGuard)
        ensures
            final(self).current == guard.0,
    {
        self.current = guard.0;
    }
}

/// Supervisor handle to the runtime: `R` is what runs a task, `I` what spawns the initial task of
/// a node, `J` what runs on the blocking pool and `D` what messages carry.
#[verifier::reject_recursive_types(D)]
pub struct Handle<R, I, J, D> {
    /// Where random choices come from.
    pub rand: GlobalRng,
    /// Tasks and time.
    pub executor: Executor<R, I, J, SimEvent<D>>,
    /// The network.
    pub net: Network<D>,
    /// The task that is running.
    pub context: Context,
}

/// Handle to a node.
#[derive(Debug, Clone, Copy, PartialEq, Eq, Structural)]
pub struct NodeHandle {
    /// The identity under which tasks are spawned.
    pub task: TaskNodeHandle,
}

/// Builds a node with custom configurations.
pub struct NodeBuilder<I> {
    /// The name of the node, if one was given.
    pub name: Option<String>,
    /// The address of the node, if one was given.
    pub ip: Option<IpAddr>,
    /// What spawns the initial task, if there is one.
    pub init: Option<I>,
}

impl<I> NodeBuilder<I> {
    /// A node without name, address and initial task.
    pub fn new() -> (r: NodeBuilder<I>)
        ensures
            r.name is None,
            r.ip is None,
            r.init is None,
    {
        NodeBuilder { name: None, ip: None, init: None }
    }

    /// Names the node.
    pub fn name(self, name: String) -> (r: NodeBuilder<I>)
        ensures
            r == (NodeBuilder { name: Some(name), ..self }),
    {
        let mut builder = self;
        builder.name = Some(name);
        builder
    }

    /// Sets what spawns the initial task of the node. It is spawned again after a crash.
    pub fn init(self, init: I) -> (r: NodeBuilder<I>)
        ensures
            r == (NodeBuilder { init: Some(init), ..self }),
    {
        let mut builder = self;
        builder.init = Some(init);
        builder
    }

    /// Sets the address of the node.
    pub fn ip(self, ip: IpAddr) -> (r: NodeBuilder<I>)
        ensures
            r == (NodeBuilder { ip: Some(ip), ..self }),
    {
        let mut builder = self;
        builder.ip = Some(ip);
        builder
    }
}

/// The tasks once all nodes with a number below `n`, but for `spared`, have been killed.
pub open spec fn all_killed<R, I>(tasks: TaskView<R, I>, n: nat, spared: u64) -> TaskView<R, I>
    decreases n,
{
    if n == 0 {
        tasks
    } else {
        let before = all_killed(tasks, (n - 1) as nat, spared);
        if tasks.nodes.contains_key((n - 1) as u64) && n - 1 != spared {
            before.killed((n - 1) as u64)
        } else {
            before
        }
    }
}

/// Node `id` is among those with a number below `n`, and is not `spared`.
pub open spec fn is_shut<R, I>(tasks: TaskView<R, I>, n: nat, spared: u64, id: u64) -> bool {
    tasks.nodes.contains_key(id) && id < n && id != spared
}

/// The nodes with a number below `n`, but for `spared`, in the order of their numbers.
pub open spec fn shut_nodes<R, I>(tasks: TaskView<R, I>, n: nat, spared: u64) -> Seq<NodeId>
    decreases n,
{
    if n == 0 {
        Seq::empty()
    } else {
        let before = shut_nodes(tasks, (n - 1) as nat, spared);
        if is_shut(tasks, n, spared, (n - 1) as u64) {
            before.push(NodeId((n - 1) as u64))
        } else {
            before
        }
    }
}

/// `after` is the time source once nothing is scheduled any more for the nodes of `tasks` with a
/// number below `n`, but for `spared`.
pub open spec fn all_silenced<R, I, E>(
    tasks: TaskView<R, I>,
    n: nat,
    spared: u64,
    before: TimeHandle<E>,
    after: TimeHandle<E>,
) -> bool {
    &&& after.clock == before.clock
    &&& forall|id: u64| #[trigger]
        after.timer.disabled_node_ids@.contains(id) <==> before.timer.disabled_node_ids@.contains(
            id,
        ) || is_shut(tasks, n, spared, id)
    &&& after.timer.events@ == before.timer.events@.filter(
        |event: Event<E>| !is_shut(tasks, n, spared, event.node_id.0),
    )
}

/// The pool once it has been asked to abort the tasks of the nodes of `tasks` with a number below
/// `n`, but for `spared`.
pub open spec fn all_aborting<R, I, J>(
    tasks: TaskView<R, I>,
    n: nat,
    spared: u64,
    pool: PoolView<J>,
) -> PoolView<J> {
    PoolView {
        abort_requested: Seq::new(
            pool.current.len(),
            |i: int|
                pool.abort_requested[i] || (pool.current[i] matches Some(info) && is_shut(
                    tasks,
                    n,
                    spared,
                    tasks.infos[info as int].node.0,
                )),
        ),
        ..pool
    }
}

/// The network once all nodes of `tasks` with a number below `n`, but for `spared`, have been
/// reset.
pub open spec fn all_reset<R, I, D>(
    tasks: TaskView<R, I>,
    net: NetworkView<D>,
    n: nat,
    spared: u64,
) -> NetworkView<D>
    decreases n,
{
    if n == 0 {
        net
    } else {
        let before = all_reset(tasks, net, (n - 1) as nat, spared);
        let id = (n - 1) as u64;
        if tasks.nodes.contains_key(id) && id != spared {
            before.reset(id)
        } else {
            before
        }
    }
}

/// `rand` is the generator of a runtime that was started with `seed`: `util` was the first number
/// that a generator with that seed gave, `offset`, a second of the year, the next one, and then it
/// was told the time `now`.
pub open spec fn was_started_with(
    seed: u64,
    util: u64,
    offset: u64,
    now: Duration,
    rand: GlobalRng,
) -> bool {
    exists|seeded: GlobalRng, drawn: GlobalRng, last: GlobalRng|
        {
            &&& seeded.is_seeded_with(seed)
            &&& #[trigger] seeded.gave_any(util, drawn)
            &&& #[trigger] drawn.gave_in_range(0, SECS_PER_YEAR, offset, last)
            &&& rand == last.at(now)
        }
}

impl<R, I, J, D> Handle<R, I, J, D> {
    /// All parts are in order, the generator knows the time, and the network has the nodes that there are, and one for the
    /// supervisor.
    pub open spec fn wf(&self) -> bool {
        &&& self.executor.wf()
        &&& self.rand.now() == self.executor.time.handle.clock.elapsed_time
        &&& self.net@.wf()
        &&& self.net@.routable()
        &&& self.executor.handle@.next_node_id > 0
        &&& !self.executor.handle@.nodes.contains_key(0)
        &&& forall|id: u64| #[trigger]
            self.net@.nodes.contains_key(id) <==> (id == 0
                || self.executor.handle@.nodes.contains_key(id))
        &&& self.context.current matches Some(info) ==> info < self.executor.handle.infos@.len()
    }

    /// A runtime with the given seed and config, without nodes but for that of the supervisor,
    /// and with a blocking pool of `num_threads` threads.
    pub fn with_seed_and_config(seed: u64, config: SimConfig, num_threads: u32) -> (r: (Self, u64))
        requires
            num_threads > 0,
        ensures
            r.0.wf(),
            r.0.executor.handle@ == (TaskView::<R, I> {
                queue: Seq::empty(),
                nodes: Map::empty(),
                next_node_id: 1,
                infos: Seq::empty(),
            }),
            r.0.executor.time.handle.timer.events@ == Seq::<Event<SimEvent<D>>>::empty(),
            r.0.executor.time.handle.timer.disabled_node_ids@ == Set::<u64>::empty(),
            r.0.executor.time.handle.clock.elapsed_time.nanos == CLOCK_BASE_SECS * NANOS_PER_SEC,
            r.0.executor.time_limit is None,
            r.0.net@ == (NetworkView::<D> {
                nodes: Map::empty().insert(0, NodeView::fresh()),
                addrs: Map::empty(),
                clogged_nodes: Set::empty(),
                clogged_links: Set::empty(),
                msg_count: 0,
                next_mailbox: 0,
            }),
            r.0.net.config == config.net,
            r.0.context.current is None,
            r.0.executor.handle.blocking@.current.len() == num_threads,
            !r.0.executor.handle.blocking.started,
            r.0.executor.time.handle.clock.started(),
            r.0.executor.time.handle.clock.base_instant.0.nanos == 0,
            EARLIEST_BASE_SECS * NANOS_PER_SEC
                <= r.0.executor.time.handle.clock.base_time.0.nanos < (EARLIEST_BASE_SECS
                + SECS_PER_YEAR) * NANOS_PER_SEC,
            r.0.executor.time.handle.clock.base_time.0.nanos % NANOS_PER_SEC == 0,
            r.0.rand.seed() == seed,
            was_started_with(
                seed,
                r.1,
                (r.0.executor.time.handle.clock.base_time.0.nanos / NANOS_PER_SEC
                    - EARLIEST_BASE_SECS) as u64,
                r.0.executor.time.handle.clock.elapsed_time,
                r.0.rand,
            ),
            r.0.rand.log() is None,
            r.0.rand.departure() is None,
    {
        let mut rand: GlobalRng = GlobalRng::new_with_seed(seed);
        let ghost seeded = rand;
        let util_seed: u64 = rand.gen_u64();
        let ghost drawn = rand;
        assert(seeded.is_seeded_with(seed) && seeded.gave_any(util_seed, drawn));
        let executor: Executor<R, I, J, SimEvent<D>> = Executor::new(&mut rand, num_threads);
        let ghost last = rand;
        rand.set_now(executor.time_handle().elapsed());
        proof {
            let offset = (executor.time.handle.clock.base_time.0.nanos / NANOS_PER_SEC
                - EARLIEST_BASE_SECS) as u64;
            assert(drawn.gave_in_range(0, SECS_PER_YEAR, offset, last));
        }
        let mut net: Network<D> = Network::new(config.net);
        // create node for supervisor
        net.insert_node(NodeId::zero());
        (Handle { rand, executor, net, context: Context { current: None } }, util_seed)
    }

    /// Whether no time has passed yet, which a determinism check asks for.
    pub fn is_at_start(&self) -> (r: bool)
        requires
            self.executor.time.handle.clock.started(),
        ensures
            r == (self.executor.time.handle.clock.elapsed_time.nanos == CLOCK_BASE_SECS
                * NANOS_PER_SEC),
    {
        self.executor.time_handle().time_since_clock_base().nanos == 0
    }

    /// Enables the determinism check: takes note of what is drawn and when, and compares it with
    /// what the run has drawn from which `log` was taken, if there is one. It must be set at init.
    pub fn enable_determinism_check(&mut self, log: Option<Log>)
        requires
            old(self).wf(),
            old(self).executor.time.handle.clock.elapsed_time.nanos == CLOCK_BASE_SECS
                * NANOS_PER_SEC,
        ensures
            final(self).wf(),
            final(self).rand.log() matches Some(own) && own.seen@ == Seq::<(u64, u128)>::empty()
                && own.expected == log,
            final(self).rand.departure() is None,
            old(self).rand.has_same_state(final(self).rand),
            final(self).executor == old(self).executor,
            final(self).net == old(self).net,
            final(self).context == old(self).context,
    {
        match log {
            Some(log) => self.rand.enable_check(log),
            None => self.rand.enable_log(),
        }
    }

    /// Takes the log of what was drawn, so that determinism can be checked in the next run. There
    /// is none unless the check was enabled.
    pub fn take_rand_log(&mut self) -> (r: Option<Log>)
        requires
            old(self).wf(),
        ensures
            final(self).wf(),
            r is Some <==> old(self).rand.log() is Some,
            r matches Some(log) ==> log.draws@ == old(self).rand.log()->0.seen@,
            final(self).rand.log() is None,
            final(self).rand.departure() == old(self).rand.departure(),
            old(self).rand.has_same_state(final(self).rand),
            final(self).executor == old(self).executor,
            final(self).net == old(self).net,
            final(self).context == old(self).context,
    {
        self.rand.take_log()
    }

    /// What killing node `id` does, but for which timers stay disabled.
    pub open spec fn killed(&self, id: u64, after: Self, remains: Remains<R, SimEvent<D>>) -> bool {
        &&& after.executor.handle@ == self.executor.handle@.killed(id)
        &&& after.executor.handle.blocking@ == aborting(
            self.executor.handle.blocking@,
            after.executor.handle@.infos,
            NodeId(id),
        )
        &&& after.net@ == self.net@.reset(id)
        &&& remains.paused@ == self.executor.handle@.nodes[id].paused
        &&& remains.watchers@ == self.executor.handle@.watching(id)
        &&& timers_cancelled(
            self.executor.time.handle,
            NodeId(id),
            after.executor.time.handle,
            remains.timers@,
        )
        &&& after.context == self.context
        &&& after.net.config == self.net.config
        &&& after.executor.time_limit == self.executor.time_limit
    }

    /// Kills a node. All tasks spawned on this node will be killed immediately, and its sockets
    /// are closed.
    pub fn kill(&mut self, id: NodeId) -> (r: Remains<R, SimEvent<D>>)
        requires
            old(self).wf(),
            old(self).executor.handle@.nodes.contains_key(id.0),
            old(self).executor.handle.infos@.len() < usize::MAX,
        ensures
            final(self).rand == old(self).rand,
            final(self).wf(),
            old(self).killed(id.0, *final(self), r),
            final(self).executor.time.handle.timer.disabled_node_ids@ == old(
                self,
            ).executor.time.handle.timer.disabled_node_ids@.insert(id.0),
    {
        let remains = self.executor.handle.kill(&mut self.executor.time.handle, id);
        self.net.reset_node(id);
        proof {
            lemma_infos_len(old(self).executor.handle);
            lemma_infos_len(self.executor.handle);
        }
        remains
    }

    /// Restarts a node. Returns the identity under which its initial task, if it has one, is to
    /// be spawned.
    pub fn restart(&mut self, id: NodeId) -> (r: (Remains<R, SimEvent<D>>, NodeHandle))
        requires
            old(self).wf(),
            old(self).executor.handle@.nodes.contains_key(id.0),
            old(self).executor.handle.infos@.len() < usize::MAX,
        ensures
            final(self).rand == old(self).rand,
            final(self).wf(),
            old(self).killed(id.0, *final(self), r.0),
            r.1.task.info == final(self).executor.handle@.nodes[id.0].info,
            final(self).executor.time.handle.timer.disabled_node_ids@ == old(
                self,
            ).executor.time.handle.timer.disabled_node_ids@.remove(id.0),
    {
        let (remains, task) = self.executor.handle.restart(&mut self.executor.time.handle, id);
        self.net.reset_node(id);
        (remains, NodeHandle { task })
    }

    /// Restarts a node whose time to stay down is over. It may have been deleted meanwhile; then
    /// nothing happens.
    pub fn restart_if_present(&mut self, id: NodeId) -> (r: Option<
        (Remains<R, SimEvent<D>>, NodeHandle),
    >)
        requires
            old(self).wf(),
            old(self).executor.handle.infos@.len() < usize::MAX,
        ensures
            final(self).rand == old(self).rand,
            final(self).wf(),
            r is Some <==> old(self).executor.handle@.nodes.contains_key(id.0),
            r is None ==> *final(self) == *old(self),
            r matches Some((remains, node)) ==> {
                &&& old(self).killed(id.0, *final(self), remains)
                &&& node.task.info == final(self).executor.handle@.nodes[id.0].info
                &&& final(self).executor.time.handle.timer.disabled_node_ids@ == old(
                    self,
                ).executor.time.handle.timer.disabled_node_ids@.remove(id.0)
            },
    {
        if self.executor.handle.get_node(id).is_none() {
            return None;
        }
        Some(self.restart(id))
    }

    /// Kills all tasks and deletes the node.
    pub fn delete_node(&mut self, id: NodeId) -> (r: Remains<R, SimEvent<D>>)
        requires
            old(self).wf(),
            old(self).executor.handle@.nodes.contains_key(id.0),
            old(self).executor.handle.infos@.len() < usize::MAX,
        ensures
            final(self).rand == old(self).rand,
            final(self).wf(),
            final(self).executor.handle@ == old(self).executor.handle@.deleted(id.0),
            final(self).net@ == old(self).net@.deleted(id.0),
            final(self).executor.handle.blocking@ == aborting(
                old(self).executor.handle.blocking@,
                final(self).executor.handle@.infos,
                id,
            ),
            final(self).executor.time_limit == old(self).executor.time_limit,
            r.paused@ == old(self).executor.handle@.nodes[id.0].paused,
            r.watchers@ == old(self).executor.handle@.watching(id.0),
            timers_cancelled(
                old(self).executor.time.handle,
                id,
                final(self).executor.time.handle,
                r.timers@,
            ),
            final(self).executor.time.handle.timer.disabled_node_ids@ == old(
                self,
            ).executor.time.handle.timer.disabled_node_ids@.insert(id.0),
            final(self).context == old(self).context,
            final(self).net.config == old(self).net.config,
    {
        let remains = self.executor.handle.delete_node(&mut self.executor.time.handle, id);
        self.net.delete_node(id);
        proof {
            lemma_infos_len(old(self).executor.handle);
            lemma_infos_len(self.executor.handle);
        }
        remains
    }

    /// Pauses the execution of a node.
    pub fn pause(&mut self, id: NodeId)
        requires
            old(self).wf(),
            old(self).executor.handle@.nodes.contains_key(id.0),
        ensures
            final(self).rand == old(self).rand,
            final(self).wf(),
            final(self).executor.handle@ == old(self).executor.handle@.with_paused(id.0, true),
            final(self).executor.handle.blocking@ == old(self).executor.handle.blocking@,
            final(self).executor.time == old(self).executor.time,
            final(self).executor.time_limit == old(self).executor.time_limit,
            final(self).net == old(self).net,
            final(self).context == old(self).context,
    {
        self.executor.handle.pause(id);
        proof {
            lemma_infos_len(old(self).executor.handle);
            lemma_infos_len(self.executor.handle);
        }
    }

    /// Resumes the execution of a node.
    pub fn resume(&mut self, id: NodeId)
        requires
            old(self).wf(),
            old(self).executor.handle@.nodes.contains_key(id.0),
        ensures
            final(self).rand == old(self).rand,
            final(self).wf(),
            final(self).executor.handle@ == old(self).executor.handle@.resumed(id.0),
            final(self).executor.handle.blocking@ == old(self).executor.handle.blocking@,
            final(self).executor.time == old(self).executor.time,
            final(self).executor.time_limit == old(self).executor.time_limit,
            final(self).net == old(self).net,
            final(self).context == old(self).context,
    {
        self.executor.handle.resume(id);
        proof {
            lemma_infos_len(old(self).executor.handle);
            lemma_infos_len(self.executor.handle);
        }
    }

    /// Builds a node: it gets tasks and a network, and the address that was asked for. Returns
    /// its number, and the identity under which its tasks, the initial one first, are spawned.
    pub fn build(&mut self, builder: NodeBuilder<I>) -> (r: (NodeId, NodeHandle))
        requires
            old(self).wf(),
            old(self).executor.handle.next_node_id < u64::MAX,
            old(self).executor.handle.infos@.len() < usize::MAX,
            builder.ip matches Some(ip) ==> !old(self).net@.addrs.contains_key(ip),
        ensures
            final(self).rand == old(self).rand,
            final(self).wf(),
            r.0 == NodeId(old(self).executor.handle@.next_node_id),
            r.1.task.info == old(self).executor.handle.infos@.len(),
            final(self).executor.handle@ == old(self).executor.handle@.created(
                match builder.name {
                    Some(name) => Some(name@),
                    None => None,
                },
                builder.init,
            ),
            final(self).net@ == old(self).net@.with_new_node(r.0.0, builder.ip),
            final(self).net.config == old(self).net.config,
            final(self).executor.handle.blocking@ == old(self).executor.handle.blocking@,
            final(self).executor.time == old(self).executor.time,
            final(self).executor.time_limit == old(self).executor.time_limit,
            final(self).context == old(self).context,
    {
        proof {
            crate::task::law_node_numbers_are_unique(self.executor.handle@);
        }
        let (id, task) = self.executor.handle.create_node(builder.name, builder.init);
        self.net.insert_node(id);
        match builder.ip {
            Some(ip) => {
                self.net.set_ip(id, ip);
            },
            None => {},
        }
        proof {
            let node = NodeView::<D> { ip: builder.ip, ..NodeView::fresh() };
            assert(self.net@.nodes =~= old(self).net@.nodes.insert(id.0, node));
            assert(self.executor.handle.infos@.len() == self.executor.handle@.infos.len());
            assert(old(self).executor.handle.infos@.len()
                == old(self).executor.handle@.infos.len());
        }
        (id, NodeHandle { task })
    }

    /// Returns a handle of the specified node.
    pub fn get_node(&self, id: NodeId) -> (r: Option<NodeHandle>)
        ensures
            r == (if self.executor.handle@.nodes.contains_key(id.0) {
                Some(NodeHandle {
                    task: TaskNodeHandle { info: self.executor.handle@.nodes[id.0].info },
                })
            } else {
                None
            }),
    {
        match self.executor.handle.get_node(id) {
            Some(task) => Some(NodeHandle { task }),
            None => None,
        }
    }

    /// Gets the time source.
    pub fn time(&self) -> (r: &TimeHandle<SimEvent<D>>)
        ensures
            *r == self.executor.time.handle,
    {
        self.executor.time_handle()
    }

    /// A task is running whose node has not been killed.
    pub open spec fn runs_something(&self) -> bool {
        self.context.current matches Some(info)
            && !self.executor.handle.infos@[info as int].killed
    }

    /// The node on which the current task runs.
    pub open spec fn current_node(&self) -> Option<NodeId> {
        match self.context.current {
            Some(info) => Some(self.executor.handle.infos@[info as int].node),
            None => None,
        }
    }

    /// The number of the node on which the current task runs.
    pub open spec fn current_id(&self) -> u64 {
        let node = self.current_node()->0;
        node.0
    }
}

impl NodeHandle {
    /// Gets a handle to the current node.
    pub fn current<R, I, J, D>(handle: &Handle<R, I, J, D>) -> (r: NodeHandle)
        requires
            handle.context.current is Some,
        ensures
            Some(r.task.info) == handle.context.current,
    {
        NodeHandle::try_current(handle).unwrap()
    }

    /// Gets a handle to the current node if there is one.
    pub fn try_current<R, I, J, D>(handle: &Handle<R, I, J, D>) -> (r: Option<NodeHandle>)
        ensures
            r == (match handle.context.current {
                Some(info) => Some(NodeHandle { task: TaskNodeHandle { info } }),
                None => None,
            }),
    {
        match handle.context.current {
            Some(info) => Some(NodeHandle { task: TaskNodeHandle { info } }),
            None => None,
        }
    }

    /// Returns the node ID.
    pub fn id<R, I, J, D>(&self, handle: &Handle<R, I, J, D>) -> (r: NodeId)
        requires
            self.task.info < handle.executor.handle.infos@.len(),
        ensures
            r == handle.executor.handle.infos@[self.task.info as int].node,
    {
        handle.executor.handle.infos[self.task.info].node()
    }

    /// Joins the node. Nothing is waited for.
    pub fn join(self) -> (r: Result<(), ()>)
        ensures
            r == Ok::<(), ()>(()),
    {
        Ok(())
    }

    /// Gets the address of the node.
    pub fn ip<R, I, J, D>(&self, handle: &Handle<R, I, J, D>) -> (r: Option<IpAddr>)
        requires
            self.task.info < handle.executor.handle.infos@.len(),
            handle.net@.nodes.contains_key(
                handle.executor.handle.infos@[self.task.info as int].node.0,
            ),
        ensures
            r == handle.net@.nodes[handle.executor.handle.infos@[self.task.info as int].node.0].ip,
    {
        handle.net.get_ip(self.id(handle))
    }

    /// Enters the node: until the guard is released, whatever is done is done on the node.
    pub fn enter_node(&self, context: &mut Context) -> (r: NodeEnterGuard)
        ensures
            r.0 == old(context).current,
            final(context).current == Some(self.task.info),
    {
        context.enter_task(self.task.info)
    }
}

/// Checks if the current task is killed (or non-existent).
pub fn is_current_task_killed<R, I, J, D>(handle: &Handle<R, I, J, D>) -> (r: bool)
    requires
        handle.wf(),
    ensures
        r == !handle.runs_something(),
{
    match handle.context.current {
        Some(info) => handle.executor.handle.infos[info].is_killed(),
        None => true,
    }
}

/// As many identities are known as there are.
proof fn lemma_infos_len<R, I, J>(tasks: TaskHandle<R, I, J>)
    ensures
        tasks.infos@.len() == tasks@.infos.len(),
{
}

/// What killing one more node, `id`, does while all nodes are shut down: `at` is the runtime
/// before, `after` the one after it.
proof fn lemma_one_more_shut<R, I, J, D>(
    start: Handle<R, I, J, D>,
    at: Handle<R, I, J, D>,
    after: Handle<R, I, J, D>,
    remains: Remains<R, SimEvent<D>>,
    spared: u64,
    id: u64,
)
    requires
        start.wf(),
        at.wf(),
        start.executor.handle@.nodes.contains_key(id),
        id < u64::MAX,
        id != spared,
        at.executor.handle@.nodes.contains_key(id),
        at.executor.handle@.nodes[id] == start.executor.handle@.nodes[id],
        at.executor.handle@.infos[start.executor.handle@.nodes[id].info as int]
            == start.executor.handle@.infos[start.executor.handle@.nodes[id].info as int],
        start.executor.handle@.infos.len() <= at.executor.handle@.infos.len(),
        forall|j: int|
            0 <= j < start.executor.handle@.infos.len() ==> (
            #[trigger] at.executor.handle@.infos[j]).node == start.executor.handle@.infos[j].node,
        at.executor.handle.blocking@ == all_aborting(
            start.executor.handle@,
            id as nat,
            spared,
            start.executor.handle.blocking@,
        ),
        all_silenced(
            start.executor.handle@,
            id as nat,
            spared,
            start.executor.time.handle,
            at.executor.time.handle,
        ),
        at.killed(id, after, remains),
        after.executor.time.handle.timer.disabled_node_ids@
            == at.executor.time.handle.timer.disabled_node_ids@.insert(id),
    ensures
        forall|j: int|
            0 <= j < start.executor.handle@.infos.len() ==> (
            #[trigger] after.executor.handle@.infos[j]).node
                == start.executor.handle@.infos[j].node,
        after.executor.handle.blocking@ == all_aborting(
            start.executor.handle@,
            (id + 1) as nat,
            spared,
            start.executor.handle.blocking@,
        ),
        all_silenced(
            start.executor.handle@,
            (id + 1) as nat,
            spared,
            start.executor.time.handle,
            after.executor.time.handle,
        ),
        remains.paused@ == start.executor.handle@.nodes[id].paused,
        remains.watchers@ == start.executor.handle@.watching(id),
        remains.timers@ == live_of(start.executor.time.handle.timer.events@, NodeId(id)),
{
    let tasks = start.executor.handle@;
    let pool = start.executor.handle.blocking@;
    let wanted = all_aborting(tasks, (id + 1) as nat, spared, pool);
    assert forall|i: int| 0 <= i < pool.current.len() implies
        after.executor.handle.blocking@.abort_requested[i] == wanted.abort_requested[i] by {
        match pool.current[i] {
            Some(info) => {
                assert(start.executor.handle.infos@.len() == tasks.infos.len());
                assert(info < tasks.infos.len());
                assert(at.executor.handle@.infos[info as int].node
                    == tasks.infos[info as int].node);
            },
            None => {},
        }
    }
    assert(after.executor.handle.blocking@.abort_requested =~= wanted.abort_requested);
    let (first, now, next) = (
        start.executor.time.handle,
        at.executor.time.handle,
        after.executor.time.handle,
    );
    assert forall|k: u64| #[trigger]
        next.timer.disabled_node_ids@.contains(k) <==> first.timer.disabled_node_ids@.contains(k)
            || is_shut(tasks, (id + 1) as nat, spared, k) by {
        assert(now.timer.disabled_node_ids@.contains(k)
            <==> first.timer.disabled_node_ids@.contains(k) || is_shut(
            tasks,
            id as nat,
            spared,
            k,
        ));
    }
    let spared_now = |event: Event<SimEvent<D>>|
        !is_shut(tasks, id as nat, spared, event.node_id.0);
    let spared_next = |event: Event<SimEvent<D>>|
        !is_shut(tasks, (id + 1) as nat, spared, event.node_id.0);
    lemma_kept_twice(
        first.timer.events@,
        spared_now,
        |event: Event<SimEvent<D>>| event.node_id != NodeId(id),
        spared_next,
    );
    lemma_live_of_kept(first.timer.events@, spared_now, NodeId(id));
}

/// Shuts down all nodes in the simulator but the current one. Returns what they leave behind, in
/// the order of their numbers.
pub fn shutdown_all_nodes<R, I, J, D>(handle: &mut Handle<R, I, J, D>) -> (r: Vec<
    Remains<R, SimEvent<D>>,
>)
    requires
        old(handle).wf(),
        old(handle).current_node() is Some,
        old(handle).executor.handle.infos@.len() + old(handle).executor.handle.next_node_id
            < usize::MAX,
    ensures
        final(handle).rand == old(handle).rand,
        final(handle).wf(),
        final(handle).executor.handle@ == all_killed(
            old(handle).executor.handle@,
            old(handle).executor.handle@.next_node_id as nat,
            old(handle).current_id(),
        ),
        final(handle).net@ == all_reset(
            old(handle).executor.handle@,
            old(handle).net@,
            old(handle).executor.handle@.next_node_id as nat,
            old(handle).current_id(),
        ),
        final(handle).executor.handle.blocking@ == all_aborting(
            old(handle).executor.handle@,
            old(handle).executor.handle@.next_node_id as nat,
            old(handle).current_id(),
            old(handle).executor.handle.blocking@,
        ),
        all_silenced(
            old(handle).executor.handle@,
            old(handle).executor.handle@.next_node_id as nat,
            old(handle).current_id(),
            old(handle).executor.time.handle,
            final(handle).executor.time.handle,
        ),
        ({
            let tasks = old(handle).executor.handle@;
            let shut = shut_nodes(tasks, tasks.next_node_id as nat, old(handle).current_id());
            &&& r@.len() == shut.len()
            &&& forall|i: int|
                0 <= i < shut.len() ==> (#[trigger] r@[i]).paused@ == tasks.nodes[shut[i].0].paused
                    && r@[i].watchers@ == tasks.watching(shut[i].0) && r@[i].timers@ == live_of(
                    old(handle).executor.time.handle.timer.events@,
                    shut[i],
                )
        }),
        final(handle).context == old(handle).context,
        final(handle).net.config == old(handle).net.config,
        final(handle).executor.time_limit == old(handle).executor.time_limit,
{
    let current: u64 = handle.executor.handle.infos[handle.context.current.unwrap()].node().0;
    let count: u64 = handle.executor.handle.next_node_id;
    let ghost tasks = handle.executor.handle@;
    let mut all: Vec<Remains<R, SimEvent<D>>> = Vec::new();
    let mut id: u64 = 0;
    proof {
        lemma_kept_all(
            handle.executor.time.handle.timer.events@,
            |event: Event<SimEvent<D>>| !is_shut(tasks, 0, current, event.node_id.0),
        );
    }
    while id < count
        invariant
            id <= count,
            count == tasks.next_node_id,
            tasks == old(handle).executor.handle@,
            handle.wf(),
            handle.executor.handle@ == all_killed(tasks, id as nat, current),
            handle.net@ == all_reset(tasks, old(handle).net@, id as nat, current),
            handle.executor.handle@.nodes.dom() == tasks.nodes.dom(),
            handle.executor.handle.infos@.len() <= old(handle).executor.handle.infos@.len() + id,
            old(handle).executor.handle.infos@.len() + count < usize::MAX,
            handle.rand == old(handle).rand,
            handle.context == old(handle).context,
            handle.net.config == old(handle).net.config,
            handle.executor.time_limit == old(handle).executor.time_limit,
            old(handle).wf(),
            forall|k: u64|
                #![trigger tasks.nodes[k]]
                tasks.nodes.contains_key(k) && k >= id ==> handle.executor.handle@.nodes[k]
                    == tasks.nodes[k] && handle.executor.handle@.infos[tasks.nodes[k].info as int]
                    == tasks.infos[tasks.nodes[k].info as int],
            tasks.infos.len() <= handle.executor.handle@.infos.len(),
            forall|j: int|
                0 <= j < tasks.infos.len() ==> (
                #[trigger] handle.executor.handle@.infos[j]).node == tasks.infos[j].node,
            handle.executor.handle.blocking@ == all_aborting(
                tasks,
                id as nat,
                current,
                old(handle).executor.handle.blocking@,
            ),
            all_silenced(
                tasks,
                id as nat,
                current,
                old(handle).executor.time.handle,
                handle.executor.time.handle,
            ),
            all@.len() == shut_nodes(tasks, id as nat, current).len(),
            forall|i: int|
                0 <= i < all@.len() ==> (#[trigger] all@[i]).paused@ == tasks.nodes[shut_nodes(
                    tasks,
                    id as nat,
                    current,
                )[i].0].paused && all@[i].watchers@ == tasks.watching(
                    shut_nodes(tasks, id as nat, current)[i].0,
                ) && all@[i].timers@ == live_of(
                    old(handle).executor.time.handle.timer.events@,
                    shut_nodes(tasks, id as nat, current)[i],
                ),
        decreases count - id,
    {
        let ghost at = *handle;
        assert(handle.executor.handle@.nodes.dom().contains(id) == tasks.nodes.dom().contains(id));
        if id != current && handle.executor.handle.get_node(NodeId(id)).is_some() {
            let ghost before = handle.executor.handle@;
            all.push(handle.kill(NodeId(id)));
            proof {
                assert(handle.executor.handle@.infos.len() == before.infos.len() + 1);
                assert(handle.executor.handle.infos@.len() == handle.executor.handle@.infos.len());
                assert(handle.executor.handle@.nodes.dom() =~= tasks.nodes.dom());
                lemma_one_more_shut(*old(handle), at, *handle, all@.last(), current, id);
            }
        } else {
            proof {
                assert(!is_shut(tasks, (id + 1) as nat, current, id));
                assert(handle.executor.handle.blocking@.abort_requested =~= all_aborting(
                    tasks,
                    (id + 1) as nat,
                    current,
                    old(handle).executor.handle.blocking@,
                ).abort_requested);
                assert((|event: Event<SimEvent<D>>|
                    !is_shut(tasks, id as nat, current, event.node_id.0)) =~= (
                |event: Event<SimEvent<D>>|
                    !is_shut(tasks, (id + 1) as nat, current, event.node_id.0)));
            }
        }
        id = id + 1;
    }
    all
}

/// Kills the current node, and asks for it to be restarted after `restart_after`, or after a time
/// that is drawn. Returns the request, with which the current task is to be unwound.
pub fn kill_current_node<R, I, J, D>(
    handle: &mut Handle<R, I, J, D>,
    restart_after: Option<Duration>,
) -> (r: (PanicWrapper, Remains<R, SimEvent<D>>))
    requires
        old(handle).wf(),
        old(handle).current_node() matches Some(node) && old(
            handle,
        ).executor.handle@.nodes.contains_key(node.0),
        old(handle).executor.handle.infos@.len() < usize::MAX,
    ensures
        final(handle).wf(),
        r.0.restart_after matches Some(after) && (match restart_after {
            Some(asked) => after == asked,
            None => after.nanos % NANOS_PER_MILLI == 0 && MIN_RESTART_MILLIS * NANOS_PER_MILLI
                <= after.nanos < MAX_RESTART_MILLIS * NANOS_PER_MILLI && old(
                handle,
            ).rand.gave_in_range(
                MIN_RESTART_MILLIS,
                MAX_RESTART_MILLIS,
                (after.nanos / NANOS_PER_MILLI as u128) as u64,
                final(handle).rand,
            ),
        }),
        final(handle).rand.seed() == old(handle).rand.seed(),
        old(handle).killed(old(handle).current_id(), *final(handle), r.1),
        final(handle).executor.time.handle.timer.disabled_node_ids@ == old(
            handle,
        ).executor.time.handle.timer.disabled_node_ids@.insert(old(handle).current_id()),
{
    let after: Duration = match restart_after {
        Some(after) => after,
        None => Duration::from_millis(
            handle.rand.gen_range(MIN_RESTART_MILLIS, MAX_RESTART_MILLIS),
        ),
    };
    kill_current_node_impl(handle, Some(after))
}

/// Kills the current node, and does not restart it automatically. Returns the request, with which
/// the current task is to be unwound.
pub fn shutdown_current_node<R, I, J, D>(handle: &mut Handle<R, I, J, D>) -> (r: (
    PanicWrapper,
    Remains<R, SimEvent<D>>,
))
    requires
        old(handle).wf(),
        old(handle).current_node() matches Some(node) && old(
            handle,
        ).executor.handle@.nodes.contains_key(node.0),
        old(handle).executor.handle.infos@.len() < usize::MAX,
    ensures
        final(handle).rand == old(handle).rand,
        final(handle).wf(),
        r.0.restart_after is None,
        old(handle).killed(old(handle).current_id(), *final(handle), r.1),
        final(handle).executor.time.handle.timer.disabled_node_ids@ == old(
            handle,
        ).executor.time.handle.timer.disabled_node_ids@.insert(old(handle).current_id()),
{
    kill_current_node_impl(handle, None)
}

fn kill_current_node_impl<R, I, J, D>(
    handle: &mut Handle<R, I, J, D>,
    restart_after: Option<Duration>,
) -> (r: (PanicWrapper, Remains<R, SimEvent<D>>))
    requires
        old(handle).wf(),
        old(handle).current_node() matches Some(node) && old(
            handle,
        ).executor.handle@.nodes.contains_key(node.0),
        old(handle).executor.handle.infos@.len() < usize::MAX,
    ensures
        final(handle).rand == old(handle).rand,
        final(handle).wf(),
        r.0 == (PanicWrapper { restart_after }),
        old(handle).killed(old(handle).current_id(), *final(handle), r.1),
        final(handle).executor.time.handle.timer.disabled_node_ids@ == old(
            handle,
        ).executor.time.handle.timer.disabled_node_ids@.insert(old(handle).current_id()),
{
    let current: NodeId = handle.executor.handle.infos[handle.context.current.unwrap()].node();
    let remains = handle.kill(current);
    (PanicWrapper { restart_after }, remains)
}

} // verus!
