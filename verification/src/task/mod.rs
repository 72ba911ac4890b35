//! Tasks and the nodes they run on.
//!
//! A task is ready when its runnable stands in the queue, together with the identity that it runs
//! under. Killing a node gives the node a new identity and marks the old one as killed, so that
//! whatever was spawned under it is dropped instead of run.

pub mod blocking;
pub mod executor;
pub mod join;
pub mod laws;

use crate::random::GlobalRng;
use crate::task::blocking::{runs_on, BlockingPool, PoolView};
use crate::time::timer::{live_of, without};
use crate::time::TimeHandle;
use crate::utils::{lemma_swap_removed, swap_removed};
use std::collections::HashMap;
use std::task::Waker;
use vstd::prelude::*;
use vstd::string::StringExecFns;

verus! {

broadcast use vstd::std_specs::hash::group_hash_axioms;

/// Unique identifier of a node.
#[derive(Debug, PartialEq, Eq, Structural, PartialOrd, Ord, Hash, Clone, Copy)]
pub struct NodeId(pub u64);

impl NodeId {
    /// The node of the supervisor.
    pub fn zero() -> (r: NodeId)
        ensures
            r == NodeId(0),
    {
        NodeId(0)
    }
}

/// The number `n` in decimal notation.
pub open spec fn decimal(n: nat) -> Seq<char>
    decreases n,
{
    if n < 10 {
        seq![(48 + n) as char]
    } else {
        decimal(n / 10).push((48 + n % 10) as char)
    }
}

/// A single digit.
fn digit(n: u64) -> (r: &'static str)
    requires
        n < 10,
    ensures
        r@ == seq![(48 + n) as char],
{
    proof {
        reveal_strlit("0");
        reveal_strlit("1");
        reveal_strlit("2");
        reveal_strlit("3");
        reveal_strlit("4");
        reveal_strlit("5");
        reveal_strlit("6");
        reveal_strlit("7");
        reveal_strlit("8");
        reveal_strlit("9");
    }
    match n {
        0 => "0",
        1 => "1",
        2 => "2",
        3 => "3",
        4 => "4",
        5 => "5",
        6 => "6",
        7 => "7",
        8 => "8",
        _ => "9",
    }
}

/// Returns the number `n` in decimal notation.
fn decimal_string(n: u64) -> (r: String)
    ensures
        r@ == decimal(n as nat),
    decreases n,
{
    if n < 10 {
        return digit(n).to_owned();
    }
    let mut text: String = decimal_string(n / 10);
    text.append(digit(n % 10));
    assert(text@ =~= decimal(n as nat));
    text
}

/// The name that a node has if it was given none.
pub open spec fn default_name(id: u64) -> Seq<char> {
    "node-"@ + decimal(id as nat)
}

/// An identity under which tasks run on a node, until the node is killed.
pub struct TaskInfo {
    /// The node.
    pub node: NodeId,
    /// The name of the node.
    pub name: String,
    /// A flag indicating that the tasks should be paused.
    pub paused: bool,
    /// A flag indicating that the tasks should no longer be executed.
    pub killed: bool,
    /// Tasks that are to be woken when `killed` is set, so that they can be dropped.
    pub watchers: Vec<Waker>,
}

impl TaskInfo {
    /// A fresh identity.
    pub fn new(node: NodeId, name: String) -> (r: TaskInfo)
        ensures
            r.node == node,
            r.name@ == name@,
            !r.paused,
            !r.killed,
            r.watchers@ == Seq::<Waker>::empty(),
    {
        TaskInfo { node, name, paused: false, killed: false, watchers: Vec::new() }
    }

    /// Returns the node.
    pub fn node(&self) -> (r: NodeId)
        ensures
            r == self.node,
    {
        self.node
    }

    /// Returns the name of the node.
    pub fn name(&self) -> (r: String)
        ensures
            r@ == self.name@,
    {
        self.name.clone()
    }

    /// Whether the tasks should no longer be executed.
    pub fn is_killed(&self) -> (r: bool)
        ensures
            r == self.killed,
    {
        self.killed
    }
}

/// What is known of an identity.
pub struct InfoView {
    /// The node.
    pub node: NodeId,
    /// The name of the node.
    pub name: Seq<char>,
    /// The tasks should be paused.
    pub paused: bool,
    /// The tasks should no longer be executed.
    pub killed: bool,
    /// Tasks that are woken when `killed` is set.
    pub watchers: Seq<Waker>,
}

impl View for TaskInfo {
    type V = InfoView;

    open spec fn view(&self) -> InfoView {
        InfoView {
            node: self.node,
            name: self.name@,
            paused: self.paused,
            killed: self.killed,
            watchers: self.watchers@,
        }
    }
}

impl InfoView {
    /// A fresh identity.
    pub open spec fn fresh(node: NodeId, name: Seq<char>) -> InfoView {
        InfoView { node, name, paused: false, killed: false, watchers: Seq::empty() }
    }
}

/// What is known of each identity.
pub open spec fn infos_view(infos: Seq<TaskInfo>) -> Seq<InfoView> {
    infos.map_values(|info: TaskInfo| info@)
}

/// A node, as far as its tasks go.
pub struct TaskNode<R, I> {
    /// The identity under which tasks run now.
    pub info: usize,
    /// Tasks that were ready while the node was paused.
    pub paused: Vec<R>,
    /// What spawns the initial task.
    pub init: Option<I>,
}

/// What a node holds, as far as its tasks go.
#[verifier::ext_equal]
pub struct TaskNodeView<R, I> {
    /// The identity under which tasks run now.
    pub info: usize,
    /// Tasks that were ready while the node was paused.
    pub paused: Seq<R>,
    /// What spawns the initial task.
    pub init: Option<I>,
}

impl<R, I> View for TaskNode<R, I> {
    type V = TaskNodeView<R, I>;

    open spec fn view(&self) -> TaskNodeView<R, I> {
        TaskNodeView { info: self.info, paused: self.paused@, init: self.init }
    }
}

/// The views of all nodes.
pub open spec fn task_nodes_view<R, I>(nodes: Map<u64, TaskNode<R, I>>) -> Map<
    u64,
    TaskNodeView<R, I>,
> {
    Map::new(|id: u64| nodes.contains_key(id), |id: u64| nodes[id]@)
}

/// Permission to spawn tasks on a node, under the identity that it has had since it was handed
/// out.
#[derive(Debug, Clone, Copy, PartialEq, Eq, Structural)]
pub struct TaskNodeHandle {
    /// The identity.
    pub info: usize,
}

/// The tasks of a simulation: `R` is what runs a task, `I` what spawns the initial task of a node
/// and `J` what runs on the blocking pool.
pub struct TaskHandle<R, I, J> {
    /// The ready tasks, each with its identity.
    pub queue: Vec<(R, usize)>,
    /// The nodes, by number.
    pub nodes: HashMap<u64, TaskNode<R, I>>,
    /// The number of the next node.
    pub next_node_id: u64,
    /// All identities that were ever handed out.
    pub infos: Vec<TaskInfo>,
    /// The blocking tasks.
    pub blocking: BlockingPool<J>,
}

/// What the tasks of a simulation hold.
#[verifier::ext_equal]
pub struct TaskView<R, I> {
    /// The ready tasks, each with its identity.
    pub queue: Seq<(R, usize)>,
    /// The nodes, by number.
    pub nodes: Map<u64, TaskNodeView<R, I>>,
    /// The number of the next node.
    pub next_node_id: u64,
    /// All identities that were ever handed out.
    pub infos: Seq<InfoView>,
}

impl<R, I, J> View for TaskHandle<R, I, J> {
    type V = TaskView<R, I>;

    open spec fn view(&self) -> TaskView<R, I> {
        TaskView {
            queue: self.queue@,
            nodes: task_nodes_view(self.nodes@),
            next_node_id: self.next_node_id,
            infos: infos_view(self.infos@),
        }
    }
}

impl<R, I> TaskView<R, I> {
    /// Every identity in use is known. That of a node is live and its own, and a node that is
    /// paused is so under the identity that it has.
    pub open spec fn wf(self) -> bool {
        &&& forall|i: int|
            0 <= i < self.queue.len() ==> (#[trigger] self.queue[i]).1 < self.infos.len()
        &&& forall|id: u64|
            #![trigger self.nodes[id]]
            self.nodes.contains_key(id) ==> {
                &&& id < self.next_node_id
                &&& self.nodes[id].info < self.infos.len()
                &&& self.infos[self.nodes[id].info as int].node == NodeId(id)
                &&& !self.infos[self.nodes[id].info as int].killed
            }
        &&& forall|i: int|
            0 <= i < self.infos.len() && (#[trigger] self.infos[i]).paused && !self.infos[i].killed
                ==> self.nodes.contains_key(self.infos[i].node.0)
                && self.nodes[self.infos[i].node.0].info == i
    }

    /// What the tasks hold once node `id` has been killed: its old identity is marked, it has a
    /// new one, and what was paused is gone.
    pub open spec fn killed(self, id: u64) -> TaskView<R, I> {
        let node = self.nodes[id];
        let info = self.infos[node.info as int];
        TaskView {
            nodes: self.nodes.insert(
                id,
                TaskNodeView {
                    info: self.infos.len() as usize,
                    paused: Seq::empty(),
                    init: node.init,
                },
            ),
            infos: self.infos.update(
                node.info as int,
                InfoView { killed: true, watchers: Seq::empty(), ..info },
            ).push(InfoView::fresh(NodeId(id), info.name)),
            ..self
        }
    }

    /// Whoever watches whether node `id` is killed.
    pub open spec fn watching(self, id: u64) -> Seq<Waker> {
        self.infos[self.nodes[id].info as int].watchers
    }

    /// The flag `paused` of the identity of node `id` set to `paused`.
    pub open spec fn with_paused(self, id: u64, paused: bool) -> TaskView<R, I> {
        let i = self.nodes[id].info as int;
        TaskView {
            infos: self.infos.update(i, InfoView { paused, ..self.infos[i] }),
            ..self
        }
    }

    /// What is to be done with the task at position `i` of the queue, and what the tasks hold once
    /// it has been taken: a task of a killed identity is dropped; one of a paused identity waits
    /// at its node; any other is run.
    pub open spec fn taken(self, i: int) -> (Ready<R>, TaskView<R, I>) {
        let (runnable, info) = self.queue[i];
        let known = self.infos[info as int];
        let rest = TaskView { queue: swap_removed(self.queue, i), ..self };
        if known.killed {
            (Ready::Drop(runnable, info), rest)
        } else if known.paused {
            let node = self.nodes[known.node.0];
            (
                Ready::Parked,
                TaskView {
                    nodes: self.nodes.insert(
                        known.node.0,
                        TaskNodeView { paused: node.paused.push(runnable), ..node },
                    ),
                    ..rest
                },
            )
        } else {
            (Ready::Run(runnable, info), rest)
        }
    }

    /// What the tasks hold once node `id` has been resumed.
    pub open spec fn resumed(self, id: u64) -> TaskView<R, I> {
        let node = self.nodes[id];
        TaskView {
            queue: self.queue + node.paused.map_values(|runnable: R| (runnable, node.info)),
            nodes: self.nodes.insert(id, TaskNodeView { paused: Seq::empty(), ..node }),
            ..self.with_paused(id, false)
        }
    }

    /// What the tasks hold once node `id` has been killed and removed.
    pub open spec fn deleted(self, id: u64) -> TaskView<R, I> {
        TaskView { nodes: self.nodes.remove(id), ..self.killed(id) }
    }

    /// What the tasks hold once `waker` watches the identity `info`, after all others.
    pub open spec fn watched(self, info: usize, waker: Waker) -> TaskView<R, I> {
        let known = self.infos[info as int];
        TaskView {
            infos: self.infos.update(
                info as int,
                InfoView { watchers: known.watchers.push(waker), ..known },
            ),
            ..self
        }
    }

    /// What the tasks hold once a node has been created.
    pub open spec fn created(self, name: Option<Seq<char>>, init: Option<I>) -> TaskView<R, I> {
        let id = self.next_node_id;
        let chosen = match name {
            Some(name) => name,
            None => default_name(id),
        };
        TaskView {
            nodes: self.nodes.insert(
                id,
                TaskNodeView { info: self.infos.len() as usize, paused: Seq::empty(), init },
            ),
            next_node_id: (id + 1) as u64,
            infos: self.infos.push(InfoView::fresh(NodeId(id), chosen)),
            ..self
        }
    }
}

/// The pool once it has been asked to abort the tasks of `node`.
pub open spec fn aborting<J>(pool: PoolView<J>, infos: Seq<InfoView>, node: NodeId) -> PoolView<J> {
    PoolView {
        abort_requested: Seq::new(
            pool.current.len(),
            |i: int| pool.abort_requested[i] || runs_on(pool.current[i], infos, node),
        ),
        ..pool
    }
}

/// `after` is the time source once all that was scheduled for node `id`, `removed`, has been
/// removed, whichever nodes are disabled then.
pub open spec fn timers_cancelled<E>(
    before: TimeHandle<E>,
    id: NodeId,
    after: TimeHandle<E>,
    removed: Seq<E>,
) -> bool {
    &&& after.wf()
    &&& after.clock == before.clock
    &&& after.timer.events@ == without(before.timer.events@, id)
    &&& removed == live_of(before.timer.events@, id)
}

/// The tasks that were ready while their node was paused, of all nodes with a number below `n`.
pub open spec fn all_paused<R, I>(nodes: Map<u64, TaskNodeView<R, I>>, n: nat) -> Seq<R>
    decreases n,
{
    if n == 0 {
        Seq::empty()
    } else {
        let before = all_paused(nodes, (n - 1) as nat);
        if nodes.contains_key((n - 1) as u64) {
            before + nodes[(n - 1) as u64].paused
        } else {
            before
        }
    }
}

/// Changing neither flags nor nodes of identities does no harm.
proof fn lemma_wf_same_flags<R, I>(before: TaskView<R, I>, after: TaskView<R, I>)
    requires
        before.wf(),
        after.queue == before.queue,
        after.nodes == before.nodes,
        after.next_node_id == before.next_node_id,
        after.infos.len() == before.infos.len(),
        forall|i: int|
            0 <= i < before.infos.len() ==> (#[trigger] after.infos[i]).node == before.infos[i].node
                && after.infos[i].paused == before.infos[i].paused && after.infos[i].killed
                == before.infos[i].killed,
    ensures
        after.wf(),
{
    assert forall|i: int|
        0 <= i < after.infos.len() && (#[trigger] after.infos[i]).paused
            && !after.infos[i].killed implies after.nodes.contains_key(after.infos[i].node.0)
        && after.nodes[after.infos[i].node.0].info == i by {
        assert(before.infos[i].paused && !before.infos[i].killed);
    }
}

/// Further identities that are not paused do no harm.
proof fn lemma_wf_more_infos<R, I>(before: TaskView<R, I>, after: TaskView<R, I>)
    requires
        before.wf(),
        after.queue == before.queue,
        after.nodes == before.nodes,
        after.next_node_id == before.next_node_id,
        after.infos.len() >= before.infos.len(),
        forall|i: int|
            0 <= i < before.infos.len() ==> #[trigger] after.infos[i] == before.infos[i],
        forall|i: int|
            before.infos.len() <= i < after.infos.len() ==> !(#[trigger] after.infos[i]).paused,
    ensures
        after.wf(),
{
    assert forall|i: int| 0 <= i < after.queue.len() implies (#[trigger] after.queue[i]).1
        < after.infos.len() by {
        assert(before.queue[i].1 < before.infos.len());
    }
    assert forall|i: int|
        0 <= i < after.infos.len() && (#[trigger] after.infos[i]).paused
            && !after.infos[i].killed implies after.nodes.contains_key(after.infos[i].node.0)
        && after.nodes[after.infos[i].node.0].info == i by {
        assert(before.infos[i].paused && !before.infos[i].killed);
    }
    assert forall|k: u64| #![trigger after.nodes[k]] after.nodes.contains_key(k) implies ({
        &&& k < after.next_node_id
        &&& after.nodes[k].info < after.infos.len()
        &&& after.infos[after.nodes[k].info as int].node == NodeId(k)
        &&& !after.infos[after.nodes[k].info as int].killed
    }) by {
        assert(after.infos[before.nodes[k].info as int]
            == before.infos[before.nodes[k].info as int]);
    }
}

/// Killing a node keeps the tasks well-formed.
pub proof fn lemma_wf_killed<R, I>(before: TaskView<R, I>, id: u64)
    requires
        before.wf(),
        before.nodes.contains_key(id),
        before.infos.len() < usize::MAX,
    ensures
        before.killed(id).wf(),
{
    let after = before.killed(id);
    let old_info = before.nodes[id].info as int;
    assert(before.infos[old_info].node == NodeId(id));
    assert forall|k: u64| #![trigger after.nodes[k]] after.nodes.contains_key(k) implies ({
        &&& k < after.next_node_id
        &&& after.nodes[k].info < after.infos.len()
        &&& after.infos[after.nodes[k].info as int].node == NodeId(k)
        &&& !after.infos[after.nodes[k].info as int].killed
    }) by {
        let _ = before.nodes[k];
    }
    assert forall|i: int|
        0 <= i < after.infos.len() && (#[trigger] after.infos[i]).paused
            && !after.infos[i].killed implies after.nodes.contains_key(after.infos[i].node.0)
        && after.nodes[after.infos[i].node.0].info == i by {
        assert(i != old_info);
        assert(after.infos[i] == before.infos[i]);
        let _ = before.nodes[before.infos[i].node.0];
    }
}

/// Pausing and unpausing a node keeps the tasks well-formed.
proof fn lemma_wf_with_paused<R, I>(before: TaskView<R, I>, id: u64, paused: bool)
    requires
        before.wf(),
        before.nodes.contains_key(id),
    ensures
        before.with_paused(id, paused).wf(),
{
    let after = before.with_paused(id, paused);
    let info = before.nodes[id].info as int;
    assert(before.infos[info].node == NodeId(id));
    assert forall|i: int|
        0 <= i < after.infos.len() && (#[trigger] after.infos[i]).paused
            && !after.infos[i].killed implies after.nodes.contains_key(after.infos[i].node.0)
        && after.nodes[after.infos[i].node.0].info == i by {
        if i != info {
            assert(after.infos[i] == before.infos[i]);
            let _ = before.nodes[before.infos[i].node.0];
        }
    }
}

/// What a node leaves behind when it is killed. Once the watchers have been woken it should be
/// dropped, while nothing is borrowed,
/// since dropping it may do anything.
pub struct Remains<R, E> {
    /// What was scheduled for the node.
    pub timers: Vec<E>,
    /// The tasks that were ready while the node was paused.
    pub paused: Vec<R>,
    /// Whoever watched whether the node is killed, to be woken.
    pub watchers: Vec<Waker>,
}

/// What is to be done with a task that was ready.
pub enum Ready<R> {
    /// Its node was killed: drop it, as a task of the node.
    Drop(R, usize),
    /// Its node is paused: it waits there.
    Parked,
    /// Run it.
    Run(R, usize),
}

impl<R, I, J> TaskHandle<R, I, J> {
    /// The tasks and the blocking pool are in order, and use the identities that there are.
    pub open spec fn wf(&self) -> bool {
        &&& self@.wf()
        &&& self.blocking@.wf(self.infos@.len())
    }

    /// No tasks, no nodes, and a pool of `num_threads` threads.
    pub fn new(num_threads: u32) -> (r: TaskHandle<R, I, J>)
        requires
            num_threads > 0,
        ensures
            r.wf(),
            r@ == (TaskView::<R, I> {
                queue: Seq::empty(),
                nodes: Map::empty(),
                next_node_id: 1,
                infos: Seq::empty(),
            }),
            !r.blocking.started,
            r.blocking@.current.len() == num_threads,
            r.blocking@.quiet(),
    {
        let r = TaskHandle {
            queue: Vec::new(),
            nodes: HashMap::new(),
            next_node_id: 1,
            infos: Vec::new(),
            blocking: BlockingPool::new(num_threads),
        };
        proof {
            assert(r@.nodes =~= Map::empty());
            assert(r@.infos =~= Seq::empty());
        }
        r
    }

    /// Takes node `id` out.
    fn take_node(&mut self, id: u64) -> (r: Option<TaskNode<R, I>>)
        ensures
            final(self)@ == (TaskView { nodes: old(self)@.nodes.remove(id), ..old(self)@ }),
            final(self).infos == old(self).infos,
            final(self).blocking == old(self).blocking,
            r is Some <==> old(self)@.nodes.contains_key(id),
            r matches Some(node) ==> node@ == old(self)@.nodes[id],
    {
        let r: Option<TaskNode<R, I>> = self.nodes.remove(&id);
        assert(self@.nodes =~= old(self)@.nodes.remove(id));
        r
    }

    /// Puts `node` in as node `id`.
    fn put_node(&mut self, id: u64, node: TaskNode<R, I>)
        ensures
            final(self)@ == (TaskView { nodes: old(self)@.nodes.insert(id, node@), ..old(self)@ }),
            final(self).infos == old(self).infos,
            final(self).blocking == old(self).blocking,
    {
        self.nodes.insert(id, node);
        assert(self@.nodes =~= old(self)@.nodes.insert(id, node@));
    }

    /// Adds an identity.
    fn push_info(&mut self, info: TaskInfo) -> (r: usize)
        requires
            old(self).infos@.len() < usize::MAX,
        ensures
            r == old(self).infos@.len(),
            final(self).infos@ == old(self).infos@.push(info),
            final(self)@ == (TaskView { infos: old(self)@.infos.push(info@), ..old(self)@ }),
            final(self).blocking == old(self).blocking,
    {
        let r: usize = self.infos.len();
        self.infos.push(info);
        assert(self@.infos =~= old(self)@.infos.push(info@));
        r
    }

    /// Makes a task ready, under the identity `info`.
    pub fn schedule(&mut self, runnable: R, info: usize)
        requires
            old(self).wf(),
            info < old(self).infos@.len(),
        ensures
            final(self).wf(),
            final(self)@ == (TaskView { queue: old(self)@.queue.push((runnable, info)), ..old(self)@
            }),
            final(self).blocking@ == old(self).blocking@,
    {
        self.queue.push((runnable, info));
    }

    /// Has `waker` woken when the node that has the identity `info` is killed.
    pub fn watch_killed(&mut self, info: usize, waker: Waker)
        requires
            old(self).wf(),
            info < old(self).infos@.len(),
        ensures
            final(self).wf(),
            final(self)@ == old(self)@.watched(info, waker),
            final(self).blocking@ == old(self).blocking@,
    {
        self.infos[info].watchers.push(waker);
        proof {
            let known = old(self)@.infos[info as int];
            let after = InfoView { watchers: known.watchers.push(waker), ..known };
            assert(self@.infos =~= old(self)@.infos.update(info as int, after));
            lemma_wf_same_flags(old(self)@, self@);
        }
    }

    /// Hands out an identity for tasks of the supervisor.
    pub fn main_identity(&mut self) -> (r: usize)
        requires
            old(self).wf(),
            old(self).infos@.len() < usize::MAX,
        ensures
            final(self).wf(),
            r == old(self).infos@.len(),
            final(self)@ == (TaskView {
                infos: old(self)@.infos.push(InfoView::fresh(NodeId(0), "main"@)),
                ..old(self)@
            }),
            final(self).blocking@ == old(self).blocking@,
    {
        let r: usize = self.push_info(TaskInfo::new(NodeId(0), "main".to_owned()));
        proof {
            lemma_wf_more_infos(old(self)@, self@);
        }
        r
    }

    /// Takes the task at position `i` of the queue and decides what is to be done with it.
    pub fn take_ready(&mut self, i: usize) -> (r: Ready<R>)
        requires
            old(self).wf(),
            i < old(self)@.queue.len(),
        ensures
            final(self).wf(),
            final(self).blocking@ == old(self).blocking@,
            (r, final(self)@) == old(self)@.taken(i as int),
    {
        let ghost queue = self.queue@;
        let (runnable, info): (R, usize) = self.queue.swap_remove(i);
        proof {
            assert(queue[i as int] == (runnable, info));
            assert(self.queue@ =~= swap_removed(queue, i as int));
            assert forall|j: int| 0 <= j < self.queue@.len() implies (#[trigger] self.queue@[j]).1
                < self.infos@.len() by {
                if j == i {
                    assert(self.queue@[j] == queue[queue.len() - 1]);
                } else {
                    assert(self.queue@[j] == queue[j]);
                }
            }
            assert(self@.infos[info as int] == self.infos@[info as int]@);
        }
        if self.infos[info].killed {
            Ready::Drop(runnable, info)
        } else if self.infos[info].paused {
            // paused task: push to waiting list
            let id: u64 = self.infos[info].node.0;
            let ghost before = self@;
            let mut node: TaskNode<R, I> = self.take_node(id).unwrap();
            node.paused.push(runnable);
            self.put_node(id, node);
            assert(self@.nodes =~= before.nodes.insert(id, node@));
            Ready::Parked
        } else {
            Ready::Run(runnable, info)
        }
    }

    /// Takes a ready task, drawn at random, and decides what is to be done with it.
    pub fn next_ready(&mut self, rng: &mut GlobalRng) -> (r: Option<Ready<R>>)
        requires
            old(self).wf(),
            old(self)@.queue.len() <= u64::MAX,
        ensures
            final(self).wf(),
            final(self).blocking@ == old(self).blocking@,
            r is None <==> old(self)@.queue.len() == 0,
            r is None ==> final(self)@ == old(self)@ && *final(rng) == *old(rng),
            r matches Some(ready) ==> exists|i: int|
                0 <= i < old(self)@.queue.len() && (ready, final(self)@) == #[trigger] old(
                    self,
                )@.taken(i) && old(rng).gave_in_range(
                    0,
                    old(self)@.queue.len() as u64,
                    i as u64,
                    *final(rng),
                ),
            final(rng).seed() == old(rng).seed(),
    {
        let len: usize = self.queue.len();
        if len == 0 {
            return None;
        }
        let i: usize = rng.gen_range(0, len as u64) as usize;
        Some(self.take_ready(i))
    }

    /// Kills all tasks of the node: what was spawned so far will not run again.
    pub fn kill<E>(&mut self, time: &mut TimeHandle<E>, id: NodeId) -> (r: Remains<R, E>)
        requires
            old(self).wf(),
            old(time).wf(),
            old(self)@.nodes.contains_key(id.0),
            old(self).infos@.len() < usize::MAX,
        ensures
            final(self).wf(),
            final(self)@ == old(self)@.killed(id.0),
            r.paused@ == old(self)@.nodes[id.0].paused,
            r.watchers@ == old(self)@.watching(id.0),
            final(self).blocking@ == aborting(old(self).blocking@, final(self)@.infos, id),
            timers_cancelled(*old(time), id, *final(time), r.timers@),
            final(time).timer.disabled_node_ids@ == old(time).timer.disabled_node_ids@.insert(id.0),
    {
        let timers: Vec<E> = time.disable_node_and_cancel_timers(id);
        let mut node: TaskNode<R, I> = self.take_node(id.0).unwrap();
        let mut paused: Vec<R> = Vec::new();
        std::mem::swap(&mut paused, &mut node.paused);
        let name: String = self.infos[node.info].name();
        let ghost old_info = node.info;
        let mut watchers: Vec<Waker> = Vec::new();
        let ghost before = self.infos@;
        self.infos[node.info].killed = true;
        std::mem::swap(&mut watchers, &mut self.infos[node.info].watchers);
        proof {
            let known = old(self)@.infos[old_info as int];
            assert(self@.infos =~= old(self)@.infos.update(
                old_info as int,
                InfoView { killed: true, watchers: Seq::empty(), ..known },
            ));
        }
        node.info = self.push_info(TaskInfo::new(id, name));
        self.put_node(id.0, node);
        proof {
            let after = old(self)@.killed(id.0);
            assert(self@.infos =~= after.infos);
            assert(self@.nodes =~= after.nodes);
            lemma_wf_killed(old(self)@, id.0);
        }
        // in-flight blocking tasks of this node unwind at their next yield point.
        self.blocking.request_abort_node(id, &self.infos);
        Remains { timers, paused, watchers }
    }

    /// Kills all tasks of the node and lets it start anew. Returns the identity under which its
    /// initial task, if it has one, is to be spawned.
    pub fn restart<E>(&mut self, time: &mut TimeHandle<E>, id: NodeId) -> (r: (
        Remains<R, E>,
        TaskNodeHandle,
    ))
        requires
            old(self).wf(),
            old(time).wf(),
            old(self)@.nodes.contains_key(id.0),
            old(self).infos@.len() < usize::MAX,
        ensures
            final(self).wf(),
            final(self)@ == old(self)@.killed(id.0),
            r.0.paused@ == old(self)@.nodes[id.0].paused,
            r.0.watchers@ == old(self)@.watching(id.0),
            r.1.info == final(self)@.nodes[id.0].info,
            final(self).blocking@ == aborting(old(self).blocking@, final(self)@.infos, id),
            timers_cancelled(*old(time), id, *final(time), r.0.timers@),
            final(time).timer.disabled_node_ids@ == old(time).timer.disabled_node_ids@.remove(id.0),
    {
        let remains: Remains<R, E> = self.kill(time, id);
        time.enable_node(id);
        assert(time.timer.disabled_node_ids@ =~= old(time).timer.disabled_node_ids@.remove(id.0));
        let info: usize = self.nodes.get(&id.0).unwrap().info;
        (remains, TaskNodeHandle { info })
    }

    /// What spawns the initial task of a node.
    pub fn init_of(&self, id: NodeId) -> (r: Option<&I>)
        requires
            self@.nodes.contains_key(id.0),
        ensures
            r == (match self@.nodes[id.0].init {
                Some(init) => Some(&init),
                None => None,
            }),
    {
        match &self.nodes.get(&id.0).unwrap().init {
            Some(init) => Some(init),
            None => None,
        }
    }

    /// Sets whether the tasks of a node should be paused.
    fn set_paused(&mut self, id: NodeId, paused: bool)
        requires
            old(self).wf(),
            old(self)@.nodes.contains_key(id.0),
        ensures
            final(self).wf(),
            final(self)@ == old(self)@.with_paused(id.0, paused),
            final(self).blocking@ == old(self).blocking@,
            final(self).infos@.len() == old(self).infos@.len(),
    {
        let info: usize = self.nodes.get(&id.0).unwrap().info;
        assert(old(self)@.nodes[id.0].info == info);
        self.infos[info].paused = paused;
        proof {
            let known = old(self)@.infos[info as int];
            assert(self@.infos =~= old(self)@.infos.update(
                info as int,
                InfoView { paused, ..known },
            ));
            lemma_wf_with_paused(old(self)@, id.0, paused);
        }
    }

    /// Pauses all tasks of the node.
    pub fn pause(&mut self, id: NodeId)
        requires
            old(self).wf(),
            old(self)@.nodes.contains_key(id.0),
        ensures
            final(self).wf(),
            final(self)@ == old(self)@.with_paused(id.0, true),
            final(self).blocking@ == old(self).blocking@,
    {
        self.set_paused(id, true);
    }

    /// Resumes the execution of the node: the tasks that were ready meanwhile are ready again,
    /// in the order in which they were parked.
    pub fn resume(&mut self, id: NodeId)
        requires
            old(self).wf(),
            old(self)@.nodes.contains_key(id.0),
        ensures
            final(self).wf(),
            final(self).blocking@ == old(self).blocking@,
            final(self)@ == old(self)@.resumed(id.0),
    {
        self.set_paused(id, false);
        let ghost flagged = self@;
        let mut node: TaskNode<R, I> = self.take_node(id.0).unwrap();
        let ghost parked = node.paused@;
        let info: usize = node.info;
        let ghost mut done: int = 0;
        while node.paused.len() > 0
            invariant
                0 <= done <= parked.len(),
                node.paused@ == parked.skip(done),
                node.info == info,
                node.init == flagged.nodes[id.0].init,
                self@.queue == flagged.queue + parked.take(done).map_values(
                    |runnable: R| (runnable, info),
                ),
                self@ == (TaskView {
                    queue: self@.queue,
                    nodes: flagged.nodes.remove(id.0),
                    ..flagged
                }),
                self.blocking@ == old(self).blocking@,
                self.infos@.len() == old(self).infos@.len(),
            decreases node.paused@.len(),
        {
            let runnable: R = node.paused.remove(0);
            self.queue.push((runnable, info));
            proof {
                let f = |runnable: R| (runnable, info);
                assert(parked.take(done + 1).map_values(f) =~= parked.take(done).map_values(f).push(
                    (parked[done], info),
                ));
                done = done + 1;
                assert(node.paused@ =~= parked.skip(done));
                assert(self@.queue =~= flagged.queue + parked.take(done).map_values(f));
            }
        }
        self.put_node(id.0, node);
        proof {
            let after = old(self)@.resumed(id.0);
            assert(parked.take(done) =~= parked);
            assert(node.paused@ =~= Seq::empty());
            assert(self@.nodes =~= after.nodes);
            assert(self@.queue =~= after.queue);
            let f = |runnable: R| (runnable, info);
            assert forall|i: int| 0 <= i < self@.queue.len() implies (#[trigger] self@.queue[i]).1
                < self@.infos.len() by {
                if i < flagged.queue.len() {
                    assert(self@.queue[i] == flagged.queue[i]);
                } else {
                    assert(self@.queue[i] == parked.map_values(f)[i - flagged.queue.len()]);
                    assert(flagged.nodes[id.0].info == info);
                }
            }
            assert forall|k: u64|
                #![trigger self@.nodes[k]]
                self@.nodes.contains_key(k) implies self@.nodes[k].info == flagged.nodes[k].info by {}
            assert forall|k: u64|
                #![trigger self@.nodes[k]]
                self@.nodes.contains_key(k) implies ({
                &&& k < self@.next_node_id
                &&& self@.nodes[k].info < self@.infos.len()
                &&& self@.infos[self@.nodes[k].info as int].node == NodeId(k)
                &&& !self@.infos[self@.nodes[k].info as int].killed
            }) by {
                let _ = flagged.nodes[k];
            }
            assert(self@.wf());
        }
    }

    /// Creates a new node. Without a name it is named after its number. Returns its number and
    /// the identity under which its tasks, the initial one first, are spawned.
    pub fn create_node(&mut self, name: Option<String>, init: Option<I>) -> (r: (
        NodeId,
        TaskNodeHandle,
    ))
        requires
            old(self).wf(),
            old(self).next_node_id < u64::MAX,
            old(self).infos@.len() < usize::MAX,
        ensures
            final(self).wf(),
            final(self)@ == old(self)@.created(
                match name {
                    Some(name) => Some(name@),
                    None => None,
                },
                init,
            ),
            final(self).blocking@ == old(self).blocking@,
            r.0 == NodeId(old(self).next_node_id),
            r.1.info == old(self).infos@.len(),
    {
        let id = NodeId(self.next_node_id);
        self.next_node_id = self.next_node_id + 1;
        let name: String = match name {
            Some(name) => name,
            None => {
                let mut chosen: String = "node-".to_owned();
                chosen.append(decimal_string(id.0).as_str());
                chosen
            },
        };
        let info: usize = self.push_info(TaskInfo::new(id, name));
        self.put_node(id.0, TaskNode { info, paused: Vec::new(), init });
        proof {
            let before = old(self)@;
            assert(self@.nodes =~= before.nodes.insert(id.0, self@.nodes[id.0]));
            assert forall|k: u64|
                #![trigger self@.nodes[k]]
                self@.nodes.contains_key(k) implies ({
                &&& k < self@.next_node_id
                &&& self@.nodes[k].info < self@.infos.len()
                &&& self@.infos[self@.nodes[k].info as int].node == NodeId(k)
                &&& !self@.infos[self@.nodes[k].info as int].killed
            }) by {
                let _ = before.nodes[k];
            }
            assert forall|i: int|
                0 <= i < self@.infos.len() && (#[trigger] self@.infos[i]).paused
                    && !self@.infos[i].killed implies self@.nodes.contains_key(
                self@.infos[i].node.0,
            ) && self@.nodes[self@.infos[i].node.0].info == i by {
                assert(self@.infos[i] == before.infos[i]);
                let _ = before.nodes[before.infos[i].node.0];
            }
            assert forall|i: int| 0 <= i < self@.queue.len() implies (#[trigger] self@.queue[i]).1
                < self@.infos.len() by {
                assert(before.queue[i].1 < before.infos.len());
            }
        }
        (id, TaskNodeHandle { info })
    }

    /// Kills all tasks of a node and removes it.
    pub fn delete_node<E>(&mut self, time: &mut TimeHandle<E>, id: NodeId) -> (r: Remains<R, E>)
        requires
            old(self).wf(),
            old(time).wf(),
            old(self)@.nodes.contains_key(id.0),
            old(self).infos@.len() < usize::MAX,
        ensures
            final(self).wf(),
            final(self)@ == old(self)@.deleted(id.0),
            r.paused@ == old(self)@.nodes[id.0].paused,
            r.watchers@ == old(self)@.watching(id.0),
            final(self).blocking@ == aborting(old(self).blocking@, final(self)@.infos, id),
            timers_cancelled(*old(time), id, *final(time), r.timers@),
            final(time).timer.disabled_node_ids@ == old(time).timer.disabled_node_ids@.insert(id.0),
    {
        let remains: Remains<R, E> = self.kill(time, id);
        let ghost killed = self@;
        let gone: Option<TaskNode<R, I>> = self.take_node(id.0);
        proof {
            assert(self@.nodes =~= old(self)@.nodes.remove(id.0));
            assert forall|i: int|
                0 <= i < self@.infos.len() && (#[trigger] self@.infos[i]).paused
                    && !self@.infos[i].killed implies self@.nodes.contains_key(
                self@.infos[i].node.0,
            ) && self@.nodes[self@.infos[i].node.0].info == i by {
                assert(killed.infos[i].paused && !killed.infos[i].killed);
                let _ = killed.nodes[killed.infos[i].node.0];
            }
        }
        remains
    }

    /// Takes all nodes apart, and hands out the tasks that were ready while their node was
    /// paused. They are dropped last of all, when there is nothing left that they could reach.
    pub fn clear_nodes(&mut self) -> (r: Vec<R>)
        requires
            old(self).wf(),
        ensures
            final(self)@ == (TaskView { nodes: Map::empty(), ..old(self)@ }),
            final(self).blocking == old(self).blocking,
            r@ == all_paused(old(self)@.nodes, old(self)@.next_node_id as nat),
    {
        let mut left: Vec<R> = Vec::new();
        let ghost nodes = self@.nodes;
        let mut id: u64 = 0;
        while id < self.next_node_id
            invariant
                id <= self.next_node_id,
                nodes == old(self)@.nodes,
                self@ == (TaskView { nodes: self@.nodes, ..old(self)@ }),
                self.blocking == old(self).blocking,
                forall|k: u64| #[trigger]
                    self@.nodes.contains_key(k) <==> nodes.contains_key(k) && k >= id,
                forall|k: u64| #[trigger]
                    self@.nodes.contains_key(k) ==> self@.nodes[k] == nodes[k],
                left@ == all_paused(nodes, id as nat),
            decreases self.next_node_id - id,
        {
            assert(self@.nodes.contains_key(id) == nodes.contains_key(id));
            match self.take_node(id) {
                Some(node) => {
                    let mut paused: Vec<R> = node.paused;
                    left.append(&mut paused);
                },
                None => {},
            }
            id = id + 1;
        }
        proof {
            assert forall|k: u64| !self@.nodes.contains_key(k) by {
                if nodes.contains_key(k) {
                    assert(nodes[k].info < old(self)@.infos.len());
                }
            }
            assert(self@.nodes =~= Map::empty());
        }
        left
    }

    /// Gets the identity under which tasks of a node are spawned.
    pub fn get_node(&self, id: NodeId) -> (r: Option<TaskNodeHandle>)
        ensures
            r == (if self@.nodes.contains_key(id.0) {
                Some(TaskNodeHandle { info: self@.nodes[id.0].info })
            } else {
                None
            }),
    {
        match self.nodes.get(&id.0) {
            Some(node) => Some(TaskNodeHandle { info: node.info }),
            None => None,
        }
    }
}

/// Once a node has been killed, every task that was spawned on it before is dropped when it comes
/// up, and none of them runs, paused or not.
pub proof fn law_killed_task_never_runs<R, I>(tasks: TaskView<R, I>, id: u64, i: int)
    requires
        tasks.wf(),
        tasks.nodes.contains_key(id),
        tasks.infos.len() <= usize::MAX,
        0 <= i < tasks.queue.len(),
        tasks.queue[i].1 == tasks.nodes[id].info,
    ensures
        tasks.killed(id).taken(i).0 == Ready::Drop(tasks.queue[i].0, tasks.queue[i].1),
        tasks.killed(id).nodes[id].info != tasks.nodes[id].info,
        !tasks.killed(id).infos[tasks.killed(id).nodes[id].info as int].killed,
        tasks.killed(id).nodes[id].paused.len() == 0,
{
}

/// While a node is paused, none of its tasks runs.
pub proof fn law_paused_task_does_not_run<R, I>(tasks: TaskView<R, I>, id: u64, i: int)
    requires
        tasks.wf(),
        tasks.nodes.contains_key(id),
        0 <= i < tasks.queue.len(),
        tasks.queue[i].1 == tasks.nodes[id].info,
    ensures
        tasks.with_paused(id, true).taken(i).0 == Ready::<R>::Parked,
        tasks.with_paused(id, true).taken(i).1.nodes[id].paused.last() == tasks.queue[i].0,
{
    let _ = tasks.infos[tasks.nodes[id].info as int].node;
}

/// A task that was taken is not in the queue any more, and all others are.
pub proof fn law_taking_takes_one<R, I>(tasks: TaskView<R, I>, i: int)
    requires
        0 <= i < tasks.queue.len(),
    ensures
        tasks.taken(i).1.queue.to_multiset() == tasks.queue.to_multiset().remove(tasks.queue[i]),
        tasks.taken(i).1.queue.len() == tasks.queue.len() - 1,
        tasks.taken(i).1.infos == tasks.infos,
{
    lemma_swap_removed(tasks.queue, i);
}

/// Killing a node leaves every other node as it was.
pub proof fn law_kill_spares_other_nodes<R, I>(tasks: TaskView<R, I>, id: u64, other: u64)
    requires
        tasks.wf(),
        tasks.nodes.contains_key(id),
        tasks.nodes.contains_key(other),
        other != id,
    ensures
        tasks.killed(id).nodes[other] == tasks.nodes[other],
        tasks.killed(id).infos[tasks.nodes[other].info as int]
            == tasks.infos[tasks.nodes[other].info as int],
{
    assert(tasks.infos[tasks.nodes[id].info as int].node == NodeId(id));
    assert(tasks.infos[tasks.nodes[other].info as int].node == NodeId(other));
}

/// Pausing twice is pausing once, and so is resuming.
pub proof fn law_pause_and_resume_are_idempotent<R, I>(tasks: TaskView<R, I>, id: u64)
    requires
        tasks.wf(),
        tasks.nodes.contains_key(id),
    ensures
        tasks.with_paused(id, true).with_paused(id, true) == tasks.with_paused(id, true),
        tasks.resumed(id).resumed(id) == tasks.resumed(id),
{
    let _ = tasks.infos[tasks.nodes[id].info as int].node;
    assert(tasks.with_paused(id, true).with_paused(id, true).infos =~= tasks.with_paused(
        id,
        true,
    ).infos);
    let once = tasks.resumed(id);
    let twice = once.resumed(id);
    assert(twice.infos =~= once.infos);
    assert(twice.nodes =~= once.nodes);
    assert(twice.queue =~= once.queue);
}

/// Resuming a node that was paused while nothing was ready undoes the pause.
pub proof fn law_resume_undoes_pause<R, I>(tasks: TaskView<R, I>, id: u64)
    requires
        tasks.wf(),
        tasks.nodes.contains_key(id),
        !tasks.infos[tasks.nodes[id].info as int].paused,
        tasks.nodes[id].paused.len() == 0,
    ensures
        tasks.with_paused(id, true).resumed(id) == tasks,
{
    let after = tasks.with_paused(id, true).resumed(id);
    assert(after.infos =~= tasks.infos);
    assert(after.nodes[id].paused =~= tasks.nodes[id].paused);
    assert(after.nodes =~= tasks.nodes);
    assert(after.queue =~= tasks.queue);
}

/// A node gets a number that no node has.
pub proof fn law_node_numbers_are_unique<R, I>(tasks: TaskView<R, I>)
    requires
        tasks.wf(),
    ensures
        !tasks.nodes.contains_key(tasks.next_node_id),
{
    let _ = tasks.nodes[tasks.next_node_id];
}

} // verus!
