//! What holds of the runtime across several operations.

use crate::net::addr::{IpAddr, SocketAddr};
use crate::net::error::NetError;
use crate::net::mailbox::PayloadType;
use crate::net::network::{NetworkView, SimEvent, Verdict};
use crate::random::{law_draws_stay_where_they_were_asked_for, GlobalRng};
use crate::runtime::{
    all_aborting, all_killed, all_reset, all_silenced, is_shut, shut_nodes, was_started_with, Context,
    Handle, NodeEnterGuard, MAX_RESTART_MILLIS, MIN_RESTART_MILLIS,
};
use crate::task::blocking::PoolView;
use crate::task::executor::{MAX_RUN_NANOS, MIN_RUN_NANOS};
use crate::task::laws::{law_killed_node_keeps_its_initial_task, law_killing_marks_one_identity};
use crate::task::{law_kill_spares_other_nodes, lemma_wf_killed, NodeId, Remains, TaskView};
use crate::time::duration::{Duration, NANOS_PER_MILLI};
use crate::time::timer::{
    law_disabled_node_is_silent, law_disabling_spares_other_nodes, lemma_live_of_kept, live_of, Event,
};
use crate::time::{TimeHandle, EARLIEST_BASE_SECS, SECS_PER_YEAR};
use vstd::prelude::*;

verus! {

/// Leaving a node that was entered restores what was current before.
pub proof fn law_leaving_undoes_entering(
    before: Context,
    entered: Context,
    guard: NodeEnterGuard,
    left: Context,
)
    requires
        guard.0 == before.current,
        left.current == guard.0,
    ensures
        left == before,
{
}

/// Killing node by node keeps the tasks well-formed and leaves alone what has not been reached.
proof fn lemma_all_killed<R, I>(tasks: TaskView<R, I>, n: nat, spared: u64)
    requires
        tasks.wf(),
        tasks.infos.len() + n <= usize::MAX,
        n <= u64::MAX,
    ensures
        all_killed(tasks, n, spared).wf(),
        all_killed(tasks, n, spared).nodes.dom() == tasks.nodes.dom(),
        tasks.infos.len() <= all_killed(tasks, n, spared).infos.len() <= tasks.infos.len() + n,
        forall|id: u64|
            #![trigger tasks.nodes[id]]
            tasks.nodes.contains_key(id) && (id >= n || id == spared) ==> {
                &&& all_killed(tasks, n, spared).nodes[id] == tasks.nodes[id]
                &&& all_killed(tasks, n, spared).infos[tasks.nodes[id].info as int]
                    == tasks.infos[tasks.nodes[id].info as int]
            },
        forall|i: int|
            0 <= i < tasks.infos.len() && (#[trigger] tasks.infos[i]).killed ==> all_killed(
                tasks,
                n,
                spared,
            ).infos[i].killed,
        forall|id: u64|
            #![trigger tasks.nodes[id]]
            tasks.nodes.contains_key(id) && id < n && id != spared ==> all_killed(
                tasks,
                n,
                spared,
            ).infos[tasks.nodes[id].info as int].killed,
    decreases n,
{
    if n == 0 {
        assert(all_killed(tasks, n, spared) == tasks);
    } else {
        let last = (n - 1) as u64;
        lemma_all_killed(tasks, (n - 1) as nat, spared);
        let before = all_killed(tasks, (n - 1) as nat, spared);
        let after = all_killed(tasks, n, spared);
        assert(before.nodes.dom().contains(last) == tasks.nodes.dom().contains(last));
        if tasks.nodes.contains_key(last) && last != spared {
            lemma_wf_killed(before, last);
            assert(before.nodes[last] == tasks.nodes[last]);
            assert(after.nodes.dom() =~= tasks.nodes.dom());
            assert(before.infos[before.nodes[last].info as int].node == NodeId(last));
            assert forall|id: u64|
                #![trigger tasks.nodes[id]]
                tasks.nodes.contains_key(id) && (id >= n || id == spared) implies ({
                &&& after.nodes[id] == tasks.nodes[id]
                &&& after.infos[tasks.nodes[id].info as int]
                    == tasks.infos[tasks.nodes[id].info as int]
            }) by {
                assert(before.nodes[id] == tasks.nodes[id]);
                assert(before.nodes.dom().contains(id));
                assert(before.infos[before.nodes[id].info as int].node == NodeId(id));
            }
            assert forall|id: u64|
                #![trigger tasks.nodes[id]]
                tasks.nodes.contains_key(id) && id < n && id
                    != spared implies after.infos[tasks.nodes[id].info as int].killed by {}
        } else {
            assert(after == before);
            assert forall|id: u64|
                #![trigger tasks.nodes[id]]
                tasks.nodes.contains_key(id) && (id >= n || id == spared) implies ({
                &&& after.nodes[id] == tasks.nodes[id]
                &&& after.infos[tasks.nodes[id].info as int]
                    == tasks.infos[tasks.nodes[id].info as int]
            }) by {
                assert(before.nodes[id] == tasks.nodes[id]);
            }
        }
    }
}

/// Shutting down all nodes ends what runs on every node but the current one, and leaves that one
/// alone.
pub proof fn law_shutdown_spares_the_current_node<R, I>(tasks: TaskView<R, I>, spared: u64, id: u64)
    requires
        tasks.wf(),
        tasks.infos.len() + tasks.next_node_id <= usize::MAX,
        tasks.nodes.contains_key(id),
    ensures
        ({
            let after = all_killed(tasks, tasks.next_node_id as nat, spared);
            let info = tasks.nodes[id].info as int;
            &&& after.nodes.contains_key(id)
            &&& id == spared ==> after.nodes[id] == tasks.nodes[id] && after.infos[info]
                == tasks.infos[info]
            &&& id != spared ==> after.infos[info].killed
        }),
{
    let n = tasks.next_node_id as nat;
    lemma_all_killed(tasks, n, spared);
    assert(all_killed(tasks, n, spared).nodes.dom().contains(id));
    assert(tasks.nodes[id].info < tasks.infos.len());
    assert(all_killed(tasks, n, spared).nodes[id] == all_killed(tasks, n, spared).nodes[id]);
}

/// A node that was killed has no sockets, so that a connection to it is refused, and nothing that
/// was scheduled for it is pending.
pub proof fn law_killed_node_is_silent<R, I, J, D>(
    before: Handle<R, I, J, D>,
    id: u64,
    after: Handle<R, I, J, D>,
    remains: Remains<R, SimEvent<D>>,
    dst: SocketAddr,
    tag: u64,
)
    requires
        before.wf(),
        before.executor.handle@.nodes.contains_key(id),
        before.killed(id, after, remains),
    ensures
        after.net@.verdict(id, dst, tag, PayloadType::TcpSignalConnect, false) == Verdict::Failed(
            NetError::ConnectionRefused(dst),
        ),
        forall|i: int|
            0 <= i < after.executor.time.handle.timer.events@.len() ==> (
            #[trigger] after.executor.time.handle.timer.events@[i]).node_id != NodeId(id),
{
    law_disabled_node_is_silent(before.executor.time.handle.timer.events@, NodeId(id));
}

/// A node that was built is there for tasks and for the network: without sockets, with its address if
/// it was given one, under which it is found from everywhere. All other nodes and addresses are as
/// they were.
pub proof fn law_built_node_is_found<D>(
    net: NetworkView<D>,
    id: u64,
    ip: Option<IpAddr>,
    from: NodeId,
    other: u64,
    address: IpAddr,
)
    requires
        !net.nodes.contains_key(id),
    ensures
        ({
            let after = net.with_new_node(id, ip);
            &&& after.nodes.contains_key(id)
            &&& after.nodes[id].ip == ip
            &&& after.nodes[id].sockets.dom() == Set::<u16>::empty()
            &&& after.nodes[id].live_tcp_ids == Set::<u32>::empty()
            &&& after.nodes[id].next_ephemeral_port == 32768
            &&& ip matches Some(own) ==> (!own.loopback() ==> after.node_for(from, own) == Some(id))
            &&& ip != Some(address) ==> after.node_for(from, address) == net.node_for(from, address)
            &&& other != id ==> (after.nodes.contains_key(other) <==> net.nodes.contains_key(other))
            &&& net.nodes.contains_key(other) ==> after.nodes[other] == net.nodes[other]
            &&& after.clogged_nodes == net.clogged_nodes && after.clogged_links == net.clogged_links
            &&& after.msg_count == net.msg_count && after.next_mailbox == net.next_mailbox
        }),
{
    assert(net.with_new_node(id, ip).nodes[id].sockets.dom() =~= Set::empty());
}

/// Killing a node concerns that node alone. It keeps its initial task, its name and its address; its
/// sockets are closed, what was parked there and what was scheduled for it is handed out, and
/// whoever watched it is told. Every other node keeps its tasks, its sockets and what is scheduled
/// for it.
pub proof fn law_kill_concerns_one_node<R, I, J, D>(
    before: Handle<R, I, J, D>,
    id: u64,
    after: Handle<R, I, J, D>,
    remains: Remains<R, SimEvent<D>>,
    other: u64,
    port: u16,
)
    requires
        before.wf(),
        before.executor.handle@.nodes.contains_key(id),
        before.executor.handle.infos@.len() < usize::MAX,
        before.killed(id, after, remains),
        before.executor.handle@.nodes.contains_key(other),
        other != id,
    ensures
        after.executor.handle@.nodes[id].init == before.executor.handle@.nodes[id].init,
        after.executor.handle@.nodes[id].paused.len() == 0,
        after.net@.nodes[id].ip == before.net@.nodes[id].ip,
        !after.net@.has_socket(id, port),
        remains.paused@ == before.executor.handle@.nodes[id].paused,
        remains.watchers@
            == before.executor.handle@.infos[before.executor.handle@.nodes[id].info as int].watchers,
        remains.timers@ == live_of(before.executor.time.handle.timer.events@, NodeId(id)),
        live_of(after.executor.time.handle.timer.events@, NodeId(id)).len() == 0,
        live_of(after.executor.time.handle.timer.events@, NodeId(other)) == live_of(
            before.executor.time.handle.timer.events@,
            NodeId(other),
        ),
        after.executor.handle@.nodes[other] == before.executor.handle@.nodes[other],
        after.executor.handle@.infos[before.executor.handle@.nodes[other].info as int]
            == before.executor.handle@.infos[before.executor.handle@.nodes[other].info as int],
        after.executor.handle@.queue == before.executor.handle@.queue,
        after.net@.nodes[other] == before.net@.nodes[other],
        after.net@.addrs == before.net@.addrs,
        after.executor.time.handle.clock == before.executor.time.handle.clock,
        after.context.current == before.context.current,
        after.net.config == before.net.config,
        after.executor.time_limit == before.executor.time_limit,
{
    let tasks = before.executor.handle@;
    assert(before.executor.handle.infos@.len() == tasks.infos.len());
    law_killing_marks_one_identity(tasks, id);
    law_killed_node_keeps_its_initial_task(tasks, id);
    law_kill_spares_other_nodes(tasks, id, other);
    assert(before.net@.nodes.contains_key(id) && before.net@.nodes.contains_key(other));
    law_disabled_node_is_silent(before.executor.time.handle.timer.events@, NodeId(id));
    law_disabling_spares_other_nodes(
        before.executor.time.handle.timer.events@,
        NodeId(id),
        NodeId(other),
    );
}

/// When a node is killed, the blocking tasks that run on it must unwind, and no others. Jobs that
/// wait, and whose turn it is, are left alone.
pub proof fn law_kill_unwinds_blocking_tasks_of_the_node<R, I, J, D>(
    before: Handle<R, I, J, D>,
    id: u64,
    after: Handle<R, I, J, D>,
    remains: Remains<R, SimEvent<D>>,
    i: int,
)
    requires
        before.wf(),
        before.executor.handle@.nodes.contains_key(id),
        before.killed(id, after, remains),
        0 <= i < before.executor.handle.blocking@.current.len(),
    ensures
        ({
            let pool = before.executor.handle.blocking@;
            let left = after.executor.handle.blocking@;
            let runs_there = pool.current[i] matches Some(info)
                && before.executor.handle@.infos[info as int].node == NodeId(id);
            &&& left.abort_requested.len() == pool.abort_requested.len()
            &&& left.abort_requested[i] <==> pool.abort_requested[i] || runs_there
            &&& left.current == pool.current && left.queue == pool.queue && left.turn == pool.turn
            &&& left.pending_panics == pool.pending_panics && left.started == pool.started
            &&& left.dequeued == pool.dequeued
        }),
{
    let tasks = before.executor.handle@;
    assert(before.executor.handle.infos@.len() == tasks.infos.len());
    if let Some(info) = before.executor.handle.blocking@.current[i] {
        assert(info < tasks.infos.len());
    }
}

/// What runs runs on the node of its identity; without a task there is no node.
pub proof fn law_current_node_is_that_of_the_task<R, I, J, D>(handle: Handle<R, I, J, D>)
    ensures
        handle.current_node() is Some <==> handle.context.current is Some,
        handle.context.current matches Some(info) ==> {
            let node = handle.executor.handle.infos@[info as int].node;
            &&& handle.current_node() == Some(node)
            &&& handle.current_id() == node.0
        },
{
}

/// Shutting down all nodes ends what runs on each of them, and tells whoever watched it. Each keeps
/// its initial task and its name under a new identity, which is neither killed nor paused and at
/// which nothing is parked. Other nodes, and what waits in the queue, are left alone.
pub proof fn law_shutdown_kills_all_other_nodes<R, I>(
    tasks: TaskView<R, I>,
    n: nat,
    spared: u64,
    id: u64,
)
    requires
        tasks.wf(),
        tasks.infos.len() + n <= usize::MAX,
        n <= u64::MAX,
        tasks.nodes.contains_key(id),
    ensures
        ({
            let after = all_killed(tasks, n, spared);
            let info = tasks.nodes[id].info as int;
            let new = after.nodes[id].info as int;
            &&& after.nodes.dom() == tasks.nodes.dom()
            &&& after.queue == tasks.queue
            &&& after.next_node_id == tasks.next_node_id
            &&& after.nodes[id].init == tasks.nodes[id].init
            &&& after.infos[new].name == tasks.infos[info].name
            &&& after.infos[new].node == NodeId(id)
            &&& is_shut(tasks, n, spared, id) ==> {
                &&& after.infos[info].killed
                &&& after.infos[info].watchers.len() == 0
                &&& after.nodes[id].paused.len() == 0
                &&& tasks.infos.len() <= new < after.infos.len()
                &&& !after.infos[new].killed && !after.infos[new].paused
                &&& after.infos[new].watchers.len() == 0
            }
            &&& !is_shut(tasks, n, spared, id) ==> {
                &&& after.nodes[id] == tasks.nodes[id]
                &&& after.infos[info] == tasks.infos[info]
            }
        }),
    decreases n,
{
    let after = all_killed(tasks, n, spared);
    assert(tasks.nodes[id].info < tasks.infos.len());
    assert(tasks.infos[tasks.nodes[id].info as int].node == NodeId(id));
    if n > 0 {
        let last = (n - 1) as u64;
        let before = all_killed(tasks, (n - 1) as nat, spared);
        law_shutdown_kills_all_other_nodes(tasks, (n - 1) as nat, spared, id);
        lemma_all_killed(tasks, (n - 1) as nat, spared);
        assert(before.nodes.dom().contains(last) == tasks.nodes.dom().contains(last));
        if tasks.nodes.contains_key(last) && last != spared {
            assert(before.nodes[last] == tasks.nodes[last]);
            assert(before.infos[before.nodes[last].info as int].node == NodeId(last));
            assert(tasks.infos[tasks.nodes[last].info as int].node == NodeId(last));
            assert(before.nodes.dom().contains(id));
            assert(before.infos[before.nodes[id].info as int].node == NodeId(id));
            assert(after.nodes.dom() =~= tasks.nodes.dom());
        }
    }
}

/// The nodes that are shut down are all those that there are but for the one that is spared, each
/// once, in the order of their numbers.
pub proof fn law_all_other_nodes_are_shut_down<R, I>(tasks: TaskView<R, I>, n: nat, spared: u64, id: u64)
    requires
        n <= u64::MAX,
    ensures
        shut_nodes(tasks, n, spared).contains(NodeId(id)) <==> tasks.nodes.contains_key(id) && id < n
            && id != spared,
        forall|i: int, j: int|
            0 <= i < j < shut_nodes(tasks, n, spared).len() ==> (#[trigger] shut_nodes(
                tasks,
                n,
                spared,
            )[i]).0 < (#[trigger] shut_nodes(tasks, n, spared)[j]).0,
        forall|i: int|
            0 <= i < shut_nodes(tasks, n, spared).len() ==> (#[trigger] shut_nodes(
                tasks,
                n,
                spared,
            )[i]).0 < n,
    decreases n,
{
    let all = shut_nodes(tasks, n, spared);
    if n > 0 {
        law_all_other_nodes_are_shut_down(tasks, (n - 1) as nat, spared, id);
        let before = shut_nodes(tasks, (n - 1) as nat, spared);
        let last = (n - 1) as u64;
        if is_shut(tasks, n, spared, last) {
            assert(all == before.push(NodeId(last)));
            if before.contains(NodeId(id)) {
                let i: int = choose|i: int| 0 <= i < before.len() && before[i] == NodeId(id);
                assert(all[i] == NodeId(id));
            }
            if id == last {
                assert(all[before.len() as int] == NodeId(id));
            }
            if all.contains(NodeId(id)) && id != last {
                let i: int = choose|i: int| 0 <= i < all.len() && all[i] == NodeId(id);
                assert(before[i] == NodeId(id));
            }
        }
    }
}

/// Shutting down all nodes closes the sockets of every node but the one that is spared, which keeps
/// its own, and so does the supervisor. All nodes keep their addresses.
pub proof fn law_shutdown_closes_all_other_sockets<R, I, D>(
    tasks: TaskView<R, I>,
    net: NetworkView<D>,
    n: nat,
    spared: u64,
    id: u64,
    port: u16,
)
    requires
        n <= u64::MAX,
        forall|k: u64| #[trigger] tasks.nodes.contains_key(k) ==> net.nodes.contains_key(k),
        net.nodes.contains_key(id),
    ensures
        ({
            let after = all_reset(tasks, net, n, spared);
            &&& is_shut(tasks, n, spared, id) ==> !after.has_socket(id, port)
            &&& !is_shut(tasks, n, spared, id) ==> after.nodes[id] == net.nodes[id]
            &&& after.nodes[id].ip == net.nodes[id].ip
            &&& after.nodes[id].live_tcp_ids == net.nodes[id].live_tcp_ids
            &&& after.nodes.dom() == net.nodes.dom()
            &&& after.addrs == net.addrs && after.msg_count == net.msg_count
            &&& after.clogged_nodes == net.clogged_nodes && after.clogged_links == net.clogged_links
        }),
    decreases n,
{
    if n > 0 {
        law_shutdown_closes_all_other_sockets(tasks, net, (n - 1) as nat, spared, id, port);
        let before = all_reset(tasks, net, (n - 1) as nat, spared);
        let last = (n - 1) as u64;
        if tasks.nodes.contains_key(last) && last != spared {
            assert(before.nodes.dom().contains(last));
            assert(before.reset(last).nodes.dom() =~= net.nodes.dom());
        }
    }
}

/// Once all nodes have been shut down, nothing is scheduled for any of them, nor can be, and all that
/// is scheduled for others, in the order in which it was, still is. Blocking tasks of these nodes, and
/// of no others, must unwind.
pub proof fn law_shutdown_silences_all_other_nodes<R, I, J, E>(
    tasks: TaskView<R, I>,
    n: nat,
    spared: u64,
    before: TimeHandle<E>,
    after: TimeHandle<E>,
    pool: PoolView<J>,
    i: int,
    id: u64,
)
    requires
        all_silenced(tasks, n, spared, before, after),
        0 <= i < pool.current.len(),
    ensures
        after.clock == before.clock,
        is_shut(tasks, n, spared, id) ==> live_of(after.timer.events@, NodeId(id)).len() == 0,
        !is_shut(tasks, n, spared, id) ==> live_of(after.timer.events@, NodeId(id)) == live_of(
            before.timer.events@,
            NodeId(id),
        ),
        after.timer.disabled_node_ids@.contains(id)
            <==> before.timer.disabled_node_ids@.contains(id) || is_shut(tasks, n, spared, id),
        ({
            let aborted = all_aborting(tasks, n, spared, pool);
            let own = pool.current[i] matches Some(info) && is_shut(
                tasks,
                n,
                spared,
                tasks.infos[info as int].node.0,
            );
            &&& aborted.abort_requested[i] <==> pool.abort_requested[i] || own
            &&& aborted.current == pool.current && aborted.queue == pool.queue
            &&& aborted.turn == pool.turn && aborted.pending_panics == pool.pending_panics
        }),
{
    let kept = |event: Event<E>| !is_shut(tasks, n, spared, event.node_id.0);
    if is_shut(tasks, n, spared, id) {
        lemma_nothing_of_it_is_kept(before.timer.events@, kept, NodeId(id));
    } else {
        lemma_live_of_kept(before.timer.events@, kept, NodeId(id));
    }
}

proof fn lemma_nothing_of_it_is_kept<E>(
    events: Seq<Event<E>>,
    kept: spec_fn(Event<E>) -> bool,
    id: NodeId,
)
    requires
        forall|event: Event<E>| event.node_id == id ==> !#[trigger] kept(event),
    ensures
        live_of(events.filter(kept), id).len() == 0,
    decreases events.len(),
{
    reveal(Seq::filter);
    if events.len() > 0 {
        let front = events.drop_last();
        lemma_nothing_of_it_is_kept(front, kept, id);
        if kept(events.last()) {
            assert(events.filter(kept).drop_last() =~= front.filter(kept));
        }
    }
}

/// Without a task, or with one whose node was killed, nothing runs; otherwise something does.
pub proof fn law_killed_task_does_not_count_as_running<R, I, J, D>(handle: Handle<R, I, J, D>)
    ensures
        handle.context.current is None ==> !handle.runs_something(),
        handle.context.current matches Some(info) ==> (handle.runs_something()
            <==> !handle.executor.handle.infos@[info as int].killed),
{
}

proof fn lemma_draw_in_range(rng: GlobalRng, low: u64, high: u64, drawn: u64, after: GlobalRng)
    requires
        rng.gave_in_range(low, high, drawn, after),
    ensures
        low <= drawn < high,
{
    let none = Duration { nanos: 0 };
    let items: Vec<(u32, bool)> = arbitrary();
    law_draws_stay_where_they_were_asked_for::<bool>(
        rng,
        (low, high, drawn),
        (none, none, none),
        (0, 1, false),
        &items,
        &(0, true),
        (Seq::empty(), Seq::empty()),
        after,
    );
}

/// To run a task takes at least 50 nanoseconds, and less than 100.
pub proof fn law_running_a_task_takes_time(rng: GlobalRng, nanos: u64, after: GlobalRng)
    requires
        rng.gave_in_range(MIN_RUN_NANOS, MAX_RUN_NANOS, nanos, after),
    ensures
        50 <= nanos < 100,
{
    lemma_draw_in_range(rng, MIN_RUN_NANOS, MAX_RUN_NANOS, nanos, after);
}

/// A node for which nothing else was asked is down for one second at least, and for less than three.
pub proof fn law_restart_takes_seconds(rng: GlobalRng, millis: u64, after: GlobalRng)
    requires
        rng.gave_in_range(MIN_RESTART_MILLIS, MAX_RESTART_MILLIS, millis, after),
    ensures
        1_000_000_000 <= millis * NANOS_PER_MILLI < 3_000_000_000,
{
    lemma_draw_in_range(rng, MIN_RESTART_MILLIS, MAX_RESTART_MILLIS, millis, after);
}

/// A simulation starts at some second of the 53rd year of 365 days after the epoch. Its generator
/// has its seed, and has drawn one number for other generators and the second, in this order.
pub proof fn law_simulation_starts_within_one_year(
    seed: u64,
    util: u64,
    offset: u64,
    now: Duration,
    rand: GlobalRng,
)
    requires
        was_started_with(seed, util, offset, now, rand),
    ensures
        52 * 365 * 86_400 <= EARLIEST_BASE_SECS + offset < 53 * 365 * 86_400,
        exists|seeded: GlobalRng, drawn: GlobalRng, last: GlobalRng|
            {
                &&& seeded.is_seeded_with(seed)
                &&& #[trigger] seeded.gave_any(util, drawn)
                &&& #[trigger] drawn.gave_in_range(0, 31_536_000, offset, last)
                &&& rand == last.at(now)
            },
{
    let (seeded, drawn, last) = choose|seeded: GlobalRng, drawn: GlobalRng, last: GlobalRng|
        {
            &&& seeded.is_seeded_with(seed)
            &&& #[trigger] seeded.gave_any(util, drawn)
            &&& #[trigger] drawn.gave_in_range(0, SECS_PER_YEAR, offset, last)
            &&& rand == last.at(now)
        };
    lemma_draw_in_range(drawn, 0, SECS_PER_YEAR, offset, last);
}

} // verus!
