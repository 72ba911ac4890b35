//! What holds of nodes and their tasks, whatever was done to them before.

use crate::task::{all_paused, decimal, NodeId, Ready, TaskNodeView, TaskView};
use crate::utils::lemma_swap_removed;
use std::task::Waker;
use vstd::prelude::*;

verus! {

/// The number that a text of decimal digits stands for.
pub open spec fn number_in(text: Seq<char>) -> int
    decreases text.len(),
{
    if text.len() == 0 {
        0
    } else {
        10 * number_in(text.drop_last()) + (text.last() as int - '0' as int)
    }
}

/// The decimal notation of a number is made of digits, starts with a zero only if it is nothing
/// else, and stands for the number.
pub proof fn law_decimal_notation_stands_for_the_number(n: nat)
    ensures
        number_in(decimal(n)) == n,
        decimal(n).len() > 0,
        forall|i: int| 0 <= i < decimal(n).len() ==> '0' <= #[trigger] decimal(n)[i] <= '9',
        decimal(n)[0] == '0' ==> n == 0 && decimal(n).len() == 1,
    decreases n,
{
    let text = decimal(n);
    if n < 10 {
        assert(text.drop_last() =~= Seq::empty());
        assert(number_in(text.drop_last()) == 0);
        assert(text.last() as int == 48 + n);
    } else {
        law_decimal_notation_stands_for_the_number(n / 10);
        assert(text.drop_last() =~= decimal(n / 10));
        assert(text.last() as int == 48 + n % 10);
        assert(text[0] == decimal(n / 10)[0]);
        assert forall|i: int| 0 <= i < text.len() implies '0' <= #[trigger] text[i] <= '9' by {
            if i < text.len() - 1 {
                assert(text[i] == decimal(n / 10)[i]);
            }
        }
    }
}

/// A node that was created holds what it was given: its initial task, whether it has a name or not,
/// and its name, or else one that ends with its number. Nothing waits at it, its identity is fresh,
/// and whatever there was before is as it was.
pub proof fn law_created_node_holds_what_it_was_given<R, I>(
    tasks: TaskView<R, I>,
    name: Option<Seq<char>>,
    init: Option<I>,
)
    requires
        tasks.wf(),
        tasks.next_node_id < u64::MAX,
        tasks.infos.len() < usize::MAX,
    ensures
        ({
            let id = tasks.next_node_id;
            let after = tasks.created(name, init);
            let identity = after.nodes[id].info as int;
            &&& after.nodes.contains_key(id) && !tasks.nodes.contains_key(id)
            &&& after.nodes[id].init == init
            &&& after.nodes[id].paused.len() == 0
            &&& tasks.infos.len() <= identity < after.infos.len()
            &&& after.infos[identity].node == NodeId(id)
            &&& !after.infos[identity].paused && !after.infos[identity].killed
            &&& after.infos[identity].watchers.len() == 0
            &&& name matches Some(given) ==> after.infos[identity].name == given
            &&& name is None ==> {
                let chosen = after.infos[identity].name;
                chosen.take(5) == "node-"@ && number_in(chosen.skip(5)) == id
            }
            &&& after.next_node_id > id
            &&& after.queue == tasks.queue
            &&& forall|k: u64|
                #![trigger after.nodes[k]]
                k != id ==> (after.nodes.contains_key(k) <==> tasks.nodes.contains_key(k)) && (
                tasks.nodes.contains_key(k) ==> after.nodes[k] == tasks.nodes[k])
            &&& forall|i: int|
                0 <= i < tasks.infos.len() ==> #[trigger] after.infos[i] == tasks.infos[i]
        }),
{
    let id = tasks.next_node_id;
    let after = tasks.created(name, init);
    let _ = tasks.nodes[id];
    let identity = after.nodes[id].info as int;
    if name is None {
        reveal_strlit("node-");
        let chosen = after.infos[identity].name;
        law_decimal_notation_stands_for_the_number(id as nat);
        assert(chosen.take(5) =~= "node-"@);
        assert(chosen.skip(5) =~= decimal(id as nat));
    }
}

/// A node keeps its initial task, its number and its name when it is killed or restarted, and after
/// that as often as this happens.
pub proof fn law_killed_node_keeps_its_initial_task<R, I>(tasks: TaskView<R, I>, id: u64)
    requires
        tasks.wf(),
        tasks.nodes.contains_key(id),
        tasks.infos.len() < usize::MAX,
    ensures
        tasks.killed(id).nodes.contains_key(id),
        tasks.killed(id).nodes[id].init == tasks.nodes[id].init,
        tasks.killed(id).infos[tasks.killed(id).nodes[id].info as int].node == NodeId(id),
        tasks.killed(id).infos[tasks.killed(id).nodes[id].info as int].name
            == tasks.infos[tasks.nodes[id].info as int].name,
        tasks.killed(id).killed(id).nodes[id].init == tasks.nodes[id].init,
{
}

/// What was created with an initial task still has it after it has been killed and restarted.
pub proof fn law_initial_task_survives_a_restart<R, I>(
    tasks: TaskView<R, I>,
    name: Option<Seq<char>>,
    init: Option<I>,
)
    requires
        tasks.wf(),
        tasks.next_node_id < u64::MAX,
        tasks.infos.len() < usize::MAX,
    ensures
        tasks.created(name, init).killed(tasks.next_node_id).nodes[tasks.next_node_id].init == init,
{
}

/// Killing a node marks the identity that it had, and no other; nobody is left to be told of it.
/// The node goes on under an identity that is new, neither paused nor killed, and which nothing in
/// the queue has. Nothing waits at it any more. All other nodes and identities, and the queue, are
/// as they were.
pub proof fn law_killing_marks_one_identity<R, I>(tasks: TaskView<R, I>, id: u64)
    requires
        tasks.wf(),
        tasks.nodes.contains_key(id),
        tasks.infos.len() < usize::MAX,
    ensures
        ({
            let after = tasks.killed(id);
            let was = tasks.nodes[id].info as int;
            let now = after.nodes[id].info as int;
            &&& after.infos.len() == tasks.infos.len() + 1
            &&& now == tasks.infos.len()
            &&& after.infos[was].killed && after.infos[was].watchers.len() == 0
            &&& after.infos[was].node == tasks.infos[was].node
            &&& after.infos[was].paused == tasks.infos[was].paused
            &&& !after.infos[now].killed && !after.infos[now].paused
            &&& after.infos[now].watchers.len() == 0
            &&& after.nodes[id].paused.len() == 0
            &&& after.queue == tasks.queue
            &&& after.next_node_id == tasks.next_node_id
            &&& after.nodes.dom() == tasks.nodes.dom()
            &&& forall|i: int|
                0 <= i < tasks.infos.len() && i != was ==> #[trigger] after.infos[i]
                    == tasks.infos[i]
            &&& forall|k: u64|
                #![trigger after.nodes[k]]
                k != id && tasks.nodes.contains_key(k) ==> after.nodes[k] == tasks.nodes[k]
            &&& forall|i: int| 0 <= i < after.queue.len() ==> (#[trigger] after.queue[i]).1 != now
        }),
{
    let after = tasks.killed(id);
    let was = tasks.nodes[id].info as int;
    assert(tasks.infos[was].node == NodeId(id));
    assert(after.nodes.dom() =~= tasks.nodes.dom());
    assert forall|i: int| 0 <= i < after.queue.len() implies (#[trigger] after.queue[i]).1
        != after.nodes[id].info by {
        assert(tasks.queue[i].1 < tasks.infos.len());
    }
}

/// Whoever asked to be told when a node is killed is told: `watching` are all those, in their
/// order, who watch the identity that the node has.
pub proof fn law_watchers_are_told_of_the_kill<R, I>(
    tasks: TaskView<R, I>,
    id: u64,
    waker: Waker,
    after: TaskView<R, I>,
)
    requires
        tasks.wf(),
        tasks.nodes.contains_key(id),
        tasks.infos.len() < usize::MAX,
        after == tasks.watched(tasks.nodes[id].info, waker),
    ensures
        after.watching(id) == tasks.watching(id).push(waker),
        after.killed(id).watching(id).len() == 0,
        after.queue == tasks.queue,
        after.nodes == tasks.nodes,
        forall|other: u64|
            other != id && tasks.nodes.contains_key(other) ==> #[trigger] after.watching(other)
                == tasks.watching(other),
{
    let _ = tasks.infos[tasks.nodes[id].info as int].node;
    assert(tasks.infos[tasks.nodes[id].info as int].node == NodeId(id));
    assert forall|other: u64|
        other != id && tasks.nodes.contains_key(other) implies #[trigger] after.watching(other)
        == tasks.watching(other) by {
        assert(tasks.infos[tasks.nodes[other].info as int].node == NodeId(other));
    }
}

/// Pausing a node changes whether the node is paused, and nothing else.
pub proof fn law_pausing_touches_one_flag<R, I>(tasks: TaskView<R, I>, id: u64, paused: bool)
    requires
        tasks.wf(),
        tasks.nodes.contains_key(id),
    ensures
        ({
            let after = tasks.with_paused(id, paused);
            let own = tasks.nodes[id].info as int;
            &&& after.infos.len() == tasks.infos.len()
            &&& after.infos[own].paused == paused
            &&& after.infos[own].killed == tasks.infos[own].killed
            &&& after.infos[own].node == tasks.infos[own].node
            &&& after.infos[own].name == tasks.infos[own].name
            &&& after.infos[own].watchers == tasks.infos[own].watchers
            &&& forall|i: int|
                0 <= i < tasks.infos.len() && i != own ==> #[trigger] after.infos[i]
                    == tasks.infos[i]
            &&& after.queue == tasks.queue
            &&& after.nodes == tasks.nodes
            &&& after.next_node_id == tasks.next_node_id
        }),
{
}

/// Resuming a node loses no task: the queue afterwards is the queue before, followed by every task
/// that was parked at the node, in the order in which they were parked, each under the identity of
/// the node. Nothing stays parked there, and the node is no longer paused.
pub proof fn law_resuming_loses_no_task<R, I>(tasks: TaskView<R, I>, id: u64)
    requires
        tasks.wf(),
        tasks.nodes.contains_key(id),
    ensures
        ({
            let after = tasks.resumed(id);
            let node = tasks.nodes[id];
            let n = tasks.queue.len() as int;
            &&& after.queue.len() == n + node.paused.len()
            &&& after.queue.take(n) == tasks.queue
            &&& forall|i: int|
                0 <= i < node.paused.len() ==> after.queue[n + i] == (
                    #[trigger] node.paused[i],
                    node.info,
                )
            &&& forall|i: int|
                n <= i < after.queue.len() ==> (#[trigger] after.queue[i]).1 == node.info
                    && after.queue[i].0 == node.paused[i - n]
            &&& after.nodes[id].paused.len() == 0
            &&& !after.infos[node.info as int].paused
        }),
{
    let after = tasks.resumed(id);
    assert(after.queue.take(tasks.queue.len() as int) =~= tasks.queue);
}

/// Resuming a node puts into the queue, counting each task as often as it occurs, what was parked
/// at the node, and takes nothing out.
pub proof fn law_resuming_adds_what_was_parked<R, I>(tasks: TaskView<R, I>, id: u64, task: R, info: usize)
    requires
        tasks.wf(),
        tasks.nodes.contains_key(id),
    ensures
        ({
            let more: nat = if info == tasks.nodes[id].info {
                tasks.nodes[id].paused.to_multiset().count(task)
            } else {
                0
            };
            tasks.resumed(id).queue.to_multiset().count((task, info))
                == tasks.queue.to_multiset().count((task, info)) + more
        }),
{
    let node = tasks.nodes[id];
    let back = node.paused.map_values(|runnable: R| (runnable, node.info));
    vstd::seq_lib::lemma_multiset_commutative(tasks.queue, back);
    lemma_count_parked(node.paused, node.info, task, info);
}

/// Tasks that are put under one identity occur as often as they did without.
proof fn lemma_count_parked<R>(paused: Seq<R>, own: usize, task: R, info: usize)
    ensures
        paused.map_values(|runnable: R| (runnable, own)).to_multiset().count((task, info)) == (if info
            == own {
            paused.to_multiset().count(task)
        } else {
            0
        }),
    decreases paused.len(),
{
    broadcast use vstd::seq_lib::group_to_multiset_ensures;

    let f = |runnable: R| (runnable, own);
    let back = paused.map_values(f);
    if paused.len() == 0 {
        assert(back =~= Seq::empty());
    } else {
        let less = paused.drop_last();
        lemma_count_parked(less, own, task, info);
        assert(back =~= less.map_values(f).push(f(paused.last())));
        assert(paused =~= less.push(paused.last()));
    }
}

/// Resuming a node leaves every other node, whatever is parked there and whether it is paused, as
/// it was, and the node itself but for what was parked.
pub proof fn law_resuming_spares_other_nodes<R, I>(tasks: TaskView<R, I>, id: u64, other: u64)
    requires
        tasks.wf(),
        tasks.nodes.contains_key(id),
        tasks.nodes.contains_key(other),
        other != id,
    ensures
        ({
            let after = tasks.resumed(id);
            &&& after.nodes[other] == tasks.nodes[other]
            &&& after.infos[tasks.nodes[other].info as int]
                == tasks.infos[tasks.nodes[other].info as int]
            &&& after.nodes[id].info == tasks.nodes[id].info
            &&& after.nodes[id].init == tasks.nodes[id].init
            &&& after.nodes.dom() == tasks.nodes.dom()
            &&& after.infos.len() == tasks.infos.len()
            &&& after.next_node_id == tasks.next_node_id
        }),
{
    assert(tasks.infos[tasks.nodes[id].info as int].node == NodeId(id));
    assert(tasks.infos[tasks.nodes[other].info as int].node == NodeId(other));
    assert(tasks.resumed(id).nodes.dom() =~= tasks.nodes.dom());
}

/// A task that came up while its node was paused runs once the node has been resumed: it is in the
/// queue again, and is run when it is taken.
pub proof fn law_parked_task_runs_after_resume<R, I>(tasks: TaskView<R, I>, id: u64, i: int)
    requires
        tasks.wf(),
        tasks.nodes.contains_key(id),
        0 <= i < tasks.queue.len(),
        tasks.queue[i].1 == tasks.nodes[id].info,
    ensures
        ({
            let parked = tasks.with_paused(id, true).taken(i).1;
            let resumed = parked.resumed(id);
            let last = resumed.queue.len() - 1;
            &&& resumed.queue.len() == tasks.queue.len() + tasks.nodes[id].paused.len()
            &&& resumed.queue[last] == tasks.queue[i]
            &&& resumed.taken(last).0 == Ready::Run(tasks.queue[i].0, tasks.queue[i].1)
        }),
{
    let _ = tasks.infos[tasks.nodes[id].info as int].node;
    assert(tasks.infos[tasks.nodes[id].info as int].node == NodeId(id));
    assert(!tasks.infos[tasks.nodes[id].info as int].killed);
    lemma_swap_removed(tasks.queue, i);
}

/// What becomes of a task that is taken rests on its identity alone: it is dropped if that was
/// killed, parked if that is paused, and run otherwise.
pub proof fn law_taken_task_goes_where_its_identity_says<R, I>(tasks: TaskView<R, I>, i: int)
    requires
        tasks.wf(),
        0 <= i < tasks.queue.len(),
    ensures
        ({
            let (task, info) = tasks.queue[i];
            let known = tasks.infos[info as int];
            let (ready, after) = tasks.taken(i);
            &&& ready == Ready::Drop(task, info) <==> known.killed
            &&& ready is Parked <==> known.paused && !known.killed
            &&& ready == Ready::Run(task, info) <==> !known.paused && !known.killed
            &&& !(ready is Parked) ==> after.nodes == tasks.nodes
            &&& after.next_node_id == tasks.next_node_id
        }),
{
}

/// A task that is parked waits behind those that were parked at its node before, and nowhere else;
/// every other node is as it was.
pub proof fn law_parked_task_waits_at_its_node<R, I>(tasks: TaskView<R, I>, i: int, k: u64)
    requires
        tasks.wf(),
        0 <= i < tasks.queue.len(),
        tasks.taken(i).0 is Parked,
        tasks.nodes.contains_key(k),
    ensures
        ({
            let (task, info) = tasks.queue[i];
            let after = tasks.taken(i).1;
            let id = tasks.infos[info as int].node.0;
            &&& tasks.nodes.contains_key(id) && tasks.nodes[id].info == info
            &&& after.nodes.dom() == tasks.nodes.dom()
            &&& after.nodes[k].info == tasks.nodes[k].info
            &&& after.nodes[k].init == tasks.nodes[k].init
            &&& if k == id {
                after.nodes[k].paused == tasks.nodes[k].paused.push(task)
            } else {
                after.nodes[k].paused == tasks.nodes[k].paused
            }
        }),
{
    let after = tasks.taken(i).1;
    let known = tasks.infos[tasks.queue[i].1 as int];
    assert(known.paused && !known.killed);
    assert(after.nodes.dom() =~= tasks.nodes.dom());
}

/// A deleted node is gone, with what was parked there; its tasks are dropped as those of a killed
/// node, and all other nodes are as they were.
pub proof fn law_deleted_node_is_gone<R, I>(tasks: TaskView<R, I>, id: u64, i: int, other: u64)
    requires
        tasks.wf(),
        tasks.nodes.contains_key(id),
        tasks.infos.len() < usize::MAX,
        0 <= i < tasks.queue.len(),
        tasks.queue[i].1 == tasks.nodes[id].info,
        other != id,
    ensures
        ({
            let after = tasks.deleted(id);
            &&& !after.nodes.contains_key(id)
            &&& after.taken(i).0 == Ready::Drop(tasks.queue[i].0, tasks.queue[i].1)
            &&& after.nodes.contains_key(other) <==> tasks.nodes.contains_key(other)
            &&& tasks.nodes.contains_key(other) ==> after.nodes[other] == tasks.nodes[other]
                && after.infos[tasks.nodes[other].info as int]
                == tasks.infos[tasks.nodes[other].info as int]
            &&& after.queue == tasks.queue
            &&& after.next_node_id == tasks.next_node_id
        }),
{
    assert(tasks.infos[tasks.nodes[id].info as int].node == NodeId(id));
    if tasks.nodes.contains_key(other) {
        assert(tasks.infos[tasks.nodes[other].info as int].node == NodeId(other));
    }
}

/// What is handed out when all nodes are taken apart is what was parked at them, each task as often
/// as it was parked: taking one node away takes away what was parked there, and without nodes there
/// is nothing.
pub proof fn law_all_parked_tasks_are_handed_out<R, I>(
    nodes: Map<u64, TaskNodeView<R, I>>,
    n: nat,
    id: u64,
)
    requires
        n <= u64::MAX,
        nodes.contains_key(id),
        id < n,
    ensures
        all_paused(nodes, n).to_multiset() == all_paused(nodes.remove(id), n).to_multiset().add(
            nodes[id].paused.to_multiset(),
        ),
        all_paused(Map::<u64, TaskNodeView<R, I>>::empty(), n).len() == 0,
    decreases n,
{
    let m = (n - 1) as nat;
    lemma_nothing_parked::<R, I>(n);
    let rest = nodes.remove(id);
    let (a, b) = (all_paused(nodes, m), all_paused(rest, m));
    if id < m {
        law_all_parked_tasks_are_handed_out(nodes, m, id);
        if nodes.contains_key(m as u64) {
            let last = nodes[m as u64].paused;
            vstd::seq_lib::lemma_multiset_commutative(a, last);
            vstd::seq_lib::lemma_multiset_commutative(b, last);
            assert(all_paused(nodes, n).to_multiset() =~= all_paused(rest, n).to_multiset().add(
                nodes[id].paused.to_multiset(),
            ));
        }
    } else {
        lemma_parked_below(nodes, m, id);
        vstd::seq_lib::lemma_multiset_commutative(a, nodes[id].paused);
    }
}

proof fn lemma_nothing_parked<R, I>(n: nat)
    ensures
        all_paused(Map::<u64, TaskNodeView<R, I>>::empty(), n).len() == 0,
    decreases n,
{
    if n > 0 {
        lemma_nothing_parked::<R, I>((n - 1) as nat);
    }
}

proof fn lemma_parked_below<R, I>(nodes: Map<u64, TaskNodeView<R, I>>, n: nat, id: u64)
    requires
        n <= id,
    ensures
        all_paused(nodes.remove(id), n) == all_paused(nodes, n),
    decreases n,
{
    if n > 0 {
        lemma_parked_below(nodes, (n - 1) as nat, id);
    }
}

} // verus!
