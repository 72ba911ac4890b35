//! A priority queue of events that are due at given times.

use crate::task::NodeId;
use crate::time::duration::Duration;
use std::collections::HashSet;
use vstd::prelude::*;

verus! {

broadcast use vstd::std_specs::hash::group_hash_axioms;

/// Something to be done once `deadline` is reached.
pub struct Event<E> {
    /// When the event is due.
    pub deadline: Duration,
    /// The node on whose behalf it was scheduled.
    pub node_id: NodeId,
    /// What to do.
    pub callback: E,
}

/// A queue of events, each scheduled for a node, with per-node cancellation.
///
/// The events are kept with the one that is due last in front, so that the next one to fire
/// stands at the end. Of two events with the same deadline the one added first fires first.
pub struct Timer<E> {
    /// Nodes for which nothing is scheduled any more.
    pub disabled_node_ids: HashSet<u64>,
    /// The pending events, latest deadline first.
    pub events: Vec<Event<E>>,
}

/// The deadlines do not increase from front to back.
pub open spec fn latest_first<E>(events: Seq<Event<E>>) -> bool {
    forall|i: int, j: int|
        0 <= i <= j < events.len() ==> events[i].deadline.nanos >= events[j].deadline.nanos
}

/// How many events, counted from the front, are due later than `at`.
pub open spec fn later_than<E>(events: Seq<Event<E>>, at: Duration) -> nat
    decreases events.len(),
{
    if events.len() == 0 {
        0
    } else if events.last().deadline.nanos > at.nanos {
        events.len()
    } else {
        later_than(events.drop_last(), at)
    }
}

/// The callbacks of the events in the order in which they fire: from the back to the front.
pub open spec fn live_from_back<E>(events: Seq<Event<E>>) -> Seq<E> {
    Seq::new(events.len(), |i: int| events[events.len() - 1 - i].callback)
}

/// The callbacks of the events of node `id`, from the front to the back.
pub open spec fn live_of<E>(events: Seq<Event<E>>, id: NodeId) -> Seq<E>
    decreases events.len(),
{
    if events.len() == 0 {
        Seq::empty()
    } else {
        let rest = live_of(events.drop_last(), id);
        if events.last().node_id == id {
            rest.push(events.last().callback)
        } else {
            rest
        }
    }
}

/// The events that are left once those of node `id` have been removed.
pub open spec fn without<E>(events: Seq<Event<E>>, id: NodeId) -> Seq<Event<E>> {
    events.filter(|event: Event<E>| event.node_id != id)
}

/// `later_than` splits a queue in two: what is due later than `at`, and the rest.
pub proof fn lemma_later_than<E>(events: Seq<Event<E>>, at: Duration)
    requires
        latest_first(events),
    ensures
        later_than(events, at) <= events.len(),
        forall|i: int|
            0 <= i < later_than(events, at) ==> (#[trigger] events[i]).deadline.nanos > at.nanos,
        forall|i: int|
            later_than(events, at) <= i < events.len() ==> (#[trigger] events[i]).deadline.nanos
                <= at.nanos,
    decreases events.len(),
{
    if events.len() > 0 && events.last().deadline.nanos <= at.nanos {
        lemma_later_than(events.drop_last(), at);
        assert forall|i: int| 0 <= i < later_than(events, at) implies (#[trigger] events[i]).deadline.nanos
            > at.nanos by {
            assert(events.drop_last()[i] == events[i]);
        }
        assert forall|i: int| later_than(events, at) <= i < events.len() implies (
        #[trigger] events[i]).deadline.nanos <= at.nanos by {
            if i < events.len() - 1 {
                assert(events.drop_last()[i] == events[i]);
            }
        }
    }
}

impl<E> Timer<E> {
    /// The queue is in order and holds no event of a disabled node.
    pub open spec fn wf(&self) -> bool {
        &&& latest_first(self.events@)
        &&& forall|i: int|
            0 <= i < self.events@.len() ==> !self.disabled_node_ids@.contains(
                (#[trigger] self.events@[i]).node_id.0,
            )
    }

    /// A timer with nothing scheduled and every node enabled.
    pub fn new() -> (r: Timer<E>)
        ensures
            r.wf(),
            r.events@ == Seq::<Event<E>>::empty(),
            r.disabled_node_ids@ == Set::<u64>::empty(),
    {
        Timer { disabled_node_ids: HashSet::new(), events: Vec::new() }
    }

    /// Schedules `callback` for `deadline`, behind all events that are due no later. Does
    /// nothing for a disabled node.
    pub fn add(&mut self, node_id: NodeId, deadline: Duration, callback: E)
        requires
            old(self).wf(),
        ensures
            final(self).wf(),
            final(self).disabled_node_ids@ == old(self).disabled_node_ids@,
            final(self).events@ == (if old(self).disabled_node_ids@.contains(node_id.0) {
                old(self).events@
            } else {
                old(self).events@.insert(
                    later_than(old(self).events@, deadline) as int,
                    Event { deadline, node_id, callback },
                )
            }),
    {
        if self.disabled_node_ids.contains(&node_id.0) {
            return ;
        }
        let mut at: usize = self.events.len();
        assert(self.events@.take(at as int) =~= self.events@);
        while at > 0 && self.events[at - 1].deadline.nanos <= deadline.nanos
            invariant
                at <= self.events@.len(),
                later_than(self.events@.take(at as int), deadline) == later_than(
                    self.events@,
                    deadline,
                ),
            decreases at,
        {
            assert(self.events@.take(at as int).drop_last() =~= self.events@.take(at - 1));
            at = at - 1;
        }
        proof {
            lemma_later_than(self.events@, deadline);
        }
        self.events.insert(at, Event { deadline, node_id, callback });
    }

    /// Removes every event whose deadline is not past `now` and returns their callbacks, in the
    /// order in which they are to run.
    pub fn expire(&mut self, now: Duration) -> (fired: Vec<E>)
        requires
            old(self).wf(),
        ensures
            final(self).wf(),
            final(self).disabled_node_ids@ == old(self).disabled_node_ids@,
            final(self).events@ == old(self).events@.take(
                later_than(old(self).events@, now) as int,
            ),
            fired@ == live_from_back(
                old(self).events@.skip(later_than(old(self).events@, now) as int),
            ),
    {
        let ghost before = self.events@;
        let ghost kept: int = later_than(before, now) as int;
        let mut fired: Vec<E> = Vec::new();
        proof {
            lemma_later_than(before, now);
            assert(before.take(before.len() as int) =~= before);
            assert(Seq::<E>::empty() + live_from_back(before.skip(kept)) =~= live_from_back(
                before.skip(kept),
            ));
        }
        loop
            invariant
                latest_first(before),
                0 <= kept <= self.events@.len() <= before.len(),
                kept == later_than(before, now),
                self.disabled_node_ids@ == old(self).disabled_node_ids@,
                self.events@ == before.take(self.events@.len() as int),
                fired@ + live_from_back(self.events@.skip(kept)) == live_from_back(
                    before.skip(kept),
                ),
            ensures
                self.events@ == before.take(kept),
                fired@ == live_from_back(before.skip(kept)),
            decreases self.events@.len(),
        {
            proof {
                lemma_later_than(before, now);
            }
            let len: usize = self.events.len();
            if len == 0 || self.events[len - 1].deadline.nanos > now.nanos {
                assert(self.events@.skip(kept) =~= Seq::empty());
                assert(fired@ + live_from_back(self.events@.skip(kept)) =~= fired@);
                break;
            }
            let ghost pending = self.events@.skip(kept);
            let event: Event<E> = self.events.pop().unwrap();
            proof {
                assert(pending.last() == event);
                assert(pending.drop_last() =~= self.events@.skip(kept));
                assert(self.events@ =~= before.take(self.events@.len() as int));
            }
            let ghost sofar = fired@;
            fired.push(event.callback);
            assert(fired@ + live_from_back(self.events@.skip(kept)) =~= sofar + live_from_back(
                pending,
            ));
        }
        fired
    }

    /// Removes every event of `node_id`, returns their callbacks and takes no further events for
    /// the node.
    pub fn disable_node_and_remove_events(&mut self, node_id: NodeId) -> (removed: Vec<E>)
        requires
            old(self).wf(),
            !old(self).disabled_node_ids@.contains(node_id.0),
        ensures
            final(self).wf(),
            final(self).disabled_node_ids@ == old(self).disabled_node_ids@.insert(node_id.0),
            final(self).events@ == without(old(self).events@, node_id),
            forall|i: int|
                0 <= i < final(self).events@.len() ==> old(self).events@.contains(
                    #[trigger] final(self).events@[i],
                ),
            removed@ == live_of(old(self).events@, node_id),
    {
        let ghost before = self.events@;
        let ghost mut seen: int = 0;
        self.disabled_node_ids.insert(node_id.0);
        let mut removed: Vec<E> = Vec::new();
        let mut i: usize = 0;
        proof {
            reveal(Seq::filter);
            assert(before.take(0) =~= Seq::empty());
            assert(before.skip(0) =~= before);
            assert(without(before.take(0), node_id) + before.skip(0) =~= before);
        }
        while i < self.events.len()
            invariant
                0 <= seen <= before.len(),
                self.disabled_node_ids@ == old(self).disabled_node_ids@.insert(node_id.0),
                i == without(before.take(seen), node_id).len(),
                self.events@ == without(before.take(seen), node_id) + before.skip(seen),
                removed@ == live_of(before.take(seen), node_id),
            decreases before.len() - seen,
        {
            proof {
                reveal(Seq::filter);
                assert(before.take(seen + 1).drop_last() =~= before.take(seen));
                assert(before.take(seen + 1).last() == before[seen]);
                assert(self.events@[i as int] == before.skip(seen)[0]);
            }
            if self.events[i].node_id.0 == node_id.0 {
                let event: Event<E> = self.events.remove(i);
                removed.push(event.callback);
                assert(self.events@ =~= without(before.take(seen + 1), node_id) + before.skip(
                    seen + 1,
                ));
            } else {
                i = i + 1;
                assert(self.events@ =~= without(before.take(seen + 1), node_id) + before.skip(
                    seen + 1,
                ));
            }
            proof {
                seen = seen + 1;
            }
        }
        proof {
            assert(before.skip(seen).len() == 0);
            assert(before.take(seen) =~= before);
            assert(self.events@ =~= without(before, node_id));
            lemma_kept_in_order(before, |event: Event<E>| event.node_id != node_id);
        }
        removed
    }

    /// Takes events for `node_id` again.
    pub fn enable_node(&mut self, node_id: NodeId)
        requires
            old(self).wf(),
            old(self).disabled_node_ids@.contains(node_id.0),
        ensures
            final(self).wf(),
            final(self).disabled_node_ids@ == old(self).disabled_node_ids@.remove(node_id.0),
            final(self).events@ == old(self).events@,
    {
        self.disabled_node_ids.remove(&node_id.0);
    }

    /// The earliest deadline in the queue.
    pub fn next(&self) -> (r: Option<Duration>)
        ensures
            r == (if self.events@.len() == 0 {
                None
            } else {
                Some(self.events@.last().deadline)
            }),
    {
        let len: usize = self.events.len();
        if len == 0 {
            None
        } else {
            Some(self.events[len - 1].deadline)
        }
    }
}

impl<E> Default for Timer<E> {
    fn default() -> (r: Timer<E>)
        ensures
            r.wf(),
            r.events@ == Seq::<Event<E>>::empty(),
            r.disabled_node_ids@ == Set::<u64>::empty(),
    {
        Timer::new()
    }
}

/// What `next` reports is the smallest deadline of all.
pub proof fn law_next_is_earliest<E>(timer: Timer<E>, i: int)
    requires
        timer.wf(),
        0 <= i < timer.events@.len(),
    ensures
        timer.events@.last().deadline.nanos <= timer.events@[i].deadline.nanos,
{
}

/// Once expired at `now`, nothing that is left is due at `now`.
pub proof fn law_expired_leaves_later<E>(events: Seq<Event<E>>, now: Duration, i: int)
    requires
        latest_first(events),
        0 <= i < events.take(later_than(events, now) as int).len(),
    ensures
        events.take(later_than(events, now) as int)[i].deadline.nanos > now.nanos,
{
    lemma_later_than(events, now);
}

/// An event that was added and has come due is among those that fire.
pub proof fn law_added_event_fires<E>(events: Seq<Event<E>>, event: Event<E>, now: Duration)
    requires
        latest_first(events),
        event.deadline.nanos <= now.nanos,
    ensures
        ({
            let queue = events.insert(later_than(events, event.deadline) as int, event);
            live_from_back(queue.skip(later_than(queue, now) as int)).contains(event.callback)
        }),
{
    lemma_later_than(events, event.deadline);
    let at: int = later_than(events, event.deadline) as int;
    let queue = events.insert(at, event);
    assert(latest_first(queue));
    lemma_later_than(queue, now);
    let due = queue.skip(later_than(queue, now) as int);
    assert(queue[at] == event);
    let k: int = at - later_than(queue, now) as int;
    assert(due[k] == event);
    assert(live_from_back(due)[due.len() - 1 - k] == event.callback);
}

/// Leaving events out keeps the others in order, and keeps none but those that are to stay.
pub proof fn lemma_kept_in_order<E>(events: Seq<Event<E>>, kept: spec_fn(Event<E>) -> bool)
    requires
        latest_first(events),
    ensures
        latest_first(events.filter(kept)),
        forall|i: int|
            0 <= i < events.filter(kept).len() ==> kept(#[trigger] events.filter(kept)[i])
                && events.contains(events.filter(kept)[i]),
    decreases events.len(),
{
    reveal(Seq::filter);
    if events.len() > 0 {
        let front = events.drop_last();
        let rest = front.filter(kept);
        lemma_kept_in_order(front, kept);
        assert forall|i: int| 0 <= i < events.filter(kept).len() implies kept(
            #[trigger] events.filter(kept)[i],
        ) && events.contains(events.filter(kept)[i]) by {
            if i < rest.len() {
                let j: int = choose|j: int| 0 <= j < front.len() && front[j] == rest[i];
                assert(front.contains(rest[i]));
                assert(events[j] == rest[i]);
            } else {
                assert(events[events.len() - 1] == events.last());
            }
        }
        assert forall|i: int, j: int| 0 <= i <= j < events.filter(kept).len() implies events.filter(
            kept,
        )[i].deadline.nanos >= events.filter(kept)[j].deadline.nanos by {
            if j == rest.len() {
                let k: int = choose|k: int|
                    0 <= k < events.len() && events[k] == events.filter(kept)[i];
                assert(events.contains(events.filter(kept)[i]));
                assert(events[k].deadline.nanos >= events[events.len() - 1].deadline.nanos);
            } else {
                assert(rest[i].deadline.nanos >= rest[j].deadline.nanos);
            }
        }
    }
}

/// Leaving out events of other nodes changes nothing for node `id`.
pub proof fn lemma_live_of_kept<E>(
    events: Seq<Event<E>>,
    kept: spec_fn(Event<E>) -> bool,
    id: NodeId,
)
    requires
        forall|event: Event<E>| event.node_id == id ==> #[trigger] kept(event),
    ensures
        live_of(events.filter(kept), id) == live_of(events, id),
    decreases events.len(),
{
    reveal(Seq::filter);
    if events.len() > 0 {
        let rest = events.drop_last().filter(kept);
        lemma_live_of_kept(events.drop_last(), kept, id);
        if kept(events.last()) {
            assert(events.filter(kept).drop_last() =~= rest);
        }
    }
}

/// Leaving out events twice leaves out those that either would have left out.
pub proof fn lemma_kept_twice<E>(
    events: Seq<Event<E>>,
    first: spec_fn(Event<E>) -> bool,
    second: spec_fn(Event<E>) -> bool,
    both: spec_fn(Event<E>) -> bool,
)
    requires
        forall|event: Event<E>| #[trigger] both(event) == (first(event) && second(event)),
    ensures
        events.filter(first).filter(second) == events.filter(both),
    decreases events.len(),
{
    reveal(Seq::filter);
    if events.len() > 0 {
        let rest = events.drop_last().filter(first);
        lemma_kept_twice(events.drop_last(), first, second, both);
        let _ = both(events.last());
        if first(events.last()) {
            assert(events.filter(first).drop_last() =~= rest);
        }
    }
}

/// Where all events are to stay, none is left out.
pub proof fn lemma_kept_all<E>(events: Seq<Event<E>>, kept: spec_fn(Event<E>) -> bool)
    requires
        forall|event: Event<E>| #[trigger] kept(event),
    ensures
        events.filter(kept) == events,
    decreases events.len(),
{
    reveal(Seq::filter);
    if events.len() > 0 {
        lemma_kept_all(events.drop_last(), kept);
        assert(events.drop_last().push(events.last()) =~= events);
    }
}

/// Where a node has no event, there is none to remove.
pub proof fn lemma_without_none<E>(events: Seq<Event<E>>, id: NodeId)
    requires
        forall|i: int| 0 <= i < events.len() ==> (#[trigger] events[i]).node_id != id,
    ensures
        without(events, id) == events,
        live_of(events, id) == Seq::<E>::empty(),
    decreases events.len(),
{
    reveal(Seq::filter);
    if events.len() > 0 {
        let front = events.drop_last();
        assert forall|i: int| 0 <= i < front.len() implies (#[trigger] front[i]).node_id != id by {
            assert(front[i] == events[i]);
        }
        lemma_without_none(front, id);
        assert(events[events.len() - 1].node_id != id);
        assert(front.push(events.last()) =~= events);
    }
}

/// Once the events of a node have been removed, nothing is left that could fire for it, and
/// nothing of it holds the clock: what is still pending was scheduled for another node.
pub proof fn law_disabled_node_is_silent<E>(events: Seq<Event<E>>, id: NodeId)
    ensures
        live_of(without(events, id), id) == Seq::<E>::empty(),
        forall|i: int|
            0 <= i < without(events, id).len() ==> (#[trigger] without(events, id)[i]).node_id
                != id,
    decreases events.len(),
{
    reveal(Seq::filter);
    if events.len() > 0 {
        law_disabled_node_is_silent(events.drop_last(), id);
    }
    lemma_without_none(without(events, id), id);
}

/// Removing the events of a node keeps every event of any other node.
pub proof fn law_disabling_spares_other_nodes<E>(events: Seq<Event<E>>, id: NodeId, other: NodeId)
    requires
        id != other,
    ensures
        live_of(without(events, id), other) == live_of(events, other),
{
    lemma_live_of_kept(events, |event: Event<E>| event.node_id != id, other);
}

} // verus!
