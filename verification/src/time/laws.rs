//! What holds of clocks, timers and waits.

use crate::task::NodeId;
use crate::time::clock::{ClockHandle, ClockId, Instant, CLOCK_BASE_SECS};
use crate::time::duration::{Duration, NANOS_PER_SEC};
use crate::time::timer::{
    latest_first, later_than, lemma_kept_in_order, lemma_later_than, live_from_back, live_of,
    without, Event,
};
use crate::time::{timed, Elapsed, Poll, Sleep, TimeHandle, TimeRuntime};
use vstd::prelude::*;

verus! {

/// Where an event is put in the queue: everything that is due later stands in front of it, and
/// everything that is due no later behind it, so that it fires after all that is due at the same time
/// and was there before. The queue stays in order.
pub proof fn law_new_event_waits_its_turn<E>(events: Seq<Event<E>>, event: Event<E>, i: int)
    requires
        latest_first(events),
        0 <= i < events.len(),
    ensures
        ({
            let at = later_than(events, event.deadline) as int;
            let after = events.insert(at, event);
            &&& 0 <= at <= events.len()
            &&& latest_first(after)
            &&& after[at] == event
            &&& i < at <==> events[i].deadline.nanos > event.deadline.nanos
            &&& i < at ==> after[i] == events[i]
            &&& i >= at ==> after[i + 1] == events[i]
        }),
{
    lemma_later_than(events, event.deadline);
}

/// An event that is scheduled is one more event, with its callback, for its node, due when it was
/// asked for; all others are kept. For a node that is disabled nothing is scheduled.
pub proof fn law_scheduled_event_is_kept<E>(
    time: TimeHandle<E>,
    node: NodeId,
    deadline: Instant,
    callback: E,
)
    requires
        time.wf(),
        deadline.0.nanos >= time.clock.base_instant.0.nanos,
    ensures
        ({
            let after = time.with_event(node, deadline, callback);
            let event = Event {
                deadline: Duration {
                    nanos: (deadline.0.nanos - time.clock.base_instant.0.nanos) as u128,
                },
                node_id: node,
                callback,
            };
            &&& latest_first(after)
            &&& time.timer.disabled_node_ids@.contains(node.0) ==> after == time.timer.events@
            &&& !time.timer.disabled_node_ids@.contains(node.0) ==> after.to_multiset()
                == time.timer.events@.to_multiset().insert(event)
        }),
{
    let due = Duration { nanos: (deadline.0.nanos - time.clock.base_instant.0.nanos) as u128 };
    lemma_later_than(time.timer.events@, due);
    let k: int = later_than(time.timer.events@, due) as int;
    vstd::seq_lib::to_multiset_insert(
        time.timer.events@,
        k,
        Event { deadline: due, node_id: node, callback },
    );
}

/// When the clock has come to `now`, exactly those events fire that are due by then, the one that is
/// due first first; of two that are due at the same time, the one that was scheduled first.
pub proof fn law_due_events_fire_in_order<E>(events: Seq<Event<E>>, now: Duration, i: int, j: int)
    requires
        latest_first(events),
        0 <= i < events.len(),
        0 <= j < events.len(),
    ensures
        ({
            let kept = later_than(events, now) as int;
            let fired = live_from_back(events.skip(kept));
            &&& 0 <= kept <= events.len()
            &&& i >= kept <==> events[i].deadline.nanos <= now.nanos
            &&& fired.len() == events.len() - kept
            &&& i >= kept ==> fired[events.len() - 1 - i] == events[i].callback
            &&& i < kept ==> events.take(kept)[i] == events[i]
            &&& events[i].deadline.nanos < events[j].deadline.nanos ==> events.len() - 1 - i
                < events.len() - 1 - j
        }),
{
    lemma_later_than(events, now);
}

/// Time goes straight to the event that is due first, and 50 nanoseconds past it, so that whoever
/// looks finds it due; what fires is what is due by then, and where the clocks have started does not
/// change.
pub proof fn law_time_goes_to_the_next_event<E>(
    before: TimeRuntime<E>,
    fired: Seq<E>,
    after: TimeRuntime<E>,
    i: int,
)
    requires
        before.handle.wf(),
        before.can_advance(),
        before.advanced(fired, after),
        0 <= i < before.handle.timer.events@.len(),
    ensures
        ({
            let events = before.handle.timer.events@;
            let now = after.handle.clock.elapsed_time;
            &&& now.nanos == events.last().deadline.nanos + 50
            &&& events[i].deadline.nanos + 50 >= now.nanos
            &&& after.handle.clock.base_time == before.handle.clock.base_time
            &&& after.handle.clock.base_instant == before.handle.clock.base_instant
            &&& fired.len() > 0
            &&& fired.len() + after.handle.timer.events@.len() == events.len()
            &&& fired[0] == events.last().callback
            &&& fired.contains(events[i].callback) || after.handle.timer.events@.contains(events[i])
            &&& events[i].deadline.nanos <= now.nanos ==> fired.contains(events[i].callback)
            &&& events[i].deadline.nanos > now.nanos ==> after.handle.timer.events@.contains(
                events[i],
            )
            &&& after.handle.timer.disabled_node_ids@ == before.handle.timer.disabled_node_ids@
        }),
{
    let events = before.handle.timer.events@;
    let now = after.handle.clock.elapsed_time;
    let n = events.len() as int;
    law_due_events_fire_in_order(events, now, i, n - 1);
    law_due_events_fire_in_order(events, now, n - 1, i);
    let kept = later_than(events, now) as int;
    if i >= kept {
        assert(fired[n - 1 - i] == events[i].callback);
    } else {
        assert(after.handle.timer.events@[i] == events[i]);
    }
    assert(fired[n - 1 - (n - 1)] == events[n - 1].callback);
}

/// Removing what is scheduled for a node parts the queue in two: what is removed, and what is kept,
/// in order. Nothing of any other node is removed, and nothing of the node is kept.
pub proof fn law_removing_parts_the_queue<E>(events: Seq<Event<E>>, id: NodeId)
    requires
        latest_first(events),
    ensures
        without(events, id).len() + live_of(events, id).len() == events.len(),
        latest_first(without(events, id)),
        forall|i: int|
            0 <= i < without(events, id).len() ==> (#[trigger] without(events, id)[i]).node_id != id
                && events.contains(without(events, id)[i]),
        forall|i: int|
            0 <= i < events.len() && (#[trigger] events[i]).node_id != id ==> without(
                events,
                id,
            ).contains(events[i]),
        forall|i: int|
            0 <= i < events.len() && (#[trigger] events[i]).node_id == id ==> live_of(
                events,
                id,
            ).contains(events[i].callback),
    decreases events.len(),
{
    reveal(Seq::filter);
    lemma_kept_in_order(events, |event: Event<E>| event.node_id != id);
    if events.len() > 0 {
        let front = events.drop_last();
        law_removing_parts_the_queue(front, id);
        let (kept, gone) = (without(events, id), live_of(events, id));
        let (less, fewer) = (without(front, id), live_of(front, id));
        assert forall|i: int|
            0 <= i < events.len() && (#[trigger] events[i]).node_id != id implies kept.contains(
            events[i],
        ) by {
            if i < front.len() {
                assert(front[i] == events[i]);
                let j: int = choose|j: int| 0 <= j < less.len() && less[j] == events[i];
                assert(kept[j] == events[i]);
            } else {
                assert(kept[less.len() as int] == events[i]);
            }
        }
        assert forall|i: int|
            0 <= i < events.len() && (#[trigger] events[i]).node_id == id implies gone.contains(
            events[i].callback,
        ) by {
            if i < front.len() {
                assert(front[i] == events[i]);
                let j: int = choose|j: int| 0 <= j < fewer.len() && fewer[j] == events[i].callback;
                assert(gone[j] == events[i].callback);
            } else {
                assert(gone[fewer.len() as int] == events[i].callback);
            }
        }
    }
}

/// A wait of `duration` is over once at least that much time has passed since it was begun, and not
/// before.
pub proof fn law_wait_takes_its_time(
    begun: ClockHandle,
    later: ClockHandle,
    duration: Duration,
    sleep: Sleep,
)
    requires
        begun.wf(),
        later.wf(),
        later.base_instant == begun.base_instant,
        later.elapsed_time.nanos >= begun.elapsed_time.nanos,
        sleep.deadline.0.nanos == begun.now().0.nanos + duration.nanos,
    ensures
        sleep.is_over(later.now()) <==> later.elapsed_time.nanos - begun.elapsed_time.nanos
            >= duration.nanos,
{
}

/// Work that completes in time gives its output, even if the deadline has come too. Work that does
/// not is given up at the deadline, and not before.
pub proof fn law_deadline_counts_only_for_unfinished_work<T>(future: Poll<T>, timer: Poll<()>)
    ensures
        future matches Poll::Ready(output) ==> timed(future, timer) == Poll::<
            Result<T, Elapsed>,
        >::Ready(Ok(output)),
        future is Pending ==> (timed(future, timer) is Pending <==> timer is Pending),
        future is Pending && timer is Ready ==> timed(future, timer) == Poll::<
            Result<T, Elapsed>,
        >::Ready(Err(Elapsed)),
{
}

/// All clocks run alike: between two looks each of them, the system clock and the monotonic clock in
/// all their forms, advances by the time that has elapsed. The forms of one clock agree.
pub proof fn law_clocks_run_alike(
    before: ClockHandle,
    after: ClockHandle,
    one: ClockId,
    other: ClockId,
)
    requires
        before.wf(),
        after.wf(),
        after.base_time == before.base_time,
        after.base_instant == before.base_instant,
    ensures
        after.shown(one) - before.shown(one) == after.elapsed_time.nanos
            - before.elapsed_time.nanos,
        before.shown(ClockId::Realtime) == before.shown(ClockId::RealtimeCoarse),
        before.shown(ClockId::Monotonic) == before.shown(ClockId::MonotonicRaw),
        before.shown(ClockId::Monotonic) == before.shown(ClockId::MonotonicCoarse),
        before.shown(ClockId::Monotonic) == before.now().0.nanos,
        before.shown(ClockId::Realtime) - before.base_time.0.nanos == before.shown(
            ClockId::Monotonic,
        ) - before.base_instant.0.nanos,
{
}

/// A simulation starts with a day on its clock, and is said to have run for no time then.
pub proof fn law_clock_starts_with_a_day_on_it(clock: ClockHandle)
    ensures
        clock.started() <==> clock.elapsed_time.nanos >= 24 * 3600 * 1_000_000_000,
        CLOCK_BASE_SECS * NANOS_PER_SEC == 24 * 3600 * 1_000_000_000,
{
}

} // verus!
