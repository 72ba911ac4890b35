use msim::random::GlobalRng;
use msim::task::NodeId;
use msim::time::clock::{mul_div_u64, ClockHandle, ClockId, Instant, SystemTime};
use msim::time::duration::Duration;
use msim::time::timer::Timer;
use msim::time::{timeout, Delay, Elapsed, Poll, TimeRuntime};

fn secs(n: u64) -> Duration {
    Duration::from_secs(n)
}

#[test]
fn duration_parts() {
    let d = Duration::from_parts(3, 250_000_007);
    assert_eq!(d.as_secs(), 3);
    assert_eq!(d.subsec_nanos(), 250_000_007);
    assert_eq!(d.subsec_micros(), 250_000);
    assert_eq!(Duration::from_millis(1500).nanos, 1_500_000_000);
    assert_eq!(Duration::from_micros(7).nanos, 7_000);
    assert_eq!(Duration::from_nanos(7).nanos, 7);
    assert_eq!(secs(2).plus(secs(3)), secs(5));
    assert_eq!(secs(5).minus(secs(3)), secs(2));
    assert_eq!(secs(1).divided_by(10), Duration::from_millis(100));
    assert_eq!(secs(1).longer(secs(2)), secs(2));
    assert_eq!(secs(4).longer(secs(2)), secs(4));
    assert_eq!(Duration::zero().nanos, 0);
}

#[test]
fn timer_fires_in_order_of_deadline() {
    let mut timer: Timer<&str> = Timer::new();
    timer.add(NodeId(1), secs(3), "late");
    timer.add(NodeId(1), secs(1), "early");
    timer.add(NodeId(2), secs(3), "later");
    timer.add(NodeId(2), secs(2), "middle");
    assert_eq!(timer.next(), Some(secs(1)));
    assert_eq!(timer.expire(Duration::from_millis(500)), Vec::<&str>::new());
    assert_eq!(timer.expire(secs(2)), vec!["early", "middle"]);
    assert_eq!(timer.next(), Some(secs(3)));
    // those with the same deadline fire in the order in which they were added
    assert_eq!(timer.expire(secs(3)), vec!["late", "later"]);
    assert_eq!(timer.next(), None);
}

#[test]
fn disabled_node_fires_nothing() {
    let mut timer: Timer<u32> = Timer::default();
    timer.add(NodeId(1), secs(1), 10);
    timer.add(NodeId(2), secs(2), 20);
    timer.add(NodeId(1), secs(3), 30);
    let mut removed = timer.disable_node_and_remove_events(NodeId(1));
    removed.sort();
    assert_eq!(removed, vec![10, 30]);
    // not scheduled any more
    timer.add(NodeId(1), secs(1), 40);
    // a removed event does not count for the next deadline
    assert_eq!(timer.next(), Some(secs(2)));
    assert_eq!(timer.expire(secs(5)), vec![20]);
    timer.enable_node(NodeId(1));
    timer.add(NodeId(1), secs(6), 50);
    assert_eq!(timer.expire(secs(6)), vec![50]);
}

#[test]
fn removed_event_leaves_nothing_behind() {
    let mut timer: Timer<u32> = Timer::default();
    timer.add(NodeId(1), secs(5), 10);
    assert_eq!(timer.disable_node_and_remove_events(NodeId(1)), vec![10]);
    assert_eq!(timer.next(), None);
    assert_eq!(timer.expire(secs(5)), Vec::<u32>::new());
}

#[test]
fn clock_starts_with_one_day() {
    let mut rng = GlobalRng::new_with_seed(1);
    let time: TimeRuntime<u32> = TimeRuntime::new(&mut rng);
    assert_eq!(time.handle().elapsed(), secs(86400));
    assert_eq!(time.handle().time_since_clock_base(), secs(0));
    assert_eq!(time.now_instant(), Instant(secs(86400)));
    let base = time.handle().clock.base_time.0.as_secs();
    assert!(base >= 60 * 60 * 24 * 365 * 52);
    assert!(base < 60 * 60 * 24 * 365 * 53);
}

#[test]
fn advancing_goes_past_the_next_deadline() {
    let mut rng = GlobalRng::new_with_seed(1);
    let mut time: TimeRuntime<u32> = TimeRuntime::new(&mut rng);
    let sleep = time.handle().sleep(secs(2));
    assert_eq!(sleep.deadline, Instant(secs(86402)));
    time.handle.add_timer_for_node(NodeId(1), sleep.deadline, 7);
    time.handle.add_timer_for_node(NodeId(1), Instant(secs(86403)), 8);
    assert_eq!(time.advance_to_next_event(), Some(vec![7]));
    assert_eq!(time.handle().elapsed(), secs(86402).plus(Duration::from_nanos(50)));
    time.advance(Duration::from_nanos(30));
    assert_eq!(time.handle().elapsed(), secs(86402).plus(Duration::from_nanos(80)));
    assert_eq!(time.advance_to_next_event(), Some(vec![8]));
    assert_eq!(time.advance_to_next_event(), None);
}

#[test]
fn disabling_twice_is_disabling_once() {
    let mut rng = GlobalRng::new_with_seed(1);
    let mut time: TimeRuntime<u32> = TimeRuntime::new(&mut rng);
    time.handle.add_timer_for_node(NodeId(1), Instant(secs(86403)), 8);
    assert_eq!(time.handle.disable_node_and_cancel_timers(NodeId(1)), vec![8]);
    assert_eq!(time.handle.disable_node_and_cancel_timers(NodeId(1)), Vec::<u32>::new());
    time.handle.enable_node(NodeId(1));
    time.handle.enable_node(NodeId(1));
    time.handle.add_timer_for_node(NodeId(1), Instant(secs(86404)), 9);
    assert_eq!(time.advance_to_next_event(), Some(vec![9]));
    assert_eq!(time.advance_to_next_event(), None);
}

#[test]
fn timeout_prefers_the_work() {
    let done: Poll<u32> = Poll::Ready(5);
    assert!(timeout(done, Poll::Ready(())) == Poll::Ready(Ok(5)));
    let pending: Poll<u32> = Poll::Pending;
    assert!(timeout(pending, Poll::Ready(())) == Poll::Ready(Err(Elapsed)));
    let pending: Poll<u32> = Poll::Pending;
    assert!(timeout(pending, Poll::Pending) == Poll::Pending);
}

#[test]
fn delay_can_be_reset() {
    let mut rng = GlobalRng::new_with_seed(1);
    let mut time: TimeRuntime<u32> = TimeRuntime::new(&mut rng);
    let mut delay = Delay::new(time.handle(), secs(1));
    assert_eq!(delay.sleep.deadline, Instant(secs(86401)));
    time.advance(secs(10));
    delay.reset(time.handle(), secs(1));
    assert_eq!(delay.sleep.deadline, Instant(secs(86411)));
}

#[test]
fn clock_of_the_operating_system() {
    let mut clock = ClockHandle::new(SystemTime(Duration::from_parts(1_700_000_000, 999_000_000)));
    assert_eq!(clock.clock_gettime(ClockId::Monotonic), (86400, 0));
    assert_eq!(clock.clock_gettime(ClockId::MonotonicRaw), (86400, 0));
    assert_eq!(clock.clock_gettime(ClockId::MonotonicCoarse), (86400, 0));
    clock.advance(Duration::from_nanos(1_500_000));
    assert_eq!(clock.clock_gettime(ClockId::Realtime), (1_700_086_401, 500_000));
    assert_eq!(clock.clock_gettime(ClockId::RealtimeCoarse), (1_700_086_401, 500_000));
    assert_eq!(clock.gettimeofday(), (1_700_086_401, 500));
    clock.set_elapsed(secs(2));
    assert_eq!(clock.mach_absolute_time(125, 3), 2_000_000_000 * 3 / 125);
}

#[test]
fn mul_div_does_not_overflow_on_the_way() {
    assert_eq!(mul_div_u64(7, 5, 2), 17);
    assert_eq!(mul_div_u64(u64::MAX, 4_000_000_000, 4_000_000_000), u64::MAX);
}
