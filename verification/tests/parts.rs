use std::sync::atomic::{AtomicUsize, Ordering};
use std::sync::Arc;
use std::task::{Wake, Waker};

use msim::intercept::Intercepts;
use msim::io::{try_io, AsyncFd, TryIoError};
use msim::net::addr::{IpAddr, SocketAddr};
use msim::net::config::NetworkConfig;
use msim::net::mailbox::Payload;
use msim::net::network::{Network, SimEvent};
use msim::net::socket::Endpoint;
use msim::poller::Poller;
use msim::random::GlobalRng;
use msim::runtime::builder::{Builder, Kind, LocalSet, ThreadName};
use msim::task::blocking::{
    thread_step, BlockingPool, JobStep, RoundPlan, ThreadStep, Turn, TurnKind, Unwound,
};
use msim::task::executor::{
    settle_job, Executor, JobPanic, JobRoute, PanicWrapper, RoundOutcome,
};
use msim::task::join::{Id, JoinError, JoinHandle};
use msim::task::{NodeId, Ready, TaskHandle, TaskInfo};
use msim::time::clock::Instant;
use msim::time::duration::Duration;
use msim::time::{Poll, TimeRuntime};

struct Count(AtomicUsize);

impl Wake for Count {
    fn wake(self: Arc<Self>) {
        self.0.fetch_add(1, Ordering::SeqCst);
    }
}

fn counter() -> (Arc<Count>, Waker) {
    let count = Arc::new(Count(AtomicUsize::new(0)));
    let waker = Waker::from(count.clone());
    (count, waker)
}

fn infos(n: u64) -> Vec<TaskInfo> {
    (0..n)
        .map(|id| TaskInfo::new(NodeId(id), format!("node-{}", id)))
        .collect()
}

fn order_of(plan: RoundPlan) -> Vec<usize> {
    match plan {
        RoundPlan::Grant(order) => order,
        RoundPlan::Skip(_) => panic!("there is something to do"),
    }
}

#[test]
fn idle_pool_skips_rounds() {
    let mut rng = GlobalRng::new_with_seed(0);
    let mut pool: BlockingPool<u32> = BlockingPool::new(4);
    assert!(matches!(pool.begin_round(&mut rng), RoundPlan::Skip(stats) if !stats.pending));
    assert!(!pool.shutdown());
    assert_eq!(pool.turn, Turn::Idle);
    assert!(pool.spawn(1, 0));
    assert!(!pool.spawn(2, 0));
    let mut order = order_of(pool.begin_round(&mut rng));
    order.sort();
    assert_eq!(order, vec![0, 1, 2, 3]);
}

#[test]
fn turns_of_a_round() {
    let mut rng = GlobalRng::new_with_seed(0);
    let mut known = infos(2);
    let mut pool: BlockingPool<u32> = BlockingPool::new(2);
    pool.spawn(7, 1);
    order_of(pool.begin_round(&mut rng));
    assert_eq!(pool.grant(1, &known), Some(Turn::Run(1)));
    assert_eq!(pool.wait_turn(0), None);
    assert_eq!(pool.wait_turn(1), Some(TurnKind::Run));
    assert!(matches!(pool.run_one(&mut rng, 1, &known), JobStep::Run(7, 1)));
    assert!(matches!(pool.run_one(&mut rng, 1, &known), JobStep::Nothing));
    pool.end_turn();
    assert_eq!(pool.wait_turn(1), None);
    // an idle thread with nothing to pick up gets no turn
    assert_eq!(pool.grant(0, &known), None);
    let stats = pool.end_round();
    assert_eq!((stats.dequeued, stats.pending), (1, true));

    // a parked task of a paused node gets no turn, unless it is to be aborted
    known[1].paused = true;
    order_of(pool.begin_round(&mut rng));
    assert_eq!(pool.grant(1, &known), None);
    pool.request_abort_node(NodeId(0), &known);
    assert_eq!(pool.grant(1, &known), None);
    pool.request_abort_node(NodeId(1), &known);
    assert_eq!(pool.grant(1, &known), Some(Turn::Abort(1)));
    assert_eq!(pool.wait_turn(1), Some(TurnKind::Abort));
    assert!(pool.resume(1, TurnKind::Abort));
    pool.note_unwound(1, Unwound::Abort, &known);
    pool.end_turn();
    let stats = pool.end_round();
    assert_eq!((stats.dequeued, stats.pending, stats.panics.len()), (0, false, 0));
}

#[test]
fn abort_of_a_complete_task_is_forgotten() {
    let mut rng = GlobalRng::new_with_seed(0);
    let known = infos(1);
    let mut pool: BlockingPool<u32> = BlockingPool::new(1);
    pool.spawn(7, 0);
    order_of(pool.begin_round(&mut rng));
    pool.grant(0, &known);
    pool.run_one(&mut rng, 0, &known);
    pool.request_abort_node(NodeId(0), &known);
    pool.note_complete(0);
    pool.end_turn();
    pool.end_round();
    assert!(matches!(pool.begin_round(&mut rng), RoundPlan::Skip(_)));
    assert!(!pool.resume(0, TurnKind::Run));
}

#[test]
fn kill_request_reaches_the_main_loop() {
    let mut rng = GlobalRng::new_with_seed(0);
    let known = infos(4);
    let mut pool: BlockingPool<u32> = BlockingPool::new(1);
    pool.spawn(7, 3);
    order_of(pool.begin_round(&mut rng));
    pool.grant(0, &known);
    pool.run_one(&mut rng, 0, &known);
    let panic = PanicWrapper { restart_after: None };
    pool.note_unwound(0, Unwound::Kill(panic), &known);
    pool.end_turn();
    let stats = pool.end_round();
    assert_eq!(stats.panics, vec![(NodeId(3), panic)]);
    assert!(!stats.pending);
    assert_eq!(pool.end_round().panics, vec![]);
}

#[test]
fn jobs_of_killed_and_paused_nodes() {
    let mut known = infos(2);
    known[0].killed = true;
    known[1].paused = true;
    let mut pool: BlockingPool<u32> = BlockingPool::new(1);
    pool.spawn(5, 0);
    pool.spawn(6, 1);
    assert!(matches!(pool.take_job(0, 1, &known), JobStep::Requeued));
    assert_eq!(pool.queue, vec![(5, 0), (6, 1)]);
    assert_eq!(pool.dequeued, 0);
    assert!(matches!(pool.take_job(0, 0, &known), JobStep::Drop(5, 0)));
    assert_eq!(pool.queue, vec![(6, 1)]);
    assert_eq!(pool.dequeued, 1);
    known[1].paused = false;
    assert!(matches!(pool.take_job(0, 0, &known), JobStep::Run(6, 1)));
    assert_eq!(pool.current, vec![Some(1)]);
}

#[test]
fn shutdown_reaches_every_thread() {
    let mut pool: BlockingPool<u32> = BlockingPool::new(3);
    assert!(pool.ensure_started());
    assert!(!pool.ensure_started());
    assert!(pool.shutdown());
    for me in 0..3 {
        assert_eq!(pool.wait_turn(me), Some(TurnKind::Exit));
        pool.end_turn();
    }
    assert_eq!(thread_step(TurnKind::Exit), ThreadStep::Exit);
    assert_eq!(thread_step(TurnKind::Abort), ThreadStep::Skip);
    assert_eq!(thread_step(TurnKind::Run), ThreadStep::Work);
}

#[test]
fn outcomes_of_jobs() {
    assert!(matches!(settle_job::<u32, ()>(Ok(1)), JobRoute::Send(Ok(1))));
    assert!(matches!(
        settle_job::<u32, u32>(Err(JobPanic::Other(2))),
        JobRoute::Send(Err(2))
    ));
    assert!(matches!(
        settle_job::<u32, u32>(Err(JobPanic::Abort)),
        JobRoute::Unwind(Unwound::Abort)
    ));
    let panic = PanicWrapper { restart_after: Some(Duration::from_secs(1)) };
    assert!(matches!(
        settle_job::<u32, u32>(Err(JobPanic::Kill(panic))),
        JobRoute::Unwind(Unwound::Kill(p)) if p == panic
    ));
}

#[test]
fn queue_of_ready_tasks() {
    let mut rng = GlobalRng::new_with_seed(0);
    let mut time: TimeRuntime<u32> = TimeRuntime::new(&mut rng);
    let mut tasks: TaskHandle<char, (), ()> = TaskHandle::new(1);
    let (one, task) = tasks.create_node(Some("one".to_string()), None);
    let (two, other) = tasks.create_node(None, Some(()));
    assert_eq!((one, two), (NodeId(1), NodeId(2)));
    assert_eq!(tasks.infos[other.info].name(), "node-2");
    assert!(tasks.init_of(one).is_none());
    assert!(tasks.init_of(two).is_some());
    let (count, waker) = counter();
    tasks.watch_killed(task.info, waker);
    tasks.schedule('a', task.info);
    tasks.schedule('b', other.info);
    tasks.schedule('c', task.info);
    // the last one takes the place of the one that is taken
    assert!(matches!(tasks.take_ready(0), Ready::Run('a', _)));
    assert!(matches!(tasks.take_ready(0), Ready::Run('c', _)));
    tasks.schedule('a', task.info);
    tasks.pause(one);
    tasks.pause(one);
    assert!(matches!(tasks.take_ready(1), Ready::Parked));
    assert_eq!(tasks.queue.len(), 1);
    tasks.resume(one);
    tasks.resume(one);
    assert_eq!(tasks.queue.len(), 2);
    tasks.pause(one);
    assert!(matches!(tasks.take_ready(1), Ready::Parked));
    tasks.schedule('d', task.info);
    time.handle.add_timer_for_node(one, time.now_instant(), 5);
    assert_eq!(count.0.load(Ordering::SeqCst), 0);
    let remains = tasks.kill(&mut time.handle, one);
    assert_eq!(remains.watchers.len(), 1);
    for watcher in remains.watchers {
        watcher.wake();
    }
    assert_eq!(count.0.load(Ordering::SeqCst), 1);
    assert_eq!((remains.paused, remains.timers), (vec!['a'], vec![5]));
    assert!(tasks.infos[task.info].is_killed());
    assert!(matches!(tasks.take_ready(1), Ready::Drop('d', _)));
    assert!(matches!(tasks.next_ready(&mut rng), Some(Ready::Run('b', _))));
    assert!(tasks.next_ready(&mut rng).is_none());
    // a killed node takes no timers until it is restarted
    time.handle.add_timer_for_node(one, time.now_instant(), 6);
    assert_eq!(time.handle.timer.next(), None);
    assert_eq!(time.advance_to_next_event(), None);
    let (remains, restarted) = tasks.restart(&mut time.handle, one);
    assert!(remains.paused.is_empty() && remains.timers.is_empty());
    assert_ne!(restarted.info, task.info);
    assert_eq!(tasks.infos[restarted.info].name(), "one");
    time.handle.add_timer_for_node(one, time.now_instant(), 7);
    assert_eq!(time.advance_to_next_event(), Some(vec![7]));
    tasks.pause(two);
    tasks.schedule('e', other.info);
    tasks.next_ready(&mut rng);
    tasks.delete_node(&mut time.handle, one);
    assert!(tasks.get_node(one).is_none());
    assert_eq!(tasks.get_node(two), Some(other));
    assert_eq!(tasks.clear_nodes(), vec!['e']);
    assert!(tasks.get_node(two).is_none());
    let main = tasks.main_identity();
    assert_eq!(tasks.infos[main].name(), "main");
    assert_eq!(tasks.infos[main].node(), NodeId::zero());
}

#[test]
fn rounds_of_the_executor() {
    let mut rng = GlobalRng::new_with_seed(0);
    let mut executor: Executor<char, (), (), u32> = Executor::new(&mut rng, 1);
    assert_eq!(executor.handle().next_node_id, 1);
    let start = executor.time_handle().elapsed();
    assert_eq!(start, Duration::from_secs(86_400));
    executor.advance_after_run(&mut rng);
    let took = executor.time_handle().elapsed().minus(start);
    assert!(took >= Duration::from_nanos(50) && took < Duration::from_nanos(100));

    let end = executor.finish_round(&mut rng, 0, false, 0);
    assert_eq!(end.outcome, RoundOutcome::NoEvents);
    // progress: time stands still
    let now = executor.time.now_instant();
    executor.time.handle.add_timer_for_node(NodeId(0), now, 9);
    let end = executor.finish_round(&mut rng, 1, true, 5);
    assert_eq!((end.fired, end.stalled_rounds), (vec![], 0));
    // no progress: on to the next event
    let end = executor.finish_round(&mut rng, 0, true, 5);
    assert_eq!((end.fired, end.stalled_rounds), (vec![9], 0));
    assert_eq!(end.outcome, RoundOutcome::Continue);
    // neither progress nor events, but something parked
    let end = executor.finish_round(&mut rng, 0, true, 5);
    assert_eq!(end.stalled_rounds, 6);
    assert_eq!(end.outcome, RoundOutcome::Continue);
    let end = executor.finish_round(&mut rng, 0, true, 9_999);
    assert_eq!(end.outcome, RoundOutcome::Deadlock);
    // something ready is progress
    let main = executor.handle.main_identity();
    executor.handle.schedule('m', main);
    assert_eq!(executor.finish_round(&mut rng, 0, true, 9_999).stalled_rounds, 0);
    executor.set_time_limit(Duration::from_secs(1));
    let end = executor.finish_round(&mut rng, 1, false, 0);
    assert_eq!(end.outcome, RoundOutcome::Continue);
    executor.set_time_limit(Duration::from_nanos(1));
    let end = executor.finish_round(&mut rng, 1, false, 0);
    assert_eq!(end.outcome, RoundOutcome::TimeLimitExceeded(Duration::from_nanos(1)));
}

#[test]
fn aborted_task_is_cancelled() {
    let mut handle = JoinHandle::new(Id(4), 'x');
    assert_eq!(handle.id(), Id(4));
    assert!(!handle.is_finished(false));
    assert!(handle.is_finished(true));
    assert_eq!(handle.joined::<u32>(Poll::Pending), Poll::Pending);
    assert_eq!(handle.joined(Poll::Ready(Some(1))), Poll::Ready(Ok(1)));
    let cancelled = JoinError { id: Id(4) };
    assert_eq!(handle.joined::<u32>(Poll::Ready(None)), Poll::Ready(Err(cancelled)));
    assert_eq!(handle.abort(), Some('x'));
    assert_eq!(handle.abort(), None);
    assert!(handle.is_finished(false));
    assert_eq!(handle.joined(Poll::Ready(Some(1))), Poll::Ready(Err(cancelled)));
}

#[test]
fn poller_makes_work_when_it_is_asked() {
    let mut poller: Poller<u32> = Poller::new();
    let made = AtomicUsize::new(0);
    let make = || {
        made.fetch_add(1, Ordering::SeqCst);
        2
    };
    let poll = |left: u32| {
        if left == 0 {
            (0, Poll::Ready("done"))
        } else {
            (left - 1, Poll::Pending)
        }
    };
    assert_eq!(poller.poll_with_fut(make, poll), Poll::Pending);
    assert_eq!(poller.poll_with_fut(make, poll), Poll::Pending);
    assert_eq!(poller.poll_with_fut(make, poll), Poll::Ready("done"));
    assert_eq!(made.load(Ordering::SeqCst), 1);
    assert_eq!(poller.poll_with_fut(make, poll), Poll::Pending);
    assert_eq!(made.load(Ordering::SeqCst), 2);
}

#[test]
fn intercepts_are_scoped() {
    let mut intercepts = Intercepts::new();
    assert!(!intercepts.intercepts_enabled());
    let outer = intercepts.enable_intercepts_scoped();
    assert!(intercepts.intercepts_enabled());
    let inner = intercepts.disable_intercepts_scoped();
    assert!(!intercepts.intercepts_enabled());
    let innermost = intercepts.disable_intercepts_scoped();
    intercepts.restore(innermost);
    assert!(!intercepts.intercepts_enabled());
    intercepts.restore(inner);
    assert!(intercepts.intercepts_enabled());
    intercepts.release(outer);
    assert!(!intercepts.intercepts_enabled());
}

#[test]
fn sockets_pause_between_writes() {
    let mut rng = GlobalRng::new_with_seed(0);
    let mut time: TimeRuntime<SimEvent<u32>> = TimeRuntime::new(&mut rng);
    let mut fd = AsyncFd::new('s');
    assert_eq!(fd.get_ref(), &'s');
    let mut pending = 0;
    let (count, waker) = counter();
    for _ in 0..100 {
        match fd.poll_write_ready(&mut rng, &mut time.handle, NodeId(0), waker.clone()) {
            Poll::Ready(()) => {
                let now = time.handle.elapsed().nanos as u64;
                assert!((now..now + 50).contains(&fd.next_ready_write_nanos));
            }
            Poll::Pending => {
                pending += 1;
                let next = time.handle.timer.next().unwrap();
                assert_eq!(next, Duration::from_nanos(fd.next_ready_write_nanos));
                for event in time.advance_to_next_event().unwrap() {
                    match event {
                        SimEvent::Wake(waker) => waker.wake(),
                        SimEvent::Deliver(_) => panic!("nothing was sent"),
                    }
                }
            }
        }
    }
    assert!(pending > 10);
    assert_eq!(count.0.load(Ordering::SeqCst), pending);
    assert_eq!(fd.into_inner(), 's');
}

/// Lets an event happen.
fn fire(net: &mut Network<u32>, event: SimEvent<u32>) {
    let fired = net.fire(event);
    for waker in fired.woken {
        waker.wake();
    }
    if let Some(delivery) = fired.arriving {
        for waker in net.deliver(delivery) {
            waker.wake();
        }
    }
}

#[test]
fn sockets_are_ready_to_read_when_a_packet_is_there() {
    let mut rng = GlobalRng::new_with_seed(0);
    let mut time: TimeRuntime<SimEvent<u32>> = TimeRuntime::new(&mut rng);
    let mut net: Network<u32> = Network::new(NetworkConfig::default());
    net.insert_node(NodeId(1));
    net.set_ip(NodeId(1), IpAddr::v4(10, 0, 0, 1));
    let addr = SocketAddr::new(IpAddr::v4(10, 0, 0, 1), 5);
    let ep = Endpoint::bind_any(&mut net, NodeId(1), &vec![addr]).unwrap();
    let mut fd = AsyncFd::new(());
    let (count, waker) = counter();
    assert_eq!(fd.poll_read_ready(&mut net, ep, 5, waker.clone()), Poll::Pending);
    net.send(&mut rng, &mut time.handle, NodeId(1), addr, addr, 5, Payload::new_udp(1))
        .unwrap();
    for event in time.advance_to_next_event().unwrap() {
        fire(&mut net, event);
    }
    assert_eq!(count.0.load(Ordering::SeqCst), 1);
    assert_eq!(fd.poll_read_ready(&mut net, ep, 5, waker), Poll::Ready(()));
    assert_eq!(fd.take_inner(), Some(()));
    assert_eq!(fd.take_inner(), None);

    assert_eq!(try_io::<u32, char>(Ok(1), false), Ok(Ok(1)));
    assert_eq!(try_io::<u32, char>(Err('e'), false), Ok(Err('e')));
    assert_eq!(try_io::<u32, char>(Err('e'), true), Err(TryIoError));
}

#[test]
fn builder_remembers_what_was_set() {
    let mut builder: Builder<char, u32> = Builder::new_multi_thread();
    assert_eq!(builder.kind, Kind::MultiThread);
    assert!(matches!(&builder.thread_name, ThreadName::Fixed(name) if name == "tokio-runtime-worker"));
    assert_eq!(builder.max_blocking_threads, 512);
    builder
        .enable_all()
        .worker_threads(3)
        .max_blocking_threads(4)
        .thread_name("w".to_string())
        .thread_stack_size(5)
        .on_thread_start(1)
        .on_thread_stop(2)
        .on_thread_park(3)
        .on_thread_unpark(4)
        .thread_keep_alive(Duration::from_secs(6))
        .global_queue_interval(7)
        .event_interval(8)
        .start_paused(true);
    assert!(builder.enable_io && builder.enable_time && builder.start_paused);
    assert_eq!(builder.worker_threads, Some(3));
    assert_eq!(builder.max_blocking_threads, 4);
    assert!(matches!(&builder.thread_name, ThreadName::Fixed(name) if name == "w"));
    assert_eq!(builder.thread_stack_size, Some(5));
    assert_eq!(
        (builder.after_start, builder.before_stop, builder.before_park, builder.after_unpark),
        (Some(1), Some(2), Some(3), Some(4))
    );
    assert_eq!(builder.keep_alive, Some(Duration::from_secs(6)));
    assert_eq!((builder.global_queue_interval, builder.event_interval), (7, 8));
    builder.thread_name_fn('n');
    assert!(matches!(&builder.thread_name, ThreadName::Generated('n')));
    let builder: Builder<char, u32> = Builder::new_current_thread();
    assert_eq!(builder.kind, Kind::CurrentThread);
    assert!(!builder.enable_io && !builder.enable_time);
    assert_eq!(LocalSet::new(), LocalSet);
}

#[test]
fn instants_compare_by_time() {
    assert!(Instant(Duration::from_secs(1)) < Instant(Duration::from_millis(1_001)));
}

#[test]
fn sleep_ends_at_its_deadline() {
    let mut rng = GlobalRng::new_with_seed(0);
    let mut time: TimeRuntime<SimEvent<u32>> = TimeRuntime::new(&mut rng);
    let (count, waker) = counter();
    let sleep = time.handle().sleep(Duration::from_secs(1));
    assert_eq!(time.handle.poll_sleep(sleep, NodeId(1), waker.clone()), Poll::Pending);
    assert_eq!(time.handle.timer.next(), Some(Duration::from_secs(86401)));
    let mut net: Network<u32> = Network::new(NetworkConfig::default());
    for event in time.advance_to_next_event().unwrap() {
        fire(&mut net, event);
    }
    assert_eq!(count.0.load(Ordering::SeqCst), 1);
    assert_eq!(time.handle.poll_sleep(sleep, NodeId(1), waker), Poll::Ready(()));
    assert_eq!(time.handle.timer.next(), None);
}

#[test]
fn unnamed_nodes_are_named_by_number() {
    let mut tasks: TaskHandle<char, (), ()> = TaskHandle::new(1);
    tasks.next_node_id = 9;
    let names: Vec<String> = (0..2)
        .map(|_| {
            let (_, node) = tasks.create_node(None, None);
            tasks.infos[node.info].name()
        })
        .collect();
    assert_eq!(names, vec!["node-9", "node-10"]);
    tasks.next_node_id = 12345678901234567890;
    let (_, node) = tasks.create_node(None, None);
    assert_eq!(tasks.infos[node.info].name(), "node-12345678901234567890");
}
