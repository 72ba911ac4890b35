use std::future::Future;
use std::pin::Pin;
use std::sync::atomic::{AtomicBool, AtomicUsize, Ordering};
use std::sync::{Arc, Mutex, MutexGuard};
use std::task::{Context, Wake, Waker};

use futures::future::{join, join_all, poll_fn};
use tokio::sync::Barrier;

use msim::config::SimConfig;
use msim::net::addr::{IpAddr, SocketAddr};
use msim::net::buffer::ReadBuf;
use msim::net::error::{ErrorKind, NetError};
use msim::net::handshake::{
    accept_connection, connect_begin, connect_finish, GivenUp, TcpIds, OPENING_TAG,
};
use msim::net::mailbox::{Message, Reception};
use msim::net::socket::Endpoint;
use msim::net::tcp::{Carried, TcpStream};
use msim::random::{GlobalRng, Log, NonDeterminism, RandLog};
use msim::runtime::watchdog::{Watchdog, WatchdogVerdict};
use msim::runtime::{
    is_current_task_killed, kill_current_node, shutdown_all_nodes, shutdown_current_node, Handle,
    NodeBuilder, NodeHandle,
};
use msim::task::blocking::{thread_step, JobStep, RoundPlan, ThreadStep, Turn, TurnKind, Unwound};
use msim::task::executor::{
    handle_task_panic, settle_job, JobPanic, JobRoute, PanicAction, PanicWrapper, RoundOutcome,
};
use msim::task::join::{Id, JoinError, JoinHandle};
use msim::task::{NodeId, Ready, TaskNodeHandle};
use msim::time::clock::{ClockId, Instant};
use msim::time::duration::Duration;
use msim::time::{timeout, Elapsed, Poll};

type Data = Carried<Vec<u8>>;
type Boxed = Pin<Box<dyn Future<Output = ()> + Send>>;
type Init = Arc<dyn Fn(&Sim) -> Boxed + Send + Sync>;
type World = Handle<Arc<Task>, Init, Job, Data>;

/// What a slice of a blocking job has come to.
enum Slice {
    Yield,
    Done,
    Unwind(Unwound),
}

/// A blocking job, run slice by slice.
type Job = Box<dyn FnMut(&Sim) -> Slice + Send>;

/// What a blocking closure has come to when it gives up its turn.
enum Step<T> {
    Yield,
    Done(T),
    Kill(PanicWrapper),
    Panic(&'static str),
}

/// Waits for a blocking closure.
struct Waiter<T> {
    rx: futures::channel::oneshot::Receiver<Result<T, &'static str>>,
    finished: Arc<AtomicBool>,
}

impl<T> Waiter<T> {
    fn is_finished(&self) -> bool {
        self.finished.load(Ordering::SeqCst)
    }

    async fn join(self) -> Result<T, futures::channel::oneshot::Canceled> {
        match self.rx.await {
            Ok(Ok(value)) => Ok(value),
            Ok(Err(text)) => panic!("{}", text),
            Err(canceled) => Err(canceled),
        }
    }
}

struct Task {
    info: usize,
    scheduled: AtomicBool,
    future: Mutex<Option<Boxed>>,
    woken: Arc<Mutex<Vec<Arc<Task>>>>,
}

impl Wake for Task {
    fn wake(self: Arc<Self>) {
        if !self.scheduled.swap(true, Ordering::SeqCst) {
            let woken = self.woken.clone();
            woken.lock().unwrap().push(self);
        }
    }
}

struct Shared {
    world: Mutex<World>,
    woken: Arc<Mutex<Vec<Arc<Task>>>>,
    threads: Mutex<Vec<Option<Job>>>,
    ids: Mutex<TcpIds>,
}

#[derive(Clone)]
struct Sim(Arc<Shared>);

fn secs(n: u64) -> Duration {
    Duration::from_secs(n)
}

fn to_std<T>(poll: Poll<T>) -> std::task::Poll<T> {
    match poll {
        Poll::Ready(value) => std::task::Poll::Ready(value),
        Poll::Pending => std::task::Poll::Pending,
    }
}

fn from_std<T>(poll: std::task::Poll<T>) -> Poll<T> {
    match poll {
        std::task::Poll::Ready(value) => Poll::Ready(value),
        std::task::Poll::Pending => Poll::Pending,
    }
}

/// The output of a spawned task, and who waits for it.
struct Slot<T> {
    output: Option<T>,
    waker: Option<Waker>,
}

/// Aborts a task, whoever waits for it.
struct Aborter(Arc<Mutex<JoinHandle<Arc<Task>>>>);

impl Aborter {
    fn abort(&self) {
        let aborted = self.0.lock().unwrap().abort();
        if let Some(task) = aborted {
            let dropped = task.future.lock().unwrap().take();
            drop(dropped);
        }
    }
}

struct Joiner<T> {
    handle: Arc<Mutex<JoinHandle<Arc<Task>>>>,
    slot: Arc<Mutex<Slot<T>>>,
}

impl<T> Joiner<T> {
    fn abort(&self) {
        self.abort_handle().abort();
    }

    fn abort_handle(&self) -> Aborter {
        Aborter(self.handle.clone())
    }

    fn is_finished(&self) -> bool {
        let completed = self.slot.lock().unwrap().output.is_some();
        self.handle.lock().unwrap().is_finished(completed)
    }

    async fn join(&mut self) -> Result<T, JoinError> {
        poll_fn(|cx| {
            let polled = {
                let mut slot = self.slot.lock().unwrap();
                match slot.output.take() {
                    Some(output) => Poll::Ready(Some(output)),
                    None => {
                        slot.waker = Some(cx.waker().clone());
                        let gone = match &self.handle.lock().unwrap().task {
                            Some(task) => task.future.lock().unwrap().is_none(),
                            None => true,
                        };
                        if gone {
                            Poll::Ready(None)
                        } else {
                            Poll::Pending
                        }
                    }
                }
            };
            to_std(self.handle.lock().unwrap().joined(polled))
        })
        .await
    }
}

impl Sim {
    fn new() -> Sim {
        Sim::with_seed(0)
    }

    fn with_seed(seed: u64) -> Sim {
        let (world, _) = World::with_seed_and_config(seed, SimConfig::default(), 16);
        Sim(Arc::new(Shared {
            world: Mutex::new(world),
            woken: Arc::new(Mutex::new(Vec::new())),
            threads: Mutex::new((0..16).map(|_| None).collect()),
            ids: Mutex::new(TcpIds { next: 1 }),
        }))
    }

    fn world(&self) -> MutexGuard<'_, World> {
        self.0.world.lock().unwrap()
    }

    fn create_node(&self, builder: NodeBuilder<Init>) -> NodeId {
        let (id, node) = self.world().build(builder);
        self.spawn_init(id, node);
        id
    }

    fn node(&self, ip: IpAddr) -> NodeId {
        self.create_node(NodeBuilder::new().ip(ip))
    }

    fn spawn_init(&self, id: NodeId, node: NodeHandle) {
        let init = self.world().executor.handle.init_of(id).cloned();
        if let Some(init) = init {
            let future = init(self);
            self.spawn_as(node.task.info, future);
        }
    }

    fn schedule(&self, info: usize, future: Boxed) -> Arc<Task> {
        let task = Arc::new(Task {
            info,
            scheduled: AtomicBool::new(true),
            future: Mutex::new(Some(future)),
            woken: self.0.woken.clone(),
        });
        self.world().executor.handle.schedule(task.clone(), info);
        self.world()
            .executor
            .handle
            .watch_killed(info, Waker::from(task.clone()));
        task
    }

    fn spawn_as<F>(&self, info: usize, future: F) -> Joiner<F::Output>
    where
        F: Future + Send + 'static,
        F::Output: Send + 'static,
    {
        let slot = Arc::new(Mutex::new(Slot { output: None, waker: None }));
        let filled = slot.clone();
        let task = self.schedule(
            info,
            Box::pin(async move {
                let output = future.await;
                let mut slot = filled.lock().unwrap();
                slot.output = Some(output);
                if let Some(waker) = slot.waker.take() {
                    waker.wake();
                }
            }),
        );
        Joiner { handle: Arc::new(Mutex::new(JoinHandle::new(Id(1), task))), slot }
    }

    fn spawn_on<F>(&self, node: NodeId, future: F) -> Joiner<F::Output>
    where
        F: Future + Send + 'static,
        F::Output: Send + 'static,
    {
        let info = self.world().get_node(node).unwrap().task.info;
        self.spawn_as(info, future)
    }

    fn spawn<F>(&self, future: F) -> Joiner<F::Output>
    where
        F: Future + Send + 'static,
        F::Output: Send + 'static,
    {
        let info = NodeHandle::current(&self.world()).task.info;
        self.spawn_as(info, future)
    }

    fn current_node(&self) -> NodeId {
        let world = self.world();
        NodeHandle::current(&world).id(&world)
    }

    fn now(&self) -> Instant {
        self.world().time().now_instant()
    }

    fn after(&self, start: Instant, duration: Duration) -> Instant {
        Instant(start.0.plus(duration))
    }

    fn since(&self, start: Instant) -> Duration {
        self.now().0.minus(start.0)
    }

    fn monotonic(&self) -> Duration {
        let (secs, nanos) = self.world().time().clock.clock_gettime(ClockId::Monotonic);
        Duration::from_parts(secs, nanos)
    }

    async fn sleep(&self, duration: Duration) {
        let deadline = self.world().time().sleep(duration).deadline;
        self.sleep_until(deadline).await
    }

    async fn sleep_until(&self, deadline: Instant) {
        poll_fn(|cx| {
            if self.now() >= deadline {
                return std::task::Poll::Ready(());
            }
            let node = self.current_node();
            let waker = cx.waker().clone();
            self.world()
                .executor
                .time
                .handle
                .wake_at(node, deadline, waker);
            std::task::Poll::Pending
        })
        .await
    }

    async fn timeout<F: Future>(&self, duration: Duration, future: F) -> Result<F::Output, Elapsed> {
        let mut future = Box::pin(future);
        let mut timer = Box::pin(self.sleep(duration));
        poll_fn(|cx| {
            let work = from_std(future.as_mut().poll(cx));
            let up = from_std(timer.as_mut().poll(cx));
            to_std(timeout(work, up))
        })
        .await
    }

    async fn yield_now(&self) {
        let mut yielded = false;
        poll_fn(|cx| {
            if yielded {
                return std::task::Poll::Ready(());
            }
            yielded = true;
            cx.waker().wake_by_ref();
            std::task::Poll::Pending
        })
        .await
    }

    /// Takes over what has been woken.
    fn take_woken(&self) {
        let woken: Vec<Arc<Task>> = std::mem::take(&mut *self.0.woken.lock().unwrap());
        let mut world = self.world();
        for task in woken {
            let info = task.info;
            world.executor.handle.schedule(task, info);
        }
    }

    fn run_all_ready(&self) {
        loop {
            self.take_woken();
            let ready = {
                let mut world = self.world();
                let world = &mut *world;
                world.executor.handle.next_ready(&mut world.rand)
            };
            match ready {
                None => return,
                Some(Ready::Parked) => {}
                Some(Ready::Drop(task, info)) => {
                    let guard = self.world().context.enter_task(info);
                    let dropped = task.future.lock().unwrap().take();
                    drop(dropped);
                    self.world().context.leave_task(guard);
                }
                Some(Ready::Run(task, info)) => {
                    let guard = self.world().context.enter_task(info);
                    task.scheduled.store(false, Ordering::SeqCst);
                    let waker = Waker::from(task.clone());
                    let mut cx = Context::from_waker(&waker);
                    let future = task.future.lock().unwrap().take();
                    if let Some(mut future) = future {
                        if future.as_mut().poll(&mut cx).is_pending() {
                            *task.future.lock().unwrap() = Some(future);
                        }
                    }
                    let mut world = self.world();
                    let world = &mut *world;
                    world.context.leave_task(guard);
                    world.executor.advance_after_run(&mut world.rand);
                }
            }
        }
    }

    /// Runs a slice of the job of thread `me` and ends its turn.
    fn run_slice(&self, me: usize, info: usize, mut job: Job) {
        let guard = self.world().context.enter_task(info);
        let slice = job(self);
        let mut world = self.world();
        world.context.leave_task(guard);
        let world = &mut *world;
        let pool = &mut world.executor.handle.blocking;
        match slice {
            Slice::Yield => self.0.threads.lock().unwrap()[me] = Some(job),
            Slice::Done => pool.note_complete(me as u32),
            Slice::Unwind(how) => {
                pool.note_unwound(me as u32, how, &world.executor.handle.infos)
            }
        }
        pool.end_turn();
    }

    /// What thread `me` does with the turn that it was granted.
    fn take_turn(&self, me: usize) {
        let kind = self
            .world()
            .executor
            .handle
            .blocking
            .wait_turn(me as u32)
            .unwrap();
        let parked = self.0.threads.lock().unwrap()[me].take();
        if let Some(job) = parked {
            let info = self.world().executor.handle.blocking.current[me].unwrap();
            let unwind = self
                .world()
                .executor
                .handle
                .blocking
                .resume(me as u32, kind);
            if unwind {
                drop(job);
                let mut world = self.world();
                let world = &mut *world;
                let pool = &mut world.executor.handle.blocking;
                pool.note_unwound(me as u32, Unwound::Abort, &world.executor.handle.infos);
                pool.end_turn();
            } else {
                self.run_slice(me, info, job);
            }
            return;
        }
        assert_eq!(thread_step(kind), ThreadStep::Work);
        let step = {
            let mut world = self.world();
            let world = &mut *world;
            world.executor.handle.blocking.run_one(
                &mut world.rand,
                me as u32,
                &world.executor.handle.infos,
            )
        };
        match step {
            JobStep::Run(job, info) => self.run_slice(me, info, job),
            JobStep::Drop(job, _) => {
                drop(job);
                self.world().executor.handle.blocking.end_turn();
            }
            JobStep::Nothing | JobStep::Requeued => {
                self.world().executor.handle.blocking.end_turn();
            }
        }
    }

    fn wake_round(&self) -> (usize, bool) {
        let plan = {
            let mut world = self.world();
            let world = &mut *world;
            world.executor.handle.blocking.begin_round(&mut world.rand)
        };
        let stats = match plan {
            RoundPlan::Skip(stats) => stats,
            RoundPlan::Grant(order) => {
                for i in order {
                    let turn = {
                        let mut world = self.world();
                        let world = &mut *world;
                        world
                            .executor
                            .handle
                            .blocking
                            .grant(i, &world.executor.handle.infos)
                    };
                    if turn.is_none() {
                        continue;
                    }
                    self.take_turn(i);
                    let mut world = self.world();
                    let world = &mut *world;
                    assert_eq!(world.executor.handle.blocking.turn, Turn::Idle);
                    world.executor.advance_after_run(&mut world.rand);
                }
                self.world().executor.handle.blocking.end_round()
            }
        };
        for (node, panic) in stats.panics {
            match handle_task_panic(Some(panic)) {
                PanicAction::RestartAfter(after) => self.restart_later(node, after),
                PanicAction::Ignore => {}
                PanicAction::Propagate => panic!("unexpected panic"),
            }
        }
        (stats.dequeued, stats.pending)
    }

    fn restart_later(&self, node: NodeId, after: Duration) {
        let info = self.world().executor.handle.main_identity();
        let sim = self.clone();
        self.spawn_as(info, async move {
            sim.sleep(after).await;
            let restarted = sim.world().restart_if_present(node);
            if let Some((remains, handle)) = restarted {
                wake(remains.watchers);
                sim.spawn_init(node, handle);
            }
        });
    }

    fn spawn_blocking_as<T: Send + 'static>(
        &self,
        info: usize,
        mut f: impl FnMut(&Sim) -> Step<T> + Send + 'static,
    ) -> Waiter<T> {
        let (tx, rx) = futures::channel::oneshot::channel();
        let finished = Arc::new(AtomicBool::new(false));
        let flag = finished.clone();
        let mut tx = Some(tx);
        let job: Job = Box::new(move |sim| {
            let end = match f(sim) {
                Step::Yield => return Slice::Yield,
                Step::Done(value) => Ok(value),
                Step::Kill(panic) => Err(JobPanic::Kill(panic)),
                Step::Panic(text) => Err(JobPanic::Other(text)),
            };
            match settle_job(end) {
                JobRoute::Send(outcome) => {
                    flag.store(true, Ordering::SeqCst);
                    let _ = tx.take().unwrap().send(outcome);
                    Slice::Done
                }
                JobRoute::Unwind(how) => Slice::Unwind(how),
            }
        });
        self.world().executor.handle.blocking.spawn(job, info);
        Waiter { rx, finished }
    }

    fn spawn_blocking_on<T: Send + 'static>(
        &self,
        node: NodeId,
        f: impl FnMut(&Sim) -> Step<T> + Send + 'static,
    ) -> Waiter<T> {
        let info = self.world().get_node(node).unwrap().task.info;
        self.spawn_blocking_as(info, f)
    }

    fn spawn_blocking<T: Send + 'static>(
        &self,
        f: impl FnMut(&Sim) -> Step<T> + Send + 'static,
    ) -> Waiter<T> {
        let info = NodeHandle::current(&self.world()).task.info;
        self.spawn_blocking_as(info, f)
    }

    /// Ends the pool's threads and drops what the executor holds.
    fn teardown(&self) -> usize {
        let (running, left) = self.world().executor.teardown();
        let threads = if running { 16 } else { 0 };
        for me in 0..threads {
            let kind = self.world().executor.handle.blocking.wait_turn(me).unwrap();
            assert_eq!(kind, TurnKind::Exit);
            let parked = self.0.threads.lock().unwrap()[me as usize].take();
            if parked.is_some() {
                assert!(self.world().executor.handle.blocking.resume(me, kind));
            } else {
                assert_eq!(thread_step(kind), ThreadStep::Exit);
            }
            drop(parked);
            self.world().executor.handle.blocking.end_turn();
        }
        if running {
            assert_eq!(self.world().executor.handle.blocking.turn, Turn::Shutdown);
        }
        let parked = left.len();
        for task in left {
            let future = task.future.lock().unwrap().take();
            drop(future);
        }
        parked
    }

    fn block_on<F>(&self, future: F) -> Result<F::Output, RoundOutcome>
    where
        F: Future + Send + 'static,
        F::Output: Send + 'static,
    {
        let info = self.world().executor.handle.main_identity();
        let joiner = self.spawn_as(info, future);
        let mut stalled = 0;
        loop {
            self.run_all_ready();
            if let Some(output) = joiner.slot.lock().unwrap().output.take() {
                return Ok(output);
            }
            let (dequeued, pending) = self.wake_round();
            self.take_woken();
            let end = {
                let mut world = self.world();
                let world = &mut *world;
                world.executor.finish_round(&mut world.rand, dequeued, pending, stalled)
            };
            stalled = end.stalled_rounds;
            for event in end.fired {
                let fired = self.world().net.fire(event);
                wake(fired.woken);
                if let Some(delivery) = fired.arriving {
                    let woken = self.world().net.deliver(delivery);
                    wake(woken);
                }
            }
            if end.outcome != RoundOutcome::Continue {
                return Err(end.outcome);
            }
        }
    }

    fn kill(&self, node: NodeId) {
        let remains = self.world().kill(node);
        wake(remains.watchers);
    }

    fn restart(&self, node: NodeId) {
        let (remains, handle) = self.world().restart(node);
        wake(remains.watchers);
        self.spawn_init(node, handle);
    }

    async fn recv(&self, ep: Endpoint, tag: u64) -> Message<Data> {
        let reception = self.world().net.recv(ep.node, ep.addr, tag);
        match reception {
            Reception::Ready(msg) => msg,
            Reception::Waiting(rx) => rx.await.unwrap(),
        }
    }

    fn listen(&self, addr: SocketAddr) -> Endpoint {
        let node = self.current_node();
        Endpoint::bind_any(&mut self.world().net, node, &vec![addr]).unwrap()
    }

    fn close_listener(&self, ep: Endpoint) {
        self.world().net.close(ep.node, ep.addr);
    }

    fn allocate(&self, node: NodeId) -> u32 {
        let mut ids = self.0.ids.lock().unwrap();
        ids.allocate_local_tcp_id(&mut self.world().net, node)
    }

    async fn accept(&self, ep: Endpoint) -> Result<Stream, NetError> {
        let msg = self.recv(ep, OPENING_TAG).await;
        let id = self.allocate(ep.node);
        let current = self.current_node();
        let mut world = self.world();
        let world = &mut *world;
        let stream = accept_connection(
            &mut world.rand,
            &mut world.net,
            &mut world.executor.time.handle,
            current,
            ep,
            msg,
            id,
        )
        .map_err(given_up)?;
        Ok(Stream { sim: self.clone(), inner: Mutex::new(Some(stream)) })
    }

    async fn connect(&self, addr: SocketAddr) -> Result<Stream, NetError> {
        let current = self.current_node();
        let ep = Endpoint::connect(&mut self.world().net, current, addr)?;
        let id = self.allocate(ep.node);
        let (state, tag) = {
            let mut world = self.world();
            let world = &mut *world;
            connect_begin(
                &mut world.rand,
                &mut world.net,
                &mut world.executor.time.handle,
                current,
                ep,
                id,
            )
            .map_err(given_up)?
        };
        let msg = self.recv(ep, tag).await;
        assert_eq!(msg.from, addr);
        let stream = connect_finish(state, msg);
        Ok(Stream { sim: self.clone(), inner: Mutex::new(Some(stream)) })
    }
}

fn wake(woken: Vec<Waker>) {
    for waker in woken {
        waker.wake();
    }
}

fn given_up(given_up: GivenUp) -> NetError {
    wake(given_up.woken);
    given_up.err
}

struct Stream {
    sim: Sim,
    inner: Mutex<Option<TcpStream>>,
}

impl Stream {
    async fn read(&self, is_poll: bool, capacity: usize) -> Result<Vec<u8>, NetError> {
        let mut buf = ReadBuf::new(capacity);
        let n = poll_fn(|cx| {
            let current = self.sim.current_node();
            let waker = cx.waker().clone();
            let mut inner = self.inner.lock().unwrap();
            let stream = inner.as_mut().unwrap();
            let mut world = self.sim.world();
            let poll = if is_poll {
                stream.peek(&mut world.net, current, Some(waker), &mut buf)
            } else {
                stream.poll_read_priv(&mut world.net, current, false, Some(waker), &mut buf)
            };
            to_std(poll)
        })
        .await?;
        assert_eq!(buf.filled.len(), n);
        Ok(buf.filled)
    }

    async fn read_u64(&self) -> Result<u64, NetError> {
        let mut bytes = Vec::new();
        while bytes.len() < 8 {
            bytes.extend(self.read(false, 8 - bytes.len()).await?);
        }
        let mut array = [0; 8];
        array.copy_from_slice(&bytes);
        Ok(u64::from_be_bytes(array))
    }

    fn write(&self, bytes: &[u8]) -> Result<usize, NetError> {
        let mut inner = self.inner.lock().unwrap();
        let mut world = self.sim.world();
        let world = &mut *world;
        let poll = inner.as_mut().unwrap().poll_write_priv(
            &mut world.rand,
            &mut world.net,
            &mut world.executor.time.handle,
            bytes.to_vec(),
        );
        match poll {
            Poll::Ready(result) => result,
            Poll::Pending => panic!("writes complete at once"),
        }
    }
}

impl Drop for Stream {
    fn drop(&mut self) {
        if let Some(stream) = self.inner.lock().unwrap().take() {
            let current = stream.state.ep.node;
            let woken = stream.close(&mut self.sim.world().net, current);
            wake(woken);
        }
    }
}

fn addr1() -> SocketAddr {
    SocketAddr::new(IpAddr::v4(10, 0, 0, 1), 1)
}

fn addr2() -> SocketAddr {
    SocketAddr::new(IpAddr::v4(10, 0, 0, 2), 1)
}

fn set_every_two_seconds(sim: &Sim, flag: Arc<AtomicUsize>) -> Boxed {
    let sim = sim.clone();
    Box::pin(async move {
        loop {
            sim.sleep(secs(2)).await;
            flag.fetch_add(2, Ordering::SeqCst);
        }
    })
}

#[test]
fn spawn_in_block_on() {
    let sim = Sim::new();
    let inner = sim.clone();
    sim.block_on(async move {
        assert_eq!(inner.spawn(async { 1 }).join().await, Ok(1));
        assert_eq!(inner.spawn(async { 2 }).join().await, Ok(2));
    })
    .unwrap();
}

#[test]
fn kill() {
    let sim = Sim::new();
    let node1 = sim.create_node(NodeBuilder::new());
    let node2 = sim.create_node(NodeBuilder::new());

    let flag1 = Arc::new(AtomicUsize::new(0));
    let flag2 = Arc::new(AtomicUsize::new(0));

    sim.spawn_on(node1, set_every_two_seconds(&sim, flag1.clone()));
    sim.spawn_on(node2, set_every_two_seconds(&sim, flag2.clone()));

    let s = sim.clone();
    sim.block_on(async move {
        let t0 = s.now();

        s.sleep_until(s.after(t0, secs(3))).await;
        assert_eq!(flag1.load(Ordering::SeqCst), 2);
        assert_eq!(flag2.load(Ordering::SeqCst), 2);
        s.kill(node1);
        s.kill(node1);

        s.sleep_until(s.after(t0, secs(5))).await;
        assert_eq!(flag1.load(Ordering::SeqCst), 2);
        assert_eq!(flag2.load(Ordering::SeqCst), 4);
    })
    .unwrap();
}

fn resetting_init(flag: Arc<AtomicUsize>) -> Init {
    Arc::new(move |sim: &Sim| {
        let flag = flag.clone();
        let sim = sim.clone();
        Box::pin(async move {
            // set flag to 0, then +2 every 2s
            flag.store(0, Ordering::SeqCst);
            loop {
                sim.sleep(secs(2)).await;
                flag.fetch_add(2, Ordering::SeqCst);
            }
        })
    })
}

#[test]
fn restart() {
    let sim = Sim::new();
    let flag = Arc::new(AtomicUsize::new(0));
    let node = sim.create_node(NodeBuilder::new().init(resetting_init(flag.clone())));

    let s = sim.clone();
    sim.block_on(async move {
        let t0 = s.now();

        s.sleep_until(s.after(t0, secs(3))).await;
        assert_eq!(flag.load(Ordering::SeqCst), 2);
        s.kill(node);
        s.restart(node);

        s.sleep_until(s.after(t0, secs(6))).await;
        assert_eq!(flag.load(Ordering::SeqCst), 2);

        s.sleep_until(s.after(t0, secs(8))).await;
        assert_eq!(flag.load(Ordering::SeqCst), 4);
    })
    .unwrap();
}

#[test]
fn pause_resume() {
    let sim = Sim::new();
    let node = sim.create_node(NodeBuilder::new());

    let flag = Arc::new(AtomicUsize::new(0));
    sim.spawn_on(node, set_every_two_seconds(&sim, flag.clone()));

    let s = sim.clone();
    sim.block_on(async move {
        let t0 = s.now();

        s.sleep_until(s.after(t0, secs(3))).await;
        assert_eq!(flag.load(Ordering::SeqCst), 2);
        s.world().pause(node);
        s.world().pause(node);

        s.sleep_until(s.after(t0, secs(5))).await;
        assert_eq!(flag.load(Ordering::SeqCst), 2);

        s.world().resume(node);
        s.world().resume(node);
        s.sleep_until(s.after(t0, Duration::from_millis(5500))).await;
        assert_eq!(flag.load(Ordering::SeqCst), 4);
    })
    .unwrap();
}

#[test]
fn random_select_from_ready_tasks() {
    let mut seqs = std::collections::HashSet::new();
    for seed in 0..10 {
        let sim = Sim::with_seed(seed);
        let s = sim.clone();
        let seq = sim
            .block_on(async move {
                let sent = Arc::new(Mutex::new(Vec::new()));
                let mut tasks = vec![];
                for i in 0..3 {
                    let sent = sent.clone();
                    let inner = s.clone();
                    tasks.push(s.spawn(async move {
                        for j in 0..5 {
                            sent.lock().unwrap().push(i * 10 + j);
                            inner.yield_now().await;
                        }
                    }));
                }
                join_all(tasks.iter_mut().map(|task| task.join())).await;
                let seq = sent.lock().unwrap().clone();
                seq
            })
            .unwrap();
        seqs.insert(seq);
    }
    assert_eq!(seqs.len(), 10);
}

#[test]
fn same_seed_gives_the_same_run() {
    let run = |seed: u64| {
        let sim = Sim::with_seed(seed);
        let s = sim.clone();
        sim.block_on(async move {
            let order = Arc::new(Mutex::new(Vec::new()));
            let mut tasks = vec![];
            for i in 0..5 {
                let order = order.clone();
                let inner = s.clone();
                tasks.push(s.spawn(async move {
                    inner.yield_now().await;
                    order.lock().unwrap().push((i, inner.now()));
                }));
            }
            join_all(tasks.iter_mut().map(|task| task.join())).await;
            let order = order.lock().unwrap().clone();
            order
        })
        .unwrap()
    };
    assert_eq!(run(42), run(42));
    assert_ne!(run(42), run(43));
}

#[test]
fn await_future_in_node() {
    let sim = Sim::new();
    let node1 = sim.create_node(NodeBuilder::new());
    let node2 = sim.create_node(NodeBuilder::new());

    let s = sim.clone();
    sim.block_on(async move {
        let inner = s.clone();
        s.spawn_on(node1, async move {
            let entered = inner.clone();
            let info = inner.world().get_node(node2).unwrap().task.info;
            let mut future = Box::pin(async move {
                entered.yield_now().await;
                entered.current_node()
            });
            let id = poll_fn(|cx| {
                let node = NodeHandle { task: TaskNodeHandle { info } };
                let guard = node.enter_node(&mut inner.world().context);
                let poll = future.as_mut().poll(cx);
                inner.world().context.leave_task(guard);
                poll
            })
            .await;

            assert_eq!(id, node2);
            assert_eq!(inner.current_node(), node1);
        })
        .join()
        .await
        .unwrap();
    })
    .unwrap();
}

#[test]
fn test_abort() {
    let sim = Sim::new();

    let s = sim.clone();
    sim.block_on(async move {
        let inner = s.clone();
        let mut jh = s.spawn(async move {
            inner.sleep(secs(5)).await;
            panic!();
        });
        s.sleep(secs(1)).await;
        assert!(!jh.is_finished());
        jh.abort();
        assert!(jh.is_finished());
        jh.join().await.unwrap_err();
    })
    .unwrap();

    let s = sim.clone();
    sim.block_on(async move {
        let inner = s.clone();
        let mut jh = s.spawn(async move {
            inner.sleep(secs(5)).await;
            panic!();
        });
        s.sleep(secs(1)).await;
        let ah = jh.abort_handle();
        ah.abort();
        assert!(jh.is_finished());
        ah.abort();
        jh.join().await.unwrap_err();
        s.sleep(secs(10)).await;
    })
    .unwrap();
}

#[test]
fn spawn_blocking_basic() {
    let sim = Sim::new();
    let s = sim.clone();
    sim.block_on(async move {
        let v = s.spawn_blocking(|_| Step::Done(40 + 2)).join().await.unwrap();
        assert_eq!(v, 42);
    })
    .unwrap();
}

#[test]
fn spawn_blocking_yield_wait() {
    let sim = Sim::new();
    let s = sim.clone();
    sim.block_on(async move {
        let flag = Arc::new(AtomicBool::new(false));

        let flag1 = flag.clone();
        let blocking = s.spawn_blocking(move |_| {
            if !flag1.load(Ordering::SeqCst) {
                return Step::Yield;
            }
            Step::Done(123)
        });

        let flag2 = flag.clone();
        let inner = s.clone();
        s.spawn(async move {
            inner.sleep(secs(1)).await;
            flag2.store(true, Ordering::SeqCst);
        });

        assert_eq!(blocking.join().await.unwrap(), 123);
    })
    .unwrap();
}

#[test]
fn spawn_blocking_cross_task_wait() {
    // two blocking tasks that wait on each other's progress via yield points.
    let sim = Sim::new();
    let s = sim.clone();
    sim.block_on(async move {
        let flag = Arc::new(AtomicBool::new(false));

        let flag1 = flag.clone();
        let waiter = s.spawn_blocking(move |_| {
            if !flag1.load(Ordering::SeqCst) {
                return Step::Yield;
            }
            Step::Done(())
        });

        let flag2 = flag.clone();
        // yield a few times before setting the flag, so the waiter parks.
        let mut yields = 3;
        let setter = s.spawn_blocking(move |_| {
            if yields > 0 {
                yields -= 1;
                return Step::Yield;
            }
            flag2.store(true, Ordering::SeqCst);
            Step::Done(())
        });

        setter.join().await.unwrap();
        waiter.join().await.unwrap();
    })
    .unwrap();
}

#[test]
fn spawn_blocking_nested() {
    let sim = Sim::new();
    let s = sim.clone();
    sim.block_on(async move {
        let mut inner: Option<Waiter<i32>> = None;
        let v = s
            .spawn_blocking(move |sim| {
                let inner = inner.get_or_insert_with(|| sim.spawn_blocking(|_| Step::Done(7)));
                // wait for the inner task from the pool thread via yield points.
                if !inner.is_finished() {
                    return Step::Yield;
                }
                Step::Done(8)
            })
            .join()
            .await
            .unwrap();
        assert_eq!(v, 8);
    })
    .unwrap();
}

#[test]
fn spawn_blocking_deterministic_order() {
    let run = |seed: u64| {
        let sim = Sim::with_seed(seed);
        let s = sim.clone();
        sim.block_on(async move {
            let order = Arc::new(Mutex::new(Vec::new()));
            let mut handles = Vec::new();
            for i in 0..10 {
                let order = order.clone();
                let mut yielded = false;
                handles.push(s.spawn_blocking(move |_| {
                    if !yielded {
                        yielded = true;
                        order.lock().unwrap().push(i);
                        return Step::Yield;
                    }
                    order.lock().unwrap().push(i + 100);
                    Step::Done(())
                }));
            }
            for h in handles {
                h.join().await.unwrap();
            }
            let order = order.lock().unwrap().clone();
            order
        })
        .unwrap()
    };
    let a = run(42);
    let b = run(42);
    assert_eq!(a, b);
    assert_eq!(a.len(), 20);
}

#[test]
#[should_panic(expected = "boom in blocking task")]
fn spawn_blocking_panic_propagates() {
    let sim = Sim::new();
    let s = sim.clone();
    let _ = sim.block_on(async move {
        let _ = s
            .spawn_blocking(|_| Step::<()>::Panic("boom in blocking task"))
            .join()
            .await;
    });
}

struct SetOnDrop(Arc<AtomicBool>);

impl Drop for SetOnDrop {
    fn drop(&mut self) {
        self.0.store(true, Ordering::SeqCst);
    }
}

#[test]
fn spawn_blocking_kill_unwinds_parked_task() {
    let sim = Sim::new();
    let node = sim.create_node(NodeBuilder::new());
    let dropped = Arc::new(AtomicBool::new(false));

    let guard = SetOnDrop(dropped.clone());
    let handle = sim.spawn_blocking_on(node, move |_| {
        let _guard = &guard;
        Step::<()>::Yield
    });

    let s = sim.clone();
    sim.block_on(async move {
        s.sleep(secs(1)).await;
        assert!(!dropped.load(Ordering::SeqCst));
        s.kill(node);
        // the abort is delivered at the next wake round; the task unwinds,
        // running its Drop impls on the pool thread.
        s.sleep(secs(1)).await;
        assert!(dropped.load(Ordering::SeqCst));
        assert!(handle.join().await.is_err());
    })
    .unwrap();
}

#[test]
fn spawn_blocking_shutdown_unwinds_parked_task() {
    let sim = Sim::new();
    let dropped = Arc::new(AtomicBool::new(false));

    let guard = SetOnDrop(dropped.clone());
    let s = sim.clone();
    sim.block_on(async move {
        s.spawn_blocking(move |_| {
            let _guard = &guard;
            Step::<()>::Yield
        });
        // return with the blocking task still parked.
        s.sleep(secs(1)).await;
    })
    .unwrap();

    assert!(!dropped.load(Ordering::SeqCst));
    sim.teardown();
    assert!(dropped.load(Ordering::SeqCst));
}

#[test]
fn spawn_blocking_kill_current_node_restarts() {
    let sim = Sim::new();
    let flag = Arc::new(AtomicUsize::new(0));
    let node = sim.create_node(NodeBuilder::new().init(resetting_init(flag.clone())));

    let s = sim.clone();
    sim.block_on(async move {
        let t0 = s.now();

        s.sleep_until(s.after(t0, secs(3))).await;
        assert_eq!(flag.load(Ordering::SeqCst), 2);

        // kill from a blocking task: the request must reach the main loop via the pool, so that
        // the restart is scheduled.
        s.spawn_blocking_on(node, |sim| {
            let (panic, remains) = kill_current_node(&mut sim.world(), Some(secs(2)));
            wake(remains.watchers);
            Step::<()>::Kill(panic)
        });

        // killed at ~3s; restart timer fires at ~5s, resetting the flag.
        s.sleep_until(s.after(t0, secs(6))).await;
        assert_eq!(flag.load(Ordering::SeqCst), 0);

        s.sleep_until(s.after(t0, secs(8))).await;
        assert_eq!(flag.load(Ordering::SeqCst), 2);
    })
    .unwrap();
}

#[test]
#[should_panic(expected = "deadlock")]
fn spawn_blocking_deadlock_detected() {
    let sim = Sim::new();
    let s = sim.clone();
    let end = sim.block_on(async move {
        // parked forever, and no timers exist that could unblock it.
        s.spawn_blocking(|_| Step::<()>::Yield).join().await.unwrap();
    });
    if end == Err(RoundOutcome::Deadlock) {
        panic!("deadlock");
    }
}

#[test]
fn blocking_job_of_a_killed_node_is_dropped() {
    let sim = Sim::new();
    let node = sim.create_node(NodeBuilder::new());
    let ran = Arc::new(AtomicBool::new(false));
    let flag = ran.clone();
    let handle = sim.spawn_blocking_on(node, move |_| {
        flag.store(true, Ordering::SeqCst);
        Step::Done(())
    });
    sim.kill(node);
    let s = sim.clone();
    sim.block_on(async move {
        s.sleep(secs(1)).await;
        assert!(handle.join().await.is_err());
    })
    .unwrap();
    assert!(!ran.load(Ordering::SeqCst));
}

#[test]
fn blocking_job_of_a_paused_node_waits() {
    let sim = Sim::new();
    let node = sim.create_node(NodeBuilder::new());
    sim.world().pause(node);
    let handle = sim.spawn_blocking_on(node, |_| Step::Done(5));
    let s = sim.clone();
    sim.block_on(async move {
        s.sleep(secs(1)).await;
        assert!(!handle.is_finished());
        s.world().resume(node);
        assert_eq!(handle.join().await, Ok(5));
    })
    .unwrap();
}

#[test]
fn pending_forever_has_no_events() {
    let sim = Sim::new();
    let end = sim.block_on(futures::future::pending::<()>());
    assert_eq!(end, Err(RoundOutcome::NoEvents));
}

#[test]
fn time_limit_is_enforced() {
    let sim = Sim::new();
    sim.world().executor.set_time_limit(secs(1));
    let s = sim.clone();
    sim.block_on(async move {
        s.sleep(Duration::from_millis(500)).await;
    })
    .unwrap();
    let s = sim.clone();
    let end = sim.block_on(async move {
        s.sleep(secs(2)).await;
    });
    assert_eq!(end, Err(RoundOutcome::TimeLimitExceeded(secs(1))));
}

#[test]
fn time() {
    let sim = Sim::new();
    let s = sim.clone();
    sim.block_on(async move {
        let t0 = s.now();
        let std_t0 = s.monotonic();

        s.sleep(secs(1)).await;
        assert!(s.since(t0) >= secs(1));

        s.sleep_until(s.after(t0, secs(2))).await;
        assert!(s.since(t0) >= secs(2));

        s.sleep(secs(20)).await;

        // the clock of the operating system shows the same time.
        assert_eq!(s.monotonic().minus(std_t0), s.since(t0));
        assert!(s.timeout(secs(2), s.sleep(secs(1))).await.is_ok());
        assert!(s.timeout(secs(1), s.sleep(secs(2))).await.is_err());
    })
    .unwrap();
}

#[test]
fn system_clock() {
    let sim = Sim::new();
    let s = sim.clone();
    sim.block_on(async move {
        let t0 = s.now();
        let s0 = s.world().time().now_time();

        println!("{:?} {:?}", t0, s0);
    })
    .unwrap();
}

#[test]
fn paused_runnable_dropped_at_teardown() {
    let sim = Sim::new();
    let node = sim.create_node(NodeBuilder::new());
    let dropped = Arc::new(AtomicBool::new(false));
    let guard = SetOnDrop(dropped.clone());
    let inner = sim.clone();
    sim.spawn_on(node, async move {
        let _held = guard;
        loop {
            inner.sleep(Duration::from_millis(1)).await;
        }
    });
    let s = sim.clone();
    sim.block_on(async move {
        s.sleep(Duration::from_millis(10)).await;
        s.world().pause(node);
        // let the task's timer fire while paused, parking its runnable
        s.sleep(Duration::from_millis(50)).await;
    })
    .unwrap();
    assert!(!dropped.load(Ordering::SeqCst));
    assert_eq!(sim.teardown(), 1);
    assert!(dropped.load(Ordering::SeqCst));
}

#[test]
fn task_woken_as_main_future_completes() {
    let sim = Sim::new();
    let node = sim.create_node(NodeBuilder::new());
    let dropped = Arc::new(AtomicBool::new(false));
    let guard = SetOnDrop(dropped.clone());
    let (tx, rx) = futures::channel::oneshot::channel::<()>();
    sim.spawn_on(node, async move {
        let _f = guard;
        let _ = rx.await;
    });
    let s = sim.clone();
    sim.block_on(async move {
        s.sleep(Duration::from_millis(10)).await;
        // wake it and return without yielding again
        let _ = tx.send(());
    })
    .unwrap();
    assert!(dropped.load(Ordering::SeqCst));
    assert_eq!(sim.teardown(), 0);
}

#[test]
fn unrun_blocking_job_dropped_at_teardown() {
    let sim = Sim::new();
    let s = sim.clone();
    let flags: Vec<Arc<AtomicBool>> = (0..64).map(|_| Arc::new(AtomicBool::new(false))).collect();
    let guards: Vec<SetOnDrop> = flags.iter().map(|flag| SetOnDrop(flag.clone())).collect();
    sim.block_on(async move {
        for guard in guards {
            let mut guard = Some(guard);
            // keep the job queued rather than cancelling it via the handle
            std::mem::forget(s.spawn_blocking(move |_| Step::Done(drop(guard.take()))));
        }
    })
    .unwrap();
    assert_eq!(sim.world().executor.handle.blocking.queue.len(), 64);
    sim.teardown();
    let jobs = std::mem::take(&mut sim.world().executor.handle.blocking.queue);
    drop(jobs);
    for flag in flags {
        assert!(flag.load(Ordering::SeqCst));
    }
}

#[test]
fn waiter_woken_by_blocking_pool_shutdown() {
    let sim = Sim::new();
    let node = sim.create_node(NodeBuilder::new());
    let dropped = Arc::new(AtomicBool::new(false));
    let guard = SetOnDrop(dropped.clone());
    let inner = sim.clone();
    sim.spawn_on(node, async move {
        let _f = guard;
        let h = inner.spawn_blocking(|_| Step::<()>::Yield);
        let _ = h.join().await;
    });
    let s = sim.clone();
    sim.block_on(async move {
        s.sleep(Duration::from_millis(1)).await;
    })
    .unwrap();
    sim.teardown();
    // the end of the job has woken its waiter
    sim.take_woken();
    assert!(!dropped.load(Ordering::SeqCst));
    sim.run_all_ready();
    assert!(dropped.load(Ordering::SeqCst));
}

#[test]
fn drop_inside_runtime() {
    let sim = Sim::new();
    let dropped = Arc::new(AtomicBool::new(false));
    let guard = SetOnDrop(dropped.clone());
    let s = sim.clone();
    sim.block_on(async move {
        s.sleep(Duration::from_millis(1)).await;
        drop(guard);
    })
    .unwrap();
    assert!(dropped.load(Ordering::SeqCst));
}

#[test]
fn nodes_kill_themselves() {
    let sim = Sim::new();
    let node = sim.create_node(NodeBuilder::new().name("client".to_string()));
    let other = sim.create_node(NodeBuilder::new());
    assert!(is_current_task_killed(&sim.world()));
    assert_eq!(NodeHandle::try_current(&sim.world()), None);
    let handle = sim.world().get_node(node).unwrap();
    assert_eq!(sim.world().executor.handle.infos[handle.task.info].name(), "client");
    let named = sim.world().get_node(other).unwrap();
    assert_eq!(sim.world().executor.handle.infos[named.task.info].name(), "node-2");
    assert_eq!(handle.join(), Ok(()));

    let guard = handle.enter_node(&mut sim.world().context);
    assert!(!is_current_task_killed(&sim.world()));
    assert_eq!(handle.id(&sim.world()), node);
    let (panic, _) = shutdown_current_node(&mut sim.world());
    assert_eq!(panic, PanicWrapper { restart_after: None });
    assert_eq!(handle_task_panic(Some(panic)), PanicAction::Ignore);
    assert!(is_current_task_killed(&sim.world()));
    let (panic, _) = kill_current_node(&mut sim.world(), None);
    let after = panic.restart_after.unwrap();
    assert!(after >= Duration::from_millis(1000) && after < Duration::from_millis(3000));
    assert_eq!(handle_task_panic(Some(panic)), PanicAction::RestartAfter(after));
    assert_eq!(handle_task_panic(None), PanicAction::Propagate);
    sim.world().context.leave_task(guard);
    assert_eq!(NodeHandle::try_current(&sim.world()), None);
}

#[test]
fn shutdown_spares_the_current_node() {
    let sim = Sim::new();
    let a = sim.create_node(NodeBuilder::new());
    let b = sim.create_node(NodeBuilder::new());
    let c = sim.create_node(NodeBuilder::new());
    let infos: Vec<usize> = [a, b, c]
        .iter()
        .map(|id| sim.world().get_node(*id).unwrap().task.info)
        .collect();
    let guard = sim.world().context.enter_task(infos[1]);
    let remains = shutdown_all_nodes(&mut sim.world());
    assert_eq!(remains.len(), 2);
    sim.world().context.leave_task(guard);
    let world = sim.world();
    let killed: Vec<bool> = infos
        .iter()
        .map(|info| world.executor.handle.infos[*info].is_killed())
        .collect();
    assert_eq!(killed, vec![true, false, true]);
    assert_eq!(world.get_node(b).unwrap().task.info, infos[1]);
}

#[test]
fn restart_closes_sockets_that_were_bound_meanwhile() {
    let sim = Sim::new();
    let node = sim.node(addr1().ip);
    sim.kill(node);
    sim.world().net.bind(node, addr1()).unwrap();
    assert!(sim.world().net.bind(node, addr1()).is_err());
    let (remains, _) = sim.world().restart_if_present(node).unwrap();
    wake(remains.watchers);
    assert!(sim.world().net.bind(node, addr1()).is_ok());
}

#[test]
fn deleted_node_is_gone() {
    let sim = Sim::new();
    let node = sim.node(addr1().ip);
    assert!(sim.world().get_node(node).is_some());
    let handle = sim.world().get_node(node).unwrap();
    assert_eq!(handle.ip(&sim.world()), Some(addr1().ip));
    let remains = sim.world().delete_node(node);
    drop(remains);
    assert!(sim.world().get_node(node).is_none());
    assert!(sim.world().restart_if_present(node).is_none());
    // the address is free again
    let again = sim.node(addr1().ip);
    assert_ne!(again, node);
}

#[test]
fn tcp_ping_pong() {
    let sim = Sim::new();
    let node1 = sim.node(addr1().ip);
    let node2 = sim.node(addr2().ip);
    let s = sim.clone();
    sim.block_on(async move {
        let listen_barrier = Arc::new(Barrier::new(2));
        let listen_barrier_ = listen_barrier.clone();
        let join_barrier = Arc::new(Barrier::new(2));
        let join_barrier_ = join_barrier.clone();

        let server = s.clone();
        s.spawn_on(node1, async move {
            let listener = server.listen(addr1());
            listen_barrier.wait().await;

            let socket = server.accept(listener).await.unwrap();

            let read_buf = socket.read(false, 16).await.unwrap();
            assert_eq!(read_buf[0], 42);

            socket.write(&[77]).unwrap();

            join_barrier.wait().await;
        });

        let client = s.clone();
        let mut f = s.spawn_on(node2, async move {
            listen_barrier_.wait().await;

            let socket = client.connect(addr1()).await.unwrap();
            socket.write(&[42]).unwrap();

            let read_buf = socket.read(false, 16).await.unwrap();
            assert_eq!(read_buf[0], 77);

            join_barrier_.wait().await;
        });

        f.join().await.unwrap();
    })
    .unwrap();
}

async fn test_stream_read(sim: Sim, stream: Arc<Stream>) {
    let mut next_read: u8 = 0;
    loop {
        let peek_size = sim.world().rand.gen_range(0, 0xff) as usize;
        let peek_buf = stream.read(true, peek_size).await.unwrap();
        let mut peek_next_read = next_read;
        for byte in &peek_buf {
            if *byte == 0xff {
                break;
            }
            assert_eq!(*byte, peek_next_read);
            peek_next_read += 1;
            peek_next_read %= 0xfe;
        }

        let read_size = sim.world().rand.gen_range(0, 0xff) as usize;
        // a buffer without room grows by this much before it is read into
        let room = if read_size == 0 { 64 } else { read_size };
        let read_buf = stream.read(false, room).await.unwrap();
        for byte in &read_buf {
            if *byte == 0xff {
                return;
            }
            assert_eq!(*byte, next_read);
            next_read += 1;
            next_read %= 0xfe;
        }
    }
}

async fn test_stream_write(sim: Sim, stream: Arc<Stream>) {
    let mut next_write: u8 = 0;
    for _ in 0..2048 {
        let write_size = sim.world().rand.gen_range(0, 0xff) as usize;
        let mut write_buf = Vec::with_capacity(write_size + 1);
        for _ in 0..write_size {
            write_buf.push(next_write);
            next_write += 1;
            next_write %= 0xfe
        }
        if !write_buf.is_empty() {
            assert_eq!(stream.write(&write_buf), Ok(write_size));
        }
        sim.yield_now().await;
    }
    stream.write(&[0xff]).unwrap();
}

#[test]
fn tcp_stream() {
    let sim = Sim::new();
    let node1 = sim.node(addr1().ip);
    let node2 = sim.node(addr2().ip);
    let s = sim.clone();
    sim.block_on(async move {
        let listen_barrier = Arc::new(Barrier::new(2));
        let listen_barrier_ = listen_barrier.clone();
        let join_barrier = Arc::new(Barrier::new(2));
        let join_barrier_ = join_barrier.clone();

        let server = s.clone();
        s.spawn_on(node1, async move {
            let listener = server.listen(addr1());
            // forget the first listener and rebind to make sure that ports are released and
            // rebindable
            server.close_listener(listener);
            let listener = server.listen(addr1());

            listen_barrier.wait().await;

            let stream = Arc::new(server.accept(listener).await.unwrap());
            let read_fut = test_stream_read(server.clone(), stream.clone());
            let write_fut = test_stream_write(server.clone(), stream.clone());
            join(read_fut, write_fut).await;

            join_barrier.wait().await;
        });

        let client = s.clone();
        let mut f = s.spawn_on(node2, async move {
            listen_barrier_.wait().await;

            let stream = Arc::new(client.connect(addr1()).await.unwrap());
            let read_fut = test_stream_read(client.clone(), stream.clone());
            let write_fut = test_stream_write(client.clone(), stream.clone());
            join(read_fut, write_fut).await;

            join_barrier_.wait().await;
        });

        f.join().await.unwrap();
    })
    .unwrap();
}

#[test]
fn tcp_test_failed_connect() {
    let sim = Sim::new();
    sim.node(addr1().ip);
    let node2 = sim.node(addr2().ip);
    let s = sim.clone();
    sim.block_on(async move {
        let client = s.clone();
        let mut f = s.spawn_on(node2, async move {
            let err = match client.connect(addr1()).await {
                Ok(_) => panic!("nobody listens"),
                Err(err) => err,
            };
            assert_eq!(err.kind(), ErrorKind::ConnectionRefused);
        });
        f.join().await.unwrap();
    })
    .unwrap();
}

/// One end writes a number every 100 ms and must notice that the other has hung up.
async fn write_until_reset(sim: Sim, socket: Stream) {
    let inner = sim.clone();
    sim.timeout(secs(2), async move {
        for i in 0u64.. {
            if let Err(err) = socket.write(&i.to_be_bytes()) {
                assert_eq!(err.kind(), ErrorKind::ConnectionReset);
                break;
            }
            inner.sleep(Duration::from_millis(100)).await;
        }
    })
    .await
    .expect("write loop should have exited due to ConnectionReset");
}

/// One end reads numbers, in order, until a second is over.
async fn read_for_a_second(sim: Sim, socket: Stream) {
    sim.timeout(secs(1), async move {
        for expected in 0u64.. {
            let next = socket.read_u64().await.unwrap();
            assert_eq!(next, expected);
        }
    })
    .await
    .unwrap_err();
}

fn hangup_test(server_writes: bool) {
    let sim = Sim::new();
    let node1 = sim.node(addr1().ip);
    let node2 = sim.node(addr2().ip);
    let s = sim.clone();
    sim.block_on(async move {
        let listen_barrier = Arc::new(Barrier::new(2));
        let listen_barrier_ = listen_barrier.clone();
        let join_barrier = Arc::new(Barrier::new(2));
        let join_barrier_ = join_barrier.clone();

        let server = s.clone();
        s.spawn_on(node1, async move {
            let listener = server.listen(addr1());
            listen_barrier.wait().await;
            let socket = server.accept(listener).await.unwrap();
            if server_writes {
                write_until_reset(server, socket).await;
            } else {
                read_for_a_second(server, socket).await;
            }
            join_barrier.wait().await;
        });

        let client = s.clone();
        let mut f = s.spawn_on(node2, async move {
            listen_barrier_.wait().await;
            let socket = client.connect(addr1()).await.unwrap();
            if server_writes {
                read_for_a_second(client, socket).await;
            } else {
                write_until_reset(client, socket).await;
            }
            join_barrier_.wait().await;
        });

        f.join().await.unwrap();
    })
    .unwrap();
}

#[test]
fn tcp_test_server_hangup() {
    hangup_test(false);
}

#[test]
fn tcp_test_client_hangup() {
    hangup_test(true);
}

fn hangup_read_test(server_hangs_up: bool) {
    let sim = Sim::new();
    let node1 = sim.node(addr1().ip);
    let node2 = sim.node(addr2().ip);
    let s = sim.clone();
    sim.block_on(async move {
        let listen_barrier = Arc::new(Barrier::new(2));
        let listen_barrier_ = listen_barrier.clone();
        let join_barrier = Arc::new(Barrier::new(2));
        let join_barrier_ = join_barrier.clone();

        let server = s.clone();
        s.spawn_on(node1, async move {
            let listener = server.listen(addr1());
            listen_barrier.wait().await;
            let socket = server.accept(listener).await.unwrap();
            if server_hangs_up {
                server.sleep(secs(1)).await;
                drop(socket);
            } else {
                let err = socket.read_u64().await.unwrap_err();
                assert_eq!(err.kind(), ErrorKind::ConnectionReset);
            }
            join_barrier.wait().await;
        });

        let client = s.clone();
        let mut f = s.spawn_on(node2, async move {
            listen_barrier_.wait().await;
            let socket = client.connect(addr1()).await.unwrap();
            if server_hangs_up {
                let err = socket.read_u64().await.unwrap_err();
                assert_eq!(err.kind(), ErrorKind::ConnectionReset);
            } else {
                client.sleep(secs(1)).await;
                drop(socket);
            }
            join_barrier_.wait().await;
        });

        f.join().await.unwrap();
    })
    .unwrap();
}

#[test]
fn tcp_test_client_hangup_read() {
    hangup_read_test(true);
}

#[test]
fn tcp_test_server_hangup_read() {
    hangup_read_test(false);
}

#[test]
fn tcp_read_of_a_killed_peer_is_reset() {
    let sim = Sim::new();
    let node1 = sim.node(addr1().ip);
    let node2 = sim.node(addr2().ip);
    let s = sim.clone();
    sim.block_on(async move {
        let server = s.clone();
        s.spawn_on(node1, async move {
            let listener = server.listen(addr1());
            let _socket = server.accept(listener).await.unwrap();
            futures::future::pending::<()>().await;
        });
        let client = s.clone();
        let mut f = s.spawn_on(node2, async move {
            client.sleep(secs(1)).await;
            let socket = client.connect(addr1()).await.unwrap();
            socket.read_u64().await.unwrap_err().kind()
        });
        s.sleep(secs(3)).await;
        s.kill(node1);
        assert_eq!(f.join().await, Ok(ErrorKind::ConnectionReset));
    })
    .unwrap();
}

#[test]
fn test_watchdog() {
    // a look every tenth of a second, with the clock standing still
    let step = Watchdog::step(secs(1));
    assert_eq!(step, Duration::from_millis(100));
    let mut looks = 0;
    let mut dog = Watchdog::new(Instant(secs(1)));
    for _ in 0..8 {
        assert_eq!(dog.look(Instant(secs(1))), WatchdogVerdict::Fine);
        looks += 1;
    }
    // briefly come back to life to exercise the timer reset.
    assert_eq!(dog.look(Instant(secs(2))), WatchdogVerdict::Fine);
    looks += 1;
    loop {
        looks += 1;
        if dog.look(Instant(secs(2))) == WatchdogVerdict::Deadlock {
            break;
        }
    }
    // verify that the deadline was reset after we came back after the timer reset
    assert!(step.nanos * looks > Duration::from_millis(1500).nanos);
    assert_eq!(looks, 20);
    let mut dog = Watchdog::new(Instant(secs(1)));
    assert_eq!(dog.look(Instant(secs(0))), WatchdogVerdict::ClockWentBackwards);
}

#[test]
fn determinism_check_is_for_the_start() {
    let sim = Sim::new();
    assert!(sim.world().is_at_start());
    let s = sim.clone();
    sim.block_on(async move { s.sleep(secs(1)).await }).unwrap();
    assert!(!sim.world().is_at_start());
}

/// Draws ten times, and sleeps after each draw for as many microseconds as `sleeps` says.
fn draw_and_sleep(check: Option<Option<Log>>, sleeps: [u64; 10]) -> Sim {
    let sim = Sim::new();
    if let Some(log) = check {
        sim.world().enable_determinism_check(log);
    }
    let s = sim.clone();
    sim.block_on(async move {
        for micros in sleeps {
            s.world().rand.gen_u64();
            s.sleep(Duration::from_nanos(micros * 1_000)).await;
        }
    })
    .unwrap();
    sim
}

#[test]
fn determinism_check() {
    let sleeps = [3, 1, 4, 1, 5, 9, 2, 6, 5, 3];
    let sim = draw_and_sleep(Some(None), sleeps);
    let log = sim.world().take_rand_log().unwrap();
    assert!(log.draws.len() > 10);
    assert_eq!(sim.world().take_rand_log().map(|log| log.draws.len()), None);
    assert_eq!(sim.world().rand.take_departure(), None);

    // the same logic again
    let sim = draw_and_sleep(Some(Some(Log { draws: log.draws.clone() })), sleeps);
    assert_eq!(sim.world().rand.take_departure(), None);
    assert_eq!(sim.world().take_rand_log().unwrap().draws, log.draws);

    // non-determinism is found before the run is over
    let other = [3, 1, 4, 1, 5, 9, 2, 7, 5, 3];
    let sim = draw_and_sleep(Some(Some(Log { draws: log.draws.clone() })), other);
    let departure = sim.world().rand.take_departure().unwrap();
    let drawn = sim.world().take_rand_log().unwrap().draws;
    let first = (0..drawn.len()).find(|i| log.draws.get(*i) != drawn.get(*i)).unwrap();
    assert!(first > 7 && first + 2 < drawn.len());
    assert_eq!(departure, NonDeterminism { at: Duration { nanos: drawn[first].1 } });
    assert_eq!(sim.world().rand.take_departure(), None);

    // nothing is noted unless it was asked for
    let sim = draw_and_sleep(None, sleeps);
    assert_eq!(sim.world().take_rand_log().map(|log| log.draws.len()), None);
    assert_eq!(sim.world().rand.take_departure(), None);
}

#[test]
fn draws_are_compared_with_those_of_an_earlier_run() {
    let at = Duration::from_secs;
    let mut one = RandLog { seen: vec![], expected: None };
    assert_eq!(one.note(7, at(1)), Ok(()));
    assert_eq!(one.note(8, at(2)), Ok(()));
    assert_eq!(one.seen, vec![(7, 1_000_000_000), (8, 2_000_000_000)]);
    let log = || Some(Log { draws: vec![(7, 1_000_000_000), (8, 2_000_000_000)] });
    let mut same = RandLog { seen: vec![], expected: log() };
    assert_eq!(same.note(7, at(1)), Ok(()));
    assert_eq!(same.note(8, at(2)), Ok(()));
    // the earlier run has not drawn any more
    assert_eq!(same.note(9, at(3)), Err(NonDeterminism { at: at(3) }));
    let mut other = RandLog { seen: vec![], expected: log() };
    assert_eq!(other.note(6, at(1)), Err(NonDeterminism { at: at(1) }));
    let mut later = RandLog { seen: vec![], expected: log() };
    assert_eq!(later.note(7, at(1)), Ok(()));
    assert_eq!(later.note(8, at(3)), Err(NonDeterminism { at: at(3) }));

    // every kind of draw is noted, at the time that the generator was told
    let mut rng = GlobalRng::new_with_seed(3);
    rng.enable_log();
    rng.set_now(at(5));
    rng.gen_u64();
    rng.gen_range(0, 10);
    rng.gen_ratio(1, 2);
    rng.set_now(at(6));
    rng.gen_duration(at(1), at(2));
    rng.choose_weighted(&vec![(1, 'a')]);
    rng.shuffle(&mut vec![1, 2, 3]);
    let noted = rng.take_log().unwrap().draws;
    let times: Vec<u128> = noted.iter().map(|draw| draw.1 / 1_000_000_000).collect();
    assert_eq!(times, vec![5, 5, 5, 6, 6, 6]);
    let mut again = GlobalRng::new_with_seed(3);
    again.enable_check(Log { draws: noted });
    again.set_now(at(5));
    again.gen_u64();
    assert_eq!(again.take_departure(), None);
    again.gen_u64();
    again.gen_u64();
    again.set_now(at(7));
    again.gen_u64();
    again.set_now(at(8));
    again.gen_u64();
    // the first difference is the one that is told
    let found = again.take_departure().unwrap();
    assert!(found.at <= at(7));
}

#[test]
fn generator_draws_what_it_is_asked_for() {
    let mut rng = GlobalRng::new_with_seed(7);
    let mut seen = std::collections::HashSet::new();
    for _ in 0..200 {
        let n = rng.gen_range(10, 20);
        assert!((10..20).contains(&n));
        seen.insert(n);
        let d = rng.gen_duration(Duration::from_millis(1), Duration::from_millis(10));
        assert!(d >= Duration::from_millis(1) && d < Duration::from_millis(10));
        assert!(rng.gen_ratio(5, 5));
        assert!(!rng.gen_ratio(0, 5));
        let (weight, item) = *rng.choose_weighted(&vec![(0, 'a'), (3, 'b'), (1, 'c')]);
        assert!((weight, item) == (3, 'b') || (weight, item) == (1, 'c'));
    }
    assert_eq!(seen.len(), 10);
    let mut order: Vec<usize> = (0..50).collect();
    rng.shuffle(&mut order);
    assert_ne!(order, (0..50).collect::<Vec<usize>>());
    order.sort();
    assert_eq!(order, (0..50).collect::<Vec<usize>>());
    assert_ne!(rng.gen_u64(), rng.gen_u64());
    let mut again = GlobalRng::new_with_seed(7);
    let mut other = GlobalRng::new_with_seed(8);
    assert_ne!(again.gen_u64(), other.gen_u64());
    // the same seed gives the same draws
    let mut one = GlobalRng::new_with_seed(9);
    let mut two = GlobalRng::new_with_seed(9);
    for _ in 0..100 {
        assert_eq!(one.gen_range(0, 1000), two.gen_range(0, 1000));
        assert_eq!(one.gen_u64(), two.gen_u64());
    }
    let (mut first, mut second) = ((0..20).collect(), (0..20).collect());
    one.shuffle(&mut first);
    two.shuffle(&mut second);
    assert_eq!(first, second);
    let long = other.gen_duration(Duration::zero(), Duration::from_secs(u64::MAX));
    assert!(long < Duration::from_secs(u64::MAX));
}
