//! Building runtimes that look like those of tokio.

use crate::time::duration::Duration;
use vstd::prelude::*;

verus! {

/// No runtime is active.
#[derive(Debug, Clone, Copy, PartialEq, Eq, Structural)]
pub struct TryCurrentError;

/// The kind of scheduler that was asked for.
#[derive(Debug, Clone, Copy, PartialEq, Eq, Structural)]
pub enum Kind {
    /// One thread.
    CurrentThread,
    /// Several threads.
    MultiThread,
}

/// How threads are named. `N` is what makes a name.
pub enum ThreadName<N> {
    /// All alike.
    Fixed(String),
    /// Each as it comes.
    Generated(N),
}

/// Builds a runtime with custom configuration. `N` is what names threads and `C` what is called
/// when something happens to one.
pub struct Builder<N, C> {
    /// The kind of scheduler.
    pub kind: Kind,
    /// I/O was asked for.
    pub enable_io: bool,
    /// Time was asked for.
    pub enable_time: bool,
    /// The clock starts paused.
    pub start_paused: bool,
    /// The number of worker threads, if one was set.
    pub worker_threads: Option<usize>,
    /// The number of blocking threads at most.
    pub max_blocking_threads: usize,
    /// How threads are named.
    pub thread_name: ThreadName<N>,
    /// The stack size of threads, if one was set.
    pub thread_stack_size: Option<usize>,
    /// Called after a thread has started.
    pub after_start: Option<C>,
    /// Called before a thread stops.
    pub before_stop: Option<C>,
    /// Called before a thread parks.
    pub before_park: Option<C>,
    /// Called after a thread has unparked.
    pub after_unpark: Option<C>,
    /// How long idle threads are kept.
    pub keep_alive: Option<Duration>,
    /// Ignored: the simulator has its own executor.
    pub global_queue_interval: u32,
    /// Ignored: the simulator has its own executor.
    pub event_interval: u32,
}

impl<N, C> Builder<N, C> {
    /// The builder is as it was made, for the scheduler `kind`.
    pub open spec fn is_default(self, kind: Kind) -> bool {
        &&& self.kind == kind
        &&& !self.enable_io && !self.enable_time && !self.start_paused
        &&& self.worker_threads is None
        &&& self.max_blocking_threads == 512
        &&& self.thread_name matches ThreadName::Fixed(name) && name@ == "tokio-runtime-worker"@
        &&& self.thread_stack_size is None
        &&& self.after_start is None && self.before_stop is None
        &&& self.before_park is None && self.after_unpark is None
        &&& self.keep_alive is None
        &&& self.global_queue_interval == 1 && self.event_interval == 1
    }

    /// A builder for a runtime with one thread.
    pub fn new_current_thread() -> (r: Builder<N, C>)
        ensures
            r.is_default(Kind::CurrentThread),
    {
        Builder::new(Kind::CurrentThread)
    }

    /// A builder for a runtime with several threads.
    pub fn new_multi_thread() -> (r: Builder<N, C>)
        ensures
            r.is_default(Kind::MultiThread),
    {
        Builder::new(Kind::MultiThread)
    }

    /// A builder with the defaults.
    pub fn new(kind: Kind) -> (r: Builder<N, C>)
        ensures
            r.is_default(kind),
    {
        Builder {
            kind,
            // I/O defaults to "off"
            enable_io: false,
            // Time defaults to "off"
            enable_time: false,
            // The clock starts not-paused
            start_paused: false,
            // Default to lazy auto-detection (one thread per CPU core)
            worker_threads: None,
            max_blocking_threads: 512,
            // Default thread name
            thread_name: ThreadName::Fixed("tokio-runtime-worker".to_owned()),
            // Do not set a stack size by default
            thread_stack_size: None,
            // No worker thread callbacks
            after_start: None,
            before_stop: None,
            before_park: None,
            after_unpark: None,
            keep_alive: None,
            global_queue_interval: 1,
            event_interval: 1,
        }
    }

    /// Enables both I/O and time.
    pub fn enable_all(&mut self) -> (r: &mut Self)
        ensures
            *r == (Builder { enable_io: true, enable_time: true, ..*old(self) }),
            *final(self) == *final(r),
    {
        self.enable_io();
        self.enable_time();
        self
    }

    /// Sets the number of worker threads.
    pub fn worker_threads(&mut self, val: usize) -> (r: &mut Self)
        requires
            val > 0,
        ensures
            *r == (Builder { worker_threads: Some(val), ..*old(self) }),
            *final(self) == *final(r),
    {
        self.worker_threads = Some(val);
        self
    }

    /// Limits the number of blocking threads.
    pub fn max_blocking_threads(&mut self, val: usize) -> (r: &mut Self)
        requires
            val > 0,
        ensures
            *r == (Builder { max_blocking_threads: val, ..*old(self) }),
            *final(self) == *final(r),
    {
        self.max_blocking_threads = val;
        self
    }

    /// Names all threads alike.
    pub fn thread_name(&mut self, val: String) -> (r: &mut Self)
        ensures
            *r == (Builder { thread_name: ThreadName::Fixed(val), ..*old(self) }),
            *final(self) == *final(r),
    {
        self.thread_name = ThreadName::Fixed(val);
        self
    }

    /// Has `f` name the threads.
    pub fn thread_name_fn(&mut self, f: N) -> (r: &mut Self)
        ensures
            *r == (Builder { thread_name: ThreadName::Generated(f), ..*old(self) }),
            *final(self) == *final(r),
    {
        self.thread_name = ThreadName::Generated(f);
        self
    }

    /// Sets the stack size of threads.
    pub fn thread_stack_size(&mut self, val: usize) -> (r: &mut Self)
        ensures
            *r == (Builder { thread_stack_size: Some(val), ..*old(self) }),
            *final(self) == *final(r),
    {
        self.thread_stack_size = Some(val);
        self
    }

    /// Has `f` called after each thread has started.
    pub fn on_thread_start(&mut self, f: C) -> (r: &mut Self)
        ensures
            *r == (Builder { after_start: Some(f), ..*old(self) }),
            *final(self) == *final(r),
    {
        self.after_start = Some(f);
        self
    }

    /// Has `f` called before each thread stops.
    pub fn on_thread_stop(&mut self, f: C) -> (r: &mut Self)
        ensures
            *r == (Builder { before_stop: Some(f), ..*old(self) }),
            *final(self) == *final(r),
    {
        self.before_stop = Some(f);
        self
    }

    /// Has `f` called before a thread parks.
    pub fn on_thread_park(&mut self, f: C) -> (r: &mut Self)
        ensures
            *r == (Builder { before_park: Some(f), ..*old(self) }),
            *final(self) == *final(r),
    {
        self.before_park = Some(f);
        self
    }

    /// Has `f` called after a thread has unparked.
    pub fn on_thread_unpark(&mut self, f: C) -> (r: &mut Self)
        ensures
            *r == (Builder { after_unpark: Some(f), ..*old(self) }),
            *final(self) == *final(r),
    {
        self.after_unpark = Some(f);
        self
    }

    /// Sets how long idle threads are kept.
    pub fn thread_keep_alive(&mut self, duration: Duration) -> (r: &mut Self)
        ensures
            *r == (Builder { keep_alive: Some(duration), ..*old(self) }),
            *final(self) == *final(r),
    {
        self.keep_alive = Some(duration);
        self
    }

    /// Sets a value that is ignored.
    pub fn global_queue_interval(&mut self, val: u32) -> (r: &mut Self)
        ensures
            *r == (Builder { global_queue_interval: val, ..*old(self) }),
            *final(self) == *final(r),
    {
        self.global_queue_interval = val;
        self
    }

    /// Sets a value that is ignored.
    pub fn event_interval(&mut self, val: u32) -> (r: &mut Self)
        ensures
            *r == (Builder { event_interval: val, ..*old(self) }),
            *final(self) == *final(r),
    {
        self.event_interval = val;
        self
    }

    /// Enables I/O.
    pub fn enable_io(&mut self) -> (r: &mut Self)
        ensures
            *r == (Builder { enable_io: true, ..*old(self) }),
            *final(self) == *final(r),
    {
        self.enable_io = true;
        self
    }

    /// Enables time.
    pub fn enable_time(&mut self) -> (r: &mut Self)
        ensures
            *r == (Builder { enable_time: true, ..*old(self) }),
            *final(self) == *final(r),
    {
        self.enable_time = true;
        self
    }

    /// Sets whether the clock starts paused.
    pub fn start_paused(&mut self, start_paused: bool) -> (r: &mut Self)
        ensures
            *r == (Builder { start_paused, ..*old(self) }),
            *final(self) == *final(r),
    {
        self.start_paused = start_paused;
        self
    }
}

/// A group of tasks that all run on the same thread. Because the simulator is single-threaded,
/// its tasks are those of the current node.
#[derive(Debug, Clone, Copy, PartialEq, Eq, Structural)]
pub struct LocalSet;

impl LocalSet {
    /// Returns a new local task set.
    pub fn new() -> (r: LocalSet)
        ensures
            r == LocalSet,
    {
        LocalSet
    }
}

} // verus!
