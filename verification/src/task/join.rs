//! Handles to spawned tasks.

use crate::time::Poll;
use vstd::prelude::*;

verus! {

/// Tells a task from any other.
#[derive(Debug, Clone, Copy, PartialEq, Eq, Structural, Hash)]
pub struct Id(pub u64);

/// The task was cancelled before it completed.
#[derive(Debug, Clone, Copy, PartialEq, Eq, Structural)]
pub struct JoinError {
    /// The task.
    pub id: Id,
}

/// An owned permission to join on a task. `T` is the task itself.
pub struct JoinHandle<T> {
    /// The task that this is a handle to.
    pub id: Id,
    /// The task; none once it has been aborted.
    pub task: Option<T>,
}

impl<T> JoinHandle<T> {
    /// The task has come to its end, if `completed` says whether it has completed.
    pub open spec fn finished(self, completed: bool) -> bool {
        self.task is None || completed
    }

    /// What waiting for the task gives, if asking it gave `polled`.
    pub open spec fn join_result<V>(self, polled: Poll<Option<V>>) -> Poll<Result<V, JoinError>> {
        if self.task is None {
            Poll::Ready(Err(JoinError { id: self.id }))
        } else {
            match polled {
                Poll::Ready(Some(output)) => Poll::Ready(Ok(output)),
                Poll::Ready(None) => Poll::Ready(Err(JoinError { id: self.id })),
                Poll::Pending => Poll::Pending,
            }
        }
    }

    /// The handle once the task has been aborted.
    pub open spec fn aborted(self) -> JoinHandle<T> {
        JoinHandle { task: None, ..self }
    }

    /// A handle to `task`.
    pub fn new(id: Id, task: T) -> (r: JoinHandle<T>)
        ensures
            r == (JoinHandle { id, task: Some(task) }),
    {
        JoinHandle { id, task: Some(task) }
    }

    /// Returns an id that tells the task from other spawned tasks.
    pub fn id(&self) -> (r: Id)
        ensures
            r == self.id,
    {
        self.id
    }

    /// Aborts the task: hands it out, to be dropped. A task that was aborted already is gone.
    pub fn abort(&mut self) -> (r: Option<T>)
        ensures
            r == old(self).task,
            *final(self) == old(self).aborted(),
    {
        self.task.take()
    }

    /// Whether the task has come to its end, given whether it has completed. An aborted task
    /// has.
    pub fn is_finished(&self, completed: bool) -> (r: bool)
        ensures
            r == self.finished(completed),
    {
        self.task.is_none() || completed
    }

    /// What waiting for the task gives, given what asking it gave: the task hands out its output,
    /// or nothing if it was cancelled. An aborted task is not asked.
    pub fn joined<V>(&self, polled: Poll<Option<V>>) -> (r: Poll<Result<V, JoinError>>)
        ensures
            r == self.join_result(polled),
    {
        if self.task.is_none() {
            return Poll::Ready(Err(JoinError { id: self.id }));
        }
        match polled {
            Poll::Ready(Some(output)) => Poll::Ready(Ok(output)),
            Poll::Ready(None) => Poll::Ready(Err(JoinError { id: self.id })),
            Poll::Pending => Poll::Pending,
        }
    }
}

/// Once a task has been aborted, it is finished, joining it fails whatever it would have given,
/// and aborting it again changes nothing.
pub proof fn law_aborted_task_is_cancelled<T, V>(
    handle: JoinHandle<T>,
    completed: bool,
    polled: Poll<Option<V>>,
)
    ensures
        handle.aborted().finished(completed),
        handle.aborted().join_result(polled) == Poll::<Result<V, JoinError>>::Ready(
            Err(JoinError { id: handle.id }),
        ),
        handle.aborted().aborted() == handle.aborted(),
{
}

/// A task that was not aborted is finished if and only if it has completed. Joining it gives its
/// output once it has one, fails with its number if it was cancelled, and waits otherwise.
pub proof fn law_joining_gives_the_output<T, V>(
    handle: JoinHandle<T>,
    completed: bool,
    polled: Poll<Option<V>>,
    output: V,
)
    requires
        handle.task is Some,
    ensures
        handle.finished(completed) <==> completed,
        handle.join_result(polled) == Poll::<Result<V, JoinError>>::Ready(Ok(output)) <==> polled
            == Poll::Ready(Some(output)),
        handle.join_result(polled) == Poll::<Result<V, JoinError>>::Ready(
            Err(JoinError { id: handle.id }),
        ) <==> polled == Poll::Ready(None::<V>),
        handle.join_result(polled) is Pending <==> polled is Pending,
        handle.aborted().id == handle.id,
{
}

} // verus!
