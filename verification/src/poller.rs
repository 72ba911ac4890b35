//! Polling a piece of work that is made when it is first asked for.

use crate::time::Poll;
use vstd::prelude::*;

verus! {

/// Keeps a piece of work of type `F` between the times that it is polled.
pub struct Poller<F> {
    /// The work that is under way.
    pub p: Option<F>,
}

impl<F> Poller<F> {
    /// Nothing is under way.
    pub fn new() -> (r: Poller<F>)
        ensures
            r.p is None,
    {
        Poller { p: None }
    }

    /// Polls the work that is under way, which `fut_fn` makes if there is none, by `poll`. The
    /// work is kept until it has completed.
    pub fn poll_with_fut<R, M, P>(&mut self, fut_fn: M, poll: P) -> (r: Poll<R>) where
        M: FnOnce() -> F,
        P: FnOnce(F) -> (F, Poll<R>),

        requires
            old(self).p is None ==> fut_fn.requires(()),
            forall|fut: F| #[trigger] poll.requires((fut,)),
        ensures
            exists|fut: F, rest: F|
                {
                    &&& #[trigger] poll.ensures((fut,), (rest, r))
                    &&& match old(self).p {
                        Some(kept) => fut == kept,
                        None => fut_fn.ensures((), fut),
                    }
                    &&& final(self).p == (match r {
                        Poll::Ready(_) => None,
                        Poll::Pending => Some(rest),
                    })
                },
    {
        let fut: F = match self.p.take() {
            Some(kept) => kept,
            None => fut_fn(),
        };
        let (rest, res): (F, Poll<R>) = poll(fut);
        match &res {
            Poll::Ready(_) => {},
            Poll::Pending => {
                self.p = Some(rest);
            },
        }
        res
    }
}

} // verus!
