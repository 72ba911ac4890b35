//! Readiness of sockets.

use crate::net::network::Network;
use crate::net::socket::Endpoint;
use crate::random::GlobalRng;
use crate::task::NodeId;
use crate::time::clock::Instant;
use crate::time::duration::{Duration, MAX_NANOS};
use crate::time::{FromWaker, Poll, TimeHandle};
use std::task::Waker;
use vstd::prelude::*;

verus! {

/// A socket is ready to be written to again after less than this many nanoseconds.
pub const MAX_WRITE_PAUSE_NANOS: u64 = 50;

/// The operation would have blocked.
#[derive(Debug, Clone, Copy, PartialEq, Eq, Structural)]
pub struct TryIoError;

/// Something with a file descriptor, and when it is ready to be written to.
#[derive(Debug)]
pub struct AsyncFd<T> {
    /// What has the file descriptor.
    pub inner: Option<T>,
    /// The elapsed time, in nanoseconds, from which on it is ready to be written to.
    pub next_ready_write_nanos: u64,
}

impl<T> AsyncFd<T> {
    /// It is ready to be written to when `now` nanoseconds have elapsed.
    pub open spec fn is_writable(&self, now: u128) -> bool {
        now >= self.next_ready_write_nanos
    }

    /// Something that is ready to be written to at once.
    pub fn new(inner: T) -> (r: AsyncFd<T>)
        ensures
            r == (AsyncFd { inner: Some(inner), next_ready_write_nanos: 0 }),
    {
        AsyncFd { inner: Some(inner), next_ready_write_nanos: 0 }
    }

    /// Returns what has the file descriptor.
    pub fn get_ref(&self) -> (r: &T)
        requires
            self.inner is Some,
        ensures
            Some(*r) == self.inner,
    {
        self.inner.as_ref().unwrap()
    }

    /// Takes out what has the file descriptor.
    pub fn take_inner(&mut self) -> (r: Option<T>)
        ensures
            r == old(self).inner,
            *final(self) == (AsyncFd {
                inner: None::<T>,
                next_ready_write_nanos: old(self).next_ready_write_nanos,
            }),
    {
        self.inner.take()
    }

    /// Hands back what has the file descriptor.
    pub fn into_inner(self) -> (r: T)
        requires
            self.inner is Some,
        ensures
            Some(r) == self.inner,
    {
        let mut fd = self;
        fd.take_inner().unwrap()
    }

    /// Asks whether the socket `ep` has a packet under `tag`. If not, `waker` is kept until one
    /// comes.
    pub fn poll_read_ready<D>(
        &self,
        net: &mut Network<D>,
        ep: Endpoint,
        tag: u64,
        waker: Waker,
    ) -> (r: Poll<()>)
        requires
            old(net)@.wf(),
            old(net)@.has_socket(ep.node.0, ep.addr.port),
        ensures
            ({
                let mailbox = old(net)@.nodes[ep.node.0].sockets[ep.addr.port];
                if mailbox.has(tag) {
                    r == Poll::Ready(()) && final(net)@ == old(net)@
                } else {
                    r == Poll::<()>::Pending && final(net)@ == old(net)@.with_mailbox(
                        ep.node.0,
                        ep.addr.port,
                        mailbox.polled_by(tag, waker),
                    )
                }
            }),
            final(net).config == old(net).config,
            final(net)@.wf(),
            old(net)@.reachable() ==> final(net)@.reachable(),
            old(net)@.routable() ==> final(net)@.routable(),
    {
        if net.recv_ready(Some(waker), ep.node, ep.addr, tag) {
            Poll::Ready(())
        } else {
            Poll::Pending
        }
    }

    /// Asks whether it is ready to be written to. If so, it will not be for a short time that is
    /// drawn; if not, `waker` is woken as soon as it is.
    pub fn poll_write_ready<E: FromWaker>(
        &mut self,
        rng: &mut GlobalRng,
        time: &mut TimeHandle<E>,
        node_id: NodeId,
        waker: Waker,
    ) -> (r: Poll<()>)
        requires
            old(time).wf(),
            old(time).clock.elapsed_time.nanos + MAX_WRITE_PAUSE_NANOS <= u64::MAX,
            old(time).clock.base_instant.0.nanos + old(self).next_ready_write_nanos <= MAX_NANOS,
        ensures
            final(self).inner == old(self).inner,
            final(rng).seed() == old(rng).seed(),
            final(time).wf(),
            final(time).clock == old(time).clock,
            final(time).timer.disabled_node_ids@ == old(time).timer.disabled_node_ids@,
            ({
                let now = old(time).clock.elapsed_time.nanos;
                let ready = old(self).next_ready_write_nanos;
                if old(self).is_writable(now) {
                    &&& r == Poll::Ready(())
                    &&& now <= final(self).next_ready_write_nanos < now + MAX_WRITE_PAUSE_NANOS
                    &&& old(rng).gave_in_range(
                        0,
                        MAX_WRITE_PAUSE_NANOS,
                        (final(self).next_ready_write_nanos - now) as u64,
                        *final(rng),
                    )
                    &&& final(time).timer.events@ == old(time).timer.events@
                } else {
                    &&& r == Poll::<()>::Pending
                    &&& final(self).next_ready_write_nanos == ready
                    &&& *final(rng) == *old(rng)
                    &&& final(time).timer.events@ == old(time).with_event(
                        node_id,
                        Instant(
                            Duration {
                                nanos: (old(time).clock.base_instant.0.nanos + ready) as u128,
                            },
                        ),
                        E::spec_from_waker(waker),
                    )
                }
            }),
    {
        let now_nanos: u64 = time.elapsed().nanos as u64;
        let ready: u64 = self.next_ready_write_nanos;
        if now_nanos >= ready {
            self.next_ready_write_nanos = now_nanos + rng.gen_range(0, MAX_WRITE_PAUSE_NANOS);
            Poll::Ready(())
        } else {
            let deadline = Instant(
                time.now_instant().0.plus(Duration::from_nanos(ready - now_nanos)),
            );
            time.wake_at(node_id, deadline, waker);
            Poll::Pending
        }
    }
}

/// What trying an operation gives that has the result `result`, if that says whether it would have
/// blocked.
pub open spec fn tried<R, E>(result: Result<R, E>, would_block: bool) -> Result<
    Result<R, E>,
    TryIoError,
> {
    if result is Err && would_block {
        Err(TryIoError)
    } else {
        Ok(result)
    }
}

/// What trying an operation gives: the result of the operation, unless that is an error which says
/// that it would have blocked.
pub fn try_io<R, E>(result: Result<R, E>, would_block: bool) -> (r: Result<
    Result<R, E>,
    TryIoError,
>)
    ensures
        r == tried(result, would_block),
{
    match result {
        Err(err) => if would_block {
            Err(TryIoError)
        } else {
            Ok(Err(err))
        },
        Ok(value) => Ok(Ok(value)),
    }
}

/// A fresh socket can be written to at once. Whatever can be written to now can be later, and one
/// that was found ready is ready again before 50 nanoseconds are over.
pub proof fn law_socket_is_writable_again_soon<T>(
    before: AsyncFd<T>,
    after: AsyncFd<T>,
    now: u128,
    later: u128,
)
    requires
        now <= later,
        now <= after.next_ready_write_nanos < now + MAX_WRITE_PAUSE_NANOS,
    ensures
        before.next_ready_write_nanos == 0 ==> before.is_writable(now),
        before.is_writable(now) ==> before.is_writable(later),
        later >= now + 50 ==> after.is_writable(later),
{
}

/// An operation that succeeds is never taken for one that would have blocked, and an error is handed
/// on unless it says so.
pub proof fn law_only_blocking_errors_are_held_back<R, E>(result: Result<R, E>, would_block: bool)
    ensures
        result is Ok ==> tried(result, would_block) == Ok::<Result<R, E>, TryIoError>(result),
        !would_block ==> tried(result, would_block) == Ok::<Result<R, E>, TryIoError>(result),
        result is Err && would_block ==> tried(result, would_block) == Err::<
            Result<R, E>,
            TryIoError,
        >(TryIoError),
{
}

} // verus!
