//! Messages and the mailboxes that hold them.

use crate::net::addr::SocketAddr;
use crate::utils::{lemma_swap_removed, swap_removed};
use futures::channel::oneshot::{Receiver, Sender};
use std::collections::VecDeque;
use std::task::Waker;
use vstd::multiset::Multiset;
use vstd::prelude::*;

verus! {

/// The sending half of the one-shot channel of the `futures` crate.
#[verifier::external_type_specification]
#[verifier::external_body]
#[verifier::reject_recursive_types(T)]
pub struct ExSender<T>(futures::channel::oneshot::Sender<T>);

/// The receiving half of the one-shot channel of the `futures` crate.
#[verifier::external_type_specification]
#[verifier::external_body]
#[verifier::reject_recursive_types(T)]
pub struct ExReceiver<T>(futures::channel::oneshot::Receiver<T>);

/// The error of a receiver whose sender is gone, which is what the receiver gives as a future.
#[verifier::external_type_specification]
#[verifier::external_body]
pub struct ExCanceled(futures::channel::oneshot::Canceled);

/// What wakes a task of an executor.
#[verifier::external_type_specification]
#[verifier::external_body]
pub struct ExWaker(std::task::Waker);

/// `Sender::is_connected_to`: whether the two halves were made by the same call of `channel`. What
/// it returns is said where the halves are made.
pub assume_specification<T>[ futures::channel::oneshot::Sender::<T>::is_connected_to ](
    sender: &futures::channel::oneshot::Sender<T>,
    receiver: &futures::channel::oneshot::Receiver<T>,
) -> (r: bool)
;

/// `futures::channel::oneshot::channel`: a fresh channel, whose two halves are connected to each
/// other.
pub assume_specification<T>[ futures::channel::oneshot::channel::<T> ]() -> (r: (
    futures::channel::oneshot::Sender<T>,
    futures::channel::oneshot::Receiver<T>,
))
    ensures
        call_ensures(
            futures::channel::oneshot::Sender::<T>::is_connected_to,
            (&r.0, &r.1),
            true,
        ),
;

/// `Sender::send`: whether the value was taken depends on whether the receiver is still there.
/// A value that was not taken comes back unchanged.
pub assume_specification<T>[ futures::channel::oneshot::Sender::<T>::send ](
    sender: futures::channel::oneshot::Sender<T>,
    t: T,
) -> (r: Result<(), T>)
    ensures
        r matches Err(back) ==> back == t,
;

/// What is sent over `sender` comes out of `receiver`: `Sender::is_connected_to` finds that they
/// are the two halves of one channel.
pub open spec fn connected<T>(sender: Sender<T>, receiver: Receiver<T>) -> bool {
    call_ensures(Sender::<T>::is_connected_to, (&sender, &receiver), true)
}

/// What a payload is for.
#[derive(Debug, Clone, Copy, PartialEq, Eq, Structural)]
pub enum PayloadType {
    /// It opens a tcp connection.
    TcpSignalConnect,
    /// It carries data of a tcp connection.
    TcpData,
    /// It is a udp packet.
    Udp,
}

/// The contents of a message.
pub struct Payload<D> {
    /// What the payload is for.
    pub ty: PayloadType,
    /// The data that is carried.
    pub data: D,
}

impl<D> Payload<D> {
    /// A udp packet.
    pub fn new_udp(data: D) -> (r: Payload<D>)
        ensures
            r == (Payload { ty: PayloadType::Udp, data }),
    {
        Payload { ty: PayloadType::Udp, data }
    }

    /// The opening of a tcp connection.
    pub fn new_tcp_connect(data: D) -> (r: Payload<D>)
        ensures
            r == (Payload { ty: PayloadType::TcpSignalConnect, data }),
    {
        Payload { ty: PayloadType::TcpSignalConnect, data }
    }

    /// Data of a tcp connection.
    pub fn new_tcp_data(data: D) -> (r: Payload<D>)
        ensures
            r == (Payload { ty: PayloadType::TcpData, data }),
    {
        Payload { ty: PayloadType::TcpData, data }
    }

    /// Whether this is a udp packet.
    pub fn is_udp(&self) -> (r: bool)
        ensures
            r == (self.ty == PayloadType::Udp),
    {
        match self.ty {
            PayloadType::Udp => true,
            _ => false,
        }
    }

    /// Whether this is data of a tcp connection.
    pub fn is_tcp_data(&self) -> (r: bool)
        ensures
            r == (self.ty == PayloadType::TcpData),
    {
        match self.ty {
            PayloadType::TcpData => true,
            _ => false,
        }
    }

    /// Whether this opens a tcp connection.
    pub fn is_tcp_connect(&self) -> (r: bool)
        ensures
            r == (self.ty == PayloadType::TcpSignalConnect),
    {
        match self.ty {
            PayloadType::TcpSignalConnect => true,
            _ => false,
        }
    }
}

/// A message that goes from one endpoint to another.
pub struct Message<D> {
    /// What the receiver asks for it by.
    pub tag: u64,
    /// What it carries.
    pub data: Payload<D>,
    /// Where it comes from.
    pub from: SocketAddr,
}

/// How a request for a message was answered.
#[verifier::reject_recursive_types(D)]
pub enum Reception<D> {
    /// The message was there.
    Ready(Message<D>),
    /// It will come over the channel.
    Waiting(Receiver<Message<D>>),
}

/// Tag message mailbox for an endpoint.
#[verifier::reject_recursive_types(D)]
pub struct Mailbox<D> {
    /// Tells the mailbox from any other, past and future, of the same network.
    pub id: u64,
    /// Pending receive requests.
    pub registered: Vec<(u64, Sender<Message<D>>)>,
    /// Messages that have not been received.
    pub msgs: Vec<Message<D>>,
    /// Wakers for async io waiting for packets.
    pub wakers: Vec<(u64, Waker)>,
    /// Tcp connections (via connect/accept) are signaled synchronously, out of band from the
    /// normal network simulation, in order to support blocking connect/accept.
    pub sync_connections: VecDeque<SocketAddr>,
}

/// What a mailbox holds.
#[verifier::ext_equal]
#[verifier::reject_recursive_types(D)]
pub struct MailboxView<D> {
    /// Tells the mailbox from any other.
    pub id: u64,
    /// Pending receive requests.
    pub registered: Seq<(u64, Sender<Message<D>>)>,
    /// Messages that have not been received.
    pub msgs: Seq<Message<D>>,
    /// Wakers for async io waiting for packets.
    pub wakers: Seq<(u64, Waker)>,
    /// Signaled connections that were not accepted yet, the oldest first.
    pub sync_connections: Seq<SocketAddr>,
}

impl<D> View for Mailbox<D> {
    type V = MailboxView<D>;

    open spec fn view(&self) -> MailboxView<D> {
        MailboxView {
            id: self.id,
            registered: self.registered@,
            msgs: self.msgs@,
            wakers: self.wakers@,
            sync_connections: self.sync_connections@,
        }
    }
}

/// The connection to which a tag belongs: the upper half of it.
pub open spec fn connection_of(tag: u64) -> u32 {
    (tag / 0x1_0000_0000) as u32
}

/// The place of a tag within its connection: the lower half of it.
pub open spec fn sequence_of(tag: u64) -> u32 {
    (tag % 0x1_0000_0000) as u32
}

/// The tag of the message with number `seq` on connection `id`.
pub open spec fn tag_of(id: u32, seq: u32) -> u64 {
    (id * 0x1_0000_0000 + seq) as u64
}

/// A tag holds its connection and its place, and nothing else.
pub proof fn law_tag_parts(id: u32, seq: u32, tag: u64)
    ensures
        connection_of(tag_of(id, seq)) == id,
        sequence_of(tag_of(id, seq)) == seq,
        tag_of(connection_of(tag), sequence_of(tag)) == tag,
{
}

/// Returns the connection to which a tag belongs.
pub fn tag_connection(tag: u64) -> (r: u32)
    ensures
        r == connection_of(tag),
{
    assert(tag >> 32u64 == tag / 0x1_0000_0000) by (bit_vector);
    (tag >> 32u64) as u32
}

/// Returns the place of a tag within its connection.
pub fn tag_sequence(tag: u64) -> (r: u32)
    ensures
        r == sequence_of(tag),
{
    assert(tag & 0xffff_ffffu64 == tag % 0x1_0000_0000) by (bit_vector);
    (tag & 0xffff_ffffu64) as u32
}

/// Returns the tag of the message with number `seq` on connection `id`.
pub fn make_tag(id: u32, seq: u32) -> (r: u64)
    ensures
        r == tag_of(id, seq),
{
    let high: u64 = id as u64;
    let low: u64 = seq as u64;
    assert((high << 32u64) | low == high * 0x1_0000_0000 + low) by (bit_vector)
        requires
            high <= 0xffff_ffff,
            low <= 0xffff_ffff,
    ;
    (high << 32u64) | low
}

/// Which wakers are due.
#[derive(Debug, Clone, Copy, PartialEq, Eq, Structural)]
pub enum WakeKey {
    /// Those that wait for a tag.
    Tag(u64),
    /// Those that wait for any tag of a connection.
    Connection(u32),
}

impl WakeKey {
    /// A waker that waits for `tag` is due.
    pub open spec fn covers(self, tag: u64) -> bool {
        match self {
            WakeKey::Tag(own) => own == tag,
            WakeKey::Connection(id) => connection_of(tag) == id,
        }
    }

    fn is_covering(self, tag: u64) -> (r: bool)
        ensures
            r == self.covers(tag),
    {
        match self {
            WakeKey::Tag(own) => own == tag,
            WakeKey::Connection(id) => tag_connection(tag) == id,
        }
    }
}

/// What is left of the wakers, and which of them are woken, in that order, when those that `key`
/// covers among the first `n` are taken out from the back to the front.
pub open spec fn swept(wakers: Seq<(u64, Waker)>, n: nat, key: WakeKey) -> (
    Seq<(u64, Waker)>,
    Seq<(u64, Waker)>,
)
    decreases n,
{
    if n == 0 {
        (wakers, Seq::empty())
    } else if key.covers(wakers[n - 1].0) {
        let (left, woken) = swept(swap_removed(wakers, n - 1), (n - 1) as nat, key);
        (left, seq![wakers[n - 1]] + woken)
    } else {
        swept(wakers, (n - 1) as nat, key)
    }
}

/// The wakers that are left when those that `key` covers have been woken.
pub open spec fn wakers_left(wakers: Seq<(u64, Waker)>, key: WakeKey) -> Seq<(u64, Waker)> {
    swept(wakers, wakers.len(), key).0
}

/// The wakers that `key` covers, in the order in which they are woken.
pub open spec fn wakers_woken(wakers: Seq<(u64, Waker)>, key: WakeKey) -> Seq<(u64, Waker)> {
    swept(wakers, wakers.len(), key).1
}

/// The wakers that are to be woken, in that order, for `key`.
pub open spec fn to_wake(wakers: Seq<(u64, Waker)>, key: WakeKey) -> Seq<Waker> {
    wakers_woken(wakers, key).map_values(|waiting: (u64, Waker)| waiting.1)
}

proof fn lemma_swept(wakers: Seq<(u64, Waker)>, n: nat, key: WakeKey)
    requires
        n <= wakers.len(),
        forall|i: int| n <= i < wakers.len() ==> !key.covers((#[trigger] wakers[i]).0),
    ensures
        ({
            let (left, woken) = swept(wakers, n, key);
            &&& left.to_multiset().add(woken.to_multiset()) == wakers.to_multiset()
            &&& left.len() + woken.len() == wakers.len()
            &&& forall|i: int| 0 <= i < left.len() ==> !key.covers((#[trigger] left[i]).0)
            &&& forall|i: int| 0 <= i < woken.len() ==> key.covers((#[trigger] woken[i]).0)
        }),
    decreases n,
{
    broadcast use vstd::seq_lib::group_to_multiset_ensures;

    let (left, woken) = swept(wakers, n, key);
    if n == 0 {
        assert(left.to_multiset().add(woken.to_multiset()) =~= wakers.to_multiset());
    } else if key.covers(wakers[n - 1].0) {
        let shorter = swap_removed(wakers, n - 1);
        lemma_swap_removed(wakers, n - 1);
        assert forall|i: int| n - 1 <= i < shorter.len() implies !key.covers(
            (#[trigger] shorter[i]).0,
        ) by {
            if i == n - 1 {
                assert(shorter[i] == wakers[wakers.len() - 1]);
            } else {
                assert(shorter[i] == wakers[i]);
            }
        }
        lemma_swept(shorter, (n - 1) as nat, key);
        let (less, others) = swept(shorter, (n - 1) as nat, key);
        let one = seq![wakers[n - 1]];
        vstd::seq_lib::lemma_multiset_commutative(one, others);
        assert(one =~= Seq::empty().push(wakers[n - 1]));
        assert(wakers.contains(wakers[n - 1]));
        assert(wakers.to_multiset().count(wakers[n - 1]) > 0);
        assert(one.to_multiset() =~= Multiset::empty().insert(wakers[n - 1]));
        assert(left == less && woken == one + others);
        assert(woken.to_multiset() == one.to_multiset().add(others.to_multiset()));
        assert(less.to_multiset().add(others.to_multiset()) == wakers.to_multiset().remove(
            wakers[n - 1],
        ));
        assert(left.to_multiset().add(woken.to_multiset()) =~= less.to_multiset().add(
            others.to_multiset(),
        ).insert(wakers[n - 1]));
        assert(left.to_multiset().add(woken.to_multiset()) =~= wakers.to_multiset());
        assert forall|i: int| 0 <= i < woken.len() implies key.covers((#[trigger] woken[i]).0) by {
            if i > 0 {
                assert(woken[i] == others[i - 1]);
            }
        }
    } else {
        lemma_swept(wakers, (n - 1) as nat, key);
    }
}

/// Waking parts the wakers in two: those that `key` covers are woken, each once, and the others
/// stay.
pub proof fn law_waking_parts_the_wakers(wakers: Seq<(u64, Waker)>, key: WakeKey)
    ensures
        wakers_left(wakers, key).to_multiset().add(wakers_woken(wakers, key).to_multiset())
            == wakers.to_multiset(),
        forall|i: int|
            0 <= i < wakers_left(wakers, key).len() ==> !key.covers(
                (#[trigger] wakers_left(wakers, key)[i]).0,
            ),
        forall|i: int|
            0 <= i < wakers_woken(wakers, key).len() ==> key.covers(
                (#[trigger] wakers_woken(wakers, key)[i]).0,
            ),
{
    lemma_swept(wakers, wakers.len(), key);
}

/// Where `key` covers nobody, nobody is woken.
proof fn lemma_nobody_swept(wakers: Seq<(u64, Waker)>, n: nat, key: WakeKey)
    requires
        n <= wakers.len(),
        forall|i: int| 0 <= i < n ==> !key.covers((#[trigger] wakers[i]).0),
    ensures
        swept(wakers, n, key) == (wakers, Seq::<(u64, Waker)>::empty()),
    decreases n,
{
    if n > 0 {
        assert(!key.covers(wakers[n - 1].0));
        lemma_nobody_swept(wakers, (n - 1) as nat, key);
    }
}

/// Once those that `key` covers have been taken out, nobody else is.
pub proof fn lemma_woken_once(wakers: Seq<(u64, Waker)>, key: WakeKey)
    ensures
        wakers_left(wakers_left(wakers, key), key) == wakers_left(wakers, key),
        to_wake(wakers_left(wakers, key), key) == Seq::<Waker>::empty(),
{
    law_waking_parts_the_wakers(wakers, key);
    let left = wakers_left(wakers, key);
    lemma_nobody_swept(left, left.len(), key);
    assert(to_wake(left, key) =~= Seq::empty());
}

/// Whoever waits stays where it is or is woken, and is woken if `key` covers it.
pub proof fn lemma_kept_or_woken(wakers: Seq<(u64, Waker)>, key: WakeKey, waiting: (u64, Waker))
    requires
        wakers.contains(waiting),
    ensures
        wakers_left(wakers, key).contains(waiting) || to_wake(wakers, key).contains(waiting.1),
        key.covers(waiting.0) ==> to_wake(wakers, key).contains(waiting.1),
{
    broadcast use vstd::seq_lib::group_to_multiset_ensures;

    law_waking_parts_the_wakers(wakers, key);
    let (left, woken) = (wakers_left(wakers, key), wakers_woken(wakers, key));
    assert(wakers.to_multiset().count(waiting) > 0);
    assert(left.to_multiset().count(waiting) + woken.to_multiset().count(waiting) > 0);
    if woken.to_multiset().count(waiting) > 0 {
        let i: int = choose|i: int| 0 <= i < woken.len() && woken[i] == waiting;
        assert(woken.contains(waiting));
        assert(to_wake(wakers, key)[i] == waiting.1);
    } else {
        assert(left.contains(waiting));
        let i: int = choose|i: int| 0 <= i < left.len() && left[i] == waiting;
        assert(!key.covers(left[i].0));
    }
}

/// The tags of the messages, in their order.
pub open spec fn message_tags<D>(msgs: Seq<Message<D>>) -> Seq<u64> {
    msgs.map_values(|msg: Message<D>| msg.tag)
}

/// The tags of the pending requests, in their order.
pub open spec fn request_tags<D>(registered: Seq<(u64, Sender<Message<D>>)>) -> Seq<u64> {
    registered.map_values(|request: (u64, Sender<Message<D>>)| request.0)
}

/// The requests that are pending once the first `k` for `tag` have been answered.
pub open spec fn answered<D>(
    registered: Seq<(u64, Sender<Message<D>>)>,
    tag: u64,
    k: nat,
) -> Seq<(u64, Sender<Message<D>>)>
    decreases k,
{
    if k == 0 {
        registered
    } else {
        let before = answered(registered, tag, (k - 1) as nat);
        match request_tags(before).index_of_first(tag) {
            Some(i) => swap_removed(before, i),
            None => before,
        }
    }
}

/// The request for `tag` that is asked next once the first `k` have been answered.
pub open spec fn asked<D>(registered: Seq<(u64, Sender<Message<D>>)>, tag: u64, k: nat) -> Option<
    Sender<Message<D>>,
> {
    let pending = answered(registered, tag, k);
    match request_tags(pending).index_of_first(tag) {
        Some(i) => Some(pending[i].1),
        None => None,
    }
}

/// Sending `msg` over `sender` has given `answer`.
pub open spec fn sent_over<D>(
    sender: Sender<Message<D>>,
    msg: Message<D>,
    answer: Result<(), Message<D>>,
) -> bool {
    call_ensures(Sender::<Message<D>>::send, (sender, msg), answer)
}

/// `msg` was sent to the request for its tag that is asked next once the first `k` have been
/// answered, and that gave `answer`.
pub open spec fn offered<D>(
    registered: Seq<(u64, Sender<Message<D>>)>,
    msg: Message<D>,
    k: nat,
    answer: Result<(), Message<D>>,
) -> bool {
    asked(registered, msg.tag, k) matches Some(sender) && sent_over(sender, msg, answer)
}

impl<D> MailboxView<D> {
    /// A mailbox that holds nothing.
    pub open spec fn empty(id: u64) -> MailboxView<D> {
        MailboxView {
            id,
            registered: Seq::empty(),
            msgs: Seq::empty(),
            wakers: Seq::empty(),
            sync_connections: Seq::empty(),
        }
    }

    /// The mailbox with the message that comes next for `tag` taken out, and that message.
    pub open spec fn received(self, tag: u64) -> (MailboxView<D>, Option<Message<D>>) {
        match message_tags(self.msgs).index_of_first(tag) {
            Some(i) => (
                MailboxView { msgs: swap_removed(self.msgs, i), ..self },
                Some(self.msgs[i]),
            ),
            None => (self, None),
        }
    }

    /// `after` is the mailbox with one more request, for `tag`, behind all others: what it is
    /// answered comes out of `receiver`.
    pub open spec fn requested(
        self,
        tag: u64,
        receiver: Receiver<Message<D>>,
        after: MailboxView<D>,
    ) -> bool {
        exists|sender: Sender<Message<D>>|
            after == (MailboxView {
                registered: #[trigger] self.registered.push((tag, sender)),
                ..self
            }) && connected(sender, receiver)
    }

    /// What the mailbox holds once `waker` polls for `tag`, after all others.
    pub open spec fn polled_by(self, tag: u64, waker: Waker) -> MailboxView<D> {
        MailboxView { wakers: self.wakers.push((tag, waker)), ..self }
    }

    /// A message for `tag` waits in the mailbox.
    pub open spec fn has(self, tag: u64) -> bool {
        message_tags(self.msgs).contains(tag)
    }

    /// What the mailbox holds, and the message that is still to be offered, once a message for
    /// `tag` has been answered with `answer`: one that was refused goes to the next request, or is
    /// kept if there is none.
    pub open spec fn settled(self, tag: u64, answer: Result<(), Message<D>>) -> (
        MailboxView<D>,
        Option<Message<D>>,
    ) {
        match answer {
            Ok(_) => (self, None),
            Err(msg) => if request_tags(self.registered).contains(tag) {
                (self, Some(msg))
            } else {
                (MailboxView { msgs: self.msgs.push(msg), ..self }, None)
            },
        }
    }

    /// `after` can be what the mailbox holds once `msg` has been delivered to it. Whoever polls
    /// for the tag is taken out. The requests for the tag were asked one after the other: either
    /// one has taken the message, or all have refused it and it is kept.
    pub open spec fn delivered(self, msg: Message<D>, after: MailboxView<D>) -> bool {
        exists|k: nat|
            after.registered == #[trigger] answered(self.registered, msg.tag, k)
                && self.delivered_to(msg, k, after)
    }

    /// `after` is what the mailbox holds once `msg` has been delivered to it and `k` requests for
    /// its tag have been answered. All of them have refused the message, but for the last one if
    /// it is not kept.
    pub open spec fn delivered_to(self, msg: Message<D>, k: nat, after: MailboxView<D>) -> bool {
        let rest = MailboxView {
            wakers: wakers_left(self.wakers, WakeKey::Tag(msg.tag)),
            registered: after.registered,
            ..self
        };
        ||| self.taken_by(msg, k) && after == rest
        ||| self.refused_by(msg, k) && request_tags(after.registered).index_of_first(msg.tag)
            is None && after == (MailboxView { msgs: self.msgs.push(msg), ..rest })
    }

    /// `msg` was sent over a half that is connected to `receiver`. If that has taken it, the
    /// request is gone and nothing more is kept in `after` than before. If it has refused it, and
    /// nobody else waits for the tag, the message is kept.
    pub open spec fn sent_to(
        self,
        receiver: Receiver<Message<D>>,
        msg: Message<D>,
        after: MailboxView<D>,
    ) -> bool {
        let others = answered(self.registered, msg.tag, 1);
        exists|sender: Sender<Message<D>>, answer: Result<(), Message<D>>|
            connected(sender, receiver) && #[trigger] sent_over(sender, msg, answer) && match answer {
                Ok(_) => after.msgs == self.msgs && after.registered == others,
                Err(back) => back == msg && (!request_tags(others).contains(msg.tag)
                    ==> after.msgs == self.msgs.push(msg)),
            }
    }

    /// The first `k` requests for the tag of `msg` have refused it.
    pub open spec fn refused_by(self, msg: Message<D>, k: nat) -> bool {
        forall|j: nat| j < k ==> #[trigger] offered(self.registered, msg, j, Err(msg))
    }

    /// Of the first `k` requests for the tag of `msg` the last has taken it, and the others have
    /// refused it.
    pub open spec fn taken_by(self, msg: Message<D>, k: nat) -> bool {
        &&& k > 0
        &&& self.refused_by(msg, (k - 1) as nat)
        &&& offered(self.registered, msg, (k - 1) as nat, Ok(()))
    }
}

impl<D> Mailbox<D> {
    /// An empty mailbox.
    pub fn new(id: u64) -> (r: Mailbox<D>)
        ensures
            r@ == MailboxView::<D>::empty(id),
    {
        Mailbox {
            id,
            registered: Vec::new(),
            msgs: Vec::new(),
            wakers: Vec::new(),
            sync_connections: VecDeque::new(),
        }
    }

    /// Takes out the wakers that `key` covers, in the order in which they are to be woken.
    #[must_use]
    pub fn take_wakers(&mut self, key: WakeKey) -> (woken: Vec<Waker>)
        ensures
            final(self)@ == (MailboxView {
                wakers: wakers_left(old(self).wakers@, key),
                ..old(self)@
            }),
            woken@ == to_wake(old(self).wakers@, key),
    {
        let mut woken: Vec<Waker> = Vec::new();
        let ghost mut taken: Seq<(u64, Waker)> = Seq::empty();
        let mut i: usize = self.wakers.len();
        assert(taken + swept(self.wakers@, i as nat, key).1 =~= wakers_woken(self.wakers@, key));
        while i > 0
            invariant
                i <= self.wakers@.len(),
                self@ == (MailboxView { wakers: self.wakers@, ..old(self)@ }),
                swept(self.wakers@, i as nat, key).0 == wakers_left(old(self).wakers@, key),
                taken + swept(self.wakers@, i as nat, key).1 == wakers_woken(
                    old(self).wakers@,
                    key,
                ),
                woken@ == taken.map_values(|waiting: (u64, Waker)| waiting.1),
            decreases i,
        {
            let ghost before = self.wakers@;
            i = i - 1;
            if key.is_covering(self.wakers[i].0) {
                let (tag, waker): (u64, Waker) = self.wakers.swap_remove(i);
                woken.push(waker);
                proof {
                    let sofar = taken;
                    taken = taken.push((tag, waker));
                    assert(self.wakers@ =~= swap_removed(before, i as int));
                    assert(taken + swept(self.wakers@, i as nat, key).1 =~= sofar + swept(
                        before,
                        i as nat + 1,
                        key,
                    ).1);
                    assert(woken@ =~= taken.map_values(|waiting: (u64, Waker)| waiting.1));
                }
            }
        }
        assert(taken + Seq::<(u64, Waker)>::empty() =~= taken);
        woken
    }

    /// Takes out whoever waits for data of connection `tcp_id`, to be woken.
    #[must_use]
    pub fn wake_tcp_connection(&mut self, tcp_id: u32) -> (woken: Vec<Waker>)
        ensures
            final(self)@ == (MailboxView {
                wakers: wakers_left(old(self).wakers@, WakeKey::Connection(tcp_id)),
                ..old(self)@
            }),
            woken@ == to_wake(old(self).wakers@, WakeKey::Connection(tcp_id)),
    {
        self.take_wakers(WakeKey::Connection(tcp_id))
    }

    /// Takes out the first pending request for `tag`.
    pub fn next_registered(&mut self, tag: u64) -> (r: Option<Sender<Message<D>>>)
        ensures
            final(self)@ == (MailboxView {
                registered: answered(old(self).registered@, tag, 1),
                ..old(self)@
            }),
            r == (match request_tags(old(self).registered@).index_of_first(tag) {
                Some(i) => Some(old(self).registered@[i].1),
                None => None,
            }),
    {
        let ghost before = self.registered@;
        let ghost tags = request_tags(before);
        proof {
            tags.index_of_first_ensures(tag);
            assert(answered(before, tag, 0) == before);
        }
        let mut i: usize = 0;
        while i < self.registered.len()
            invariant
                i <= before.len(),
                self@ == old(self)@,
                before == self.registered@,
                tags == request_tags(before),
                answered(before, tag, 0) == before,
                forall|j: int| 0 <= j < i ==> tags[j] != tag,
            decreases before.len() - i,
        {
            if self.registered[i].0 == tag {
                proof {
                    tags.index_of_first_ensures(tag);
                    assert(tags[i as int] == tag);
                    assert(tags.contains(tag));
                }
                let (_, sender): (u64, Sender<Message<D>>) = self.registered.swap_remove(i);
                assert(self.registered@ =~= swap_removed(before, i as int));
                return Some(sender);
            }
            assert(tags[i as int] == before[i as int].0);
            i = i + 1;
        }
        proof {
            tags.index_of_first_ensures(tag);
            assert(!tags.contains(tag));
        }
        None
    }

    /// Goes on with the delivery of a message for `tag`, given the answer of the request that it
    /// was offered to last, or the message itself as if it had been refused. A message that was
    /// taken is done with. One that was refused is handed out, to be offered to the next request
    /// for the tag; if there is none, it is kept.
    pub fn settle(&mut self, tag: u64, answer: Result<(), Message<D>>) -> (r: Option<Message<D>>)
        ensures
            (final(self)@, r) == old(self)@.settled(tag, answer),
    {
        match answer {
            Ok(_) => None,
            Err(msg) => {
                if self.is_requested(tag) {
                    Some(msg)
                } else {
                    self.msgs.push(msg);
                    None
                }
            },
        }
    }

    /// Whether a request for `tag` is pending.
    fn is_requested(&self, tag: u64) -> (r: bool)
        ensures
            r == request_tags(self.registered@).contains(tag),
    {
        let ghost tags = request_tags(self.registered@);
        let mut i: usize = 0;
        while i < self.registered.len()
            invariant
                i <= self.registered@.len(),
                tags == request_tags(self.registered@),
                forall|j: int| 0 <= j < i ==> tags[j] != tag,
            decreases self.registered@.len() - i,
        {
            if self.registered[i].0 == tag {
                assert(tags[i as int] == tag);
                return true;
            }
            assert(tags[i as int] == self.registered@[i as int].0);
            i = i + 1;
        }
        false
    }

    /// Delivers a message: offers it to the pending requests for its tag, one after the other,
    /// until one takes it, or else keeps it. Returns whoever polls for the tag, to be woken: nobody
    /// if they were taken out before, so that they could be woken first.
    #[must_use]
    pub fn deliver(&mut self, msg: Message<D>) -> (woken: Vec<Waker>)
        ensures
            old(self)@.delivered(msg, final(self)@),
            woken@ == to_wake(old(self).wakers@, WakeKey::Tag(msg.tag)),
    {
        let tag: u64 = msg.tag;
        let woken: Vec<Waker> = self.take_wakers(WakeKey::Tag(tag));
        let ghost all = self.registered@;
        let ghost mut k: nat = 0;
        let ghost rest = self@;
        let mut pending: Option<Message<D>> = self.settle(tag, Err(msg));
        proof {
            request_tags(all).index_of_first_ensures(tag);
            assert(answered(all, tag, 0) == all);
            assert(pending is None ==> old(self)@.delivered_to(msg, 0, self@));
        }
        loop
            invariant
                tag == msg.tag,
                all == old(self).registered@,
                rest == (MailboxView {
                    wakers: wakers_left(old(self).wakers@, WakeKey::Tag(tag)),
                    ..old(self)@
                }),
                self.registered@ == answered(all, tag, k),
                pending matches Some(back) ==> back == msg && old(self)@.refused_by(msg, k)
                    && request_tags(self.registered@).contains(tag) && self@ == (MailboxView { registered: self.registered@, ..rest }),
                pending is None ==> old(self)@.delivered_to(msg, k, self@),
            ensures
                self.registered@ == answered(all, tag, k),
                old(self)@.delivered_to(msg, k, self@),
                all == old(self).registered@,
            decreases self.registered@.len(),
        {
            let back: Message<D> = match pending {
                Some(back) => back,
                None => {
                    break;
                },
            };
            let ghost now = self.registered@;
            proof {
                request_tags(now).index_of_first_ensures(tag);
                assert(answered(now, tag, 0) == now);
                assert(answered(all, tag, k + 1) == answered(now, tag, 1));
            }
            let sender: Sender<Message<D>> = self.next_registered(tag).unwrap();
            assert(asked(all, tag, k) == Some(sender));
            let answer: Result<(), Message<D>> = sender.send(back);
            assert(offered(all, msg, k, answer));
            proof {
                k = k + 1;
                let i: int = request_tags(now).index_of_first(tag)->0;
                assert(self.registered@ == swap_removed(now, i));
                request_tags(self.registered@).index_of_first_ensures(tag);
            }
            proof {
                match answer {
                    Ok(done) => {
                        assert(done == ());
                        assert(offered(all, msg, (k - 1) as nat, Ok(())));
                        assert(old(self)@.taken_by(msg, k));
                    },
                    Err(_) => {
                        assert(offered(all, msg, (k - 1) as nat, Err(msg)));
                        assert(old(self)@.refused_by(msg, k));
                    },
                }
            }
            pending = self.settle(tag, answer);
        }
        woken
    }

    /// Whether a message for `tag` is there. If not, `waker` is kept until one comes.
    pub fn recv_ready(&mut self, waker: Option<Waker>, tag: u64) -> (ready: bool)
        ensures
            ready == old(self)@.has(tag),
            final(self)@ == (match waker {
                Some(waker) if !ready => old(self)@.polled_by(tag, waker),
                _ => old(self)@,
            }),
    {
        let ready: bool = self.position(tag).is_some();
        if !ready {
            match waker {
                Some(waker) => {
                    self.wakers.push((tag, waker));
                },
                None => {},
            }
        }
        ready
    }

    /// Where the first message for `tag` stands.
    fn position(&self, tag: u64) -> (r: Option<usize>)
        ensures
            r is Some <==> self@.has(tag),
            match (r, message_tags(self.msgs@).index_of_first(tag)) {
                (Some(i), Some(j)) => i == j && i < self.msgs@.len(),
                (None, None) => true,
                _ => false,
            },
    {
        let ghost tags = message_tags(self.msgs@);
        proof {
            tags.index_of_first_ensures(tag);
        }
        let mut i: usize = 0;
        while i < self.msgs.len()
            invariant
                i <= self.msgs@.len(),
                tags == message_tags(self.msgs@),
                forall|j: int| 0 <= j < i ==> tags[j] != tag,
            decreases self.msgs@.len() - i,
        {
            if self.msgs[i].tag == tag {
                proof {
                    tags.index_of_first_ensures(tag);
                    assert(tags[i as int] == tag);
                    assert(tags.contains(tag));
                }
                return Some(i);
            }
            assert(tags[i as int] == self.msgs@[i as int].tag);
            i = i + 1;
        }
        proof {
            tags.index_of_first_ensures(tag);
            assert(!tags.contains(tag));
        }
        None
    }

    /// Takes the first message for `tag`, if there is one.
    pub fn recv_sync(&mut self, tag: u64) -> (r: Option<Message<D>>)
        ensures
            (final(self)@, r) == old(self)@.received(tag),
            r is Some <==> old(self)@.has(tag),
    {
        match self.position(tag) {
            Some(i) => {
                let ghost before = self.msgs@;
                let msg: Message<D> = self.msgs.swap_remove(i);
                assert(self.msgs@ =~= swap_removed(before, i as int));
                Some(msg)
            },
            None => None,
        }
    }

    /// Takes the first message for `tag`, or registers a request for it.
    pub fn recv(&mut self, tag: u64) -> (r: Reception<D>)
        ensures
            r is Ready <==> old(self)@.has(tag),
            match r {
                Reception::Ready(msg) => old(self)@.received(tag) == (final(self)@, Some(msg)),
                Reception::Waiting(receiver) => !old(self)@.has(tag) && old(self)@.requested(
                    tag,
                    receiver,
                    final(self)@,
                ),
            },
    {
        proof {
            message_tags(self.msgs@).index_of_first_ensures(tag);
        }
        match self.recv_sync(tag) {
            Some(msg) => Reception::Ready(msg),
            None => {
                let (sender, receiver) = futures::channel::oneshot::channel::<Message<D>>();
                self.registered.push((tag, sender));
                assert(connected(sender, receiver) && self@ == (MailboxView {
                    registered: old(self)@.registered.push((tag, sender)),
                    ..old(self)@
                }));
                Reception::Waiting(receiver)
            },
        }
    }

    /// Signals a connection from `src_addr`.
    pub fn signal_connect(&mut self, src_addr: SocketAddr)
        ensures
            final(self)@ == (MailboxView {
                sync_connections: old(self).sync_connections@.push(src_addr),
                ..old(self)@
            }),
    {
        self.sync_connections.push_back(src_addr);
    }

    /// Takes the connection that was signaled first.
    pub fn accept_connect(&mut self) -> (r: Option<SocketAddr>)
        ensures
            old(self).sync_connections@.len() == 0 ==> r is None && final(self)@ == old(self)@,
            old(self).sync_connections@.len() > 0 ==> r == Some(old(self).sync_connections@[0])
                && final(self)@ == (MailboxView {
                sync_connections: old(self).sync_connections@.drop_first(),
                ..old(self)@
            }),
    {
        let r: Option<SocketAddr> = self.sync_connections.pop_front();
        proof {
            if old(self).sync_connections@.len() > 0 {
                assert(self.sync_connections@ =~= old(self).sync_connections@.drop_first());
            } else {
                assert(self.sync_connections@ =~= old(self).sync_connections@);
            }
        }
        r
    }
}

/// A message that nobody waits for is kept, behind all others.
pub proof fn law_unclaimed_message_is_kept<D>(
    before: MailboxView<D>,
    msg: Message<D>,
    after: MailboxView<D>,
)
    requires
        before.delivered(msg, after),
        !request_tags(before.registered).contains(msg.tag),
    ensures
        after.msgs == before.msgs.push(msg),
        after.registered == before.registered,
        after.sync_connections == before.sync_connections,
        after.has(msg.tag),
{
    let k: nat = choose|k: nat|
        after.registered == #[trigger] answered(before.registered, msg.tag, k)
            && before.delivered_to(msg, k, after);
    request_tags(before.registered).index_of_first_ensures(msg.tag);
    lemma_answered_none(before.registered, msg.tag, k);
    if k > 0 {
        lemma_answered_none(before.registered, msg.tag, (k - 1) as nat);
    }
    assert(message_tags(after.msgs)[before.msgs.len() as int] == msg.tag);
}

proof fn lemma_answered_none<D>(registered: Seq<(u64, Sender<Message<D>>)>, tag: u64, k: nat)
    requires
        request_tags(registered).index_of_first(tag) is None,
    ensures
        answered(registered, tag, k) == registered,
    decreases k,
{
    if k > 0 {
        lemma_answered_none(registered, tag, (k - 1) as nat);
    }
}

/// What is received from a mailbox that was empty for the tag is the message that was delivered
/// to it, and the mailbox is left as if the message had never come.
pub proof fn law_receive_gives_back_delivery<D>(
    before: MailboxView<D>,
    msg: Message<D>,
    after: MailboxView<D>,
)
    requires
        before.delivered(msg, after),
        !request_tags(before.registered).contains(msg.tag),
        !before.has(msg.tag),
    ensures
        after.received(msg.tag).1 == Some(msg),
        after.received(msg.tag).0.msgs == before.msgs,
{
    law_unclaimed_message_is_kept(before, msg, after);
    let tags = message_tags(after.msgs);
    let n: int = before.msgs.len() as int;
    tags.index_of_first_ensures(msg.tag);
    let i: int = tags.index_of_first(msg.tag)->0;
    assert(tags[n] == msg.tag);
    if i < n {
        assert(message_tags(before.msgs)[i] == tags[i]);
        assert(message_tags(before.msgs).contains(msg.tag));
    }
    assert(i == n);
    assert(swap_removed(after.msgs, n) =~= before.msgs);
}

/// A request that was filed where no other waits for the tag is the one that is asked next for it.
pub proof fn law_request_is_asked_next<D>(
    before: MailboxView<D>,
    tag: u64,
    receiver: Receiver<Message<D>>,
    after: MailboxView<D>,
)
    requires
        before.requested(tag, receiver, after),
        !request_tags(before.registered).contains(tag),
    ensures
        asked(after.registered, tag, 0) matches Some(sender) && connected(sender, receiver),
{
    let tags = request_tags(after.registered);
    let n: int = before.registered.len() as int;
    tags.index_of_first_ensures(tag);
    assert(tags[n] == tag);
    assert(tags.contains(tag));
    let i: int = tags.index_of_first(tag)->0;
    if i < n {
        assert(request_tags(before.registered)[i] == tags[i]);
        assert(request_tags(before.registered).contains(tag));
    }
}

/// A message goes to whoever waits for it: it is sent over the half that is connected to the
/// receiver of the request that is asked next for its tag.
pub proof fn law_waiting_request_is_sent_the_message<D>(
    before: MailboxView<D>,
    receiver: Receiver<Message<D>>,
    msg: Message<D>,
    after: MailboxView<D>,
)
    requires
        asked(before.registered, msg.tag, 0) matches Some(sender) && connected(sender, receiver),
        before.delivered(msg, after),
    ensures
        before.sent_to(receiver, msg, after),
{
    let all = before.registered;
    let sender = asked(all, msg.tag, 0)->0;
    let k: nat = choose|k: nat|
        after.registered == #[trigger] answered(all, msg.tag, k) && before.delivered_to(msg, k, after);
    request_tags(all).index_of_first_ensures(msg.tag);
    assert(answered(all, msg.tag, 0) == all);
    if before.taken_by(msg, k) && k == 1 {
        assert(offered(all, msg, 0, Ok(())));
        if after.msgs == before.msgs {
            assert(sent_over(sender, msg, Ok(())));
        } else {
            assert(offered(all, msg, 0, Err(msg)));
            assert(sent_over(sender, msg, Err(msg)));
        }
    } else {
        assert(k > 0);
        assert(offered(all, msg, 0, Err(msg)));
        assert(sent_over(sender, msg, Err(msg)));
        let rest = answered(all, msg.tag, 1);
        if !request_tags(rest).contains(msg.tag) && before.taken_by(msg, k) {
            request_tags(rest).index_of_first_ensures(msg.tag);
            lemma_answered_from(all, msg.tag, 1, (k - 1) as nat);
            assert(offered(all, msg, (k - 1) as nat, Ok(())));
        }
    }
}

/// Once nobody waits for the tag any more, answering changes nothing.
proof fn lemma_answered_from<D>(
    registered: Seq<(u64, Sender<Message<D>>)>,
    tag: u64,
    j: nat,
    k: nat,
)
    requires
        j <= k,
        request_tags(answered(registered, tag, j)).index_of_first(tag) is None,
    ensures
        answered(registered, tag, k) == answered(registered, tag, j),
    decreases k,
{
    if j < k {
        lemma_answered_from(registered, tag, j, (k - 1) as nat);
    }
}

/// Receiving takes away one message, and it is one that carries the tag.
pub proof fn law_receive_takes_one<D>(mailbox: MailboxView<D>, tag: u64)
    requires
        mailbox.has(tag),
    ensures
        mailbox.received(tag).1 matches Some(msg) && msg.tag == tag
            && mailbox.received(tag).0.msgs.to_multiset() == mailbox.msgs.to_multiset().remove(msg),
{
    let tags = message_tags(mailbox.msgs);
    tags.index_of_first_ensures(tag);
    let i: int = tags.index_of_first(tag)->0;
    assert(tags[i] == mailbox.msgs[i].tag);
    lemma_swap_removed(mailbox.msgs, i);
}

} // verus!
