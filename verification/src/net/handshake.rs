//! How tcp connections are opened, and what holds of them.

use crate::net::buffer::{min_of, ReadBuf};
use crate::net::error::NetError;
use crate::net::mailbox::{
    connection_of, law_tag_parts, law_waking_parts_the_wakers, lemma_kept_or_woken, request_tags,
    Message, Payload, WakeKey,
};
use crate::net::network::{Network, NetworkView, SimEvent, Verdict};
use crate::net::socket::Endpoint;
use crate::net::tcp::{
    closed, hang_up, told_chunk, told_id, waiting_for_the_end, Carried, TcpMessage, TcpState,
    TcpStream, UNKNOWN_TCP_ID,
};
use crate::net::traffic::Packet;
use crate::random::GlobalRng;
use crate::task::NodeId;
use crate::time::{Poll, TimeHandle};
use std::task::Waker;
use vstd::prelude::*;

verus! {

/// The tag under which a connection is opened.
pub const OPENING_TAG: u64 = 0;

/// Hands out the ids of connections.
#[derive(Debug, Clone, Copy, PartialEq, Eq, Structural)]
pub struct TcpIds {
    /// The next id.
    pub next: u32,
}

impl TcpIds {
    /// Hands out an id for a connection of `node`, and marks it as live.
    pub fn allocate_local_tcp_id<D>(&mut self, net: &mut Network<D>, node: NodeId) -> (r: u32)
        requires
            old(self).next < u32::MAX,
            old(net)@.wf(),
            old(net)@.nodes.contains_key(node.0),
            !old(net)@.nodes[node.0].live_tcp_ids.contains(old(self).next),
        ensures
            r == old(self).next,
            final(self).next == old(self).next + 1,
            final(net)@ == old(net)@.registered(node.0, r),
            final(net).config == old(net).config,
            final(net)@.wf(),
            old(net)@.reachable() ==> final(net)@.reachable(),
            old(net)@.routable() ==> final(net)@.routable(),
    {
        let id: u32 = self.next;
        self.next = self.next + 1;
        net.register_tcp_id(node, id);
        id
    }
}

/// A packet by which `state` tells its id to the other end, under `tag`.
pub open spec fn tells_id<O>(packet: Packet<Carried<O>>, state: TcpState, tag: u64) -> bool {
    &&& packet.node == state.ep.node
    &&& packet.src == state.ep.addr
    &&& packet.dst == state.remote_sock
    &&& packet.tag == tag
    &&& told_id(packet.data) == Some(state.local_tcp_id)
}

/// A connection that could not be opened.
#[derive(Debug)]
pub struct GivenUp {
    /// Why it could not.
    pub err: NetError,
    /// Whoever waits for it at the other end, to be woken.
    pub woken: Vec<Waker>,
}

/// Accepts the connection that `msg` opens, which came to the listening endpoint `ep`: tells the
/// other end what the connection is called here. If it cannot be told, the connection is given up.
pub fn accept_connection<O>(
    rng: &mut GlobalRng,
    net: &mut Network<Carried<O>>,
    time: &mut TimeHandle<SimEvent<Carried<O>>>,
    current: NodeId,
    ep: Endpoint,
    msg: Message<Carried<O>>,
    local_tcp_id: u32,
) -> (r: Result<TcpStream, GivenUp>)
    requires
        told_id(msg.data) is Some,
        old(net).can_send(*old(time), ep.node, msg.from),
        old(net)@.nodes.contains_key(ep.node.0) ==> old(
            net,
        )@.nodes[ep.node.0].live_tcp_ids.contains(local_tcp_id),
    ensures
        final(rng).seed() == old(rng).seed(),
        final(net).config == old(net).config,
        final(net)@.wf(),
        final(net)@.reachable(),
        old(net)@.routable() ==> final(net)@.routable(),
        final(time).wf(),
        ({
            let state = accepted(ep, local_tcp_id, told_id(msg.data)->0, msg.from);
            match r {
                Ok(stream) => {
                    &&& stream.wf()
                    &&& stream.state == state.after_send()
                    &&& stream.buffer@ == Seq::<u8>::empty()
                    &&& exists|packet: Packet<Carried<O>>|
                        #[trigger] tells_id(packet, state, state.send_tag()) && old(net).may_send(
                            *old(time),
                            packet,
                            Ok(()),
                            final(net)@,
                            *final(time),
                        ) && old(net).has_sent(
                            *old(rng),
                            *old(time),
                            packet,
                            Ok(()),
                            *final(rng),
                            final(net)@,
                            *final(time),
                        )
                },
                Err(given_up) => {
                    &&& given_up.err == NetError::PeerHungUp(msg.from)
                    &&& given_up.woken@ == waiting_for_the_end(old(net)@, current, state)
                    &&& final(net)@ == closed(old(net)@, current, state)
                    &&& *final(time) == *old(time)
                    &&& exists|packet: Packet<Carried<O>>, cause: NetError|
                        #[trigger] tells_id(packet, state, state.send_tag())
                            && #[trigger] old(net).may_send(
                            *old(time),
                            packet,
                            Err(cause),
                            old(net)@,
                            *old(time),
                        ) && old(net).has_sent(
                            *old(rng),
                            *old(time),
                            packet,
                            Err(cause),
                            *final(rng),
                            old(net)@,
                            *old(time),
                        )
                },
            }
        }),
{
    let from = msg.from;
    let remote_tcp_id: u32 = TcpMessage::unwrap_tcp_id(msg.data);
    let mut state: TcpState = TcpState::new(ep, local_tcp_id, remote_tcp_id, from);
    let ghost fresh = state;
    // tell other side what our tcp id is
    let tag: u64 = state.next_send_tag();
    let data: Payload<Carried<O>> = TcpMessage::tcp_id(local_tcp_id);
    let ghost packet = Packet { node: ep.node, src: ep.addr, dst: from, tag, data };
    assert(tells_id(packet, fresh, fresh.send_tag()));
    match net.send(rng, time, ep.node, ep.addr, from, tag, data) {
        Ok(_) => Ok(TcpStream::new(state)),
        Err(cause) => {
            assert(net@ == old(net)@ && *time == *old(time));
            assert(old(net).may_send(*old(time), packet, Err(cause), old(net)@, *old(time)));
            let woken: Vec<Waker> = hang_up(net, current, state);
            Err(GivenUp { err: NetError::PeerHungUp(from), woken })
        },
    }
}

/// The end that a server has of a connection that it accepts.
pub open spec fn accepted(
    ep: Endpoint,
    local_tcp_id: u32,
    remote_tcp_id: u32,
    from: crate::net::addr::SocketAddr,
) -> TcpState {
    TcpState {
        ep,
        send_seq: 0,
        recv_seq: 0,
        local_tcp_id,
        remote_tcp_id,
        remote_sock: from,
        nodelay: false,
    }
}

/// Starts to connect the endpoint `ep`: tells the other end what the connection is called here,
/// under the tag that is reserved for it. Returns the end of the connection, whose remote id is
/// not known yet, and the tag under which it will be told. If the other end cannot be told, the
/// connection is given up.
pub fn connect_begin<O>(
    rng: &mut GlobalRng,
    net: &mut Network<Carried<O>>,
    time: &mut TimeHandle<SimEvent<Carried<O>>>,
    current: NodeId,
    ep: Endpoint,
    local_tcp_id: u32,
) -> (r: Result<(TcpState, u64), GivenUp>)
    requires
        ep.peer is Some,
        old(net).can_send(*old(time), ep.node, ep.peer->0),
        old(net)@.nodes.contains_key(ep.node.0) ==> old(
            net,
        )@.nodes[ep.node.0].live_tcp_ids.contains(local_tcp_id),
    ensures
        final(rng).seed() == old(rng).seed(),
        final(net).config == old(net).config,
        final(net)@.wf(),
        final(net)@.reachable(),
        old(net)@.routable() ==> final(net)@.routable(),
        final(time).wf(),
        ({
            let state = accepted(ep, local_tcp_id, UNKNOWN_TCP_ID, ep.peer->0);
            exists|packet: Packet<Carried<O>>|
                #[trigger] tells_id(packet, state, OPENING_TAG) && match r {
                    Ok((begun, tag)) => {
                        &&& begun == state.after_recv()
                        &&& tag == state.recv_tag()
                        &&& old(net).may_send(
                            *old(time),
                            packet,
                            Ok(()),
                            final(net)@,
                            *final(time),
                        )
                        &&& old(net).has_sent(
                            *old(rng),
                            *old(time),
                            packet,
                            Ok(()),
                            *final(rng),
                            final(net)@,
                            *final(time),
                        )
                    },
                    Err(given_up) => {
                        &&& given_up.woken@ == waiting_for_the_end(old(net)@, current, state)
                        &&& final(net)@ == closed(old(net)@, current, state)
                        &&& *final(time) == *old(time)
                        &&& old(net).may_send(
                            *old(time),
                            packet,
                            Err(given_up.err),
                            old(net)@,
                            *old(time),
                        )
                        &&& old(net).has_sent(
                            *old(rng),
                            *old(time),
                            packet,
                            Err(given_up.err),
                            *final(rng),
                            old(net)@,
                            *old(time),
                        )
                    },
                }
        }),
{
    let remote_sock = ep.peer.unwrap();
    // partially initialized state
    let mut state: TcpState = TcpState::new(ep, local_tcp_id, UNKNOWN_TCP_ID, remote_sock);
    let ghost fresh = state;
    // establish new connection, use reserved tag 0 to tell other side the local tcp_id.
    let data: Payload<Carried<O>> = TcpMessage::tcp_id(local_tcp_id);
    let ghost packet = Packet {
        node: ep.node,
        src: ep.addr,
        dst: remote_sock,
        tag: OPENING_TAG,
        data,
    };
    assert(tells_id(packet, fresh, OPENING_TAG));
    match net.send(rng, time, ep.node, ep.addr, remote_sock, OPENING_TAG, data) {
        Ok(_) => {
            let tag: u64 = state.get_next_recv_tag_and_inc();
            Ok((state, tag))
        },
        Err(err) => {
            assert(net@ == old(net)@ && *time == *old(time));
            assert(old(net).may_send(*old(time), packet, Err(err), old(net)@, *old(time)));
            let woken: Vec<Waker> = hang_up(net, current, state);
            Err(GivenUp { err, woken })
        },
    }
}

/// Completes a connection: `msg` tells what it is called at the other end.
pub fn connect_finish<O>(state: TcpState, msg: Message<Carried<O>>) -> (r: TcpStream)
    requires
        told_id(msg.data) is Some,
        msg.from == state.remote_sock,
    ensures
        r.wf(),
        r.state == (TcpState { remote_tcp_id: told_id(msg.data)->0, ..state }),
        r.buffer@ == Seq::<u8>::empty(),
{
    let mut state: TcpState = state;
    state.remote_tcp_id = TcpMessage::unwrap_tcp_id(msg.data);
    TcpStream::new(state)
}

/// What `writer` sends next is what `reader` receives next.
pub open spec fn in_step(writer: TcpState, reader: TcpState) -> bool {
    &&& writer.remote_tcp_id == reader.local_tcp_id
    &&& writer.send_seq == reader.recv_seq
}

/// A connection that has been opened is in step in both directions: the server tells its id under
/// the tag that the client waits for, and from then on what one end sends next is what the other
/// receives next.
pub proof fn law_handshake_brings_ends_in_step(
    client_ep: Endpoint,
    client_id: u32,
    server_ep: Endpoint,
    server_id: u32,
)
    requires
        client_ep.peer is Some,
    ensures
        ({
            let begun = accepted(client_ep, client_id, UNKNOWN_TCP_ID, client_ep.peer->0);
            let server = accepted(server_ep, server_id, client_id, client_ep.addr);
            let client = TcpState { remote_tcp_id: server_id, ..begun.after_recv() };
            &&& server.send_tag() == begun.recv_tag()
            &&& in_step(client, server.after_send())
            &&& in_step(server.after_send(), client)
        }),
{
}

/// Ends that are in step stay so when a message is sent and received, and while they are, the tag
/// under which one sends is the tag under which the other receives.
pub proof fn law_ends_stay_in_step(writer: TcpState, reader: TcpState)
    requires
        in_step(writer, reader),
    ensures
        writer.send_tag() == reader.recv_tag(),
        in_step(writer.after_send(), reader.after_recv()),
{
}

/// The end once `n` more messages have been sent.
pub open spec fn after_sends(state: TcpState, n: nat) -> TcpState
    decreases n,
{
    if n == 0 {
        state
    } else {
        after_sends(state, (n - 1) as nat).after_send()
    }
}

/// The end once `n` more messages have been received.
pub open spec fn after_recvs(state: TcpState, n: nat) -> TcpState
    decreases n,
{
    if n == 0 {
        state
    } else {
        after_recvs(state, (n - 1) as nat).after_recv()
    }
}

/// However many messages are on their way, the `n`-th message that is sent from now on is the
/// `n`-th that is received.
pub proof fn law_messages_are_received_in_order(writer: TcpState, reader: TcpState, n: nat)
    requires
        in_step(writer, reader),
    ensures
        after_sends(writer, n).send_tag() == after_recvs(reader, n).recv_tag(),
        in_step(after_sends(writer, n), after_recvs(reader, n)),
    decreases n,
{
    if n > 0 {
        law_messages_are_received_in_order(writer, reader, (n - 1) as nat);
    }
}

/// The number of the `n`-th message from now on.
proof fn lemma_after_sends(state: TcpState, n: nat)
    ensures
        after_sends(state, n).send_seq as int == (state.send_seq + n) % 0x1_0000_0000,
        after_sends(state, n).remote_tcp_id == state.remote_tcp_id,
    decreases n,
{
    if n > 0 {
        lemma_after_sends(state, (n - 1) as nat);
        let before: int = state.send_seq + n - 1;
        assert((before + 1) % 0x1_0000_0000 == (if before % 0x1_0000_0000 == 0xffff_ffff {
            0
        } else {
            before % 0x1_0000_0000 + 1
        }));
    }
}

/// No two messages among as many as there are numbers have the same tag, so that none is taken
/// for another.
pub proof fn law_tags_do_not_repeat(state: TcpState, i: nat, j: nat)
    requires
        i < j,
        j - i < 0x1_0000_0000,
    ensures
        after_sends(state, i).send_tag() != after_sends(state, j).send_tag(),
{
    lemma_after_sends(state, i);
    lemma_after_sends(state, j);
    let (a, b) = (after_sends(state, i), after_sends(state, j));
    law_tag_parts(a.remote_tcp_id, a.send_seq, a.send_tag());
    law_tag_parts(b.remote_tcp_id, b.send_seq, b.send_tag());
    assert(a.send_seq != b.send_seq);
}

/// What is read from a connection is what was written to it: a chunk that `writer` has written
/// and that was not lost is, once it has arrived, what the reader, whose connection is in step,
/// reads first.
pub proof fn law_read_gives_back_what_was_written<O>(
    net: NetworkView<Carried<O>>,
    writer: TcpState,
    packet: Packet<Carried<O>>,
    bytes: Seq<u8>,
    node: u64,
    mailbox: u64,
    later: NetworkView<Carried<O>>,
    arrived: NetworkView<Carried<O>>,
    reader: TcpStream,
    current: NodeId,
    is_poll: bool,
    waker: Option<Waker>,
    read: ReadBuf,
    r: Poll<Result<usize, NetError>>,
    after: TcpStream,
    net_after: NetworkView<Carried<O>>,
    read_after: ReadBuf,
)
    requires
        crate::net::tcp::is_packet_of(packet, writer),
        packet.tag == writer.send_tag(),
        told_chunk(packet.data) == Some((writer.send_seq, bytes)),
        net.route(packet.node, packet.dst) == Ok::<u64, NetError>(node),
        net.verdict(node, packet.dst, packet.tag, packet.data.ty, false) == Verdict::Queued(mailbox),
        in_step(writer, reader.state),
        reader.state.ep.node == NodeId(node),
        reader.state.ep.addr.port == packet.dst.port,
        reader.state.remote_sock == packet.src,
        later.has_socket(node, packet.dst.port),
        reader.mailbox(later).id == net.nodes[node].sockets[packet.dst.port].id,
        !reader.mailbox(later).has(packet.tag),
        !request_tags(reader.mailbox(later).registered).contains(packet.tag),
        later.delivered(packet.delivery(node, mailbox), arrived),
        reader.buffer@.len() == 0,
        arrived.session_live(current, reader.state.remote_sock, reader.state.remote_tcp_id),
        reader.read_step(
            arrived,
            current,
            is_poll,
            waker,
            read,
            r,
            after,
            net_after,
            read_after,
        ),
    ensures
        reader.expects(arrived),
        crate::net::tcp::took(bytes, is_poll, read, r, after.buffer@, read_after),
        in_step(writer.after_send(), after.state),
{
    law_ends_stay_in_step(writer, reader.state);
    crate::net::laws::law_sent_packet_is_received(
        net,
        packet,
        false,
        node,
        mailbox,
        later,
        arrived,
    );
}

/// Nothing gets lost, doubled or out of order between what is received and what is read: if the
/// bytes that were read so far followed by those that are buffered are the bytes that were
/// received so far, then so it is after a further read, with what that read received.
pub proof fn law_reads_keep_the_order_of_bytes<O>(
    stream: TcpStream,
    net: NetworkView<Carried<O>>,
    current: NodeId,
    waker: Option<Waker>,
    read: ReadBuf,
    r: Poll<Result<usize, NetError>>,
    after: TcpStream,
    net_after: NetworkView<Carried<O>>,
    read_after: ReadBuf,
    consumed: Seq<u8>,
    received: Seq<u8>,
)
    requires
        read.wf(),
        stream.read_step(net, current, false, waker, read, r, after, net_after, read_after),
        consumed + stream.buffer@ == received,
    ensures
        read_after.filled@.len() >= read.filled@.len(),
        consumed + read_after.filled@.skip(read.filled@.len() as int) + after.buffer@ == received
            + newly_received(stream, net, current),
{
    let new = newly_received(stream, net, current);
    let n: int = read_after.filled@.len() - read.filled@.len();
    let taken = read_after.filled@.skip(read.filled@.len() as int);
    if stream.buffer@.len() > 0 {
        assert(taken =~= stream.buffer@.take(n));
        assert(consumed + taken + after.buffer@ =~= received + new);
    } else if new.len() > 0 || read_after.filled@.len() > read.filled@.len() {
        assert(taken =~= new.take(n));
        assert(consumed + taken + after.buffer@ =~= received + new);
    } else {
        assert(taken =~= Seq::empty());
        assert(consumed + taken + after.buffer@ =~= received + new);
    }
}

/// What a read takes over from the network.
pub open spec fn newly_received<O>(
    stream: TcpStream,
    net: NetworkView<Carried<O>>,
    current: NodeId,
) -> Seq<u8> {
    if stream.buffer@.len() > 0 || !net.session_live(
        current,
        stream.state.remote_sock,
        stream.state.remote_tcp_id,
    ) {
        Seq::empty()
    } else {
        match stream.next_message(net) {
            Some(msg) => match told_chunk(msg.data) {
                Some((_, bytes)) => bytes,
                None => Seq::empty(),
            },
            None => Seq::empty(),
        }
    }
}

/// Looking does not take: what was received when a stream was looked at stays buffered, and what
/// was seen are the first of the buffered bytes.
pub proof fn law_peeked_bytes_stay<O>(
    stream: TcpStream,
    net: NetworkView<Carried<O>>,
    current: NodeId,
    waker: Option<Waker>,
    seen: ReadBuf,
    r: Poll<Result<usize, NetError>>,
    after: TcpStream,
    net_after: NetworkView<Carried<O>>,
    seen_after: ReadBuf,
)
    requires
        seen.wf(),
        stream.read_step(net, current, true, waker, seen, r, after, net_after, seen_after),
    ensures
        after.buffer@ == stream.buffer@ + newly_received(stream, net, current),
        r matches Poll::Ready(Ok(n)) ==> n <= after.buffer@.len() && seen_after.filled@
            == seen.filled@ + after.buffer@.take(n as int),
{
    let new = newly_received(stream, net, current);
    assert(stream.buffer@ + new =~= after.buffer@);
}

/// A peek consumes nothing. If it gave `n` bytes, the next read asks nothing of the network,
/// whatever has become of it meanwhile, is ready, and gives the same bytes first: as many of the
/// `n` as it has room for.
pub proof fn law_peeked_bytes_can_be_read<O>(
    stream: TcpStream,
    net: NetworkView<Carried<O>>,
    current: NodeId,
    waker: Option<Waker>,
    seen: ReadBuf,
    n: usize,
    after: TcpStream,
    net_after: NetworkView<Carried<O>>,
    seen_after: ReadBuf,
    later: NetworkView<Carried<O>>,
    reader: NodeId,
    asked: Option<Waker>,
    read: ReadBuf,
    r: Poll<Result<usize, NetError>>,
    end: TcpStream,
    later_after: NetworkView<Carried<O>>,
    read_after: ReadBuf,
)
    requires
        seen.wf(),
        n > 0,
        stream.read_step(
            net,
            current,
            true,
            waker,
            seen,
            Poll::Ready(Ok(n)),
            after,
            net_after,
            seen_after,
        ),
        read.wf(),
        read.room() > 0,
        after.read_step(later, reader, false, asked, read, r, end, later_after, read_after),
    ensures
        !after.waits_on(later, reader),
        later_after == later,
        r matches Poll::Ready(Ok(m)) && min_of(n as nat, read.room()) <= m <= read.room()
            && read_after.filled@.len() == read.filled@.len() + m,
        ({
            let same = min_of(n as nat, read.room()) as int;
            read_after.filled@.skip(read.filled@.len() as int).take(same)
                == seen_after.filled@.skip(seen.filled@.len() as int).take(same)
        }),
{
    law_peeked_bytes_stay(
        stream,
        net,
        current,
        waker,
        seen,
        Poll::Ready(Ok(n)),
        after,
        net_after,
        seen_after,
    );
    let same = min_of(n as nat, read.room()) as int;
    let given = read_after.filled@.skip(read.filled@.len() as int);
    let shown = seen_after.filled@.skip(seen.filled@.len() as int);
    assert(shown =~= after.buffer@.take(n as int));
    assert(given =~= after.buffer@.take(given.len() as int));
    assert(given.take(same) =~= shown.take(same));
}

/// Once one end has been given up, the other end's reads find that out as soon as they have read
/// what was buffered, and whoever waits on such a read is woken.
pub proof fn law_hang_up_is_noticed<O>(
    net: NetworkView<Carried<O>>,
    current: NodeId,
    gone: TcpState,
    reader: TcpStream,
    by: NodeId,
)
    requires
        net.nodes.contains_key(gone.ep.node.0),
        reader.state.remote_tcp_id == gone.local_tcp_id,
        net.node_for(current, reader.state.remote_sock.ip) == Some(gone.ep.node.0),
        reader.state.local_tcp_id == gone.remote_tcp_id,
        net.node_for(by, gone.remote_sock.ip) == Some(reader.state.ep.node.0),
        reader.state.ep.addr.port == gone.remote_sock.port,
        net.has_socket(reader.state.ep.node.0, reader.state.ep.addr.port),
    ensures
        !closed(net, by, gone).session_live(
            current,
            reader.state.remote_sock,
            reader.state.remote_tcp_id,
        ),
        forall|waiting: (u64, Waker)|
            #[trigger] reader.mailbox(closed(net, by, gone)).wakers.contains(waiting)
                ==> connection_of(waiting.0) != reader.state.local_tcp_id,
        forall|waiting: (u64, Waker)|
            #[trigger] reader.mailbox(net).wakers.contains(waiting) && connection_of(waiting.0)
                == reader.state.local_tcp_id ==> waiting_for_the_end(net, by, gone).contains(
                waiting.1,
            ),
{
    let (node, port) = (reader.state.ep.node.0, reader.state.ep.addr.port);
    let first = net.deregistered(gone.ep.node.0, gone.local_tcp_id).woken(
        by,
        gone.remote_sock,
        gone.local_tcp_id,
    );
    assert(first.has_socket(node, port));
    law_waking_parts_the_wakers(
        first.nodes[node].sockets[port].wakers,
        WakeKey::Connection(gone.remote_tcp_id),
    );
    let ended = net.deregistered(gone.ep.node.0, gone.local_tcp_id);
    let now = ended.waiting(by, gone.remote_sock, gone.local_tcp_id);
    let then = first.waiting(by, gone.remote_sock, gone.remote_tcp_id);
    assert forall|waiting: (u64, Waker)|
        #[trigger] reader.mailbox(net).wakers.contains(waiting) && connection_of(waiting.0)
            == reader.state.local_tcp_id implies waiting_for_the_end(net, by, gone).contains(
        waiting.1,
    ) by {
        let wakers = ended.nodes[node].sockets[port].wakers;
        assert(wakers.contains(waiting));
        lemma_kept_or_woken(wakers, WakeKey::Connection(gone.local_tcp_id), waiting);
        if now.contains(waiting.1) {
            let i: int = choose|i: int| 0 <= i < now.len() && now[i] == waiting.1;
            assert((now + then)[i] == waiting.1);
        } else {
            lemma_kept_or_woken(
                first.nodes[node].sockets[port].wakers,
                WakeKey::Connection(gone.remote_tcp_id),
                waiting,
            );
            let i: int = choose|i: int| 0 <= i < then.len() && then[i] == waiting.1;
            assert((now + then)[now.len() + i] == waiting.1);
        }
    }
}

} // verus!
