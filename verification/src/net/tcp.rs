//! Tcp connections over the simulated network.

use crate::net::addr::SocketAddr;
use crate::net::buffer::{min_of, Buffer, ReadBuf};
use crate::net::error::NetError;
use crate::net::mailbox::{
    make_tag, tag_of, tag_sequence, MailboxView, Message, Payload, PayloadType,
};
use crate::net::network::{Network, NetworkView, SimEvent};
use crate::net::socket::Endpoint;
use crate::net::traffic::{sent, Packet};
use crate::random::GlobalRng;
use crate::task::NodeId;
use crate::time::{Poll, TimeHandle};
use std::task::Waker;
use vstd::prelude::*;

verus! {

/// What stands for the id of the remote end until it is known.
pub const UNKNOWN_TCP_ID: u32 = 0xdeadbeef;

/// What the two ends of a connection tell each other.
#[derive(Debug)]
pub enum TcpMessage {
    /// The id of the connection at the sender.
    TcpId(u32),
    /// Sequence number and data - the simulator is unordered.
    Payload(u32, Vec<u8>),
}

/// What packets carry on a network on which there are tcp connections: `O` is what the others
/// carry.
pub enum Carried<O> {
    /// A message of a tcp connection.
    Tcp(TcpMessage),
    /// Anything else.
    Other(O),
}

/// The id that a payload tells, if it opens a connection.
pub open spec fn told_id<O>(payload: Payload<Carried<O>>) -> Option<u32> {
    match (payload.ty, payload.data) {
        (PayloadType::TcpSignalConnect, Carried::Tcp(TcpMessage::TcpId(id))) => Some(id),
        _ => None,
    }
}

/// The sequence number and the bytes that a payload brings, if it is data of a connection.
pub open spec fn told_chunk<O>(payload: Payload<Carried<O>>) -> Option<(u32, Seq<u8>)> {
    match (payload.ty, payload.data) {
        (PayloadType::TcpData, Carried::Tcp(TcpMessage::Payload(seq, bytes))) => Some((seq, bytes@)),
        _ => None,
    }
}

impl TcpMessage {
    /// A payload that tells the id `id`.
    pub fn tcp_id<O>(id: u32) -> (r: Payload<Carried<O>>)
        ensures
            told_id(r) == Some(id),
            r.ty == PayloadType::TcpSignalConnect,
    {
        Payload::new_tcp_connect(Carried::Tcp(TcpMessage::TcpId(id)))
    }

    /// A payload that brings `bytes` as number `seq`.
    pub fn payload<O>(seq: u32, bytes: Vec<u8>) -> (r: Payload<Carried<O>>)
        ensures
            told_chunk(r) == Some((seq, bytes@)),
            r.ty == PayloadType::TcpData,
    {
        Payload::new_tcp_data(Carried::Tcp(TcpMessage::Payload(seq, bytes)))
    }

    /// Takes the id out of a payload.
    pub fn unwrap_tcp_id<O>(payload: Payload<Carried<O>>) -> (r: u32)
        requires
            told_id(payload) is Some,
        ensures
            Some(r) == told_id(payload),
    {
        match payload.data {
            Carried::Tcp(TcpMessage::TcpId(id)) => id,
            _ => UNKNOWN_TCP_ID,
        }
    }

    /// Takes the sequence number and the bytes out of a payload.
    pub fn unwrap_payload<O>(payload: Payload<Carried<O>>) -> (r: (u32, Vec<u8>))
        requires
            told_chunk(payload) is Some,
        ensures
            Some((r.0, r.1@)) == told_chunk(payload),
    {
        match payload.data {
            Carried::Tcp(TcpMessage::Payload(seq, bytes)) => (seq, bytes),
            _ => (0, Vec::new()),
        }
    }
}

/// The number after `seq`; they start over after the last one.
pub open spec fn next_seq(seq: u32) -> u32 {
    if seq == u32::MAX {
        0
    } else {
        (seq + 1) as u32
    }
}

/// One end of a connection.
#[derive(Debug, Clone, Copy, PartialEq, Eq, Structural)]
pub struct TcpState {
    /// The endpoint.
    pub ep: Endpoint,
    /// The number of the next message that is sent.
    pub send_seq: u32,
    /// The number of the next message that is received.
    pub recv_seq: u32,
    /// What the connection is called here.
    pub local_tcp_id: u32,
    /// What the connection is called at the other end.
    pub remote_tcp_id: u32,
    /// The other end.
    pub remote_sock: SocketAddr,
    /// Not simulated, only present to return the correct value with getters and setters.
    pub nodelay: bool,
}

impl TcpState {
    /// An end on which nothing has been sent or received.
    pub fn new(ep: Endpoint, local_tcp_id: u32, remote_tcp_id: u32, remote_sock: SocketAddr) -> (r:
        TcpState)
        ensures
            r == (TcpState {
                ep,
                send_seq: 0,
                recv_seq: 0,
                local_tcp_id,
                remote_tcp_id,
                remote_sock,
                nodelay: false,
            }),
    {
        TcpState {
            ep,
            send_seq: 0,
            recv_seq: 0,
            local_tcp_id,
            remote_tcp_id,
            remote_sock,
            nodelay: false,
        }
    }

    /// The tag of the next message that is sent.
    pub open spec fn send_tag(self) -> u64 {
        tag_of(self.remote_tcp_id, self.send_seq)
    }

    /// The tag of the next message that is received.
    pub open spec fn recv_tag(self) -> u64 {
        tag_of(self.local_tcp_id, self.recv_seq)
    }

    /// The end once one more message has been sent.
    pub open spec fn after_send(self) -> TcpState {
        TcpState { send_seq: next_seq(self.send_seq), ..self }
    }

    /// The end once one more message has been received.
    pub open spec fn after_recv(self) -> TcpState {
        TcpState { recv_seq: next_seq(self.recv_seq), ..self }
    }

    /// Hands out the tag of the next message that is sent.
    pub fn next_send_tag(&mut self) -> (r: u64)
        ensures
            r == old(self).send_tag(),
            *final(self) == old(self).after_send(),
    {
        let tag: u64 = make_tag(self.remote_tcp_id, self.send_seq);
        self.send_seq = self.send_seq.wrapping_add(1);
        tag
    }

    /// Returns the tag of the next message that is received.
    pub fn next_recv_tag(&self) -> (r: u64)
        ensures
            r == self.recv_tag(),
    {
        make_tag(self.local_tcp_id, self.recv_seq)
    }

    /// Goes on to the next message that is received.
    pub fn increment_recv_tag(&mut self)
        ensures
            *final(self) == old(self).after_recv(),
    {
        self.recv_seq = self.recv_seq.wrapping_add(1);
    }

    /// Hands out the tag of the next message that is received.
    pub fn get_next_recv_tag_and_inc(&mut self) -> (r: u64)
        ensures
            r == old(self).recv_tag(),
            *final(self) == old(self).after_recv(),
    {
        let tag: u64 = self.next_recv_tag();
        self.increment_recv_tag();
        tag
    }
}

/// A tcp stream: one end of a connection, and what was received but not read yet.
#[derive(Debug)]
pub struct TcpStream {
    /// The end of the connection.
    pub state: TcpState,
    /// What was received but not read yet.
    pub buffer: Buffer,
}

/// A packet that a tcp end sends.
pub open spec fn is_packet_of<O>(packet: Packet<Carried<O>>, state: TcpState) -> bool {
    &&& packet.node == state.ep.node
    &&& packet.src == state.ep.addr
    &&& packet.dst == state.remote_sock
}

impl TcpStream {
    /// The buffer is in order.
    pub open spec fn wf(&self) -> bool {
        self.buffer.wf()
    }

    /// A stream on which nothing has been received.
    pub fn new(state: TcpState) -> (r: TcpStream)
        ensures
            r.wf(),
            r.state == state,
            r.buffer@ == Seq::<u8>::empty(),
    {
        TcpStream { state, buffer: Buffer::new() }
    }

    /// Returns where the stream is connected to.
    pub fn peer_addr(&self) -> (r: Result<SocketAddr, NetError>)
        ensures
            r == (match self.state.ep.peer {
                Some(peer) => Ok::<SocketAddr, NetError>(peer),
                None => Err(NetError::NotConnected),
            }),
    {
        self.state.ep.peer_addr()
    }

    /// Returns the address that is bound.
    pub fn local_addr(&self) -> (r: SocketAddr)
        ensures
            r == self.state.ep.addr,
    {
        self.state.ep.local_addr()
    }

    /// Returns what `set_nodelay` has set.
    pub fn nodelay(&self) -> (r: bool)
        ensures
            r == self.state.nodelay,
    {
        self.state.nodelay
    }

    /// Sets a value that has no effect on the simulation.
    pub fn set_nodelay(&mut self, nodelay: bool)
        ensures
            final(self).state == (TcpState { nodelay, ..old(self).state }),
            final(self).buffer == old(self).buffer,
    {
        self.state.nodelay = nodelay;
    }

    /// Writes `buf` as one message, all of it or nothing.
    pub fn poll_write_priv<O>(
        &mut self,
        rng: &mut GlobalRng,
        net: &mut Network<Carried<O>>,
        time: &mut TimeHandle<SimEvent<Carried<O>>>,
        buf: Vec<u8>,
    ) -> (r: Poll<Result<usize, NetError>>)
        requires
            old(net).can_send(*old(time), old(self).state.ep.node, old(self).state.remote_sock),
        ensures
            final(rng).seed() == old(rng).seed(),
            final(self).state == old(self).state.after_send(),
            final(self).buffer == old(self).buffer,
            final(net).config == old(net).config,
            final(net)@.wf(),
            final(net)@.reachable(),
            old(net)@.routable() ==> final(net)@.routable(),
            final(time).wf(),
            r matches Poll::Ready(result) && (exists|packet: Packet<Carried<O>>|
                {
                    &&& is_packet_of(packet, old(self).state)
                    &&& packet.tag == old(self).state.send_tag()
                    &&& #[trigger] told_chunk(packet.data) == Some((old(self).state.send_seq, buf@))
                    &&& old(net).may_send(
                        *old(time),
                        packet,
                        match result {
                            Ok(_) => Ok(()),
                            Err(err) => Err(err),
                        },
                        final(net)@,
                        *final(time),
                    )
                    &&& old(net).has_sent(
                        *old(rng),
                        *old(time),
                        packet,
                        match result {
                            Ok(_) => Ok(()),
                            Err(err) => Err(err),
                        },
                        *final(rng),
                        final(net)@,
                        *final(time),
                    )
                }) && (result matches Ok(n) ==> n == buf@.len()),
    {
        let num: usize = buf.len();
        let tag: u64 = self.state.next_send_tag();
        let seq: u32 = tag_sequence(tag);
        proof {
            crate::net::mailbox::law_tag_parts(
                old(self).state.remote_tcp_id,
                old(self).state.send_seq,
                tag,
            );
        }
        let (node, src, dst) = (self.state.ep.node, self.state.ep.addr, self.state.remote_sock);
        let data: Payload<Carried<O>> = TcpMessage::payload(seq, buf);
        let ghost packet = Packet { node, src, dst, tag, data };
        match net.send(rng, time, node, src, dst, tag, data) {
            Ok(_) => {
                assert(told_chunk(packet.data) == Some((seq, buf@)));
                Poll::Ready(Ok(num))
            },
            Err(err) => {
                assert(told_chunk(packet.data) == Some((seq, buf@)));
                Poll::Ready(Err(err))
            },
        }
    }

    /// The mailbox of this end.
    pub open spec fn mailbox<O>(&self, net: NetworkView<Carried<O>>) -> MailboxView<Carried<O>> {
        net.nodes[self.state.ep.node.0].sockets[self.state.ep.addr.port]
    }

    /// The message that comes next, if it is there.
    pub open spec fn next_message<O>(&self, net: NetworkView<Carried<O>>) -> Option<
        Message<Carried<O>>,
    > {
        self.mailbox(net).received(self.state.recv_tag()).1
    }

    /// If the message that comes next is there, it is from the other end, and brings data under
    /// the number that is expected.
    pub open spec fn expects<O>(&self, net: NetworkView<Carried<O>>) -> bool {
        self.next_message(net) matches Some(msg) ==> {
            &&& msg.from == self.state.remote_sock
            &&& told_chunk(msg.data) matches Some((seq, _)) && seq == self.state.recv_seq
        }
    }

    /// A read turns to the network: nothing is buffered, and the other end is still there.
    pub open spec fn waits_on<O>(&self, net: NetworkView<Carried<O>>, current: NodeId) -> bool {
        self.buffer@.len() == 0 && net.session_live(
            current,
            self.state.remote_sock,
            self.state.remote_tcp_id,
        )
    }

    /// Reads into `read` what is buffered or, if that is nothing, what comes next, as far as
    /// there is room. What was only looked at (`is_poll`) can be read again. Learns instantly if
    /// the other end has hung up. If nothing is there yet, `waker` is kept until something comes.
    pub fn poll_read_priv<O>(
        &mut self,
        net: &mut Network<Carried<O>>,
        current: NodeId,
        is_poll: bool,
        waker: Option<Waker>,
        read: &mut ReadBuf,
    ) -> (r: Poll<Result<usize, NetError>>)
        requires
            old(self).wf(),
            old(read).wf(),
            old(read).room() > 0,
            old(net)@.wf(),
            old(net)@.reachable(),
            old(self).state.remote_sock.ip.loopback() ==> old(net)@.nodes.contains_key(current.0),
            old(self).waits_on(old(net)@, current) ==> old(net)@.has_socket(
                old(self).state.ep.node.0,
                old(self).state.ep.addr.port,
            ) && old(self).expects(old(net)@),
        ensures
            final(self).wf(),
            final(read).wf(),
            final(read).capacity == old(read).capacity,
            final(net).config == old(net).config,
            final(net)@.wf(),
            final(net)@.reachable(),
            old(net)@.routable() ==> final(net)@.routable(),
            old(self).read_step(
                old(net)@,
                current,
                is_poll,
                waker,
                *old(read),
                r,
                *final(self),
                final(net)@,
                *final(read),
            ),
    {
        let num_bytes: usize = self.buffer.read(is_poll, read);
        if num_bytes > 0 {
            // We might be able to read more from the network right now,
            // but for simplicity we just return immediately if there was anything in the buffer.
            return Poll::Ready(Ok(num_bytes));
        }
        proof {
            assert(old(self).buffer@.len() == 0);
            assert(self.buffer@ =~= old(self).buffer@);
            assert(read.filled@ =~= old(read).filled@);
        }
        let (node, addr) = (self.state.ep.node, self.state.ep.addr);
        // we learn about closed connections instantly. this is not realistic, but is good enough
        // for most purposes.
        if !net.is_tcp_session_live(current, self.state.remote_sock, self.state.remote_tcp_id) {
            return Poll::Ready(Err(NetError::PeerHungUp(self.state.remote_sock)));
        }
        let tag: u64 = self.state.next_recv_tag();
        proof {
            crate::net::mailbox::message_tags(self.mailbox(net@).msgs).index_of_first_ensures(tag);
        }
        if !net.recv_ready(waker, node, addr, tag) {
            return Poll::Pending;
        }
        let msg: Message<Carried<O>> = net.recv_sync(node, addr, tag).unwrap();
        self.state.increment_recv_tag();
        let (_, payload): (u32, Vec<u8>) = TcpMessage::unwrap_payload(msg.data);
        let mut buf: Buffer = Buffer::new_from_vec(payload);
        let num_bytes: usize = buf.read(is_poll, read);
        self.buffer.write(buf);
        proof {
            assert(self.buffer@ =~= buf@);
        }
        Poll::Ready(Ok(num_bytes))
    }

    /// What a read does: `r` is what it gives, `after`, `net_after` and `read_after` what the
    /// stream, the network and the reader's buffer hold afterwards.
    pub open spec fn read_step<O>(
        &self,
        net: NetworkView<Carried<O>>,
        current: NodeId,
        is_poll: bool,
        waker: Option<Waker>,
        read: ReadBuf,
        r: Poll<Result<usize, NetError>>,
        after: TcpStream,
        net_after: NetworkView<Carried<O>>,
        read_after: ReadBuf,
    ) -> bool {
        let tag = self.state.recv_tag();
        let (node, port) = (self.state.ep.node.0, self.state.ep.addr.port);
        if self.buffer@.len() > 0 {
            &&& after.state == self.state
            &&& net_after == net
            &&& took(self.buffer@, is_poll, read, r, after.buffer@, read_after)
        } else if !net.session_live(current, self.state.remote_sock, self.state.remote_tcp_id) {
            &&& r == Poll::Ready(
                Err::<usize, NetError>(NetError::PeerHungUp(self.state.remote_sock)),
            )
            &&& after.state == self.state
            &&& after.buffer@ == self.buffer@
            &&& net_after == net
            &&& read_after.filled@ == read.filled@
        } else {
            match self.next_message(net) {
                Some(msg) => {
                    &&& after.state == self.state.after_recv()
                    &&& net_after == net.with_mailbox(node, port, self.mailbox(net).received(tag).0)
                    &&& told_chunk(msg.data) matches Some((_, bytes)) && took(
                        bytes,
                        is_poll,
                        read,
                        r,
                        after.buffer@,
                        read_after,
                    )
                },
                None => {
                    &&& r == Poll::<Result<usize, NetError>>::Pending
                    &&& after.state == self.state
                    &&& after.buffer@ == self.buffer@
                    &&& read_after.filled@ == read.filled@
                    &&& net_after == (match waker {
                        Some(waker) => net.with_mailbox(
                            node,
                            port,
                            self.mailbox(net).polled_by(tag, waker),
                        ),
                        None => net,
                    })
                },
            }
        }
    }

    /// Looks at what comes next without taking it.
    pub fn poll_peek<O>(
        &mut self,
        net: &mut Network<Carried<O>>,
        current: NodeId,
        waker: Option<Waker>,
        read: &mut ReadBuf,
    ) -> (r: Poll<Result<usize, NetError>>)
        requires
            old(self).wf(),
            old(read).wf(),
            old(read).room() > 0,
            old(net)@.wf(),
            old(net)@.reachable(),
            old(self).state.remote_sock.ip.loopback() ==> old(net)@.nodes.contains_key(current.0),
            old(self).waits_on(old(net)@, current) ==> old(net)@.has_socket(
                old(self).state.ep.node.0,
                old(self).state.ep.addr.port,
            ) && old(self).expects(old(net)@),
        ensures
            final(self).wf(),
            final(read).wf(),
            final(read).capacity == old(read).capacity,
            final(net).config == old(net).config,
            final(net)@.wf(),
            final(net)@.reachable(),
            old(net)@.routable() ==> final(net)@.routable(),
            old(self).read_step(
                old(net)@,
                current,
                true,
                waker,
                *old(read),
                r,
                *final(self),
                final(net)@,
                *final(read),
            ),
    {
        self.poll_read_priv(net, current, true, waker, read)
    }

    /// Looks at what comes next without taking it, as far as there is room. Where there is none,
    /// nothing is asked, and nothing was seen.
    pub fn peek<O>(
        &mut self,
        net: &mut Network<Carried<O>>,
        current: NodeId,
        waker: Option<Waker>,
        read: &mut ReadBuf,
    ) -> (r: Poll<Result<usize, NetError>>)
        requires
            old(self).wf(),
            old(read).wf(),
            old(net)@.wf(),
            old(net)@.reachable(),
            old(self).state.remote_sock.ip.loopback() ==> old(net)@.nodes.contains_key(current.0),
            old(read).room() > 0 && old(self).waits_on(old(net)@, current) ==> old(
                net,
            )@.has_socket(old(self).state.ep.node.0, old(self).state.ep.addr.port) && old(
                self,
            ).expects(old(net)@),
        ensures
            final(self).wf(),
            final(read).wf(),
            final(read).capacity == old(read).capacity,
            final(net).config == old(net).config,
            final(net)@.wf(),
            final(net)@.reachable(),
            old(net)@.routable() ==> final(net)@.routable(),
            old(read).room() == 0 ==> r == Poll::Ready(Ok::<usize, NetError>(0)) && *final(self)
                == *old(self) && final(net)@ == old(net)@ && *final(read) == *old(read),
            old(read).room() > 0 ==> old(self).read_step(
                old(net)@,
                current,
                true,
                waker,
                *old(read),
                r,
                *final(self),
                final(net)@,
                *final(read),
            ),
    {
        if read.remaining() == 0 {
            return Poll::Ready(Ok(0));
        }
        self.poll_peek(net, current, waker, read)
    }

    /// Closes the stream: the connection is no longer live. Returns the other end in case it is
    /// waiting on a read, to be woken.
    #[must_use]
    pub fn close<O>(self, net: &mut Network<Carried<O>>, current: NodeId) -> (woken: Vec<Waker>)
        requires
            old(net)@.wf(),
            old(net)@.nodes.contains_key(self.state.ep.node.0) ==> old(
                net,
            )@.nodes[self.state.ep.node.0].live_tcp_ids.contains(self.state.local_tcp_id),
        ensures
            final(net)@ == closed(old(net)@, current, self.state),
            woken@ == waiting_for_the_end(old(net)@, current, self.state),
            final(net).config == old(net).config,
            final(net)@.wf(),
            old(net)@.reachable() ==> final(net)@.reachable(),
            old(net)@.routable() ==> final(net)@.routable(),
    {
        hang_up(net, current, self.state)
    }
}

/// The network once the end `state` of a connection has been given up: whoever waits for the
/// connection at the other end, by either of its ids, has been taken out to be woken.
pub open spec fn closed<O>(
    net: NetworkView<Carried<O>>,
    current: NodeId,
    state: TcpState,
) -> NetworkView<Carried<O>> {
    net.deregistered(state.ep.node.0, state.local_tcp_id).woken(
        current,
        state.remote_sock,
        state.local_tcp_id,
    ).woken(current, state.remote_sock, state.remote_tcp_id)
}

/// Whoever is woken at the other end, in that order, when the end `state` of a connection is given
/// up.
pub open spec fn waiting_for_the_end<O>(
    net: NetworkView<Carried<O>>,
    current: NodeId,
    state: TcpState,
) -> Seq<Waker> {
    let ended = net.deregistered(state.ep.node.0, state.local_tcp_id);
    ended.waiting(current, state.remote_sock, state.local_tcp_id) + ended.woken(
        current,
        state.remote_sock,
        state.local_tcp_id,
    ).waiting(current, state.remote_sock, state.remote_tcp_id)
}

/// Gives up one end of a connection. Returns whoever waits for the connection at the other end, to
/// be woken.
pub(crate) fn hang_up<O>(net: &mut Network<Carried<O>>, current: NodeId, state: TcpState) -> (woken:
    Vec<Waker>)
    requires
        old(net)@.wf(),
        old(net)@.nodes.contains_key(state.ep.node.0) ==> old(
            net,
        )@.nodes[state.ep.node.0].live_tcp_ids.contains(state.local_tcp_id),
    ensures
        final(net)@ == closed(old(net)@, current, state),
        woken@ == waiting_for_the_end(old(net)@, current, state),
        final(net).config == old(net).config,
        final(net)@.wf(),
        old(net)@.reachable() ==> final(net)@.reachable(),
        old(net)@.routable() ==> final(net)@.routable(),
{
    let mut woken: Vec<Waker> = net.deregister_tcp_id(
        current,
        state.ep.node,
        state.remote_sock,
        state.local_tcp_id,
    );
    // the other end waits under the id that it has for the connection.
    let mut others: Vec<Waker> = net.wake_tcp_connection(
        current,
        state.remote_sock,
        state.remote_tcp_id,
    );
    woken.append(&mut others);
    woken
}

/// `bytes` were read into `read` as far as there was room, and the rest, or all of them if they
/// were only looked at, is left.
pub open spec fn took(
    bytes: Seq<u8>,
    is_poll: bool,
    read: ReadBuf,
    r: Poll<Result<usize, NetError>>,
    left: Seq<u8>,
    read_after: ReadBuf,
) -> bool {
    let n = min_of(bytes.len(), read.room());
    &&& r matches Poll::Ready(Ok(num)) && num == n
    &&& read_after.filled@ == read.filled@ + bytes.take(n as int)
    &&& left == (if is_poll {
        bytes
    } else {
        bytes.skip(n as int)
    })
}

} // verus!
