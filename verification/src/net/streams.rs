//! What holds of the ends of tcp connections, and of reading from them.

use crate::net::addr::SocketAddr;
use crate::net::buffer::ReadBuf;
use crate::net::error::NetError;
use crate::net::handshake::{accepted, tells_id};
use crate::net::mailbox::{connection_of, law_tag_parts, sequence_of, Payload, PayloadType};
use crate::net::network::NetworkView;
use crate::net::socket::Endpoint;
use crate::net::tcp::{
    closed, is_packet_of, next_seq, told_chunk, told_id, took, Carried, TcpMessage, TcpState, TcpStream,
};
use crate::net::traffic::Packet;
use crate::task::NodeId;
use crate::time::Poll;
use std::task::Waker;
use vstd::prelude::*;

verus! {

/// Messages are counted up one by one, and from zero again after the last number.
pub proof fn law_messages_are_counted_up(seq: u32)
    ensures
        next_seq(seq) as int == (seq + 1) % 0x1_0000_0000,
{
}

/// Sending counts up what is sent and receiving what is received, and neither touches anything else.
/// What an end sends carries the number that the other end has for the connection, and what it
/// receives the one that it has itself.
pub proof fn law_each_direction_is_counted_apart(state: TcpState)
    ensures
        state.after_send().send_seq as int == (state.send_seq + 1) % 0x1_0000_0000,
        state.after_send().recv_seq == state.recv_seq,
        state.after_recv().recv_seq as int == (state.recv_seq + 1) % 0x1_0000_0000,
        state.after_recv().send_seq == state.send_seq,
        state.after_send().after_recv() == state.after_recv().after_send(),
        state.after_send().local_tcp_id == state.local_tcp_id,
        state.after_send().remote_tcp_id == state.remote_tcp_id,
        state.after_send().ep == state.ep,
        state.after_send().remote_sock == state.remote_sock,
        state.after_send().nodelay == state.nodelay,
        state.after_recv().local_tcp_id == state.local_tcp_id,
        state.after_recv().remote_tcp_id == state.remote_tcp_id,
        state.after_recv().ep == state.ep,
        state.after_recv().remote_sock == state.remote_sock,
        state.after_recv().nodelay == state.nodelay,
        connection_of(state.send_tag()) == state.remote_tcp_id,
        sequence_of(state.send_tag()) == state.send_seq,
        connection_of(state.recv_tag()) == state.local_tcp_id,
        sequence_of(state.recv_tag()) == state.recv_seq,
{
    law_tag_parts(state.remote_tcp_id, state.send_seq, state.send_tag());
    law_tag_parts(state.local_tcp_id, state.recv_seq, state.recv_tag());
}

/// An end that was just accepted has sent and received nothing; it knows itself and the other end by
/// the numbers and the address that it was given.
pub proof fn law_accepted_end_is_fresh(ep: Endpoint, local: u32, remote: u32, from: SocketAddr)
    ensures
        ({
            let state = accepted(ep, local, remote, from);
            &&& state.ep == ep
            &&& state.send_seq == 0 && state.recv_seq == 0
            &&& state.local_tcp_id == local
            &&& state.remote_tcp_id == remote
            &&& state.remote_sock == from
            &&& !state.nodelay
        }),
{
}

/// A payload opens a connection or carries data of one, never both; what it tells is what was put
/// into it.
pub proof fn law_payload_tells_what_was_put_in<O>(
    payload: Payload<Carried<O>>,
    id: u32,
    seq: u32,
    bytes: Vec<u8>,
)
    ensures
        told_id(Payload { ty: PayloadType::TcpSignalConnect, data: Carried::<O>::Tcp(TcpMessage::TcpId(id)) })
            == Some(id),
        told_chunk(
            Payload { ty: PayloadType::TcpData, data: Carried::<O>::Tcp(TcpMessage::Payload(seq, bytes)) },
        ) == Some((seq, bytes@)),
        told_id(payload) is None || told_chunk(payload) is None,
        told_id(payload) is Some ==> payload.ty == PayloadType::TcpSignalConnect,
        told_chunk(payload) is Some ==> payload.ty == PayloadType::TcpData,
{
}

/// The packet by which an end tells its number goes from that end to the other one, and opens a
/// connection.
pub proof fn law_number_is_told_to_the_other_end<O>(
    packet: Packet<Carried<O>>,
    state: TcpState,
    tag: u64,
)
    requires
        tells_id(packet, state, tag),
    ensures
        packet.node == state.ep.node,
        packet.src == state.ep.addr,
        packet.dst == state.remote_sock,
        packet.tag == tag,
        packet.data.ty == PayloadType::TcpSignalConnect,
        told_id(packet.data) == Some(state.local_tcp_id),
{
}

/// What is written goes from the end where it is written to the other one.
pub proof fn law_written_bytes_go_to_the_other_end<O>(packet: Packet<Carried<O>>, state: TcpState)
    requires
        is_packet_of(packet, state),
    ensures
        packet.node == state.ep.node,
        packet.src == state.ep.addr,
        packet.dst == state.remote_sock,
{
}

/// What a read comes to rests on what is there. Bytes that are buffered are read first, whatever has
/// become of the other end. Without any, a read finds out that the other end has hung up if and only
/// if it has; otherwise it takes the message that comes next, and waits if there is none. It never
/// fails in another way.
pub proof fn law_read_comes_to_what_is_there<O>(
    stream: TcpStream,
    net: NetworkView<Carried<O>>,
    current: NodeId,
    is_poll: bool,
    waker: Option<Waker>,
    read: ReadBuf,
    r: Poll<Result<usize, NetError>>,
    after: TcpStream,
    net_after: NetworkView<Carried<O>>,
    read_after: ReadBuf,
)
    requires
        read.wf(),
        read.room() > 0,
        stream.read_step(net, current, is_poll, waker, read, r, after, net_after, read_after),
    ensures
        ({
            let buffered = stream.buffer@.len() > 0;
            let live = net.session_live(
                current,
                stream.state.remote_sock,
                stream.state.remote_tcp_id,
            );
            let coming = stream.mailbox(net).received(stream.state.recv_tag()).1;
            &&& r == Poll::Ready(
                Err::<usize, NetError>(NetError::PeerHungUp(stream.state.remote_sock)),
            ) <==> !buffered && !live
            &&& r is Pending <==> !buffered && live && coming is None
            &&& (r matches Poll::Ready(Ok(n)) && n <= read.room()) <==> buffered || (live
                && coming is Some)
            &&& buffered ==> (r matches Poll::Ready(Ok(n)) && n > 0 && n <= stream.buffer@.len())
            &&& !buffered && live && coming is Some ==> after.state.recv_seq as int == (
            stream.state.recv_seq + 1) % 0x1_0000_0000
            &&& buffered || !live || coming is None ==> after.state == stream.state
            &&& after.state.send_seq == stream.state.send_seq
            &&& !(r matches Poll::Ready(Ok(_))) ==> read_after.filled@ == read.filled@
            &&& r is Pending && waker is Some ==> net_after.nodes[stream.state.ep.node.0].sockets[stream.state.ep.addr.port].wakers
                == stream.mailbox(net).wakers.push((stream.state.recv_tag(), waker->0))
            &&& r is Pending && waker is None ==> net_after == net
            &&& buffered || !live ==> net_after == net
        }),
{
}

/// As much is read as there is and as there is room for: it is added to what was read before, in
/// order. What is left are the bytes after it, or all of them if they were only looked at.
pub proof fn law_bytes_are_read_from_the_front(
    bytes: Seq<u8>,
    is_poll: bool,
    read: ReadBuf,
    r: Poll<Result<usize, NetError>>,
    left: Seq<u8>,
    read_after: ReadBuf,
)
    requires
        read.wf(),
        took(bytes, is_poll, read, r, left, read_after),
    ensures
        r matches Poll::Ready(Ok(n)) && {
            &&& n <= bytes.len() && n <= read.room()
            &&& n == bytes.len() || n == read.room()
            &&& read_after.filled@.len() == read.filled@.len() + n
            &&& read_after.filled@.take(read.filled@.len() as int) == read.filled@
            &&& forall|i: int|
                0 <= i < n ==> read_after.filled@[read.filled@.len() + i] == #[trigger] bytes[i]
            &&& is_poll ==> left == bytes
            &&& !is_poll ==> left.len() == bytes.len() - n && (forall|i: int|
                0 <= i < left.len() ==> #[trigger] left[i] == bytes[n + i])
        },
{
    assert(read_after.filled@.take(read.filled@.len() as int) =~= read.filled@);
}

/// An end that was given up is no longer live where it was; every other connection is as live as it
/// was, everywhere, and no message that has come is lost.
pub proof fn law_giving_up_ends_one_connection<O>(
    net: NetworkView<Carried<O>>,
    current: NodeId,
    state: TcpState,
    node: u64,
    connection: u32,
    port: u16,
)
    requires
        net.nodes.contains_key(state.ep.node.0),
        net.nodes.contains_key(node),
    ensures
        ({
            let after = closed(net, current, state);
            &&& !after.nodes[state.ep.node.0].live_tcp_ids.contains(state.local_tcp_id)
            &&& (node, connection) != (state.ep.node.0, state.local_tcp_id)
                ==> (after.nodes[node].live_tcp_ids.contains(connection)
                <==> net.nodes[node].live_tcp_ids.contains(connection))
            &&& after.has_socket(node, port) <==> net.has_socket(node, port)
            &&& net.has_socket(node, port) ==> {
                &&& after.nodes[node].sockets[port].msgs == net.nodes[node].sockets[port].msgs
                &&& after.nodes[node].sockets[port].registered
                    == net.nodes[node].sockets[port].registered
                &&& after.nodes[node].sockets[port].id == net.nodes[node].sockets[port].id
            }
            &&& after.nodes[node].ip == net.nodes[node].ip
            &&& after.addrs == net.addrs && after.msg_count == net.msg_count
            &&& after.clogged_nodes == net.clogged_nodes && after.clogged_links == net.clogged_links
        }),
{
}

} // verus!
