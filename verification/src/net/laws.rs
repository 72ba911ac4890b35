//! What holds of the network across several operations.

use crate::net::addr::SocketAddr;
use crate::net::error::NetError;
use crate::net::mailbox::{
    answered, asked, connected, connection_of, law_receive_gives_back_delivery,
    law_waiting_request_is_sent_the_message, lemma_woken_once, request_tags, MailboxView, Message,
    PayloadType, WakeKey,
};
use crate::net::network::{
    lemma_free_port, Delivery, NetworkView, NodeView, SimEvent, Verdict,
};
use crate::net::traffic::{sent, Packet};
use crate::task::NodeId;
use crate::time::clock::Instant;
use crate::time::duration::Duration;
use crate::time::timer::Event;
use crate::time::TimeHandle;
use futures::channel::oneshot::Receiver;
use std::task::Waker;
use vstd::prelude::*;

verus! {

/// What a node sends to a loopback address stays on the node.
pub proof fn law_loopback_stays_on_the_node<D>(net: NetworkView<D>, src: NodeId, dst: SocketAddr)
    requires
        dst.ip.loopback(),
    ensures
        net.route(src, dst) matches Ok(node) ==> node == src.0,
{
}

/// A clogged node neither sends nor receives.
pub proof fn law_clogged_node_is_cut_off<D>(
    net: NetworkView<D>,
    id: NodeId,
    src: NodeId,
    dst: SocketAddr,
)
    requires
        net.node_for(src, dst.ip) == Some(id.0) || src == id,
    ensures
        (NetworkView { clogged_nodes: net.clogged_nodes.insert(id.0), ..net }).route(src, dst)
            == Err::<u64, NetError>(NetError::HostUnreachable(dst)),
{
}

/// A clogged link lets nothing pass in its direction, and changes nothing for any other.
pub proof fn law_clogged_link_is_one_way<D>(
    net: NetworkView<D>,
    a: NodeId,
    b: NodeId,
    src: NodeId,
    dst: SocketAddr,
)
    ensures
        ({
            let after = NetworkView {
                clogged_links: net.clogged_links.insert((a.0, b.0)),
                ..net
            };
            if src == a && net.node_for(src, dst.ip) == Some(b.0) {
                after.route(src, dst) == Err::<u64, NetError>(NetError::HostUnreachable(dst))
            } else {
                after.route(src, dst) == net.route(src, dst)
            }
        }),
{
}

/// Unclogging undoes clogging.
pub proof fn law_unclogging_undoes_clogging<D>(net: NetworkView<D>, a: NodeId, b: NodeId)
    requires
        !net.clogged_nodes.contains(a.0),
        !net.clogged_links.contains((a.0, b.0)),
    ensures
        (NetworkView { clogged_nodes: net.clogged_nodes.insert(a.0).remove(a.0), ..net }) == net,
        (NetworkView {
            clogged_links: net.clogged_links.insert((a.0, b.0)).remove((a.0, b.0)),
            ..net
        }) == net,
{
    assert(net.clogged_nodes.insert(a.0).remove(a.0) =~= net.clogged_nodes);
    assert(net.clogged_links.insert((a.0, b.0)).remove((a.0, b.0)) =~= net.clogged_links);
}

/// A port that is bound cannot be bound a second time, and can be once the socket is closed.
pub proof fn law_port_is_bound_until_closed<D>(node: NodeView<D>, addr: SocketAddr, mailbox: u64)
    requires
        addr.port != 0,
        node.bind_result(addr) is Ok,
    ensures
        ({
            let bound = node.bind_result(addr)->Ok_0;
            let after = node.with_bound(addr, bound, mailbox);
            let closed = NodeView { sockets: after.sockets.remove(bound.port), ..after };
            &&& after.bind_result(addr) == Err::<SocketAddr, NetError>(
                NetError::AddressInUse(bound),
            )
            &&& closed == node
            &&& closed.bind_result(addr) == Ok::<SocketAddr, NetError>(bound)
        }),
{
    let bound = node.bind_result(addr)->Ok_0;
    let after = node.with_bound(addr, bound, mailbox);
    assert(after.sockets.remove(bound.port) =~= node.sockets);
}

/// A node never has two sockets on one port: what is bound was free before.
pub proof fn law_bound_port_was_free<D>(node: NodeView<D>, addr: SocketAddr)
    requires
        node.bind_result(addr) is Ok,
    ensures
        !node.sockets.contains_key(node.bind_result(addr)->Ok_0.port),
        addr.port != 0 ==> node.bind_result(addr)->Ok_0.port == addr.port,
{
    lemma_free_port(node.sockets.dom(), node.next_ephemeral_port as int);
}

/// An ephemeral port is not handed out again, even once it is free, before the search for ports
/// has come to the last one: the next ephemeral port of the node is a higher one.
pub proof fn law_ephemeral_port_is_not_reused<D>(
    node: NodeView<D>,
    first: SocketAddr,
    mailbox: u64,
    closed: Set<u16>,
    second: SocketAddr,
)
    requires
        first.port == 0,
        second.port == 0,
        node.bind_result(first) is Ok,
        node.bind_result(first)->Ok_0.port < u16::MAX,
        ({
            let bound = node.bind_result(first)->Ok_0;
            let after = node.with_bound(first, bound, mailbox);
            let later = NodeView { sockets: after.sockets.remove_keys(closed), ..after };
            later.bind_result(second) is Ok
        }),
    ensures
        ({
            let bound = node.bind_result(first)->Ok_0;
            let after = node.with_bound(first, bound, mailbox);
            let later = NodeView { sockets: after.sockets.remove_keys(closed), ..after };
            later.bind_result(second)->Ok_0.port > bound.port
        }),
{
    let bound = node.bind_result(first)->Ok_0;
    let after = node.with_bound(first, bound, mailbox);
    let later = NodeView { sockets: after.sockets.remove_keys(closed), ..after };
    lemma_free_port(later.sockets.dom(), later.next_ephemeral_port as int);
}

/// A node that was deleted is not reachable by the address that it had.
pub proof fn law_deleted_node_is_unreachable<D>(net: NetworkView<D>, id: NodeId, src: NodeId, port: u16)
    requires
        net.nodes.contains_key(id.0),
        net.nodes[id.0].ip matches Some(ip) && !ip.loopback(),
    ensures
        ({
            let ip = net.nodes[id.0].ip->0;
            let after = NetworkView {
                nodes: net.nodes.remove(id.0),
                addrs: net.addrs.remove(ip),
                ..net
            };
            let dst = SocketAddr { ip, port };
            after.route(src, dst) == Err::<u64, NetError>(NetError::HostUnreachable(dst))
        }),
{
}

/// Data for a connection that the other end has given up is refused with "peer hung up".
pub proof fn law_ended_connection_is_reset<D>(
    net: NetworkView<D>,
    node: u64,
    dst: SocketAddr,
    tag: u64,
    lost: bool,
)
    requires
        net.nodes.contains_key(node),
    ensures
        net.deregistered(node, connection_of(tag)).verdict(
            node,
            dst,
            tag,
            PayloadType::TcpData,
            lost,
        ) == Verdict::Failed(NetError::PeerHungUp(dst)),
{
}

/// A connection is live from its registration on until it is given up.
pub proof fn law_connection_is_live_until_given_up<D>(
    net: NetworkView<D>,
    node: u64,
    current: NodeId,
    peer: SocketAddr,
    tcp_id: u32,
)
    requires
        net.nodes.contains_key(node),
        net.node_for(current, peer.ip) == Some(node),
    ensures
        net.registered(node, tcp_id).session_live(current, peer, tcp_id),
        !net.registered(node, tcp_id).deregistered(node, tcp_id).session_live(
            current,
            peer,
            tcp_id,
        ),
{
}

/// A packet that was sent and not lost is scheduled to arrive, for a node whose events were not
/// cancelled, as exactly one event, at the current time plus its latency.
pub proof fn law_sent_packet_is_scheduled<D>(
    net: NetworkView<D>,
    time: TimeHandle<SimEvent<D>>,
    packet: Packet<D>,
    lost: bool,
    latency: Duration,
    r: Result<(), NetError>,
    net_after: NetworkView<D>,
    time_after: TimeHandle<SimEvent<D>>,
    node: u64,
    mailbox: u64,
)
    requires
        time.wf(),
        sent(net, time, packet, lost, latency, r, net_after, time_after),
        net.route(packet.node, packet.dst) == Ok::<u64, NetError>(node),
        net.verdict(node, packet.dst, packet.tag, packet.data.ty, lost) == Verdict::Queued(mailbox),
        time.clock.now().0.nanos + latency.nanos <= u128::MAX,
    ensures
        r is Ok,
        time.timer.disabled_node_ids@.contains(node) ==> time_after.timer.events@
            == time.timer.events@,
        !time.timer.disabled_node_ids@.contains(node) ==> {
            &&& time_after.timer.events@.len() == time.timer.events@.len() + 1
            &&& time_after.timer.events@.to_multiset() == time.timer.events@.to_multiset().insert(
                Event {
                    deadline: Duration {
                        nanos: (time.clock.elapsed_time.nanos + latency.nanos) as u128,
                    },
                    node_id: NodeId(node),
                    callback: SimEvent::Deliver(packet.delivery(node, mailbox)),
                },
            )
        },
{
    broadcast use vstd::seq_lib::group_to_multiset_ensures;

    let at = Instant(Duration { nanos: (time.clock.now().0.nanos + latency.nanos) as u128 });
    let due = Duration { nanos: (at.0.nanos - time.clock.base_instant.0.nanos) as u128 };
    crate::time::timer::lemma_later_than(time.timer.events@, due);
    if !time.timer.disabled_node_ids@.contains(node) {
        let k: int = crate::time::timer::later_than(time.timer.events@, due) as int;
        let event = Event {
            deadline: due,
            node_id: NodeId(node),
            callback: SimEvent::Deliver(packet.delivery(node, mailbox)),
        };
        vstd::seq_lib::to_multiset_insert(time.timer.events@, k, event);
    }
}

/// Sending leaves nothing open but the draws: the same network, time and packet, with the same
/// decision about loss and the same latency, give the same result, network and schedule.
pub proof fn law_sending_is_determined_by_its_draws<D>(
    net: NetworkView<D>,
    time: TimeHandle<SimEvent<D>>,
    packet: Packet<D>,
    lost: bool,
    latency: Duration,
    first: (Result<(), NetError>, NetworkView<D>, TimeHandle<SimEvent<D>>),
    second: (Result<(), NetError>, NetworkView<D>, TimeHandle<SimEvent<D>>),
)
    requires
        sent(net, time, packet, lost, latency, first.0, first.1, first.2),
        sent(net, time, packet, lost, latency, second.0, second.1, second.2),
    ensures
        first.0 == second.0,
        first.1 == second.1,
        first.2.clock == second.2.clock,
        first.2.timer.events@ == second.2.timer.events@,
        first.2.timer.disabled_node_ids@ == second.2.timer.disabled_node_ids@,
{
}

/// What was sent is received: a packet that was not lost reaches the socket that was bound to its
/// destination when it was sent, and is what a receive for its tag gives, as long as the socket
/// stays bound and nothing else waits there under the tag.
pub proof fn law_sent_packet_is_received<D>(
    net: NetworkView<D>,
    packet: Packet<D>,
    lost: bool,
    node: u64,
    mailbox: u64,
    later: NetworkView<D>,
    arrived: NetworkView<D>,
)
    requires
        net.route(packet.node, packet.dst) == Ok::<u64, NetError>(node),
        net.verdict(node, packet.dst, packet.tag, packet.data.ty, lost) == Verdict::Queued(mailbox),
        later.has_socket(node, packet.dst.port),
        later.nodes[node].sockets[packet.dst.port].id
            == net.nodes[node].sockets[packet.dst.port].id,
        !later.nodes[node].sockets[packet.dst.port].has(packet.tag),
        !request_tags(later.nodes[node].sockets[packet.dst.port].registered).contains(packet.tag),
        later.delivered(packet.delivery(node, mailbox), arrived),
    ensures
        arrived.has_socket(node, packet.dst.port),
        arrived.nodes[node].sockets[packet.dst.port].received(packet.tag).1 matches Some(msg)
            && msg.tag == packet.tag && msg.data == packet.data && msg.from == packet.src,
{
    let delivery = packet.delivery(node, mailbox);
    let before = later.nodes[node].sockets[packet.dst.port];
    let after = choose|after: MailboxView<D>|
        #[trigger] before.delivered(delivery.msg, after) && arrived == later.with_mailbox(
            node,
            packet.dst.port,
            after,
        );
    law_receive_gives_back_delivery(before, delivery.msg, after);
}

/// What was sent reaches whoever waits for it: a packet that was not lost is sent, once it arrives,
/// over the half that is connected to the receiver of the request that is asked next for its tag,
/// as long as the socket stays bound.
pub proof fn law_sent_packet_goes_to_the_waiting_request<D>(
    net: NetworkView<D>,
    packet: Packet<D>,
    lost: bool,
    node: u64,
    mailbox: u64,
    later: NetworkView<D>,
    receiver: Receiver<Message<D>>,
    arrived: NetworkView<D>,
)
    requires
        net.route(packet.node, packet.dst) == Ok::<u64, NetError>(node),
        net.verdict(node, packet.dst, packet.tag, packet.data.ty, lost) == Verdict::Queued(mailbox),
        later.has_socket(node, packet.dst.port),
        later.nodes[node].sockets[packet.dst.port].id
            == net.nodes[node].sockets[packet.dst.port].id,
        asked(
            later.nodes[node].sockets[packet.dst.port].registered,
            packet.tag,
            0,
        ) matches Some(sender) && connected(sender, receiver),
        later.delivered(packet.delivery(node, mailbox), arrived),
    ensures
        arrived.has_socket(node, packet.dst.port),
        later.nodes[node].sockets[packet.dst.port].sent_to(
            receiver,
            packet.delivery(node, mailbox).msg,
            arrived.nodes[node].sockets[packet.dst.port],
        ),
{
    let delivery = packet.delivery(node, mailbox);
    let before = later.nodes[node].sockets[packet.dst.port];
    let after = choose|after: MailboxView<D>|
        #[trigger] before.delivered(delivery.msg, after) && arrived == later.with_mailbox(
            node,
            packet.dst.port,
            after,
        );
    law_waiting_request_is_sent_the_message(before, receiver, delivery.msg, after);
}

/// Waking those that poll for a message before it is delivered changes nothing but the order: what
/// is left to deliver is what there was, and nobody is woken twice.
pub proof fn law_pollers_can_be_woken_first<D>(
    net: NetworkView<D>,
    delivery: Delivery<D>,
    after: NetworkView<D>,
)
    requires
        net.polled(delivery).delivered(delivery, after),
    ensures
        net.delivered(delivery, after),
        net.polled(delivery).polling(delivery) == Seq::<Waker>::empty(),
{
    let (id, port) = (delivery.node.0, delivery.port);
    if net.has_socket(id, port) && net.nodes[id].sockets[port].id == delivery.mailbox {
        let before = net.nodes[id].sockets[port];
        let polled = net.polled(delivery);
        let left = polled.nodes[id].sockets[port];
        lemma_woken_once(before.wakers, WakeKey::Tag(delivery.msg.tag));
        let mailbox = choose|mailbox: MailboxView<D>|
            #[trigger] left.delivered(delivery.msg, mailbox) && after == polled.with_mailbox(
                id,
                port,
                mailbox,
            );
        let k: nat = choose|k: nat|
            mailbox.registered == #[trigger] answered(left.registered, delivery.msg.tag, k)
                && left.delivered_to(delivery.msg, k, mailbox);
        assert(before.refused_by(delivery.msg, k) == left.refused_by(delivery.msg, k));
        assert(before.delivered_to(delivery.msg, k, mailbox));
        assert(before.delivered(delivery.msg, mailbox));
        let direct = net.with_mailbox(id, port, mailbox);
        assert(direct.nodes[id].sockets =~= after.nodes[id].sockets);
        assert(direct.nodes =~= after.nodes);
    }
}

/// A packet goes to the mailbox that was bound when it was sent, and to no other: if the socket
/// is closed before it arrives, it is lost, even if the port is bound again by then.
pub proof fn law_packet_does_not_reach_a_later_socket<D>(
    net: NetworkView<D>,
    packet: Packet<D>,
    lost: bool,
    node: u64,
    mailbox: u64,
    later: NetworkView<D>,
    arrived: NetworkView<D>,
)
    requires
        net.wf(),
        net.route(packet.node, packet.dst) == Ok::<u64, NetError>(node),
        net.verdict(node, packet.dst, packet.tag, packet.data.ty, lost) == Verdict::Queued(mailbox),
        later.has_socket(node, packet.dst.port) ==> later.nodes[node].sockets[packet.dst.port].id
            >= net.next_mailbox,
        later.delivered(packet.delivery(node, mailbox), arrived),
    ensures
        arrived == later,
{
    assert(net.has_socket(node, packet.dst.port));
    let _ = net.nodes[node].sockets[packet.dst.port];
}

/// A socket that is bound now has an identity that no earlier socket had.
pub proof fn law_bound_socket_is_new<D>(
    net: NetworkView<D>,
    id: u64,
    addr: SocketAddr,
    bound: SocketAddr,
    other: u64,
    port: u16,
)
    requires
        net.wf(),
        net.nodes.contains_key(id),
        net.has_socket(other, port),
        net.next_mailbox < u64::MAX,
    ensures
        net.with_bound(id, addr, bound).nodes[id].sockets[bound.port].id == net.next_mailbox,
        net.nodes[other].sockets[port].id < net.next_mailbox,
        net.with_bound(id, addr, bound).next_mailbox > net.next_mailbox,
{
}

} // verus!
