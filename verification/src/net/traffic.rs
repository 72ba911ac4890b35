//! How messages and connections pass over the network.

use crate::net::addr::SocketAddr;
use crate::net::config::LossRate;
use crate::net::error::NetError;
use crate::net::mailbox::{
    tag_connection, to_wake, wakers_left, Mailbox, MailboxView, Message, Payload, PayloadType, Reception,
    WakeKey,
};
use crate::net::network::{
    lemma_wf_from_parts, lemma_with_mailbox, Delivery, Network, NetworkView, Node, NodeView,
    SimEvent, Verdict,
};
use crate::random::GlobalRng;
use crate::task::NodeId;
use crate::time::clock::Instant;
use crate::time::duration::{Duration, MAX_NANOS};
use crate::time::TimeHandle;
use std::task::Waker;
use vstd::prelude::*;

verus! {

broadcast use vstd::std_specs::hash::group_hash_axioms;

impl<D> NetworkView<D> {
    /// What the network holds once node `id` has registered the connection `tcp_id`.
    pub open spec fn registered(self, id: u64, tcp_id: u32) -> NetworkView<D> {
        self.with_node(
            id,
            NodeView {
                live_tcp_ids: self.nodes[id].live_tcp_ids.insert(tcp_id),
                ..self.nodes[id]
            },
        )
    }

    /// What the network holds once node `id`, if it is still there, has given up the connection
    /// `tcp_id`.
    pub open spec fn deregistered(self, id: u64, tcp_id: u32) -> NetworkView<D> {
        if self.nodes.contains_key(id) {
            self.with_node(
                id,
                NodeView {
                    live_tcp_ids: self.nodes[id].live_tcp_ids.remove(tcp_id),
                    ..self.nodes[id]
                },
            )
        } else {
            self
        }
    }

    /// Whoever waits for the connection `tcp_id` at `addr`, as node `current` sees it, in the
    /// order in which they are woken.
    pub open spec fn waiting(self, current: NodeId, addr: SocketAddr, tcp_id: u32) -> Seq<Waker> {
        match self.node_for(current, addr.ip) {
            Some(node) => if self.has_socket(node, addr.port) {
                to_wake(
                    self.nodes[node].sockets[addr.port].wakers,
                    WakeKey::Connection(tcp_id),
                )
            } else {
                Seq::empty()
            },
            None => Seq::empty(),
        }
    }

    /// What the network holds once whoever waits for the connection `tcp_id` at `addr`, as node
    /// `current` sees it, has been taken out to be woken.
    pub open spec fn woken(self, current: NodeId, addr: SocketAddr, tcp_id: u32) -> NetworkView<D> {
        match self.node_for(current, addr.ip) {
            Some(node) => if self.has_socket(node, addr.port) {
                let mailbox = self.nodes[node].sockets[addr.port];
                self.with_mailbox(
                    node,
                    addr.port,
                    MailboxView {
                        wakers: wakers_left(mailbox.wakers, WakeKey::Connection(tcp_id)),
                        ..mailbox
                    },
                )
            } else {
                self
            },
            None => self,
        }
    }

    /// The connection `tcp_id` is live at the node that `peer` leads to from node `current`.
    pub open spec fn session_live(self, current: NodeId, peer: SocketAddr, tcp_id: u32) -> bool {
        match self.node_for(current, peer.ip) {
            Some(node) => self.nodes[node].live_tcp_ids.contains(tcp_id),
            None => false,
        }
    }

    /// Whoever polls for `delivery` when it arrives, in the order in which they are woken. It
    /// arrives only if the mailbox that it was sent to is still bound.
    pub open spec fn polling(self, delivery: Delivery<D>) -> Seq<Waker> {
        let (id, port) = (delivery.node.0, delivery.port);
        if self.has_socket(id, port) && self.nodes[id].sockets[port].id == delivery.mailbox {
            to_wake(self.nodes[id].sockets[port].wakers, WakeKey::Tag(delivery.msg.tag))
        } else {
            Seq::empty()
        }
    }

    /// What the network holds once whoever polls for `delivery` has been taken out to be woken.
    pub open spec fn polled(self, delivery: Delivery<D>) -> NetworkView<D> {
        let (id, port) = (delivery.node.0, delivery.port);
        if self.has_socket(id, port) && self.nodes[id].sockets[port].id == delivery.mailbox {
            let mailbox = self.nodes[id].sockets[port];
            self.with_mailbox(
                id,
                port,
                MailboxView {
                    wakers: wakers_left(mailbox.wakers, WakeKey::Tag(delivery.msg.tag)),
                    ..mailbox
                },
            )
        } else {
            self
        }
    }

    /// What the network holds once the socket at `port` of node `id` has been closed.
    pub open spec fn closed(self, id: u64, port: u16) -> NetworkView<D> {
        if self.nodes.contains_key(id) {
            self.with_node(
                id,
                NodeView { sockets: self.nodes[id].sockets.remove(port), ..self.nodes[id] },
            )
        } else {
            self
        }
    }

    /// What the network holds once the socket at `port` of node `id` has been told that `src`
    /// wants to connect.
    pub open spec fn signaled(self, id: u64, port: u16, src: SocketAddr) -> NetworkView<D> {
        let mailbox = self.nodes[id].sockets[port];
        self.with_mailbox(
            id,
            port,
            MailboxView { sync_connections: mailbox.sync_connections.push(src), ..mailbox },
        )
    }

    /// The connection that was signaled first to the socket at `port` of node `id`, and what the
    /// network holds once it has been taken.
    pub open spec fn connect_accepted(self, id: u64, port: u16) -> (
        Option<SocketAddr>,
        NetworkView<D>,
    ) {
        let mailbox = self.nodes[id].sockets[port];
        if mailbox.sync_connections.len() == 0 {
            (None, self)
        } else {
            (
                Some(mailbox.sync_connections[0]),
                self.with_mailbox(
                    id,
                    port,
                    MailboxView {
                        sync_connections: mailbox.sync_connections.drop_first(),
                        ..mailbox
                    },
                ),
            )
        }
    }

    /// `after` can be what the network holds once `delivery` has arrived. It arrives only if
    /// the mailbox that it was sent to is still bound.
    pub open spec fn delivered(self, delivery: Delivery<D>, after: NetworkView<D>) -> bool {
        let (id, port) = (delivery.node.0, delivery.port);
        if self.has_socket(id, port) && self.nodes[id].sockets[port].id == delivery.mailbox {
            exists|mailbox: MailboxView<D>|
                #[trigger] self.nodes[id].sockets[port].delivered(delivery.msg, mailbox) && after
                    == self.with_mailbox(id, port, mailbox)
        } else {
            after == self
        }
    }
}

/// Something that was scheduled and has come due.
pub struct Fired<D> {
    /// Whoever is to be woken first.
    pub woken: Vec<Waker>,
    /// The message that is to be delivered then, if it was one.
    pub arriving: Option<Delivery<D>>,
}

/// A packet that a node sends.
pub struct Packet<D> {
    /// The node that sends it.
    pub node: NodeId,
    /// Where it comes from.
    pub src: SocketAddr,
    /// Where it goes to.
    pub dst: SocketAddr,
    /// What the receiver asks for it by.
    pub tag: u64,
    /// What it carries.
    pub data: Payload<D>,
}

impl<D> Packet<D> {
    /// The packet as a message that is on its way to `mailbox` on node `node`.
    pub open spec fn delivery(self, node: u64, mailbox: u64) -> Delivery<D> {
        Delivery {
            node: NodeId(node),
            port: self.dst.port,
            mailbox,
            msg: Message { tag: self.tag, data: self.data, from: self.src },
        }
    }
}

/// The time source is the same but for `delivery`, which is scheduled to arrive after `latency`.
pub open spec fn scheduled<D>(
    before: TimeHandle<SimEvent<D>>,
    delivery: Delivery<D>,
    latency: Duration,
    after: TimeHandle<SimEvent<D>>,
) -> bool {
    &&& after.clock == before.clock
    &&& after.timer.disabled_node_ids@ == before.timer.disabled_node_ids@
    &&& after.timer.events@ == before.with_event(
        delivery.node,
        Instant(Duration { nanos: (before.clock.now().0.nanos + latency.nanos) as u128 }),
        SimEvent::Deliver(delivery),
    )
}

/// What sending `packet` does, given whether chance loses it and how long it would take: the
/// result, the network and the time source afterwards.
pub open spec fn sent<D>(
    net: NetworkView<D>,
    time: TimeHandle<SimEvent<D>>,
    packet: Packet<D>,
    lost: bool,
    latency: Duration,
    r: Result<(), NetError>,
    net_after: NetworkView<D>,
    time_after: TimeHandle<SimEvent<D>>,
) -> bool {
    match net.route(packet.node, packet.dst) {
        Err(err) => r == Err::<(), NetError>(err) && net_after == net && time_after == time,
        Ok(node) => match net.verdict(node, packet.dst, packet.tag, packet.data.ty, lost) {
            Verdict::Dropped => r == Ok::<(), NetError>(()) && net_after == net && time_after
                == time,
            Verdict::Failed(err) => r == Err::<(), NetError>(err) && net_after == net && time_after
                == time,
            Verdict::Queued(mailbox) => {
                &&& r == Ok::<(), NetError>(())
                &&& net_after == (NetworkView { msg_count: (net.msg_count + 1) as u64, ..net })
                &&& scheduled(time, packet.delivery(node, mailbox), latency, time_after)
            },
        },
    }
}

impl<D> Network<D> {
    /// Marks the connection `tcp_id` of a node as live.
    pub fn register_tcp_id(&mut self, node_id: NodeId, tcp_id: u32)
        requires
            old(self)@.wf(),
            old(self)@.nodes.contains_key(node_id.0),
            !old(self)@.nodes[node_id.0].live_tcp_ids.contains(tcp_id),
        ensures
            final(self)@ == old(self)@.registered(node_id.0, tcp_id),
            final(self).config == old(self).config,
            final(self)@.wf(),
            old(self)@.reachable() ==> final(self)@.reachable(),
            old(self)@.routable() ==> final(self)@.routable(),
    {
        let mut node: Node<D> = self.take_node(node_id.0).unwrap();
        node.live_tcp_ids.insert(tcp_id);
        self.put_node(node_id.0, node);
        proof {
            assert(self@.nodes =~= old(self)@.nodes.insert(node_id.0, node@));
            assert(self@ == old(self)@.registered(node_id.0, tcp_id));
            lemma_wf_from_parts(old(self)@, self@);
        }
    }

    /// Marks the connection `tcp_id` of a node as ended. Returns the remote end in case it is
    /// waiting on a read, to be woken. `current` is the node on which this happens.
    #[must_use]
    pub fn deregister_tcp_id(
        &mut self,
        current: NodeId,
        node: NodeId,
        remote_addr: SocketAddr,
        tcp_id: u32,
    ) -> (woken: Vec<Waker>)
        requires
            old(self)@.wf(),
            old(self)@.nodes.contains_key(node.0) ==> old(
                self,
            )@.nodes[node.0].live_tcp_ids.contains(tcp_id),
        ensures
            final(self)@ == old(self)@.deregistered(node.0, tcp_id).woken(
                current,
                remote_addr,
                tcp_id,
            ),
            woken@ == old(self)@.deregistered(node.0, tcp_id).waiting(
                current,
                remote_addr,
                tcp_id,
            ),
            final(self).config == old(self).config,
            final(self)@.wf(),
            old(self)@.reachable() ==> final(self)@.reachable(),
            old(self)@.routable() ==> final(self)@.routable(),
    {
        // node may have been deleted
        match self.take_node(node.0) {
            Some(mut own) => {
                own.live_tcp_ids.remove(&tcp_id);
                self.put_node(node.0, own);
                assert(self@.nodes =~= old(self)@.nodes.insert(node.0, own@));
            },
            None => {
                assert(self@.nodes =~= old(self)@.nodes);
            },
        }
        proof {
            assert(self@ == old(self)@.deregistered(node.0, tcp_id));
            lemma_wf_from_parts(old(self)@, self@);
            assert(old(self)@.reachable() ==> self@.reachable());
            assert(old(self)@.routable() ==> self@.routable());
        }
        // wake the remote end in case it is waiting on a read.
        self.wake_tcp_connection(current, remote_addr, tcp_id)
    }

    /// Takes out whoever waits for the connection `tcp_id` at `addr`, as node `current` sees it,
    /// to be woken.
    #[must_use]
    pub fn wake_tcp_connection(&mut self, current: NodeId, addr: SocketAddr, tcp_id: u32) -> (woken:
        Vec<Waker>)
        requires
            old(self)@.wf(),
        ensures
            final(self)@ == old(self)@.woken(current, addr, tcp_id),
            woken@ == old(self)@.waiting(current, addr, tcp_id),
            final(self).config == old(self).config,
            final(self)@.wf(),
            old(self)@.reachable() ==> final(self)@.reachable(),
            old(self)@.routable() ==> final(self)@.routable(),
    {
        match self.get_node_for_addr(current, addr.ip) {
            Some(node) => {
                match self.take_mailbox(node, addr.port) {
                    Some((rest, mut mailbox)) => {
                        let woken: Vec<Waker> = mailbox.wake_tcp_connection(tcp_id);
                        self.put_mailbox(node, addr.port, rest, mailbox);
                        woken
                    },
                    None => Vec::new(),
                }
            },
            // node may have been deleted
            None => Vec::new(),
        }
    }

    /// Whether the connection `tcp_id` is live at the node that `peer` leads to from node
    /// `current`.
    pub fn is_tcp_session_live(&self, current: NodeId, peer: SocketAddr, tcp_id: u32) -> (r: bool)
        requires
            self@.reachable(),
            peer.ip.loopback() ==> self@.nodes.contains_key(current.0),
        ensures
            r == self@.session_live(current, peer, tcp_id),
    {
        match self.get_node_for_addr(current, peer.ip) {
            Some(node) => {
                assert(self@.nodes.contains_key(node));
                self.nodes.get(&node).unwrap().live_tcp_ids.contains(&tcp_id)
            },
            // the node does not exist, it may have been killed / restarted.
            None => false,
        }
    }

    /// Tells the socket at `dst` that `src` wants to connect. Returns whether there is such a
    /// socket.
    pub fn signal_connect(&mut self, current: NodeId, src: SocketAddr, dst: SocketAddr) -> (r: bool)
        requires
            old(self)@.wf(),
            old(self)@.reachable(),
            dst.ip.loopback() ==> old(self)@.nodes.contains_key(current.0),
        ensures
            r == (old(self)@.node_for(current, dst.ip) matches Some(node) && old(
                self,
            )@.has_socket(node, dst.port)),
            final(self)@ == (match old(self)@.node_for(current, dst.ip) {
                Some(node) if r => old(self)@.signaled(node, dst.port, src),
                _ => old(self)@,
            }),
            final(self).config == old(self).config,
            final(self)@.wf(),
            final(self)@.reachable(),
            old(self)@.routable() ==> final(self)@.routable(),
    {
        match self.get_node_for_addr(current, dst.ip) {
            Some(node) => match self.take_mailbox(node, dst.port) {
                Some((rest, mut mailbox)) => {
                    mailbox.signal_connect(src);
                    self.put_mailbox(node, dst.port, rest, mailbox);
                    true
                },
                None => false,
            },
            None => false,
        }
    }

    /// Takes the connection that was signaled first to the socket `listening` of `node`.
    pub fn accept_connect(&mut self, node: NodeId, listening: SocketAddr) -> (r: Option<SocketAddr>)
        requires
            old(self)@.wf(),
            old(self)@.has_socket(node.0, listening.port),
        ensures
            (r, final(self)@) == old(self)@.connect_accepted(node.0, listening.port),
            final(self).config == old(self).config,
            final(self)@.wf(),
            old(self)@.reachable() ==> final(self)@.reachable(),
            old(self)@.routable() ==> final(self)@.routable(),
    {
        let (rest, mut mailbox) = self.take_mailbox(node.0, listening.port).unwrap();
        let ghost before = mailbox@;
        let r: Option<SocketAddr> = mailbox.accept_connect();
        self.put_mailbox(node.0, listening.port, rest, mailbox);
        proof {
            if before.sync_connections.len() == 0 {
                lemma_same_mailbox(old(self)@, node.0, listening.port);
            }
        }
        r
    }

    /// Closes the socket `addr` of a node. A node or a socket that is gone already is none's
    /// concern.
    pub fn close(&mut self, node_id: NodeId, addr: SocketAddr)
        requires
            old(self)@.wf(),
        ensures
            final(self)@ == old(self)@.closed(node_id.0, addr.port),
            final(self).config == old(self).config,
            final(self)@.wf(),
            old(self)@.reachable() ==> final(self)@.reachable(),
            old(self)@.routable() ==> final(self)@.routable(),
    {
        match self.take_node(node_id.0) {
            Some(mut node) => {
                let closed: Option<Mailbox<D>> = node.take_socket(addr.port);
                self.put_node(node_id.0, node);
                assert(self@.nodes =~= old(self)@.nodes.insert(node_id.0, node@));
            },
            None => {
                assert(self@.nodes =~= old(self)@.nodes);
            },
        }
        proof {
            assert forall|i: u64, p: u16| #[trigger] self@.has_socket(i, p) implies old(
                self,
            )@.has_socket(i, p) && self@.nodes[i].sockets[p].id
                == old(self)@.nodes[i].sockets[p].id by {}
            lemma_wf_from_parts(old(self)@, self@);
        }
    }

    /// Takes the mailbox behind `port` of node `id` out, together with the rest of the node. A
    /// mailbox that is not there is no reason to change anything.
    fn take_mailbox(&mut self, id: u64, port: u16) -> (r: Option<(Node<D>, Mailbox<D>)>)
        ensures
            final(self).config == old(self).config,
            r is Some <==> old(self)@.has_socket(id, port),
            r is None ==> final(self)@ == old(self)@,
            r matches Some((rest, mailbox)) ==> {
                &&& final(self)@ == (NetworkView {
                    nodes: old(self)@.nodes.remove(id),
                    ..old(self)@
                })
                &&& mailbox@ == old(self)@.nodes[id].sockets[port]
                &&& rest@ == (NodeView {
                    sockets: old(self)@.nodes[id].sockets.remove(port),
                    ..old(self)@.nodes[id]
                })
            },
    {
        match self.take_node(id) {
            Some(mut node) => match node.take_socket(port) {
                Some(mailbox) => Some((node, mailbox)),
                None => {
                    proof {
                        assert(node@.sockets =~= old(self)@.nodes[id].sockets);
                    }
                    self.put_node(id, node);
                    assert(self@.nodes =~= old(self)@.nodes);
                    None
                },
            },
            None => {
                assert(self@.nodes =~= old(self)@.nodes);
                None
            },
        }
    }

    /// Puts a mailbox and the rest of its node back.
    fn put_mailbox(&mut self, id: u64, port: u16, rest: Node<D>, mailbox: Mailbox<D>)
        ensures
            final(self).config == old(self).config,
            forall|before: NetworkView<D>|
                #![trigger before.with_mailbox(id, port, mailbox@)]
                before.has_socket(id, port) && old(self)@ == (NetworkView {
                    nodes: before.nodes.remove(id),
                    ..before
                }) && rest@ == (NodeView {
                    sockets: before.nodes[id].sockets.remove(port),
                    ..before.nodes[id]
                }) ==> final(self)@ == before.with_mailbox(id, port, mailbox@) && (before.wf()
                    && mailbox@.id == before.nodes[id].sockets[port].id ==> final(self)@.wf() && (
                before.reachable() ==> final(self)@.reachable()) && (before.routable()
                    ==> final(self)@.routable())),
    {
        let mut node: Node<D> = rest;
        node.put_socket(port, mailbox);
        self.put_node(id, node);
        proof {
            assert forall|before: NetworkView<D>|
                #![trigger before.with_mailbox(id, port, mailbox@)]
                before.has_socket(id, port) && old(self)@ == (NetworkView {
                    nodes: before.nodes.remove(id),
                    ..before
                }) && rest@ == (NodeView {
                    sockets: before.nodes[id].sockets.remove(port),
                    ..before.nodes[id]
                }) implies self@ == before.with_mailbox(id, port, mailbox@) && (before.wf()
                && mailbox@.id == before.nodes[id].sockets[port].id ==> self@.wf() && (
            before.reachable() ==> self@.reachable()) && (before.routable() ==> self@.routable()))
            by {
                let after = before.with_mailbox(id, port, mailbox@);
                assert(node@.sockets =~= before.nodes[id].sockets.insert(port, mailbox@));
                assert(self@.nodes =~= after.nodes);
                if before.wf() && mailbox@.id == before.nodes[id].sockets[port].id {
                    lemma_with_mailbox(before, id, port, mailbox@);
                }
            }
        }
    }
}

/// Putting back a mailbox that did not change changes nothing.
proof fn lemma_same_mailbox<D>(net: NetworkView<D>, id: u64, port: u16)
    requires
        net.has_socket(id, port),
    ensures
        net.with_mailbox(id, port, net.nodes[id].sockets[port]) == net,
{
    let after = net.with_mailbox(id, port, net.nodes[id].sockets[port]);
    assert(after.nodes[id].sockets =~= net.nodes[id].sockets);
    assert(after.nodes =~= net.nodes);
}

impl<D> Network<D> {
    /// Chance may decide for `lost` on a packet of type `ty` from node `src` to node `dst`.
    pub open spec fn may_lose(&self, src: NodeId, dst: u64, ty: PayloadType, lost: bool) -> bool {
        match ty {
            PayloadType::Udp => self.config.packet_loss.may_lose(src, NodeId(dst), lost),
            _ => self.config.tcp_packet_loss.may_lose(src, NodeId(dst), lost),
        }
    }

    /// Whether a packet of type `ty` from node `src` to node `dst` is lost was drawn from `rng`, at
    /// the rate that is configured, and `rng` is `after` then.
    pub open spec fn has_drawn_loss(
        &self,
        rng: GlobalRng,
        src: NodeId,
        dst: u64,
        ty: PayloadType,
        lost: bool,
        after: GlobalRng,
    ) -> bool {
        let loss = match ty {
            PayloadType::Udp => self.config.packet_loss,
            _ => self.config.tcp_packet_loss,
        };
        exists|rate: LossRate, rated: GlobalRng|
            loss.has_rated(rng, src, NodeId(dst), rate, rated) && #[trigger] rated.gave_at_ratio(
                rate.numerator,
                rate.denominator,
                lost,
                after,
            )
    }

    /// Sending `packet` has given `r`, `net_after` and `time_after`, with what was drawn from
    /// `rng`, which is `rng_after` then: for a packet that has a way to its destination first
    /// whether it is lost, and for one that goes to a mailbox then how long it takes.
    pub open spec fn has_sent(
        &self,
        rng: GlobalRng,
        time: TimeHandle<SimEvent<D>>,
        packet: Packet<D>,
        r: Result<(), NetError>,
        rng_after: GlobalRng,
        net_after: NetworkView<D>,
        time_after: TimeHandle<SimEvent<D>>,
    ) -> bool {
        exists|lost: bool, latency: Duration, drawn: GlobalRng|
            {
                &&& sent(self@, time, packet, lost, latency, r, net_after, time_after)
                &&& #[trigger] self.has_drawn_for(packet, rng, lost, drawn, latency, rng_after)
            }
    }

    /// What `has_sent` says of the draws: `drawn` is the generator between the two.
    pub open spec fn has_drawn_for(
        &self,
        packet: Packet<D>,
        rng: GlobalRng,
        lost: bool,
        drawn: GlobalRng,
        latency: Duration,
        after: GlobalRng,
    ) -> bool {
        match self@.route(packet.node, packet.dst) {
            Err(_) => after == rng,
            Ok(node) => {
                &&& self.has_drawn_loss(rng, packet.node, node, packet.data.ty, lost, drawn)
                &&& if self@.verdict(node, packet.dst, packet.tag, packet.data.ty, lost) is Queued {
                    self.config.latency.has_taken(drawn, packet.node, NodeId(node), latency, after)
                } else {
                    after == drawn
                }
            },
        }
    }

    /// Network and time are in order, and if a packet from `node_id` has a way to `dst`, what is
    /// drawn for it is configured, and whatever latency is drawn, it arrives at a time that the
    /// clock can show.
    pub open spec fn can_send(
        &self,
        time: TimeHandle<SimEvent<D>>,
        node_id: NodeId,
        dst: SocketAddr,
    ) -> bool {
        &&& self@.wf()
        &&& self@.reachable()
        &&& time.wf()
        &&& dst.ip.loopback() ==> self@.nodes.contains_key(node_id.0)
        &&& self@.route(node_id, dst) matches Ok(dst_node) ==> {
            &&& self.config.wf()
            &&& self@.msg_count < u64::MAX
            &&& forall|latency: Duration| #[trigger]
                self.config.latency.may_take(node_id, NodeId(dst_node), latency)
                    ==> time.clock.now().0.nanos + latency.nanos <= MAX_NANOS
        }
    }

    /// Sending `packet` can give `r`, `net_after` and `time_after`: there is something that
    /// chance may decide for, by the rates and latencies that are configured, with which it
    /// does.
    pub open spec fn may_send(
        &self,
        time: TimeHandle<SimEvent<D>>,
        packet: Packet<D>,
        r: Result<(), NetError>,
        net_after: NetworkView<D>,
        time_after: TimeHandle<SimEvent<D>>,
    ) -> bool {
        exists|lost: bool, latency: Duration|
            {
                &&& #[trigger] sent(
                    self@,
                    time,
                    packet,
                    lost,
                    latency,
                    r,
                    net_after,
                    time_after,
                )
                &&& self@.route(packet.node, packet.dst) matches Ok(dst_node) ==> {
                    &&& self.may_lose(packet.node, dst_node, packet.data.ty, lost)
                    &&& self@.verdict(dst_node, packet.dst, packet.tag, packet.data.ty, lost)
                        is Queued ==> self.config.latency.may_take(
                        packet.node,
                        NodeId(dst_node),
                        latency,
                    )
                }
            }
    }

    /// Finds the node to which a packet from node `node_id` for `dst` goes.
    pub fn route(&self, node_id: NodeId, dst: SocketAddr) -> (r: Result<u64, NetError>)
        ensures
            r == self@.route(node_id, dst),
    {
        let dst_node: u64 = match self.get_node_for_addr(node_id, dst.ip) {
            Some(node) => node,
            None => {
                return Err(NetError::HostUnreachable(dst));
            },
        };
        if self.clogged_node.contains(&node_id.0) || self.clogged_node.contains(&dst_node)
            || self.clogged_link.contains(node_id.0, dst_node) {
            return Err(NetError::HostUnreachable(dst));
        }
        Ok(dst_node)
    }

    /// Draws whether a packet of type `ty` is lost.
    pub fn draw_loss(
        &self,
        rng: &mut GlobalRng,
        node_id: NodeId,
        dst_node: u64,
        ty: PayloadType,
    ) -> (lost: bool)
        requires
            self.config.wf(),
        ensures
            self.may_lose(node_id, dst_node, ty, lost),
            self.has_drawn_loss(*old(rng), node_id, dst_node, ty, lost, *final(rng)),
            final(rng).seed() == old(rng).seed(),
    {
        let rate: LossRate = match ty {
            PayloadType::Udp => self.config.packet_loss.packet_loss_rate(
                rng,
                node_id,
                NodeId(dst_node),
            ),
            PayloadType::TcpSignalConnect
            | PayloadType::TcpData => self.config.tcp_packet_loss.packet_loss_rate(
                rng,
                node_id,
                NodeId(dst_node),
            ),
        };
        let ghost rated = *rng;
        let lost: bool = rng.gen_ratio(rate.numerator, rate.denominator);
        assert(rate.may_lose(lost));
        assert(rated.gave_at_ratio(rate.numerator, rate.denominator, lost, *rng));
        lost
    }

    /// Decides what becomes of a packet that has a way to node `dst_node`.
    pub fn verdict(
        &self,
        dst_node: u64,
        dst: SocketAddr,
        tag: u64,
        ty: PayloadType,
        lost: bool,
    ) -> (r: Verdict)
        requires
            self@.nodes.contains_key(dst_node),
        ensures
            r == self@.verdict(dst_node, dst, tag, ty, lost),
    {
        if lost {
            return match ty {
                PayloadType::Udp => Verdict::Dropped,
                PayloadType::TcpSignalConnect | PayloadType::TcpData => Verdict::Failed(
                    NetError::PeerHungUp(dst),
                ),
            };
        }
        let node: &Node<D> = self.nodes.get(&dst_node).unwrap();
        if ty == PayloadType::TcpData {
            // The sender learns instantaneously that the other end has hung up - this isn't very
            // realistic but it shouldn't matter for the most part.
            if !node.live_tcp_ids.contains(&tag_connection(tag)) {
                return Verdict::Failed(NetError::PeerHungUp(dst));
            }
        }
        match node.sockets.get(&dst.port) {
            Some(mailbox) => Verdict::Queued(mailbox.id),
            None => Verdict::Failed(NetError::ConnectionRefused(dst)),
        }
    }

    /// Puts a packet on its way to `mailbox` on node `dst_node`, where it arrives after
    /// `latency`.
    pub fn dispatch(
        &mut self,
        time: &mut TimeHandle<SimEvent<D>>,
        packet: Packet<D>,
        dst_node: u64,
        mailbox: u64,
        latency: Duration,
    )
        requires
            old(self)@.wf(),
            old(time).wf(),
            old(time).clock.now().0.nanos + latency.nanos <= MAX_NANOS,
            old(self)@.msg_count < u64::MAX,
        ensures
            final(self)@ == (NetworkView {
                msg_count: (old(self)@.msg_count + 1) as u64,
                ..old(self)@
            }),
            final(self).config == old(self).config,
            final(self)@.wf(),
            old(self)@.reachable() ==> final(self)@.reachable(),
            old(self)@.routable() ==> final(self)@.routable(),
            final(time).wf(),
            scheduled(*old(time), packet.delivery(dst_node, mailbox), latency, *final(time)),
    {
        let arrival = Instant(time.now_instant().0.plus(latency));
        let delivery = Delivery {
            node: NodeId(dst_node),
            port: packet.dst.port,
            mailbox,
            msg: Message { tag: packet.tag, data: packet.data, from: packet.src },
        };
        time.add_timer_for_node(NodeId(dst_node), arrival, SimEvent::Deliver(delivery));
        self.stat.msg_count = self.stat.msg_count + 1;
        proof {
            assert(self@.nodes == old(self)@.nodes);
            lemma_wf_from_parts(old(self)@, self@);
        }
    }

    /// Sends a packet from node `node_id`. It may be lost, which only a tcp connection notices,
    /// and otherwise arrives at the mailbox that is bound to `dst` now, after a latency that is
    /// drawn.
    pub fn send(
        &mut self,
        rng: &mut GlobalRng,
        time: &mut TimeHandle<SimEvent<D>>,
        node_id: NodeId,
        src: SocketAddr,
        dst: SocketAddr,
        tag: u64,
        data: Payload<D>,
    ) -> (r: Result<(), NetError>)
        requires
            old(self).can_send(*old(time), node_id, dst),
        ensures
            final(rng).seed() == old(rng).seed(),
            old(self).has_sent(
                *old(rng),
                *old(time),
                Packet { node: node_id, src, dst, tag, data },
                r,
                *final(rng),
                final(self)@,
                *final(time),
            ),
            final(self).config == old(self).config,
            final(self)@.wf(),
            final(self)@.reachable(),
            old(self)@.routable() ==> final(self)@.routable(),
            final(time).wf(),
            old(self).may_send(
                *old(time),
                Packet { node: node_id, src, dst, tag, data },
                r,
                final(self)@,
                *final(time),
            ),
    {
        let ghost packet = Packet { node: node_id, src, dst, tag, data };
        let ghost none = Duration { nanos: 0 };
        let dst_node: u64 = match self.route(node_id, dst) {
            Ok(node) => node,
            Err(err) => {
                let r: Result<(), NetError> = Err(err);
                assert(sent(old(self)@, *old(time), packet, true, none, r, self@, *time));
                assert(old(self).has_drawn_for(packet, *old(rng), true, *rng, none, *rng));
                return r;
            },
        };
        assert(self@.nodes.contains_key(dst_node));
        let lost: bool = self.draw_loss(rng, node_id, dst_node, data.ty);
        let ghost drawn = *rng;
        match self.verdict(dst_node, dst, tag, data.ty, lost) {
            Verdict::Dropped => {
                let r: Result<(), NetError> = Ok(());
                assert(sent(old(self)@, *old(time), packet, lost, none, r, self@, *time));
                assert(old(self).has_drawn_for(packet, *old(rng), lost, drawn, none, *rng));
                r
            },
            Verdict::Failed(err) => {
                let r: Result<(), NetError> = Err(err);
                assert(sent(old(self)@, *old(time), packet, lost, none, r, self@, *time));
                assert(old(self).has_drawn_for(packet, *old(rng), lost, drawn, none, *rng));
                r
            },
            Verdict::Queued(mailbox) => {
                let latency: Duration = self.config.latency.get_latency(
                    rng,
                    node_id,
                    NodeId(dst_node),
                );
                self.dispatch(
                    time,
                    Packet { node: node_id, src, dst, tag, data },
                    dst_node,
                    mailbox,
                    latency,
                );
                let r: Result<(), NetError> = Ok(());
                assert(sent(old(self)@, *old(time), packet, lost, latency, r, self@, *time));
                assert(old(self).has_drawn_for(packet, *old(rng), lost, drawn, latency, *rng));
                r
            },
        }
    }

    /// Lets a message arrive. If the mailbox that it was sent to is no longer bound, the message
    /// is lost. Returns whoever polls for it, to be woken.
    #[must_use]
    pub fn deliver(&mut self, delivery: Delivery<D>) -> (woken: Vec<Waker>)
        requires
            old(self)@.wf(),
        ensures
            old(self)@.delivered(delivery, final(self)@),
            woken@ == old(self)@.polling(delivery),
            final(self).config == old(self).config,
            final(self)@.wf(),
            old(self)@.reachable() ==> final(self)@.reachable(),
            old(self)@.routable() ==> final(self)@.routable(),
    {
        let id: u64 = delivery.node.0;
        match self.take_mailbox(id, delivery.port) {
            Some((rest, mut mailbox)) => {
                let ghost before = mailbox@;
                let mut woken: Vec<Waker> = Vec::new();
                if mailbox.id == delivery.mailbox {
                    woken = mailbox.deliver(delivery.msg);
                    assert(before.delivered(delivery.msg, mailbox@));
                } else {
                    proof {
                        lemma_same_mailbox(old(self)@, id, delivery.port);
                    }
                }
                self.put_mailbox(id, delivery.port, rest, mailbox);
                woken
            },
            None => Vec::new(),
        }
    }

    /// Does what was scheduled, as far as it comes before anyone is woken: hands out a task that
    /// was to be woken now, or a message that arrives, and those that poll for it. Once these have
    /// been woken, the message is to be delivered.
    #[must_use]
    pub fn fire(&mut self, event: SimEvent<D>) -> (fired: Fired<D>)
        requires
            old(self)@.wf(),
        ensures
            match event {
                SimEvent::Wake(waker) => fired.woken@ == seq![waker] && fired.arriving is None
                    && final(self)@ == old(self)@,
                SimEvent::Deliver(delivery) => fired.woken@ == old(self)@.polling(delivery)
                    && fired.arriving == Some(delivery) && final(self)@ == old(self)@.polled(
                    delivery,
                ),
            },
            final(self).config == old(self).config,
            final(self)@.wf(),
            old(self)@.reachable() ==> final(self)@.reachable(),
            old(self)@.routable() ==> final(self)@.routable(),
    {
        match event {
            SimEvent::Wake(waker) => {
                let mut woken: Vec<Waker> = Vec::new();
                woken.push(waker);
                Fired { woken, arriving: None }
            },
            SimEvent::Deliver(delivery) => {
                let id: u64 = delivery.node.0;
                let mut woken: Vec<Waker> = Vec::new();
                match self.take_mailbox(id, delivery.port) {
                    Some((rest, mut mailbox)) => {
                        if mailbox.id == delivery.mailbox {
                            woken = mailbox.take_wakers(WakeKey::Tag(delivery.msg.tag));
                        } else {
                            proof {
                                lemma_same_mailbox(old(self)@, id, delivery.port);
                            }
                        }
                        self.put_mailbox(id, delivery.port, rest, mailbox);
                        assert(self@ == old(self)@.with_mailbox(id, delivery.port, mailbox@));
                    },
                    None => {},
                }
                Fired { woken, arriving: Some(delivery) }
            },
        }
    }

    /// Takes the first message for `tag` from the socket `dst` of `node`, or asks for it.
    pub fn recv(&mut self, node: NodeId, dst: SocketAddr, tag: u64) -> (r: Reception<D>)
        requires
            old(self)@.wf(),
            old(self)@.has_socket(node.0, dst.port),
        ensures
            ({
                let mailbox = old(self)@.nodes[node.0].sockets[dst.port];
                match r {
                    Reception::Ready(msg) => mailbox.has(tag) && mailbox.received(tag).1 == Some(
                        msg,
                    ) && final(self)@
                        == old(self)@.with_mailbox(node.0, dst.port, mailbox.received(tag).0),
                    Reception::Waiting(receiver) => !mailbox.has(tag) && exists|after: MailboxView<D>|
                        #[trigger] mailbox.requested(tag, receiver, after) && final(self)@ == old(
                            self,
                        )@.with_mailbox(node.0, dst.port, after),
                }
            }),
            final(self).config == old(self).config,
            final(self)@.wf(),
            old(self)@.reachable() ==> final(self)@.reachable(),
            old(self)@.routable() ==> final(self)@.routable(),
    {
        let (rest, mut mailbox) = self.take_mailbox(node.0, dst.port).unwrap();
        let r: Reception<D> = mailbox.recv(tag);
        self.put_mailbox(node.0, dst.port, rest, mailbox);
        assert(self@ == old(self)@.with_mailbox(node.0, dst.port, mailbox@));
        r
    }

    /// Takes the first message for `tag` from the socket `dst` of `node`, if there is one.
    pub fn recv_sync(&mut self, node: NodeId, dst: SocketAddr, tag: u64) -> (r: Option<Message<D>>)
        requires
            old(self)@.wf(),
            old(self)@.has_socket(node.0, dst.port),
        ensures
            ({
                let mailbox = old(self)@.nodes[node.0].sockets[dst.port];
                r == mailbox.received(tag).1 && (r is Some <==> mailbox.has(tag)) && final(self)@ == old(self)@.with_mailbox(
                    node.0,
                    dst.port,
                    mailbox.received(tag).0,
                )
            }),
            final(self).config == old(self).config,
            final(self)@.wf(),
            old(self)@.reachable() ==> final(self)@.reachable(),
            old(self)@.routable() ==> final(self)@.routable(),
    {
        let (rest, mut mailbox) = self.take_mailbox(node.0, dst.port).unwrap();
        let r: Option<Message<D>> = mailbox.recv_sync(tag);
        self.put_mailbox(node.0, dst.port, rest, mailbox);
        assert(self@ == old(self)@.with_mailbox(node.0, dst.port, mailbox@));
        r
    }

    /// Whether a message for `tag` waits at the socket `dst` of `node`. If not, `waker` is kept
    /// until one comes.
    pub fn recv_ready(
        &mut self,
        waker: Option<Waker>,
        node: NodeId,
        dst: SocketAddr,
        tag: u64,
    ) -> (ready: bool)
        requires
            old(self)@.wf(),
            old(self)@.has_socket(node.0, dst.port),
        ensures
            ({
                let mailbox = old(self)@.nodes[node.0].sockets[dst.port];
                ready == mailbox.has(tag) && final(self)@ == (match waker {
                    Some(waker) if !ready => old(self)@.with_mailbox(
                        node.0,
                        dst.port,
                        mailbox.polled_by(tag, waker),
                    ),
                    _ => old(self)@,
                })
            }),
            final(self).config == old(self).config,
            final(self)@.wf(),
            old(self)@.reachable() ==> final(self)@.reachable(),
            old(self)@.routable() ==> final(self)@.routable(),
    {
        let (rest, mut mailbox) = self.take_mailbox(node.0, dst.port).unwrap();
        let ready: bool = mailbox.recv_ready(waker, tag);
        self.put_mailbox(node.0, dst.port, rest, mailbox);
        proof {
            lemma_same_mailbox(old(self)@, node.0, dst.port);
        }
        ready
    }
}

} // verus!
