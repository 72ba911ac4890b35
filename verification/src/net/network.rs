//! The network that connects the nodes of a simulation.

use crate::net::addr::{AddrTable, IpAddr, SocketAddr};
use crate::net::config::NetworkConfig;
use crate::net::error::NetError;
use crate::net::mailbox::{connection_of, Mailbox, MailboxView, Message, PayloadType};
use crate::task::NodeId;
use crate::time::FromWaker;
use std::collections::{HashMap, HashSet};
use std::task::Waker;
use vstd::prelude::*;

verus! {

broadcast use vstd::std_specs::hash::group_hash_axioms;

/// The first ephemeral port of a node.
pub const FIRST_EPHEMERAL_PORT: u16 = 0x8000;

/// A message on its way to a mailbox.
pub struct Delivery<D> {
    /// The node that it goes to.
    pub node: NodeId,
    /// The port that it goes to.
    pub port: u16,
    /// The mailbox that was bound to the port when the message was sent.
    pub mailbox: u64,
    /// The message.
    pub msg: Message<D>,
}

/// Something that happens at a scheduled time.
pub enum SimEvent<D> {
    /// A task is woken.
    Wake(Waker),
    /// A message arrives.
    Deliver(Delivery<D>),
}

impl<D> FromWaker for SimEvent<D> {
    open spec fn spec_from_waker(waker: Waker) -> SimEvent<D> {
        SimEvent::Wake(waker)
    }

    fn from_waker(waker: Waker) -> (r: SimEvent<D>) {
        SimEvent::Wake(waker)
    }
}

/// Network for a node.
#[verifier::reject_recursive_types(D)]
pub struct Node<D> {
    /// IP address of the node.
    ///
    /// A node can have at most one IP address.
    pub ip: Option<IpAddr>,
    /// Sockets in the node.
    pub sockets: HashMap<u16, Mailbox<D>>,
    /// Live tcp connections.
    pub live_tcp_ids: HashSet<u32>,
    /// Next ephemeral port. Instead of simulating time-wait behavior the same port is not handed
    /// out twice where that can be helped.
    pub next_ephemeral_port: u16,
}

/// What a node holds.
#[verifier::ext_equal]
#[verifier::reject_recursive_types(D)]
pub struct NodeView<D> {
    /// IP address of the node.
    pub ip: Option<IpAddr>,
    /// Sockets in the node, by port.
    pub sockets: Map<u16, MailboxView<D>>,
    /// Live tcp connections.
    pub live_tcp_ids: Set<u32>,
    /// Where the search for an ephemeral port starts.
    pub next_ephemeral_port: u16,
}

/// The views of the mailboxes of a node.
pub open spec fn sockets_view<D>(sockets: Map<u16, Mailbox<D>>) -> Map<u16, MailboxView<D>> {
    Map::new(|port: u16| sockets.contains_key(port), |port: u16| sockets[port]@)
}

/// The views of the nodes of a network.
pub open spec fn nodes_view<D>(nodes: Map<u64, Node<D>>) -> Map<u64, NodeView<D>> {
    Map::new(|id: u64| nodes.contains_key(id), |id: u64| nodes[id]@)
}

impl<D> View for Node<D> {
    type V = NodeView<D>;

    open spec fn view(&self) -> NodeView<D> {
        NodeView {
            ip: self.ip,
            sockets: sockets_view(self.sockets@),
            live_tcp_ids: self.live_tcp_ids@,
            next_ephemeral_port: self.next_ephemeral_port,
        }
    }
}

/// The first port from `from` on that is not among `taken`.
pub open spec fn free_port(taken: Set<u16>, from: int) -> Option<u16>
    decreases 0x1_0000 - from,
{
    if from > u16::MAX {
        None
    } else if !taken.contains(from as u16) {
        Some(from as u16)
    } else {
        free_port(taken, from + 1)
    }
}

/// A port that was found free is free, and it is the first one from `from` on.
pub proof fn lemma_free_port(taken: Set<u16>, from: int)
    requires
        0 <= from <= 0x1_0000,
    ensures
        free_port(taken, from) matches Some(port) ==> from <= port && !taken.contains(port) && (
        forall|p: u16| from <= p < port ==> #[trigger] taken.contains(p)),
        free_port(taken, from) is None ==> forall|p: u16|
            from <= p ==> #[trigger] taken.contains(p),
    decreases 0x1_0000 - from,
{
    if from <= u16::MAX && taken.contains(from as u16) {
        lemma_free_port(taken, from + 1);
        assert forall|p: u16|
            from <= p && (free_port(taken, from) matches Some(port) ==> p
                < port) implies #[trigger] taken.contains(p) by {
            assert(p == from || from + 1 <= p);
        }
    }
}

impl<D> Node<D> {
    /// A node without address, sockets and connections.
    pub fn new() -> (r: Node<D>)
        ensures
            r@ == NodeView::<D>::fresh(),
    {
        let r = Node {
            ip: None,
            sockets: HashMap::new(),
            live_tcp_ids: HashSet::new(),
            next_ephemeral_port: FIRST_EPHEMERAL_PORT,
        };
        assert(r@.sockets =~= Map::empty());
        r
    }

    /// Puts `mailbox` behind `port`.
    pub(crate) fn put_socket(&mut self, port: u16, mailbox: Mailbox<D>)
        ensures
            final(self)@ == (NodeView {
                sockets: old(self)@.sockets.insert(port, mailbox@),
                ..old(self)@
            }),
    {
        self.sockets.insert(port, mailbox);
        assert(self@.sockets =~= old(self)@.sockets.insert(port, mailbox@));
    }

    /// Takes the mailbox behind `port` out.
    pub(crate) fn take_socket(&mut self, port: u16) -> (r: Option<Mailbox<D>>)
        ensures
            final(self)@ == (NodeView { sockets: old(self)@.sockets.remove(port), ..old(self)@ }),
            r is Some <==> old(self)@.sockets.contains_key(port),
            r matches Some(mailbox) ==> mailbox@ == old(self)@.sockets[port],
    {
        let r: Option<Mailbox<D>> = self.sockets.remove(&port);
        assert(self@.sockets =~= old(self)@.sockets.remove(port));
        r
    }

    /// Finds the first port from the next ephemeral one on that nothing is bound to.
    fn find_free_port(&self) -> (r: Option<u16>)
        ensures
            r == free_port(self@.sockets.dom(), self.next_ephemeral_port as int),
    {
        let mut port: u16 = self.next_ephemeral_port;
        loop
            invariant
                free_port(self@.sockets.dom(), port as int) == free_port(
                    self@.sockets.dom(),
                    self.next_ephemeral_port as int,
                ),
            decreases u16::MAX - port,
        {
            assert(self@.sockets.dom().contains(port) == self.sockets@.contains_key(port));
            if !self.sockets.contains_key(&port) {
                return Some(port);
            }
            if port == u16::MAX {
                assert(free_port(self@.sockets.dom(), port + 1) is None);
                return None;
            }
            port = port + 1;
        }
    }
}

impl<D> NodeView<D> {
    /// A node without address, sockets and connections.
    pub open spec fn fresh() -> NodeView<D> {
        NodeView {
            ip: None,
            sockets: Map::empty(),
            live_tcp_ids: Set::empty(),
            next_ephemeral_port: FIRST_EPHEMERAL_PORT,
        }
    }

    /// The address that binding `addr` asks for, but for its port.
    pub open spec fn bind_ip(self, addr: SocketAddr) -> IpAddr {
        if addr.ip.unspecified() {
            self.ip->0
        } else {
            addr.ip
        }
    }

    /// What binding `addr` gives.
    pub open spec fn bind_result(self, addr: SocketAddr) -> Result<SocketAddr, NetError> {
        let ip = self.bind_ip(addr);
        if !addr.ip.unspecified() && !addr.ip.loopback() && Some(addr.ip) != self.ip {
            Err(NetError::InvalidAddress(addr))
        } else if addr.port == 0 {
            match free_port(self.sockets.dom(), self.next_ephemeral_port as int) {
                Some(port) => Ok(SocketAddr { ip, port }),
                None => Err(NetError::NoEphemeralPort),
            }
        } else if self.sockets.contains_key(addr.port) {
            Err(NetError::AddressInUse(SocketAddr { ip, port: addr.port }))
        } else {
            Ok(SocketAddr { ip, port: addr.port })
        }
    }

    /// The node after binding `addr` gave the socket `bound`, with a mailbox that has the
    /// identity `mailbox`. An ephemeral port moves the search for the next one past it.
    pub open spec fn with_bound(self, addr: SocketAddr, bound: SocketAddr, mailbox: u64) -> NodeView<
        D,
    > {
        NodeView {
            sockets: self.sockets.insert(bound.port, MailboxView::empty(mailbox)),
            next_ephemeral_port: if addr.port == 0 {
                next_port(bound.port)
            } else {
                self.next_ephemeral_port
            },
            ..self
        }
    }
}

/// The port after `port`; after the last one comes zero.
pub open spec fn next_port(port: u16) -> u16 {
    if port == u16::MAX {
        0
    } else {
        (port + 1) as u16
    }
}

/// Network statistics.
#[derive(Debug, Clone, Copy, PartialEq, Eq, Structural)]
pub struct Stat {
    /// Total number of messages.
    pub msg_count: u64,
}

/// A set of directed links.
pub struct LinkSet {
    links: Vec<(u64, u64)>,
}

impl View for LinkSet {
    type V = Set<(u64, u64)>;

    closed spec fn view(&self) -> Set<(u64, u64)> {
        Set::new(|link: (u64, u64)| self.links@.contains(link))
    }
}

impl LinkSet {
    /// The set without any link.
    pub fn new() -> (r: LinkSet)
        ensures
            r@ == Set::<(u64, u64)>::empty(),
    {
        let r = LinkSet { links: Vec::new() };
        assert(r@ =~= Set::empty());
        r
    }

    /// Whether the link from `src` to `dst` is in the set.
    pub fn contains(&self, src: u64, dst: u64) -> (r: bool)
        ensures
            r == self@.contains((src, dst)),
    {
        let mut i: usize = 0;
        while i < self.links.len()
            invariant
                i <= self.links@.len(),
                forall|j: int| 0 <= j < i ==> self.links@[j] != (src, dst),
            decreases self.links@.len() - i,
        {
            if self.links[i].0 == src && self.links[i].1 == dst {
                assert(self.links@[i as int] == (src, dst));
                return true;
            }
            i = i + 1;
        }
        false
    }

    /// Adds the link from `src` to `dst`.
    pub fn insert(&mut self, src: u64, dst: u64)
        ensures
            final(self)@ == old(self)@.insert((src, dst)),
    {
        let ghost before = self.links@;
        if !self.contains(src, dst) {
            self.links.push((src, dst));
            assert(self.links@[before.len() as int] == (src, dst));
            assert forall|link: (u64, u64)| self.links@.contains(link) == (before.contains(link)
                || link == (src, dst)) by {
                if before.contains(link) {
                    let j: int = choose|j: int| 0 <= j < before.len() && before[j] == link;
                    assert(self.links@[j] == link);
                }
            }
        }
        assert(self@ =~= old(self)@.insert((src, dst)));
    }

    /// Takes out the link from `src` to `dst`.
    pub fn remove(&mut self, src: u64, dst: u64)
        ensures
            final(self)@ == old(self)@.remove((src, dst)),
    {
        let ghost gone = |link: (u64, u64)| link == (src, dst);
        let mut i: usize = 0;
        while i < self.links.len()
            invariant
                i <= self.links@.len(),
                gone == (|link: (u64, u64)| link == (src, dst)),
                forall|link: (u64, u64)|
                    !gone(link) ==> (#[trigger] self.links@.contains(link)
                        == old(self).links@.contains(link)),
                forall|j: int| 0 <= j < i ==> !gone(#[trigger] self.links@[j]),
            decreases self.links@.len() - i,
        {
            if self.links[i].0 == src && self.links[i].1 == dst {
                self.drop_at(i);
            } else {
                i = i + 1;
            }
        }
        assert(self@ =~= old(self)@.remove((src, dst)));
    }

    /// Takes out every link that starts or ends at `node`.
    pub fn remove_node(&mut self, node: u64)
        ensures
            final(self)@ == old(self)@.filter(
                |link: (u64, u64)| link.0 != node && link.1 != node,
            ),
    {
        let mut i: usize = 0;
        while i < self.links.len()
            invariant
                i <= self.links@.len(),
                forall|link: (u64, u64)|
                    link.0 != node && link.1 != node ==> (#[trigger] self.links@.contains(link)
                        == old(self).links@.contains(link)),
                forall|j: int|
                    0 <= j < i ==> (#[trigger] self.links@[j]).0 != node && self.links@[j].1 != node,
            decreases self.links@.len() - i,
        {
            if self.links[i].0 == node || self.links[i].1 == node {
                self.drop_at(i);
            } else {
                i = i + 1;
            }
        }
        proof {
            let keep = |link: (u64, u64)| link.0 != node && link.1 != node;
            assert(self@ =~= old(self)@.filter(keep));
        }
    }

    /// Takes out the link at position `i`; the last one takes its place.
    fn drop_at(&mut self, i: usize)
        requires
            i < old(self).links@.len(),
        ensures
            final(self).links@.len() == old(self).links@.len() - 1,
            forall|j: int| 0 <= j < i ==> #[trigger] final(self).links@[j] == old(self).links@[j],
            forall|link: (u64, u64)|
                link != old(self).links@[i as int] ==> (#[trigger] final(self).links@.contains(link)
                    == old(self).links@.contains(link)),
    {
        let ghost before = self.links@;
        self.links.swap_remove(i);
        assert forall|link: (u64, u64)| link != before[i as int] implies (
        #[trigger] self.links@.contains(link) == before.contains(link)) by {
            if before.contains(link) {
                let j: int = choose|j: int| 0 <= j < before.len() && before[j] == link;
                if j == before.len() - 1 {
                    assert(self.links@[i as int] == link);
                } else {
                    assert(self.links@[j] == link);
                }
            }
            if self.links@.contains(link) {
                let j: int = choose|j: int| 0 <= j < self.links@.len() && self.links@[j] == link;
                if j == i {
                    assert(before[before.len() - 1] == link);
                } else {
                    assert(before[j] == link);
                }
            }
        }
    }
}

/// A simulated network.
#[verifier::reject_recursive_types(D)]
pub struct Network<D> {
    /// How packets are delayed and lost.
    pub config: NetworkConfig,
    /// What has been counted.
    pub stat: Stat,
    /// The nodes, by number.
    pub nodes: HashMap<u64, Node<D>>,
    /// Maps the global IP to its node.
    pub addr_to_node: AddrTable,
    /// Nodes that nothing reaches or leaves.
    pub clogged_node: HashSet<u64>,
    /// Links that nothing passes.
    pub clogged_link: LinkSet,
    /// What the next mailbox is told from others by.
    pub next_mailbox: u64,
}

/// What a network holds.
#[verifier::ext_equal]
#[verifier::reject_recursive_types(D)]
pub struct NetworkView<D> {
    /// The nodes, by number.
    pub nodes: Map<u64, NodeView<D>>,
    /// The numbers of the nodes, by IP.
    pub addrs: Map<IpAddr, u64>,
    /// Nodes that nothing reaches or leaves.
    pub clogged_nodes: Set<u64>,
    /// Links that nothing passes.
    pub clogged_links: Set<(u64, u64)>,
    /// Total number of messages.
    pub msg_count: u64,
    /// What the next mailbox is told from others by.
    pub next_mailbox: u64,
}

impl<D> View for Network<D> {
    type V = NetworkView<D>;

    open spec fn view(&self) -> NetworkView<D> {
        NetworkView {
            nodes: nodes_view(self.nodes@),
            addrs: self.addr_to_node@,
            clogged_nodes: self.clogged_node@,
            clogged_links: self.clogged_link@,
            msg_count: self.stat.msg_count,
            next_mailbox: self.next_mailbox,
        }
    }
}

/// What becomes of a packet that has a way to its destination.
#[derive(Debug, Clone, Copy, PartialEq, Eq, Structural)]
pub enum Verdict {
    /// It is lost, and nobody learns of it.
    Dropped,
    /// The sender is told that it cannot be delivered.
    Failed(NetError),
    /// It goes to this mailbox.
    Queued(u64),
}

impl<D> NetworkView<D> {
    /// Each node is found under its address, and no two mailboxes share an identity.
    pub open spec fn wf(self) -> bool {
        &&& forall|id: u64|
            #![trigger self.nodes[id]]
            self.nodes.contains_key(id) ==> (self.nodes[id].ip matches Some(ip)
                ==> self.addrs.contains_key(ip) && self.addrs[ip] == id)
        &&& forall|id: u64, port: u16|
            #![trigger self.nodes[id].sockets[port]]
            self.has_socket(id, port) ==> self.nodes[id].sockets[port].id < self.next_mailbox
        &&& forall|id: u64, port: u16, id2: u64, port2: u16|
            #![trigger self.nodes[id].sockets[port], self.nodes[id2].sockets[port2]]
            self.has_socket(id, port) && self.has_socket(id2, port2)
                && self.nodes[id].sockets[port].id == self.nodes[id2].sockets[port2].id ==> id
                == id2 && port == port2
    }

    /// Every address leads to a node.
    pub open spec fn reachable(self) -> bool {
        forall|ip: IpAddr|
            #![trigger self.addrs[ip]]
            self.addrs.contains_key(ip) ==> self.nodes.contains_key(self.addrs[ip])
    }

    /// Every address leads to a node that has it.
    pub open spec fn routable(self) -> bool {
        forall|ip: IpAddr|
            #![trigger self.addrs[ip]]
            self.addrs.contains_key(ip) ==> self.nodes.contains_key(self.addrs[ip])
                && self.nodes[self.addrs[ip]].ip == Some(ip)
    }

    /// Something is bound to `port` of node `id`.
    pub open spec fn has_socket(self, id: u64, port: u16) -> bool {
        self.nodes.contains_key(id) && self.nodes[id].sockets.contains_key(port)
    }

    /// The node that `ip` leads to from node `current`.
    pub open spec fn node_for(self, current: NodeId, ip: IpAddr) -> Option<u64> {
        if ip.loopback() {
            Some(current.0)
        } else if self.addrs.contains_key(ip) {
            Some(self.addrs[ip])
        } else {
            None
        }
    }

    /// Node `id` replaced by `node`.
    pub open spec fn with_node(self, id: u64, node: NodeView<D>) -> NetworkView<D> {
        NetworkView { nodes: self.nodes.insert(id, node), ..self }
    }

    /// The mailbox behind `port` of node `id` replaced by `mailbox`.
    pub open spec fn with_mailbox(self, id: u64, port: u16, mailbox: MailboxView<D>) -> NetworkView<
        D,
    > {
        self.with_node(
            id,
            NodeView { sockets: self.nodes[id].sockets.insert(port, mailbox), ..self.nodes[id] },
        )
    }

    /// Nothing passes from node `src` to node `dst`.
    pub open spec fn clogged(self, src: u64, dst: u64) -> bool {
        self.clogged_nodes.contains(src) || self.clogged_nodes.contains(dst)
            || self.clogged_links.contains((src, dst))
    }

    /// The node to which a packet from node `src` for `dst` goes.
    pub open spec fn route(self, src: NodeId, dst: SocketAddr) -> Result<u64, NetError> {
        match self.node_for(src, dst.ip) {
            Some(node) if !self.clogged(src.0, node) => Ok(node),
            _ => Err(NetError::HostUnreachable(dst)),
        }
    }

    /// What becomes of a packet of type `ty` and tag `tag` that has a way to node `node`.
    pub open spec fn verdict(
        self,
        node: u64,
        dst: SocketAddr,
        tag: u64,
        ty: PayloadType,
        lost: bool,
    ) -> Verdict {
        if lost {
            match ty {
                PayloadType::Udp => Verdict::Dropped,
                _ => Verdict::Failed(NetError::PeerHungUp(dst)),
            }
        } else if ty == PayloadType::TcpData && !self.nodes[node].live_tcp_ids.contains(
            connection_of(tag),
        ) {
            Verdict::Failed(NetError::PeerHungUp(dst))
        } else if !self.has_socket(node, dst.port) {
            Verdict::Failed(NetError::ConnectionRefused(dst))
        } else {
            Verdict::Queued(self.nodes[node].sockets[dst.port].id)
        }
    }

    /// What the network holds once a fresh node `id` has been put in, with the address `ip` if it
    /// is given one.
    pub open spec fn with_new_node(self, id: u64, ip: Option<IpAddr>) -> NetworkView<D> {
        NetworkView {
            nodes: self.nodes.insert(id, NodeView { ip, ..NodeView::fresh() }),
            addrs: match ip {
                Some(ip) => self.addrs.insert(ip, id),
                None => self.addrs,
            },
            ..self
        }
    }

    /// What the network holds once all sockets of node `id` have been closed.
    pub open spec fn reset(self, id: u64) -> NetworkView<D> {
        self.with_node(id, NodeView { sockets: Map::empty(), ..self.nodes[id] })
    }

    /// What the network holds once node `id` has been deleted, with its address and with what was
    /// clogged about it.
    pub open spec fn deleted(self, id: u64) -> NetworkView<D> {
        NetworkView {
            nodes: self.nodes.remove(id),
            addrs: match self.nodes[id].ip {
                Some(ip) => self.addrs.remove(ip),
                None => self.addrs,
            },
            clogged_nodes: self.clogged_nodes.remove(id),
            clogged_links: self.clogged_links.filter(
                |link: (u64, u64)| link.0 != id && link.1 != id,
            ),
            ..self
        }
    }

    /// What the network holds once node `id` has been given the address `ip`, in place of the one
    /// that it had before.
    pub open spec fn addressed(self, id: u64, ip: IpAddr) -> NetworkView<D> {
        NetworkView {
            addrs: (match self.nodes[id].ip {
                Some(old_ip) => self.addrs.remove(old_ip),
                None => self.addrs,
            }).insert(ip, id),
            ..self.with_node(id, NodeView { ip: Some(ip), ..self.nodes[id] })
        }
    }

    /// What the network holds once node `id` has been clogged.
    pub open spec fn node_clogged(self, id: u64) -> NetworkView<D> {
        NetworkView { clogged_nodes: self.clogged_nodes.insert(id), ..self }
    }

    /// What the network holds once node `id` has been unclogged.
    pub open spec fn node_unclogged(self, id: u64) -> NetworkView<D> {
        NetworkView { clogged_nodes: self.clogged_nodes.remove(id), ..self }
    }

    /// What the network holds once the link from node `src` to node `dst` has been clogged.
    pub open spec fn link_clogged(self, src: u64, dst: u64) -> NetworkView<D> {
        NetworkView { clogged_links: self.clogged_links.insert((src, dst)), ..self }
    }

    /// What the network holds once the link from node `src` to node `dst` has been unclogged.
    pub open spec fn link_unclogged(self, src: u64, dst: u64) -> NetworkView<D> {
        NetworkView { clogged_links: self.clogged_links.remove((src, dst)), ..self }
    }

    /// The network after binding `addr` on node `id` gave the socket `bound`.
    pub open spec fn with_bound(self, id: u64, addr: SocketAddr, bound: SocketAddr) -> NetworkView<
        D,
    > {
        NetworkView {
            next_mailbox: (self.next_mailbox + 1) as u64,
            ..self.with_node(id, self.nodes[id].with_bound(addr, bound, self.next_mailbox))
        }
    }
}

/// A mailbox that keeps its identity can be replaced without harm.
pub proof fn lemma_with_mailbox<D>(net: NetworkView<D>, id: u64, port: u16, mailbox: MailboxView<D>)
    requires
        net.wf(),
        net.has_socket(id, port),
        mailbox.id == net.nodes[id].sockets[port].id,
    ensures
        net.with_mailbox(id, port, mailbox).wf(),
        net.reachable() ==> net.with_mailbox(id, port, mailbox).reachable(),
        net.routable() ==> net.with_mailbox(id, port, mailbox).routable(),
{
    let after = net.with_mailbox(id, port, mailbox);
    assert forall|i: u64, p: u16| #[trigger] after.has_socket(i, p) implies net.has_socket(i, p)
        && after.nodes[i].sockets[p].id == net.nodes[i].sockets[p].id by {}
    assert forall|i: u64| #[trigger] after.nodes.contains_key(i) implies net.nodes.contains_key(i)
        && after.nodes[i].ip == net.nodes[i].ip by {}
    lemma_wf_from_parts(net, after);
}

/// A network whose addresses and mailboxes are among those of a well-formed one, with the same
/// addresses, is well-formed.
pub proof fn lemma_wf_from_parts<D>(net: NetworkView<D>, after: NetworkView<D>)
    requires
        net.wf(),
        after.addrs == net.addrs,
        after.next_mailbox >= net.next_mailbox,
        forall|i: u64|
            #[trigger] after.nodes.contains_key(i) ==> (after.nodes[i].ip is Some
                ==> net.nodes.contains_key(i) && after.nodes[i].ip == net.nodes[i].ip),
        forall|i: u64, p: u16|
            #[trigger] after.has_socket(i, p) ==> net.has_socket(i, p)
                && after.nodes[i].sockets[p].id == net.nodes[i].sockets[p].id,
    ensures
        after.wf(),
{
    assert forall|id: u64|
        #![trigger after.nodes[id]]
        after.nodes.contains_key(id) implies (after.nodes[id].ip matches Some(ip)
        ==> after.addrs.contains_key(ip) && after.addrs[ip] == id) by {
        let _ = net.nodes[id];
    }
    assert forall|id: u64, port: u16|
        #![trigger after.nodes[id].sockets[port]]
        after.has_socket(id, port) implies after.nodes[id].sockets[port].id < after.next_mailbox by {
        assert(net.has_socket(id, port));
        let _ = net.nodes[id].sockets[port];
    }
    assert forall|id: u64, port: u16, id2: u64, port2: u16|
        #![trigger after.nodes[id].sockets[port], after.nodes[id2].sockets[port2]]
        after.has_socket(id, port) && after.has_socket(id2, port2)
            && after.nodes[id].sockets[port].id
            == after.nodes[id2].sockets[port2].id implies id == id2 && port == port2 by {
        assert(net.has_socket(id, port) && net.has_socket(id2, port2));
        assert(net.nodes[id].sockets[port].id == net.nodes[id2].sockets[port2].id);
    }
}

impl<D> Network<D> {
    /// A network without nodes.
    pub fn new(config: NetworkConfig) -> (r: Network<D>)
        ensures
            r@.wf(),
            r@.reachable(),
            r@.routable(),
            r.config == config,
            r@ == (NetworkView::<D> {
                nodes: Map::empty(),
                addrs: Map::empty(),
                clogged_nodes: Set::empty(),
                clogged_links: Set::empty(),
                msg_count: 0,
                next_mailbox: 0,
            }),
    {
        let r = Network {
            config,
            stat: Stat { msg_count: 0 },
            nodes: HashMap::new(),
            addr_to_node: AddrTable::new(),
            clogged_node: HashSet::new(),
            clogged_link: LinkSet::new(),
            next_mailbox: 0,
        };
        assert(r@.nodes =~= Map::empty());
        r
    }

    /// Takes node `id` out.
    pub(crate) fn take_node(&mut self, id: u64) -> (r: Option<Node<D>>)
        ensures
            final(self)@ == (NetworkView { nodes: old(self)@.nodes.remove(id), ..old(self)@ }),
            final(self).config == old(self).config,
            r is Some <==> old(self)@.nodes.contains_key(id),
            r matches Some(node) ==> node@ == old(self)@.nodes[id],
    {
        let r: Option<Node<D>> = self.nodes.remove(&id);
        assert(self@.nodes =~= old(self)@.nodes.remove(id));
        r
    }

    /// Puts `node` in as node `id`.
    pub(crate) fn put_node(&mut self, id: u64, node: Node<D>)
        ensures
            final(self)@ == old(self)@.with_node(id, node@),
            final(self).config == old(self).config,
    {
        self.nodes.insert(id, node);
        assert(self@.nodes =~= old(self)@.nodes.insert(id, node@));
    }

    /// The node that `ip` leads to from node `current`.
    pub fn get_node_for_addr(&self, current: NodeId, ip: IpAddr) -> (r: Option<u64>)
        ensures
            r == self@.node_for(current, ip),
    {
        if ip.is_loopback() {
            Some(current.0)
        } else {
            self.addr_to_node.get(ip)
        }
    }

    /// Sets how packets are delayed and lost.
    pub fn update_config(&mut self, config: NetworkConfig)
        ensures
            final(self).config == config,
            final(self)@ == old(self)@,
    {
        self.config = config;
    }

    /// Returns what has been counted.
    pub fn stat(&self) -> (r: &Stat)
        ensures
            r.msg_count == self@.msg_count,
    {
        &self.stat
    }

    /// Puts in a fresh node. One that was there under the same number is gone.
    pub fn insert_node(&mut self, id: NodeId)
        requires
            old(self)@.wf(),
        ensures
            final(self)@ == old(self)@.with_node(id.0, NodeView::fresh()),
            final(self).config == old(self).config,
            final(self)@.wf(),
            old(self)@.reachable() ==> final(self)@.reachable(),
            old(self)@.routable() && (old(self)@.nodes.contains_key(id.0) ==> old(
                self,
            )@.nodes[id.0].ip is None) ==> final(self)@.routable(),
    {
        self.put_node(id.0, Node::new());
        proof {
            assert forall|i: u64, p: u16| #[trigger] self@.has_socket(i, p) implies old(
                self,
            )@.has_socket(i, p) && self@.nodes[i].sockets[p].id
                == old(self)@.nodes[i].sockets[p].id by {
                assert(i != id.0);
            }
            lemma_wf_from_parts(old(self)@, self@);
        }
    }

    /// Closes all sockets of a node.
    pub fn reset_node(&mut self, id: NodeId)
        requires
            old(self)@.wf(),
            old(self)@.nodes.contains_key(id.0),
        ensures
            final(self)@ == old(self)@.reset(id.0),
            final(self).config == old(self).config,
            final(self)@.wf(),
            old(self)@.reachable() ==> final(self)@.reachable(),
            old(self)@.routable() ==> final(self)@.routable(),
    {
        let mut node: Node<D> = self.take_node(id.0).unwrap();
        node.sockets.clear();
        assert(node@.sockets =~= Map::empty());
        self.put_node(id.0, node);
        proof {
            assert(self@.nodes =~= old(self)@.nodes.insert(id.0, node@));
            assert forall|i: u64, p: u16| #[trigger] self@.has_socket(i, p) implies old(
                self,
            )@.has_socket(i, p) && self@.nodes[i].sockets[p].id
                == old(self)@.nodes[i].sockets[p].id by {
                assert(i != id.0);
            }
            lemma_wf_from_parts(old(self)@, self@);
        }
    }

    /// Removes a node, its address and what was clogged about it.
    pub fn delete_node(&mut self, id: NodeId)
        requires
            old(self)@.wf(),
            old(self)@.nodes.contains_key(id.0),
        ensures
            final(self)@ == old(self)@.deleted(id.0),
            final(self).config == old(self).config,
            final(self)@.wf(),
            old(self)@.routable() ==> final(self)@.reachable() && final(self)@.routable(),
    {
        let node: Node<D> = self.take_node(id.0).unwrap();
        let ghost without = NetworkView { nodes: old(self)@.nodes.remove(id.0), ..old(self)@ };
        proof {
            assert forall|i: u64, p: u16| #[trigger] without.has_socket(i, p) implies old(
                self,
            )@.has_socket(i, p) && without.nodes[i].sockets[p].id
                == old(self)@.nodes[i].sockets[p].id by {}
            lemma_wf_from_parts(old(self)@, without);
        }
        match node.ip {
            Some(ip) => {
                self.addr_to_node.remove(ip);
            },
            None => {},
        }
        self.clogged_node.remove(&id.0);
        self.clogged_link.remove_node(id.0);
        proof {
            assert forall|i: u64|
                #![trigger self@.nodes[i]]
                self@.nodes.contains_key(i) implies (self@.nodes[i].ip matches Some(ip)
                ==> self@.addrs.contains_key(ip) && self@.addrs[ip] == i) by {
                let _ = old(self)@.nodes[i];
                let _ = old(self)@.nodes[id.0];
            }
            assert(self@.nodes == without.nodes);
            assert forall|i: u64, p: u16|
                #![trigger self@.nodes[i].sockets[p]]
                self@.has_socket(i, p) implies self@.nodes[i].sockets[p].id < self@.next_mailbox by {
                assert(without.has_socket(i, p));
                let _ = without.nodes[i].sockets[p];
            }
            assert forall|i: u64, p: u16, i2: u64, p2: u16|
                #![trigger self@.nodes[i].sockets[p], self@.nodes[i2].sockets[p2]]
                self@.has_socket(i, p) && self@.has_socket(i2, p2) && self@.nodes[i].sockets[p].id
                    == self@.nodes[i2].sockets[p2].id implies i == i2 && p == p2 by {
                assert(without.has_socket(i, p) && without.has_socket(i2, p2));
                assert(without.nodes[i].sockets[p].id == without.nodes[i2].sockets[p2].id);
            }
            if old(self)@.routable() {
                assert forall|ip: IpAddr|
                    #![trigger self@.addrs[ip]]
                    self@.addrs.contains_key(ip) implies self@.nodes.contains_key(self@.addrs[ip])
                    && self@.nodes[self@.addrs[ip]].ip == Some(ip) by {
                    assert(old(self)@.addrs.contains_key(ip));
                    let _ = old(self)@.addrs[ip];
                }
            }
        }
    }

    /// Gives a node its address. One that it had before is given up.
    pub fn set_ip(&mut self, id: NodeId, ip: IpAddr)
        requires
            old(self)@.wf(),
            old(self)@.nodes.contains_key(id.0),
            old(self)@.addrs.contains_key(ip) ==> old(self)@.nodes[id.0].ip == Some(ip),
        ensures
            final(self)@ == old(self)@.addressed(id.0, ip),
            final(self).config == old(self).config,
            final(self)@.wf(),
            old(self)@.reachable() ==> final(self)@.reachable(),
            old(self)@.routable() ==> final(self)@.routable(),
    {
        let mut node: Node<D> = self.take_node(id.0).unwrap();
        let old_ip: Option<IpAddr> = node.ip;
        node.ip = Some(ip);
        match old_ip {
            Some(old_ip) => {
                self.addr_to_node.remove(old_ip);
            },
            None => {},
        }
        self.addr_to_node.insert(ip, id.0);
        self.put_node(id.0, node);
        proof {
            let before = old(self)@;
            assert(self@.nodes =~= before.nodes.insert(id.0, node@));
            assert forall|i: u64|
                #![trigger self@.nodes[i]]
                self@.nodes.contains_key(i) implies (self@.nodes[i].ip matches Some(own)
                ==> self@.addrs.contains_key(own) && self@.addrs[own] == i) by {
                let _ = before.nodes[i];
                let _ = before.nodes[id.0];
            }
            assert forall|i: u64, p: u16| #[trigger] self@.has_socket(i, p) implies
                before.has_socket(i, p) && self@.nodes[i].sockets[p] == before.nodes[i].sockets[p]
                by {}
            assert forall|i: u64, p: u16|
                #![trigger self@.nodes[i].sockets[p]]
                self@.has_socket(i, p) implies self@.nodes[i].sockets[p].id < self@.next_mailbox by {
                assert(before.has_socket(i, p));
                let _ = before.nodes[i].sockets[p];
            }
            assert forall|i: u64, p: u16, i2: u64, p2: u16|
                #![trigger self@.nodes[i].sockets[p], self@.nodes[i2].sockets[p2]]
                self@.has_socket(i, p) && self@.has_socket(i2, p2) && self@.nodes[i].sockets[p].id
                    == self@.nodes[i2].sockets[p2].id implies i == i2 && p == p2 by {
                assert(before.has_socket(i, p) && before.has_socket(i2, p2));
                assert(before.nodes[i].sockets[p].id == before.nodes[i2].sockets[p2].id);
            }
            if before.routable() {
                assert forall|other: IpAddr|
                    #![trigger self@.addrs[other]]
                    self@.addrs.contains_key(other) implies self@.nodes.contains_key(
                    self@.addrs[other],
                ) && self@.nodes[self@.addrs[other]].ip == Some(other) by {
                    if other != ip {
                        assert(before.addrs.contains_key(other));
                        let _ = before.addrs[other];
                    }
                }
            }
        }
    }

    /// Returns the address of a node.
    pub fn get_ip(&self, id: NodeId) -> (r: Option<IpAddr>)
        requires
            self@.nodes.contains_key(id.0),
        ensures
            r == self@.nodes[id.0].ip,
    {
        self.nodes.get(&id.0).unwrap().ip
    }

    /// Lets nothing reach or leave a node.
    pub fn clog_node(&mut self, id: NodeId)
        requires
            old(self)@.wf(),
            old(self)@.nodes.contains_key(id.0),
        ensures
            final(self)@ == old(self)@.node_clogged(id.0),
            final(self).config == old(self).config,
            final(self)@.wf(),
            old(self)@.reachable() ==> final(self)@.reachable(),
            old(self)@.routable() ==> final(self)@.routable(),
    {
        self.clogged_node.insert(id.0);
        assert(self@.nodes == old(self)@.nodes && self@.addrs == old(self)@.addrs);
    }

    /// Undoes `clog_node`.
    pub fn unclog_node(&mut self, id: NodeId)
        requires
            old(self)@.wf(),
            old(self)@.nodes.contains_key(id.0),
        ensures
            final(self)@ == old(self)@.node_unclogged(id.0),
            final(self).config == old(self).config,
            final(self)@.wf(),
            old(self)@.reachable() ==> final(self)@.reachable(),
            old(self)@.routable() ==> final(self)@.routable(),
    {
        self.clogged_node.remove(&id.0);
        assert(self@.nodes == old(self)@.nodes && self@.addrs == old(self)@.addrs);
    }

    /// Lets nothing pass from `src` to `dst`.
    pub fn clog_link(&mut self, src: NodeId, dst: NodeId)
        requires
            old(self)@.wf(),
            old(self)@.nodes.contains_key(src.0),
            old(self)@.nodes.contains_key(dst.0),
        ensures
            final(self)@ == old(self)@.link_clogged(src.0, dst.0),
            final(self).config == old(self).config,
            final(self)@.wf(),
            old(self)@.reachable() ==> final(self)@.reachable(),
            old(self)@.routable() ==> final(self)@.routable(),
    {
        self.clogged_link.insert(src.0, dst.0);
        assert(self@.nodes == old(self)@.nodes && self@.addrs == old(self)@.addrs);
    }

    /// Undoes `clog_link`.
    pub fn unclog_link(&mut self, src: NodeId, dst: NodeId)
        requires
            old(self)@.wf(),
            old(self)@.nodes.contains_key(src.0),
            old(self)@.nodes.contains_key(dst.0),
        ensures
            final(self)@ == old(self)@.link_unclogged(src.0, dst.0),
            final(self).config == old(self).config,
            final(self)@.wf(),
            old(self)@.reachable() ==> final(self)@.reachable(),
            old(self)@.routable() ==> final(self)@.routable(),
    {
        self.clogged_link.remove(src.0, dst.0);
        assert(self@.nodes == old(self)@.nodes && self@.addrs == old(self)@.addrs);
    }

    /// Binds a socket of node `node_id` to `addr`. An unspecified address stands for that of the
    /// node, and port zero for an ephemeral port. Returns the address that was bound.
    pub fn bind(&mut self, node_id: NodeId, addr: SocketAddr) -> (r: Result<SocketAddr, NetError>)
        requires
            old(self)@.wf(),
            old(self)@.nodes.contains_key(node_id.0),
            addr.ip.loopback() || old(self)@.nodes[node_id.0].ip is Some,
            old(self)@.next_mailbox < u64::MAX,
        ensures
            r == old(self)@.nodes[node_id.0].bind_result(addr),
            final(self)@ == (match r {
                Ok(bound) => old(self)@.with_bound(node_id.0, addr, bound),
                Err(_) => old(self)@,
            }),
            final(self).config == old(self).config,
            final(self)@.wf(),
            old(self)@.reachable() ==> final(self)@.reachable(),
            old(self)@.routable() ==> final(self)@.routable(),
    {
        let mut node: Node<D> = self.take_node(node_id.0).unwrap();
        let ghost before = node@;
        let r: Result<SocketAddr, NetError> = Self::bind_on(&mut node, addr, self.next_mailbox);
        self.put_node(node_id.0, node);
        assert(self@.nodes =~= old(self)@.nodes.insert(node_id.0, node@));
        if r.is_ok() {
            self.next_mailbox = self.next_mailbox + 1;
            proof {
                lemma_free_port(before.sockets.dom(), before.next_ephemeral_port as int);
                lemma_with_bound(old(self)@, node_id.0, addr, r->Ok_0);
            }
        } else {
            assert(self@.nodes =~= old(self)@.nodes);
        }
        r
    }

    /// Binds a socket of `node` to `addr` with a mailbox that has the identity `mailbox`.
    fn bind_on(node: &mut Node<D>, addr: SocketAddr, mailbox: u64) -> (r: Result<
        SocketAddr,
        NetError,
    >)
        requires
            addr.ip.loopback() || old(node)@.ip is Some,
        ensures
            r == old(node)@.bind_result(addr),
            final(node)@ == (match r {
                Ok(bound) => old(node)@.with_bound(addr, bound, mailbox),
                Err(_) => old(node)@,
            }),
    {
        let mut addr: SocketAddr = addr;
        // resolve IP if unspecified
        if addr.ip.is_unspecified() {
            addr.ip = node.ip.unwrap();
        } else if addr.ip.is_loopback() {
        } else if addr.ip != node.ip.unwrap() {
            return Err(NetError::InvalidAddress(addr));
        }
        // resolve port if unspecified
        if addr.port == 0 {
            match node.find_free_port() {
                Some(port) => {
                    proof {
                        lemma_free_port(node@.sockets.dom(), node.next_ephemeral_port as int);
                    }
                    node.next_ephemeral_port = if port == u16::MAX {
                        0
                    } else {
                        port + 1
                    };
                    addr.port = port;
                },
                None => {
                    return Err(NetError::NoEphemeralPort);
                },
            }
        }
        // insert socket
        if node.sockets.contains_key(&addr.port) {
            return Err(NetError::AddressInUse(addr));
        }
        node.put_socket(addr.port, Mailbox::new(mailbox));
        Ok(addr)
    }
}

/// Binding keeps a network well-formed.
proof fn lemma_with_bound<D>(net: NetworkView<D>, id: u64, addr: SocketAddr, bound: SocketAddr)
    requires
        net.wf(),
        net.nodes.contains_key(id),
        !net.nodes[id].sockets.contains_key(bound.port),
        net.next_mailbox < u64::MAX,
    ensures
        net.with_bound(id, addr, bound).wf(),
        net.reachable() ==> net.with_bound(id, addr, bound).reachable(),
        net.routable() ==> net.with_bound(id, addr, bound).routable(),
{
    let after = net.with_bound(id, addr, bound);
    assert forall|i: u64, p: u16| #[trigger] after.has_socket(i, p) implies (i == id && p
        == bound.port && after.nodes[i].sockets[p].id == net.next_mailbox) || ((i, p) != (
        id,
        bound.port,
    ) && net.has_socket(i, p) && after.nodes[i].sockets[p] == net.nodes[i].sockets[p]
        && net.nodes[i].sockets[p].id < net.next_mailbox) by {
        if net.has_socket(i, p) {
            let _ = net.nodes[i].sockets[p];
        }
    }
    assert forall|i: u64|
        #![trigger after.nodes[i]]
        after.nodes.contains_key(i) implies (after.nodes[i].ip matches Some(ip)
        ==> after.addrs.contains_key(ip) && after.addrs[ip] == i) by {
        let _ = net.nodes[i];
    }
    assert forall|i: u64, p: u16, i2: u64, p2: u16|
        #![trigger after.nodes[i].sockets[p], after.nodes[i2].sockets[p2]]
        after.has_socket(i, p) && after.has_socket(i2, p2) && after.nodes[i].sockets[p].id
            == after.nodes[i2].sockets[p2].id implies i == i2 && p == p2 by {
        if net.has_socket(i, p) && net.has_socket(i2, p2) {
            assert(net.nodes[i].sockets[p].id < net.next_mailbox);
            assert(net.nodes[i2].sockets[p2].id < net.next_mailbox);
        }
    }
}

} // verus!
