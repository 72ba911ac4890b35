//! What holds of nodes, their addresses and their sockets.

use crate::net::addr::{IpAddr, SocketAddr};
use crate::net::error::NetError;
use crate::net::network::{lemma_free_port, next_port, NetworkView, NodeView};
use crate::net::socket::bind_any_result;
use crate::task::NodeId;
use vstd::prelude::*;

verus! {

/// The IPv4 addresses by which a node reaches itself are those whose first octet is 127; the one
/// that stands for any has no octet but zero. Of the IPv6 addresses they are one and zero. No
/// address is both.
pub proof fn law_loopback_addresses(ip: IpAddr, a: u8, b: u8, c: u8, d: u8)
    ensures
        IpAddr::V4((a * 0x100_0000 + b * 0x1_0000 + c * 0x100 + d) as u32).loopback() <==> a == 127,
        IpAddr::V4((a * 0x100_0000 + b * 0x1_0000 + c * 0x100 + d) as u32).unspecified() <==> a == 0
            && b == 0 && c == 0 && d == 0,
        ip matches IpAddr::V6(bits) ==> (ip.loopback() <==> bits == 1) && (ip.unspecified() <==> bits
            == 0),
        !(ip.loopback() && ip.unspecified()),
{
}

/// A node may bind an unspecified address, a loopback address and its own, and no other: for any
/// other the answer is that the address is invalid, whatever the port, and only then.
pub proof fn law_only_own_addresses_can_be_bound<D>(node: NodeView<D>, addr: SocketAddr)
    ensures
        node.bind_result(addr) == Err::<SocketAddr, NetError>(NetError::InvalidAddress(addr))
            <==> !addr.ip.unspecified() && !addr.ip.loopback() && node.ip != Some(addr.ip),
{
    lemma_free_port(node.sockets.dom(), node.next_ephemeral_port as int);
}

/// Binding port zero of an address that the node may bind, loopback or not, succeeds if and only if
/// some port from the next ephemeral one on is free. It gives the first such port, at that address,
/// or at that of the node if the address was unspecified.
pub proof fn law_ephemeral_port_is_the_first_free_one<D>(node: NodeView<D>, addr: SocketAddr)
    requires
        addr.port == 0,
        addr.ip.unspecified() || addr.ip.loopback() || node.ip == Some(addr.ip),
    ensures
        node.bind_result(addr) is Ok <==> exists|port: u16|
            port >= node.next_ephemeral_port && !#[trigger] node.sockets.contains_key(port),
        node.bind_result(addr) matches Ok(bound) ==> {
            &&& bound.port >= node.next_ephemeral_port
            &&& !node.sockets.contains_key(bound.port)
            &&& forall|port: u16|
                node.next_ephemeral_port <= port < bound.port
                    ==> #[trigger] node.sockets.contains_key(port)
            &&& addr.ip.unspecified() && node.ip is Some ==> node.ip == Some(bound.ip)
            &&& !addr.ip.unspecified() ==> bound.ip == addr.ip
        },
        node.bind_result(addr) matches Err(err) ==> err == NetError::NoEphemeralPort,
{
    let from = node.next_ephemeral_port as int;
    lemma_free_port(node.sockets.dom(), from);
    if node.bind_result(addr) is Ok {
        let port = node.bind_result(addr)->Ok_0.port;
        assert(port >= node.next_ephemeral_port && !node.sockets.contains_key(port));
    } else {
        assert forall|port: u16| port >= node.next_ephemeral_port implies
            #[trigger] node.sockets.contains_key(port) by {
            assert(node.sockets.dom().contains(port));
        }
    }
    assert forall|port: u16|
        node.bind_result(addr) is Ok && node.next_ephemeral_port <= port < node.bind_result(
            addr,
        )->Ok_0.port implies #[trigger] node.sockets.contains_key(port) by {
        assert(node.sockets.dom().contains(port));
    }
}

/// Binding a port that is named gives that port if it is free, and tells that it is in use
/// otherwise; the address is the one that was asked for, or that of the node if it was unspecified.
pub proof fn law_named_port_is_bound_if_it_is_free<D>(node: NodeView<D>, addr: SocketAddr)
    requires
        addr.port != 0,
        addr.ip.unspecified() || addr.ip.loopback() || node.ip == Some(addr.ip),
    ensures
        node.bind_result(addr) is Ok <==> !node.sockets.contains_key(addr.port),
        node.bind_result(addr) matches Ok(bound) ==> {
            &&& bound.port == addr.port
            &&& addr.ip.unspecified() && node.ip is Some ==> node.ip == Some(bound.ip)
            &&& !addr.ip.unspecified() ==> bound.ip == addr.ip
        },
        node.bind_result(addr) matches Err(err) ==> (err matches NetError::AddressInUse(used) && {
            &&& used.port == addr.port
            &&& addr.ip.unspecified() && node.ip is Some ==> node.ip == Some(used.ip)
            &&& !addr.ip.unspecified() ==> used.ip == addr.ip
        }),
{
}

/// The search for an ephemeral port goes on behind the port that was found, at zero behind the last
/// one.
pub proof fn law_ports_are_counted_up(port: u16)
    ensures
        port < u16::MAX ==> next_port(port) == port + 1,
        next_port(u16::MAX) == 0,
{
}

/// What was bound is there: a socket with an identity of its own, at which nothing waits yet. All
/// other sockets of the node, its address and its connections are as they were, and so is the place
/// where the search for ephemeral ports goes on, unless such a port was bound.
pub proof fn law_bound_socket_is_there<D>(
    node: NodeView<D>,
    addr: SocketAddr,
    bound: SocketAddr,
    mailbox: u64,
    port: u16,
)
    requires
        node.bind_result(addr) == Ok::<SocketAddr, NetError>(bound),
    ensures
        ({
            let after = node.with_bound(addr, bound, mailbox);
            let socket = after.sockets[bound.port];
            &&& after.sockets.contains_key(bound.port)
            &&& socket.id == mailbox
            &&& socket.msgs.len() == 0 && socket.registered.len() == 0
            &&& socket.wakers.len() == 0 && socket.sync_connections.len() == 0
            &&& port != bound.port ==> (after.sockets.contains_key(port)
                <==> node.sockets.contains_key(port)) && (node.sockets.contains_key(port)
                ==> after.sockets[port] == node.sockets[port])
            &&& after.ip == node.ip
            &&& after.live_tcp_ids == node.live_tcp_ids
            &&& addr.port != 0 ==> after.next_ephemeral_port == node.next_ephemeral_port
            &&& addr.port == 0 && bound.port < u16::MAX ==> after.next_ephemeral_port
                == bound.port + 1
            &&& addr.port == 0 && bound.port == u16::MAX ==> after.next_ephemeral_port == 0
        }),
{
}

/// Binding changes the node on which it happens, and nothing else of the network but the identity
/// that the next socket gets.
pub proof fn law_binding_spares_the_rest<D>(
    net: NetworkView<D>,
    id: u64,
    addr: SocketAddr,
    bound: SocketAddr,
    other: u64,
)
    requires
        net.nodes.contains_key(id),
        net.next_mailbox < u64::MAX,
        other != id,
    ensures
        ({
            let after = net.with_bound(id, addr, bound);
            &&& after.nodes.contains_key(other) <==> net.nodes.contains_key(other)
            &&& net.nodes.contains_key(other) ==> after.nodes[other] == net.nodes[other]
            &&& after.nodes.contains_key(id)
            &&& after.nodes[id] == net.nodes[id].with_bound(addr, bound, net.next_mailbox)
            &&& after.addrs == net.addrs
            &&& after.clogged_nodes == net.clogged_nodes
            &&& after.clogged_links == net.clogged_links
            &&& after.msg_count == net.msg_count
        }),
{
}

/// Trying several addresses fails only where none can be bound, and then with what was said of the
/// last one; where there is none to try, that is said.
pub proof fn law_bind_fails_with_the_last_error<D>(node: NodeView<D>, addrs: Seq<SocketAddr>)
    requires
        forall|i: int| 0 <= i < addrs.len() ==> node.bind_result(#[trigger] addrs[i]) is Err,
    ensures
        bind_any_result(node, addrs) matches Err(err) && (if addrs.len() == 0 {
            err == NetError::NoAddress
        } else {
            node.bind_result(addrs.last()) == Err::<SocketAddr, NetError>(err)
        }),
    decreases addrs.len(),
{
    if addrs.len() > 1 {
        let rest = addrs.drop_first();
        assert forall|i: int| 0 <= i < rest.len() implies node.bind_result(#[trigger] rest[i]) is Err by {
            assert(rest[i] == addrs[i + 1]);
        }
        assert(rest.last() == addrs.last());
        law_bind_fails_with_the_last_error(node, rest);
        assert(node.bind_result(addrs[0]) is Err);
    } else if addrs.len() == 1 {
        assert(node.bind_result(addrs[0]) is Err);
    }
}

/// A socket that is closed is gone, and all others are as they were; closing it on a node that is
/// gone changes nothing.
pub proof fn law_closed_socket_is_gone<D>(net: NetworkView<D>, id: u64, port: u16, other: u64, p: u16)
    ensures
        ({
            let after = net.closed(id, port);
            &&& !after.has_socket(id, port)
            &&& (other, p) != (id, port) ==> (after.has_socket(other, p) <==> net.has_socket(other, p))
            &&& (other, p) != (id, port) && net.has_socket(other, p)
                ==> after.nodes[other].sockets[p] == net.nodes[other].sockets[p]
            &&& after.nodes.dom() == net.nodes.dom()
            &&& net.nodes.contains_key(other) ==> {
                &&& after.nodes[other].ip == net.nodes[other].ip
                &&& after.nodes[other].live_tcp_ids == net.nodes[other].live_tcp_ids
                &&& after.nodes[other].next_ephemeral_port == net.nodes[other].next_ephemeral_port
            }
            &&& after.addrs == net.addrs
            &&& after.clogged_nodes == net.clogged_nodes && after.clogged_links == net.clogged_links
            &&& after.msg_count == net.msg_count && after.next_mailbox == net.next_mailbox
        }),
{
    assert(net.closed(id, port).nodes.dom() =~= net.nodes.dom());
}

/// Resetting a node closes all its sockets. It keeps its address, its connections and the place
/// where the search for ephemeral ports goes on; all other nodes are as they were.
pub proof fn law_reset_node_has_no_sockets<D>(net: NetworkView<D>, id: u64, port: u16, other: u64)
    requires
        net.nodes.contains_key(id),
        net.nodes.contains_key(other),
    ensures
        ({
            let after = net.reset(id);
            &&& !after.has_socket(id, port)
            &&& other != id ==> after.nodes[other] == net.nodes[other]
            &&& after.nodes[other].ip == net.nodes[other].ip
            &&& after.nodes[other].live_tcp_ids == net.nodes[other].live_tcp_ids
            &&& after.nodes[other].next_ephemeral_port == net.nodes[other].next_ephemeral_port
            &&& after.nodes.dom() == net.nodes.dom()
            &&& after.addrs == net.addrs
            &&& after.clogged_nodes == net.clogged_nodes && after.clogged_links == net.clogged_links
            &&& after.msg_count == net.msg_count && after.next_mailbox == net.next_mailbox
        }),
{
    assert(net.reset(id).nodes.dom() =~= net.nodes.dom());
}

/// A fresh node has no address, no sockets and no connections, and its ephemeral ports start in the
/// upper half; every other node is as it was, and so are all addresses.
pub proof fn law_inserted_node_is_fresh<D>(net: NetworkView<D>, id: u64, other: u64)
    ensures
        ({
            let after = net.with_node(id, NodeView::fresh());
            &&& after.nodes.contains_key(id)
            &&& after.nodes[id].ip is None
            &&& after.nodes[id].sockets.dom() == Set::<u16>::empty()
            &&& after.nodes[id].live_tcp_ids == Set::<u32>::empty()
            &&& after.nodes[id].next_ephemeral_port == 32768
            &&& other != id ==> (after.nodes.contains_key(other) <==> net.nodes.contains_key(other))
            &&& other != id && net.nodes.contains_key(other) ==> after.nodes[other]
                == net.nodes[other]
            &&& after.addrs == net.addrs
            &&& after.clogged_nodes == net.clogged_nodes && after.clogged_links == net.clogged_links
            &&& after.msg_count == net.msg_count && after.next_mailbox == net.next_mailbox
        }),
{
    assert(NodeView::<D>::fresh().sockets.dom() =~= Set::empty());
}

/// A deleted node is gone, with its address: nothing leads to it from anywhere else. What was
/// clogged about it is forgotten. All other nodes, addresses and clogs are as they were.
pub proof fn law_deleted_node_leaves_no_trace<D>(net: NetworkView<D>, id: u64, other: u64, third: u64)
    requires
        net.wf(),
        net.routable(),
        net.nodes.contains_key(id),
        other != id,
        third != id,
    ensures
        ({
            let after = net.deleted(id);
            &&& !after.nodes.contains_key(id)
            &&& forall|ip: IpAddr| #[trigger]
                after.addrs.contains_key(ip) ==> after.addrs[ip] != id
            &&& forall|ip: IpAddr|
                #[trigger] net.addrs.contains_key(ip) && net.addrs[ip] != id
                    ==> after.addrs.contains_key(ip) && after.addrs[ip] == net.addrs[ip]
            &&& !after.clogged(id, other) || after.clogged_nodes.contains(other)
            &&& !after.clogged(other, id) || after.clogged_nodes.contains(other)
            &&& after.clogged(other, third) <==> net.clogged(other, third)
            &&& after.nodes.contains_key(other) <==> net.nodes.contains_key(other)
            &&& net.nodes.contains_key(other) ==> after.nodes[other] == net.nodes[other]
            &&& after.msg_count == net.msg_count && after.next_mailbox == net.next_mailbox
        }),
{
    let after = net.deleted(id);
    let _ = net.nodes[id];
    assert forall|ip: IpAddr| #[trigger] after.addrs.contains_key(ip) implies after.addrs[ip] != id by {
        assert(net.addrs.contains_key(ip));
        let _ = net.addrs[ip];
    }
}

/// A node that was given an address is found under it from anywhere, unless the address is a
/// loopback address, and no longer under the one that it had before. Every other address leads
/// where it did, and nothing else of the network changes.
pub proof fn law_addressed_node_is_found<D>(
    net: NetworkView<D>,
    id: u64,
    ip: IpAddr,
    from: NodeId,
    other: IpAddr,
)
    requires
        net.wf(),
        net.nodes.contains_key(id),
    ensures
        ({
            let after = net.addressed(id, ip);
            &&& after.nodes[id].ip == Some(ip)
            &&& !ip.loopback() ==> after.node_for(from, ip) == Some(id)
            &&& !other.loopback() && other != ip && net.nodes[id].ip == Some(other)
                ==> after.node_for(from, other) is None
            &&& other != ip && net.nodes[id].ip != Some(other) ==> after.node_for(from, other)
                == net.node_for(from, other)
            &&& after.nodes.dom() == net.nodes.dom()
            &&& after.nodes[id].sockets == net.nodes[id].sockets
            &&& after.nodes[id].live_tcp_ids == net.nodes[id].live_tcp_ids
            &&& after.nodes[id].next_ephemeral_port == net.nodes[id].next_ephemeral_port
            &&& forall|k: u64|
                k != id && net.nodes.contains_key(k) ==> #[trigger] after.nodes[k] == net.nodes[k]
            &&& after.clogged_nodes == net.clogged_nodes && after.clogged_links == net.clogged_links
            &&& after.msg_count == net.msg_count && after.next_mailbox == net.next_mailbox
        }),
{
    assert(net.addressed(id, ip).nodes.dom() =~= net.nodes.dom());
}

/// A packet has a way if and only if its address leads to a node, neither end is clogged and the
/// link between them is not. It goes to the node that has the address, or stays where it is if that
/// is a loopback address.
pub proof fn law_packet_has_a_way<D>(net: NetworkView<D>, src: NodeId, dst: SocketAddr, node: u64)
    ensures
        net.route(src, dst) == Ok::<u64, NetError>(node) <==> {
            &&& dst.ip.loopback() ==> node == src.0
            &&& !dst.ip.loopback() ==> net.addrs.contains_key(dst.ip) && net.addrs[dst.ip] == node
            &&& !net.clogged_nodes.contains(src.0)
            &&& !net.clogged_nodes.contains(node)
            &&& !net.clogged_links.contains((src.0, node))
        },
        net.route(src, dst) is Err ==> net.route(src, dst) == Err::<u64, NetError>(
            NetError::HostUnreachable(dst),
        ),
{
}

/// Clogging a node cuts it off in both directions; whatever neither comes from it nor goes to it
/// takes the way that it took, and unclogging it gives back exactly that.
pub proof fn law_clogging_a_node_concerns_no_other<D>(
    net: NetworkView<D>,
    id: u64,
    src: NodeId,
    dst: SocketAddr,
)
    ensures
        ({
            let after = net.node_clogged(id);
            &&& (src.0 == id || net.node_for(src, dst.ip) == Some(id)) ==> after.route(src, dst)
                == Err::<u64, NetError>(NetError::HostUnreachable(dst))
            &&& !(src.0 == id || net.node_for(src, dst.ip) == Some(id)) ==> after.route(src, dst)
                == net.route(src, dst)
            &&& after.nodes == net.nodes && after.addrs == net.addrs
            &&& after.msg_count == net.msg_count && after.next_mailbox == net.next_mailbox
            &&& !net.clogged_nodes.contains(id) ==> after.node_unclogged(id) == net
        }),
        ({
            let after = net.node_unclogged(id);
            &&& !(src.0 == id || net.node_for(src, dst.ip) == Some(id)) ==> after.route(src, dst)
                == net.route(src, dst)
            &&& (src.0 == id && net.node_for(src, dst.ip) == Some(id)
                && !net.clogged_links.contains((id, id))) ==> after.route(src, dst) == Ok::<
                u64,
                NetError,
            >(id)
            &&& after.nodes == net.nodes && after.addrs == net.addrs
            &&& after.msg_count == net.msg_count && after.next_mailbox == net.next_mailbox
            &&& after.node_clogged(id) == net.node_clogged(id)
        }),
{
    if !net.clogged_nodes.contains(id) {
        assert(net.clogged_nodes.insert(id).remove(id) =~= net.clogged_nodes);
    }
    assert(net.clogged_nodes.remove(id).insert(id) =~= net.clogged_nodes.insert(id));
}

/// Clogging a link stops what passes it in its direction; whatever takes any other link, the same
/// one backwards among them, takes the way that it took, and unclogging it gives back exactly that.
pub proof fn law_clogging_a_link_concerns_no_other<D>(
    net: NetworkView<D>,
    a: u64,
    b: u64,
    src: NodeId,
    dst: SocketAddr,
)
    ensures
        ({
            let after = net.link_clogged(a, b);
            let passes = src.0 == a && net.node_for(src, dst.ip) == Some(b);
            &&& passes ==> after.route(src, dst) == Err::<u64, NetError>(
                NetError::HostUnreachable(dst),
            )
            &&& !passes ==> after.route(src, dst) == net.route(src, dst)
            &&& after.nodes == net.nodes && after.addrs == net.addrs
            &&& after.msg_count == net.msg_count && after.next_mailbox == net.next_mailbox
            &&& !net.clogged_links.contains((a, b)) ==> after.link_unclogged(a, b) == net
        }),
        ({
            let after = net.link_unclogged(a, b);
            let passes = src.0 == a && net.node_for(src, dst.ip) == Some(b);
            &&& !passes ==> after.route(src, dst) == net.route(src, dst)
            &&& passes && !net.clogged_nodes.contains(a) && !net.clogged_nodes.contains(b)
                ==> after.route(src, dst) == Ok::<u64, NetError>(b)
            &&& after.nodes == net.nodes && after.addrs == net.addrs
            &&& after.msg_count == net.msg_count && after.next_mailbox == net.next_mailbox
        }),
{
    if !net.clogged_links.contains((a, b)) {
        assert(net.clogged_links.insert((a, b)).remove((a, b)) =~= net.clogged_links);
    }
}

/// A connection that was signaled is accepted in its turn: those that were signaled before come
/// first, and each is accepted once. Nothing else of the socket changes.
pub proof fn law_connections_are_accepted_in_turn<D>(
    net: NetworkView<D>,
    id: u64,
    port: u16,
    src: SocketAddr,
)
    requires
        net.has_socket(id, port),
    ensures
        ({
            let waiting = net.nodes[id].sockets[port].sync_connections;
            let after = net.signaled(id, port, src);
            let (first, rest) = after.connect_accepted(id, port);
            &&& after.has_socket(id, port) && rest.has_socket(id, port)
            &&& after.nodes[id].sockets[port].sync_connections.len() == waiting.len() + 1
            &&& waiting.len() == 0 ==> first == Some(src) && rest == net
            &&& waiting.len() > 0 ==> first == Some(waiting[0]) && rest
                == net.connect_accepted(id, port).1.signaled(id, port, src)
            &&& waiting.len() == 0 ==> net.connect_accepted(id, port) == (
                None::<SocketAddr>,
                net,
            )
            &&& waiting.len() > 0 ==> net.connect_accepted(
                id,
                port,
            ).1.nodes[id].sockets[port].sync_connections.len() == waiting.len() - 1
            &&& after.nodes[id].sockets[port].id == net.nodes[id].sockets[port].id
            &&& after.nodes[id].sockets[port].msgs == net.nodes[id].sockets[port].msgs
        }),
{
    let waiting = net.nodes[id].sockets[port].sync_connections;
    let after = net.signaled(id, port, src);
    let (first, rest) = after.connect_accepted(id, port);
    if waiting.len() == 0 {
        assert(rest.nodes[id].sockets[port].sync_connections =~= waiting);
        assert(rest.nodes[id].sockets =~= net.nodes[id].sockets);
        assert(rest.nodes =~= net.nodes);
    } else {
        let other = net.connect_accepted(id, port).1.signaled(id, port, src);
        assert(waiting.push(src).drop_first() =~= waiting.drop_first().push(src));
        assert(rest.nodes[id].sockets =~= other.nodes[id].sockets);
        assert(rest.nodes =~= other.nodes);
    }
}

} // verus!
