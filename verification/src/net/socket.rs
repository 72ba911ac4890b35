//! Sockets that are bound to an address.

use crate::net::addr::{IpAddr, SocketAddr};
use crate::net::error::NetError;
use crate::net::network::{Network, NodeView};
use crate::task::NodeId;
use vstd::prelude::*;

verus! {

/// An endpoint of a node.
#[derive(Debug, Clone, Copy, PartialEq, Eq, Structural)]
pub struct Endpoint {
    /// The node.
    pub node: NodeId,
    /// The address that is bound.
    pub addr: SocketAddr,
    /// Where the endpoint is connected to, if it is.
    pub peer: Option<SocketAddr>,
}

/// What binding the first address of `addrs` that can be bound gives: that address, or the error
/// of the last one.
pub open spec fn bind_any_result<D>(node: NodeView<D>, addrs: Seq<SocketAddr>) -> Result<
    (SocketAddr, SocketAddr),
    NetError,
>
    decreases addrs.len(),
{
    if addrs.len() == 0 {
        Err(NetError::NoAddress)
    } else {
        match node.bind_result(addrs[0]) {
            Ok(bound) => Ok((addrs[0], bound)),
            Err(err) => if addrs.len() == 1 {
                Err(err)
            } else {
                bind_any_result(node, addrs.drop_first())
            },
        }
    }
}

impl Endpoint {
    /// Binds an endpoint of `node` to the first of `addrs` that can be bound. If none can, the
    /// error is that of the last one.
    pub fn bind_any<D>(net: &mut Network<D>, node: NodeId, addrs: &Vec<SocketAddr>) -> (r: Result<
        Endpoint,
        NetError,
    >)
        requires
            old(net)@.wf(),
            old(net)@.nodes.contains_key(node.0),
            forall|i: int|
                0 <= i < addrs@.len() ==> (#[trigger] addrs@[i]).ip.loopback() || old(
                    net,
                )@.nodes[node.0].ip is Some,
            old(net)@.next_mailbox < u64::MAX,
        ensures
            match bind_any_result(old(net)@.nodes[node.0], addrs@) {
                Ok((addr, bound)) => r == Ok::<Endpoint, NetError>(
                    Endpoint { node, addr: bound, peer: None },
                ) && final(net)@ == old(net)@.with_bound(node.0, addr, bound),
                Err(err) => r == Err::<Endpoint, NetError>(err) && final(net)@ == old(net)@,
            },
            final(net).config == old(net).config,
            final(net)@.wf(),
            old(net)@.reachable() ==> final(net)@.reachable(),
            old(net)@.routable() ==> final(net)@.routable(),
    {
        let mut last_err: NetError = NetError::NoAddress;
        let mut i: usize = 0;
        assert(addrs@.skip(0) =~= addrs@);
        while i < addrs.len()
            invariant
                i <= addrs@.len(),
                net@ == old(net)@,
                net.config == old(net).config,
                old(net)@.wf(),
                old(net)@.nodes.contains_key(node.0),
                forall|j: int|
                    0 <= j < addrs@.len() ==> (#[trigger] addrs@[j]).ip.loopback() || old(
                        net,
                    )@.nodes[node.0].ip is Some,
                old(net)@.next_mailbox < u64::MAX,
                i < addrs@.len() ==> bind_any_result(old(net)@.nodes[node.0], addrs@.skip(i as int))
                    == bind_any_result(old(net)@.nodes[node.0], addrs@),
                i == addrs@.len() ==> bind_any_result(old(net)@.nodes[node.0], addrs@) == Err::<
                    (SocketAddr, SocketAddr),
                    NetError,
                >(last_err),
            decreases addrs@.len() - i,
        {
            let ghost rest = addrs@.skip(i as int);
            assert(rest[0] == addrs@[i as int]);
            assert(rest.drop_first() =~= addrs@.skip(i + 1));
            match net.bind(node, addrs[i]) {
                Ok(bound) => {
                    return Ok(Endpoint { node, addr: bound, peer: None });
                },
                Err(err) => {
                    last_err = err;
                },
            }
            i = i + 1;
        }
        Err(last_err)
    }

    /// Binds an endpoint of `node` to an ephemeral port of its address and connects it to
    /// `peer`.
    pub fn connect<D>(net: &mut Network<D>, node: NodeId, peer: SocketAddr) -> (r: Result<
        Endpoint,
        NetError,
    >)
        requires
            old(net)@.wf(),
            old(net)@.nodes.contains_key(node.0),
            old(net)@.nodes[node.0].ip is Some,
            old(net)@.next_mailbox < u64::MAX,
        ensures
            ({
                let any = SocketAddr { ip: IpAddr::V4(0), port: 0 };
                match old(net)@.nodes[node.0].bind_result(any) {
                    Ok(bound) => r == Ok::<Endpoint, NetError>(
                        Endpoint { node, addr: bound, peer: Some(peer) },
                    ) && final(net)@ == old(net)@.with_bound(node.0, any, bound),
                    Err(err) => r == Err::<Endpoint, NetError>(err) && final(net)@ == old(net)@,
                }
            }),
            final(net).config == old(net).config,
            final(net)@.wf(),
            old(net)@.reachable() ==> final(net)@.reachable(),
            old(net)@.routable() ==> final(net)@.routable(),
    {
        match net.bind(node, SocketAddr::new(IpAddr::V4(0), 0)) {
            Ok(bound) => Ok(Endpoint { node, addr: bound, peer: Some(peer) }),
            Err(err) => Err(err),
        }
    }

    /// Returns the address that is bound.
    pub fn local_addr(&self) -> (r: SocketAddr)
        ensures
            r == self.addr,
    {
        self.addr
    }

    /// Returns where the endpoint is connected to.
    pub fn peer_addr(&self) -> (r: Result<SocketAddr, NetError>)
        ensures
            r == (match self.peer {
                Some(peer) => Ok::<SocketAddr, NetError>(peer),
                None => Err(NetError::NotConnected),
            }),
    {
        match self.peer {
            Some(peer) => Ok(peer),
            None => Err(NetError::NotConnected),
        }
    }
}

/// A udp socket.
#[derive(Debug, Clone, Copy, PartialEq, Eq, Structural)]
pub struct UdpSocket {
    /// The endpoint.
    pub ep: Endpoint,
    /// Where packets go by default.
    pub default_dest: Option<SocketAddr>,
}

impl UdpSocket {
    /// A socket without a default destination.
    pub fn new(ep: Endpoint) -> (r: UdpSocket)
        ensures
            r == (UdpSocket { ep, default_dest: None }),
    {
        UdpSocket { ep, default_dest: None }
    }

    /// Returns the address that is bound.
    pub fn local_addr(&self) -> (r: SocketAddr)
        ensures
            r == self.ep.addr,
    {
        self.ep.local_addr()
    }

    /// Returns where the endpoint is connected to.
    pub fn peer_addr(&self) -> (r: Result<SocketAddr, NetError>)
        ensures
            r == (match self.ep.peer {
                Some(peer) => Ok::<SocketAddr, NetError>(peer),
                None => Err(NetError::NotConnected),
            }),
    {
        self.ep.peer_addr()
    }

    /// Connects the socket: for udp, that is just setting the default destination to the first
    /// of `addrs`.
    pub fn connect(&mut self, addrs: &Vec<SocketAddr>) -> (r: Result<(), NetError>)
        ensures
            addrs@.len() == 0 ==> r == Err::<(), NetError>(NetError::NoAddress) && *final(self)
                == *old(self),
            addrs@.len() > 0 ==> r == Ok::<(), NetError>(()) && *final(self) == (UdpSocket {
                default_dest: Some(addrs@[0]),
                ..*old(self)
            }),
    {
        if addrs.len() == 0 {
            return Err(NetError::NoAddress);
        }
        self.default_dest = Some(addrs[0]);
        Ok(())
    }

    /// Returns where a packet for `addrs` is sent to: the first of them. There must be one.
    pub fn send_to(&self, addrs: &Vec<SocketAddr>) -> (r: Result<SocketAddr, NetError>)
        ensures
            r == (if addrs@.len() > 0 {
                Ok::<SocketAddr, NetError>(addrs@[0])
            } else {
                Err(NetError::NoDestination)
            }),
    {
        if addrs.len() == 0 {
            return Err(NetError::NoDestination);
        }
        Ok(addrs[0])
    }
}

/// A tcp socket that neither listens nor is connected yet.
#[derive(Debug, Clone, Copy, PartialEq, Eq, Structural)]
pub struct TcpSocket {
    /// The endpoint, once the socket is bound.
    pub bind_addr: Option<Endpoint>,
}

impl TcpSocket {
    /// A socket that is not bound.
    pub fn new_v4() -> (r: TcpSocket)
        ensures
            r.bind_addr is None,
    {
        TcpSocket { bind_addr: None }
    }

    /// Returns the address that is bound.
    pub fn local_addr(&self) -> (r: Result<SocketAddr, NetError>)
        ensures
            r == (match self.bind_addr {
                Some(ep) => Ok::<SocketAddr, NetError>(ep.addr),
                None => Err(NetError::NotConnected),
            }),
    {
        match self.bind_addr {
            Some(ep) => Ok(ep.local_addr()),
            None => Err(NetError::NotConnected),
        }
    }

    /// Binds the socket to `addr`.
    pub fn bind<D>(&mut self, net: &mut Network<D>, node: NodeId, addr: SocketAddr) -> (r: Result<
        (),
        NetError,
    >)
        requires
            old(net)@.wf(),
            old(net)@.nodes.contains_key(node.0),
            addr.ip.loopback() || old(net)@.nodes[node.0].ip is Some,
            old(net)@.next_mailbox < u64::MAX,
        ensures
            match old(net)@.nodes[node.0].bind_result(addr) {
                Ok(bound) => {
                    &&& r == Ok::<(), NetError>(())
                    &&& final(net)@ == old(net)@.with_bound(node.0, addr, bound)
                    &&& final(self).bind_addr == Some(Endpoint { node, addr: bound, peer: None })
                },
                Err(err) => {
                    &&& r == Err::<(), NetError>(err)
                    &&& final(net)@ == old(net)@
                    &&& *final(self) == *old(self)
                },
            },
            final(net).config == old(net).config,
            final(net)@.wf(),
            old(net)@.reachable() ==> final(net)@.reachable(),
            old(net)@.routable() ==> final(net)@.routable(),
    {
        match net.bind(node, addr) {
            Ok(bound) => {
                self.bind_addr = Some(Endpoint { node, addr: bound, peer: None });
                Ok(())
            },
            Err(err) => Err(err),
        }
    }
}

/// What is bound when several addresses are tried is the first one that can be.
pub proof fn law_bind_takes_the_first_free_address<D>(
    node: NodeView<D>,
    addrs: Seq<SocketAddr>,
    i: int,
)
    requires
        0 <= i < addrs.len(),
        node.bind_result(addrs[i]) is Ok,
        forall|j: int| 0 <= j < i ==> node.bind_result(#[trigger] addrs[j]) is Err,
    ensures
        bind_any_result(node, addrs) == Ok::<(SocketAddr, SocketAddr), NetError>(
            (addrs[i], node.bind_result(addrs[i])->Ok_0),
        ),
    decreases addrs.len(),
{
    if i > 0 {
        let rest = addrs.drop_first();
        assert(node.bind_result(addrs[0]) is Err);
        assert forall|j: int| 0 <= j < i - 1 implies node.bind_result(#[trigger] rest[j]) is Err by {
            assert(rest[j] == addrs[j + 1]);
        }
        assert(rest[i - 1] == addrs[i]);
        law_bind_takes_the_first_free_address(node, rest, i - 1);
    }
}

} // verus!
