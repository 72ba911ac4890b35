//! Addresses of the simulated network.

use std::collections::HashMap;
use vstd::prelude::*;

verus! {

broadcast use vstd::std_specs::hash::group_hash_axioms;

/// An IP address, as the number that its octets spell.
#[derive(Debug, Clone, Copy, PartialEq, Eq, Structural, Hash)]
pub enum IpAddr {
    /// An IPv4 address.
    V4(u32),
    /// An IPv6 address.
    V6(u128),
}

impl IpAddr {
    /// The address is one by which a node reaches itself: `127.0.0.0/8` or `::1`.
    pub open spec fn loopback(self) -> bool {
        match self {
            IpAddr::V4(bits) => 0x7f00_0000 <= bits < 0x8000_0000,
            IpAddr::V6(bits) => bits == 1,
        }
    }

    /// The address is the one that stands for any: `0.0.0.0` or `::`.
    pub open spec fn unspecified(self) -> bool {
        match self {
            IpAddr::V4(bits) => bits == 0,
            IpAddr::V6(bits) => bits == 0,
        }
    }

    /// The IPv4 address with the given octets.
    pub fn v4(a: u8, b: u8, c: u8, d: u8) -> (r: IpAddr)
        ensures
            r == IpAddr::V4((a * 0x100_0000 + b * 0x1_0000 + c * 0x100 + d) as u32),
    {
        IpAddr::V4(a as u32 * 0x100_0000 + b as u32 * 0x1_0000 + c as u32 * 0x100 + d as u32)
    }

    /// Whether a node reaches itself by this address.
    pub fn is_loopback(self) -> (r: bool)
        ensures
            r == self.loopback(),
    {
        match self {
            IpAddr::V4(bits) => 0x7f00_0000 <= bits && bits < 0x8000_0000,
            IpAddr::V6(bits) => bits == 1,
        }
    }

    /// Whether this address stands for any.
    pub fn is_unspecified(self) -> (r: bool)
        ensures
            r == self.unspecified(),
    {
        match self {
            IpAddr::V4(bits) => bits == 0,
            IpAddr::V6(bits) => bits == 0,
        }
    }
}

/// An IP address and a port.
#[derive(Debug, Clone, Copy, PartialEq, Eq, Structural, Hash)]
pub struct SocketAddr {
    /// The address.
    pub ip: IpAddr,
    /// The port.
    pub port: u16,
}

impl SocketAddr {
    /// The socket address with the given parts.
    pub fn new(ip: IpAddr, port: u16) -> (r: SocketAddr)
        ensures
            r == (SocketAddr { ip, port }),
    {
        SocketAddr { ip, port }
    }
}

/// A table from IP addresses to nodes.
pub struct AddrTable {
    v4: HashMap<u32, u64>,
    v6: HashMap<u128, u64>,
}

impl View for AddrTable {
    type V = Map<IpAddr, u64>;

    closed spec fn view(&self) -> Map<IpAddr, u64> {
        Map::new(
            |ip: IpAddr|
                match ip {
                    IpAddr::V4(bits) => self.v4@.contains_key(bits),
                    IpAddr::V6(bits) => self.v6@.contains_key(bits),
                },
            |ip: IpAddr|
                match ip {
                    IpAddr::V4(bits) => self.v4@[bits],
                    IpAddr::V6(bits) => self.v6@[bits],
                },
        )
    }
}

impl AddrTable {
    /// A table without any address.
    pub fn new() -> (r: AddrTable)
        ensures
            r@ == Map::<IpAddr, u64>::empty(),
    {
        let r = AddrTable { v4: HashMap::new(), v6: HashMap::new() };
        assert(r@ =~= Map::empty());
        r
    }

    /// The node that is filed under `ip`.
    pub fn get(&self, ip: IpAddr) -> (r: Option<u64>)
        ensures
            r == (if self@.contains_key(ip) {
                Some(self@[ip])
            } else {
                None
            }),
    {
        let found: Option<&u64> = match ip {
            IpAddr::V4(bits) => self.v4.get(&bits),
            IpAddr::V6(bits) => self.v6.get(&bits),
        };
        match found {
            Some(node) => Some(*node),
            None => None,
        }
    }

    /// Files `node` under `ip`.
    pub fn insert(&mut self, ip: IpAddr, node: u64)
        ensures
            final(self)@ == old(self)@.insert(ip, node),
    {
        match ip {
            IpAddr::V4(bits) => {
                self.v4.insert(bits, node);
            },
            IpAddr::V6(bits) => {
                self.v6.insert(bits, node);
            },
        }
        assert(self@ =~= old(self)@.insert(ip, node));
    }

    /// Takes `ip` out of the table.
    pub fn remove(&mut self, ip: IpAddr)
        ensures
            final(self)@ == old(self)@.remove(ip),
    {
        match ip {
            IpAddr::V4(bits) => {
                self.v4.remove(&bits);
            },
            IpAddr::V6(bits) => {
                self.v6.remove(&bits);
            },
        }
        assert(self@ =~= old(self)@.remove(ip));
    }
}

} // verus!
