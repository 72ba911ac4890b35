//! Errors of the simulated network.

use crate::net::addr::SocketAddr;
use vstd::prelude::*;

verus! {

/// The general category of a network error.
#[derive(Debug, Clone, Copy, PartialEq, Eq, Structural)]
pub enum ErrorKind {
    /// The address is not one of this node.
    AddrNotAvailable,
    /// The address is taken.
    AddrInUse,
    /// The remote end refused the connection.
    ConnectionRefused,
    /// The remote end reset the connection.
    ConnectionReset,
    /// There is no connection.
    NotConnected,
    /// An argument makes no sense.
    InvalidInput,
}

/// What went wrong in an operation on the network.
#[derive(Debug, Clone, Copy, PartialEq, Eq, Structural)]
pub enum NetError {
    /// "invalid address": a node can only bind its own address.
    InvalidAddress(SocketAddr),
    /// "no available ephemeral port".
    NoEphemeralPort,
    /// "address already in use".
    AddressInUse(SocketAddr),
    /// "host unreachable": no node has the address, or the way to it is clogged.
    HostUnreachable(SocketAddr),
    /// "peer hung up": the connection broke.
    PeerHungUp(SocketAddr),
    /// "connection refused": nothing is bound to the port.
    ConnectionRefused(SocketAddr),
    /// "could not resolve to any address".
    NoAddress,
    /// "no addresses to send data to".
    NoDestination,
    /// "socket is not connected".
    NotConnected,
}

impl NetError {
    /// The category under which the error falls.
    pub open spec fn spec_kind(self) -> ErrorKind {
        match self {
            NetError::InvalidAddress(_) => ErrorKind::AddrNotAvailable,
            NetError::NoEphemeralPort => ErrorKind::AddrInUse,
            NetError::AddressInUse(_) => ErrorKind::AddrInUse,
            NetError::HostUnreachable(_) => ErrorKind::ConnectionRefused,
            NetError::PeerHungUp(_) => ErrorKind::ConnectionReset,
            NetError::ConnectionRefused(_) => ErrorKind::ConnectionRefused,
            NetError::NoAddress => ErrorKind::InvalidInput,
            NetError::NoDestination => ErrorKind::InvalidInput,
            NetError::NotConnected => ErrorKind::NotConnected,
        }
    }

    /// Returns the category under which the error falls.
    pub fn kind(self) -> (r: ErrorKind)
        ensures
            r == self.spec_kind(),
    {
        match self {
            NetError::InvalidAddress(_) => ErrorKind::AddrNotAvailable,
            NetError::NoEphemeralPort => ErrorKind::AddrInUse,
            NetError::AddressInUse(_) => ErrorKind::AddrInUse,
            NetError::HostUnreachable(_) => ErrorKind::ConnectionRefused,
            NetError::PeerHungUp(_) => ErrorKind::ConnectionReset,
            NetError::ConnectionRefused(_) => ErrorKind::ConnectionRefused,
            NetError::NoAddress => ErrorKind::InvalidInput,
            NetError::NoDestination => ErrorKind::InvalidInput,
            NetError::NotConnected => ErrorKind::NotConnected,
        }
    }
}

/// Errors fall under the category that says what the caller can do about them: an address that is
/// not the node's own is not available; a port that is taken, or that none is left of, is in use; a
/// peer that cannot be reached has refused; one that has hung up has reset; without an address there
/// is nothing to work with.
pub proof fn law_errors_fall_under_their_category(err: NetError)
    ensures
        err.spec_kind() == ErrorKind::AddrNotAvailable <==> err is InvalidAddress,
        err.spec_kind() == ErrorKind::AddrInUse <==> err is NoEphemeralPort || err is AddressInUse,
        err.spec_kind() == ErrorKind::ConnectionRefused <==> err is HostUnreachable
            || err is ConnectionRefused,
        err.spec_kind() == ErrorKind::ConnectionReset <==> err is PeerHungUp,
        err.spec_kind() == ErrorKind::InvalidInput <==> err is NoAddress || err is NoDestination,
        err.spec_kind() == ErrorKind::NotConnected <==> err is NotConnected,
{
}

} // verus!
