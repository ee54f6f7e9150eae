//! Plain-value model of peer socket addresses.
//!
//! An address is an IP (v4 or v6, held as its raw bits) together with a
//! port. The connection logic only ever reads equality, the loopback
//! predicate and the port, so those are what the model states.

use vstd::prelude::*;

verus! {

/// An IP address, v4 or v6, held as its raw bits.
#[derive(Clone, Copy, PartialEq, Eq, Structural, Debug, Hash)]
pub enum IpAddress {
    V4(u32),
    V6(u128),
}

/// The v4 loopback block is 127.0.0.0/8; the v6 loopback address is ::1.
pub open spec fn spec_is_loopback(ip: IpAddress) -> bool {
    match ip {
        IpAddress::V4(bits) => bits >> 24 == 127,
        IpAddress::V6(bits) => bits == 1,
    }
}

impl IpAddress {
    /// Whether the address lies in a loopback range.
    pub fn is_loopback(&self) -> (r: bool)
        ensures
            r == spec_is_loopback(*self),
    {
        match self {
            IpAddress::V4(bits) => *bits >> 24 == 127,
            IpAddress::V6(bits) => *bits == 1,
        }
    }
}

/// A socket address: an IP and a port.
#[derive(Clone, Copy, PartialEq, Eq, Structural, Debug, Hash)]
pub struct SocketAddr {
    pub ip: IpAddress,
    pub port: u16,
}

impl SocketAddr {
    /// Builds the address from its two components.
    pub fn new(ip: IpAddress, port: u16) -> (r: SocketAddr)
        ensures
            r.ip == ip,
            r.port == port,
    {
        SocketAddr { ip, port }
    }
}

} // verus!
