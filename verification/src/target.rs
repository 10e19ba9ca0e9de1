//! The targets that a lookup hands out.

use vstd::prelude::*;
use crate::transport::Transport;

verus! {

/// The TTL, in seconds, of a target whose record gave none.
pub const DEFAULT_TTL: u32 = 300;

/// An IPv4 or IPv6 address, by its octets in network order.
#[derive(Debug, Clone, Copy, PartialEq, Eq, Hash)]
pub enum IpAddr {
    V4([u8; 4]),
    V6([u8; 16]),
}

impl View for IpAddr {
    type V = IpAddr;

    open spec fn view(&self) -> IpAddr {
        *self
    }
}

/// An address and a port to connect to.
#[derive(Debug, Clone, Copy, PartialEq, Eq, Hash)]
pub struct SocketAddr {
    pub ip: IpAddr,
    pub port: u16,
}

/// The (ip, port, transport, ttl) tuple that should be used as the next peer.
#[derive(Debug, Clone, Copy, PartialEq, Eq)]
pub struct Target {
    pub ip_addr: IpAddr,
    pub port: u16,
    pub transport: Transport,
    pub ttl: u32,
}

impl Target {
    /// A target whose TTL is not known: it gets the default.
    pub fn new(ip_addr: IpAddr, port: u16, transport: Transport) -> (r: Target)
        ensures
            r == (Target { ip_addr, port, transport, ttl: DEFAULT_TTL }),
    {
        Target { ip_addr, port, transport, ttl: DEFAULT_TTL }
    }

    pub fn new_with_ttl(ip_addr: IpAddr, port: u16, transport: Transport, ttl: u32) -> (r: Target)
        ensures
            r == (Target { ip_addr, port, transport, ttl }),
    {
        Target { ip_addr, port, transport, ttl }
    }

    /// Where to connect to: the target without its transport and TTL.
    pub fn socket_addr(&self) -> (r: SocketAddr)
        ensures
            r == (SocketAddr { ip: self.ip_addr, port: self.port }),
    {
        SocketAddr { ip: self.ip_addr, port: self.port }
    }
}

} // verus!
