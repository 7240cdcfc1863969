//! Transport addresses as plain integers, with the equality that socket
//! addresses have.

use vstd::prelude::*;

verus! {

/// An IP address: IPv4 as its 32-bit big-endian value, IPv6 as its 128-bit value.
#[derive(Clone, Copy, Debug, PartialEq, Eq, Structural)]
pub enum Ip {
    V4(u32),
    V6(u128),
}

/// A UDP/TCP transport address. Two endpoints are equal exactly when every
/// field is equal, as for socket addresses (an IPv6 one also carries its
/// flow label and scope).
#[derive(Clone, Copy, Debug, PartialEq, Eq, Structural)]
pub enum Endpoint {
    V4 { ip: u32, port: u16 },
    V6 { ip: u128, port: u16, flowinfo: u32, scope_id: u32 },
}

/// `127.0.0.1` as a 32-bit value.
pub const LOOPBACK_V4: u32 = 0x7f00_0001u32;

/// The endpoint made of an address and a port; an IPv6 one has flow label
/// and scope zero.
pub open spec fn spec_endpoint(ip: Ip, port: u16) -> Endpoint {
    match ip {
        Ip::V4(a) => Endpoint::V4 { ip: a, port },
        Ip::V6(a) => Endpoint::V6 { ip: a, port, flowinfo: 0, scope_id: 0 },
    }
}

impl Endpoint {
    /// Builds the endpoint of `ip` and `port`.
    pub fn new(ip: Ip, port: u16) -> (e: Endpoint)
        ensures
            e == spec_endpoint(ip, port),
    {
        match ip {
            Ip::V4(a) => Endpoint::V4 { ip: a, port },
            Ip::V6(a) => Endpoint::V6 { ip: a, port, flowinfo: 0, scope_id: 0 },
        }
    }

    /// The IPv4 loopback endpoint on `port`.
    pub fn loopback(port: u16) -> (e: Endpoint)
        ensures
            e == (Endpoint::V4 { ip: LOOPBACK_V4, port }),
    {
        Endpoint::V4 { ip: LOOPBACK_V4, port }
    }

    /// Whether this is an IPv4 endpoint.
    pub fn is_ipv4(&self) -> (b: bool)
        ensures
            b == (*self is V4),
    {
        match self {
            Endpoint::V4 { .. } => true,
            Endpoint::V6 { .. } => false,
        }
    }

    /// The port of the endpoint.
    pub fn port(&self) -> (p: u16)
        ensures
            p == spec_port(*self),
    {
        match self {
            Endpoint::V4 { port, .. } => *port,
            Endpoint::V6 { port, .. } => *port,
        }
    }
}

pub open spec fn spec_port(e: Endpoint) -> u16 {
    match e {
        Endpoint::V4 { port, .. } => port,
        Endpoint::V6 { port, .. } => port,
    }
}

/// Picks, from the addresses that a name resolved to, the first IPv4 one.
pub fn first_ipv4(addrs: &Vec<Endpoint>) -> (r: Option<Endpoint>)
    ensures
        r is None <==> (forall|i: int| 0 <= i < addrs@.len() ==> !(addrs@[i] is V4)),
        r matches Some(e) ==> e is V4 && exists|i: int|
            0 <= i < addrs@.len() && addrs@[i] == e
                && (forall|j: int| 0 <= j < i ==> !(addrs@[j] is V4)),
{
    let mut i: usize = 0;
    while i < addrs.len()
        invariant
            i <= addrs@.len(),
            forall|j: int| 0 <= j < i ==> !(addrs@[j] is V4),
        decreases addrs@.len() - i,
    {
        if addrs[i].is_ipv4() {
            return Some(addrs[i]);
        }
        i = i + 1;
    }
    None
}

} // verus!
