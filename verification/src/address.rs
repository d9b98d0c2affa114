//! Socket addresses and connection identities as plain values.

use vstd::prelude::*;

verus! {

/// A socket address: an IP address and a port number.
///
/// The IP address is held as the integer whose big-endian bytes are the
/// octets of the address, so `127.0.0.1` is `0x7f00_0001`. An IPv6 address
/// carries neither flow information nor a scope: the wire format has no room
/// for them.
#[derive(Clone, Copy, Debug, PartialEq, Eq, Hash, Structural)]
#[allow(inconsistent_fields)]
pub enum Address {
    V4 { ip: u32, port: u16 },
    V6 { ip: u128, port: u16 },
}

/// The IPv4 loopback address `127.0.0.1` as an integer.
pub const LOOPBACK_V4: u32 = 0x7f00_0001;

impl Address {
    /// The port number of the address.
    pub open spec fn spec_port(self) -> u16 {
        match self {
            Address::V4 { port, .. } => port,
            Address::V6 { port, .. } => port,
        }
    }

    /// The port number of the address.
    #[verifier::when_used_as_spec(spec_port)]
    pub fn port(self) -> (port: u16)
        ensures
            port == self.spec_port(),
    {
        match self {
            Address::V4 { port, .. } => port,
            Address::V6 { port, .. } => port,
        }
    }

    /// The address `127.0.0.1` with the given port.
    pub open spec fn spec_loopback(port: u16) -> Address {
        Address::V4 { ip: LOOPBACK_V4, port }
    }

    /// The address `127.0.0.1` with the given port.
    #[verifier::when_used_as_spec(spec_loopback)]
    pub fn loopback(port: u16) -> (address: Address)
        ensures
            address == Address::spec_loopback(port),
    {
        Address::V4 { ip: LOOPBACK_V4, port }
    }
}

/// The identity of one connection: the transport's number for the resource
/// that carries it, and the remote address that the transport saw.
///
/// Two endpoints are the same connection when both parts agree. The address
/// is the observed one, which need not be the address that the peer listens
/// on.
#[derive(Clone, Copy, Debug, PartialEq, Eq, Hash, Structural)]
pub struct Endpoint {
    pub resource_id: usize,
    pub addr: Address,
}

impl Endpoint {
    /// The endpoint of resource `resource_id` with remote address `addr`.
    pub fn new(resource_id: usize, addr: Address) -> (endpoint: Endpoint)
        ensures
            endpoint.resource_id == resource_id,
            endpoint.addr == addr,
    {
        Endpoint { resource_id, addr }
    }

    /// The transport's number for the resource of this connection.
    pub fn resource_id(&self) -> (id: usize)
        ensures
            id == self.resource_id,
    {
        self.resource_id
    }

    /// The remote address that the transport observed.
    pub fn addr(&self) -> (addr: Address)
        ensures
            addr == self.addr,
    {
        self.addr
    }
}

} // verus!
