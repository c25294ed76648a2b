//! IP addresses and socket addresses as plain values.

use vstd::prelude::*;

verus! {

/// An IPv4 address, octet by octet in network order.
#[derive(Copy, Clone, Debug, PartialEq, Eq, Structural)]
pub struct Ipv4Addr(pub u8, pub u8, pub u8, pub u8);

/// An IPv6 address, segment by segment in network order.
#[derive(Copy, Clone, Debug, PartialEq, Eq, Structural)]
pub struct Ipv6Addr(
    pub u16,
    pub u16,
    pub u16,
    pub u16,
    pub u16,
    pub u16,
    pub u16,
    pub u16,
);

/// An IP address of either family.
#[derive(Copy, Clone, Debug, PartialEq, Eq, Structural)]
pub enum IpAddr {
    V4(Ipv4Addr),
    V6(Ipv6Addr),
}

/// An IPv4 address with a port.
#[derive(Copy, Clone, Debug, PartialEq, Eq, Structural)]
pub struct SocketAddrV4 {
    pub ip: Ipv4Addr,
    pub port: u16,
}

/// An IPv6 address with a port, a flow label and a scope.
#[derive(Copy, Clone, Debug, PartialEq, Eq, Structural)]
pub struct SocketAddrV6 {
    pub ip: Ipv6Addr,
    pub port: u16,
    pub flowinfo: u32,
    pub scope_id: u32,
}

/// The address of one end of a TCP connection.
#[derive(Copy, Clone, Debug, PartialEq, Eq, Structural)]
pub enum SocketAddr {
    V4(SocketAddrV4),
    V6(SocketAddrV6),
}

/// The socket address with the given IP address and port. An IPv6 one has
/// neither a flow label nor a scope.
pub open spec fn socket_addr(ip: IpAddr, port: u16) -> SocketAddr {
    match ip {
        IpAddr::V4(ip) => SocketAddr::V4(SocketAddrV4 { ip, port }),
        IpAddr::V6(ip) => SocketAddr::V6(SocketAddrV6 { ip, port, flowinfo: 0, scope_id: 0 }),
    }
}

impl SocketAddr {
    /// The IP address of this socket address.
    pub open spec fn spec_ip(self) -> IpAddr {
        match self {
            SocketAddr::V4(a) => IpAddr::V4(a.ip),
            SocketAddr::V6(a) => IpAddr::V6(a.ip),
        }
    }

    /// The port of this socket address.
    pub open spec fn spec_port(self) -> u16 {
        match self {
            SocketAddr::V4(a) => a.port,
            SocketAddr::V6(a) => a.port,
        }
    }

    /// Whether this address is no more than an IP address and a port.
    pub open spec fn is_plain(self) -> bool {
        match self {
            SocketAddr::V4(_) => true,
            SocketAddr::V6(a) => a.flowinfo == 0 && a.scope_id == 0,
        }
    }

    /// Joins an IP address and a port.
    pub fn new(ip: IpAddr, port: u16) -> (res: SocketAddr)
        ensures
            res == socket_addr(ip, port),
    {
        match ip {
            IpAddr::V4(ip) => SocketAddr::V4(SocketAddrV4 { ip, port }),
            IpAddr::V6(ip) => SocketAddr::V6(SocketAddrV6 { ip, port, flowinfo: 0, scope_id: 0 }),
        }
    }

    /// The IP address.
    pub fn ip(&self) -> (res: IpAddr)
        ensures
            res == self.spec_ip(),
    {
        match self {
            SocketAddr::V4(a) => IpAddr::V4(a.ip),
            SocketAddr::V6(a) => IpAddr::V6(a.ip),
        }
    }

    /// The port.
    pub fn port(&self) -> (res: u16)
        ensures
            res == self.spec_port(),
    {
        match self {
            SocketAddr::V4(a) => a.port,
            SocketAddr::V6(a) => a.port,
        }
    }

    /// Whether this is an IPv4 address.
    pub fn is_ipv4(&self) -> (res: bool)
        ensures
            res == (self is V4),
    {
        match self {
            SocketAddr::V4(_) => true,
            SocketAddr::V6(_) => false,
        }
    }

    /// Whether this is an IPv6 address.
    pub fn is_ipv6(&self) -> (res: bool)
        ensures
            res == (self is V6),
    {
        !self.is_ipv4()
    }
}

/// A plain socket address is its IP address and its port, put together again.
pub proof fn lemma_plain_addr_is_ip_and_port(addr: SocketAddr)
    ensures
        addr.is_plain() <==> socket_addr(addr.spec_ip(), addr.spec_port()) == addr,
{
}

/// Joining an IP address and a port loses neither and adds nothing: no flow
/// label and no scope.
pub proof fn lemma_joined_addr_has_its_parts(ip: IpAddr, port: u16)
    ensures
        ip matches IpAddr::V4(v4) ==> (socket_addr(ip, port) matches SocketAddr::V4(a) && a.ip == v4
            && a.port == port),
        ip matches IpAddr::V6(v6) ==> (socket_addr(ip, port) matches SocketAddr::V6(a) && a.ip == v6
            && a.port == port && a.flowinfo == 0 && a.scope_id == 0),
{
}

/// The IP address and the port of a socket address are the ones that it was
/// made with, whatever its flow label and its scope are.
pub proof fn lemma_parts_of_an_addr(v4: SocketAddrV4, v6: SocketAddrV6)
    ensures
        SocketAddr::V4(v4).spec_ip() == IpAddr::V4(v4.ip),
        SocketAddr::V4(v4).spec_port() == v4.port,
        SocketAddr::V4(v4).is_plain(),
        SocketAddr::V6(v6).spec_ip() == IpAddr::V6(v6.ip),
        SocketAddr::V6(v6).spec_port() == v6.port,
        SocketAddr::V6(v6).is_plain() <==> v6.flowinfo == 0 && v6.scope_id == 0,
{
}

} // verus!
