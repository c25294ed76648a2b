//! The vocabulary of `wasi:sockets` as plain values, and their conversion to
//! and from those of the transport.

use vstd::prelude::*;
use wasip2::sockets::network::ErrorCode as Code;

use crate::addr::{
    socket_addr, IpAddr, Ipv4Addr, Ipv6Addr, SocketAddr, SocketAddrV4, SocketAddrV6,
};
use crate::error::{ErrorKind, IoError, IoErrorView};

verus! {

/// An error code of `wasi:sockets/network`.
#[derive(Copy, Clone, Debug, PartialEq, Eq, Structural)]
pub enum ErrorCode {
    Unknown,
    AccessDenied,
    NotSupported,
    InvalidArgument,
    OutOfMemory,
    Timeout,
    ConcurrencyConflict,
    NotInProgress,
    WouldBlock,
    InvalidState,
    NewSocketLimit,
    AddressNotBindable,
    AddressInUse,
    RemoteUnreachable,
    ConnectionRefused,
    ConnectionReset,
    ConnectionAborted,
    DatagramTooLarge,
    NameUnresolvable,
    TemporaryResolverFailure,
    PermanentResolverFailure,
}

/// An IP address family of `wasi:sockets/network`.
#[derive(Copy, Clone, Debug, PartialEq, Eq, Structural)]
pub enum IpAddressFamily {
    Ipv4,
    Ipv6,
}

/// An IP address of `wasi:sockets/network`.
#[derive(Copy, Clone, Debug)]
pub enum IpAddress {
    Ipv4((u8, u8, u8, u8)),
    Ipv6((u16, u16, u16, u16, u16, u16, u16, u16)),
}

/// An IPv4 socket address of `wasi:sockets/network`.
#[derive(Copy, Clone, Debug)]
pub struct Ipv4SocketAddress {
    pub port: u16,
    pub address: (u8, u8, u8, u8),
}

/// An IPv6 socket address of `wasi:sockets/network`.
#[derive(Copy, Clone, Debug)]
pub struct Ipv6SocketAddress {
    pub port: u16,
    pub flow_info: u32,
    pub address: (u16, u16, u16, u16, u16, u16, u16, u16),
    pub scope_id: u32,
}

/// A socket address of `wasi:sockets/network`.
#[derive(Copy, Clone, Debug)]
pub enum IpSocketAddress {
    Ipv4(Ipv4SocketAddress),
    Ipv6(Ipv6SocketAddress),
}

// ── Error codes ──────────────────────────────────────────────────────────────

/// What `Debug` of `wasip2::sockets::network::ErrorCode` prints for a code.
pub uninterp spec fn error_code_text(code: ErrorCode) -> Seq<char>;

/// Formats the code of the same name of `wasip2::sockets::network::ErrorCode`
/// with its `Debug`. The text is a function of the code alone; it is fixed by
/// the bindings, and nothing else is claimed of it.
#[verifier::external_body]
pub(crate) fn error_code_debug(code: ErrorCode) -> (res: String)
    ensures
        res@ == error_code_text(code),
{
    let wasi = match code {
        ErrorCode::Unknown => Code::Unknown, ErrorCode::AccessDenied => Code::AccessDenied,
        ErrorCode::NotSupported => Code::NotSupported, ErrorCode::InvalidArgument => Code::InvalidArgument,
        ErrorCode::OutOfMemory => Code::OutOfMemory, ErrorCode::Timeout => Code::Timeout,
        ErrorCode::ConcurrencyConflict => Code::ConcurrencyConflict, ErrorCode::NotInProgress => Code::NotInProgress,
        ErrorCode::WouldBlock => Code::WouldBlock, ErrorCode::InvalidState => Code::InvalidState,
        ErrorCode::NewSocketLimit => Code::NewSocketLimit, ErrorCode::AddressNotBindable => Code::AddressNotBindable,
        ErrorCode::AddressInUse => Code::AddressInUse, ErrorCode::RemoteUnreachable => Code::RemoteUnreachable,
        ErrorCode::ConnectionRefused => Code::ConnectionRefused, ErrorCode::ConnectionReset => Code::ConnectionReset,
        ErrorCode::ConnectionAborted => Code::ConnectionAborted, ErrorCode::DatagramTooLarge => Code::DatagramTooLarge,
        ErrorCode::NameUnresolvable => Code::NameUnresolvable, ErrorCode::TemporaryResolverFailure => Code::TemporaryResolverFailure,
        ErrorCode::PermanentResolverFailure => Code::PermanentResolverFailure,
    };
    format!("{wasi:?}")
}

/// The failure that an error code stands for where it has no meaning of its own.
pub open spec fn wasi_io_error(code: ErrorCode) -> IoErrorView {
    IoErrorView { kind: ErrorKind::Other, message: error_code_text(code) }
}

/// Wraps an error code as a generic [`IoError`].
pub fn wasi_io_err(code: ErrorCode) -> (res: IoError)
    ensures
        res@ == wasi_io_error(code),
{
    IoError { kind: ErrorKind::Other, message: error_code_debug(code) }
}

// ── Addresses ────────────────────────────────────────────────────────────────

/// A socket address as the host knows it.
pub open spec fn wasi_sockaddr(addr: SocketAddr) -> IpSocketAddress {
    match addr {
        SocketAddr::V4(SocketAddrV4 { ip: Ipv4Addr(b0, b1, b2, b3), port }) => {
            IpSocketAddress::Ipv4(Ipv4SocketAddress { port, address: (b0, b1, b2, b3) })
        },
        SocketAddr::V6(
            SocketAddrV6 {
                ip: Ipv6Addr(s0, s1, s2, s3, s4, s5, s6, s7),
                port,
                flowinfo,
                scope_id,
            },
        ) => IpSocketAddress::Ipv6(
            Ipv6SocketAddress {
                port,
                flow_info: flowinfo,
                address: (s0, s1, s2, s3, s4, s5, s6, s7),
                scope_id,
            },
        ),
    }
}

/// An IP address of the host.
pub open spec fn std_ip(ip: IpAddress) -> IpAddr {
    match ip {
        IpAddress::Ipv4((b0, b1, b2, b3)) => IpAddr::V4(Ipv4Addr(b0, b1, b2, b3)),
        IpAddress::Ipv6((s0, s1, s2, s3, s4, s5, s6, s7)) => IpAddr::V6(
            Ipv6Addr(s0, s1, s2, s3, s4, s5, s6, s7),
        ),
    }
}

/// A socket address of the host: its IP address and its port.
pub open spec fn std_sockaddr(addr: IpSocketAddress) -> SocketAddr {
    match addr {
        IpSocketAddress::Ipv4(a) => socket_addr(std_ip(IpAddress::Ipv4(a.address)), a.port),
        IpSocketAddress::Ipv6(a) => socket_addr(std_ip(IpAddress::Ipv6(a.address)), a.port),
    }
}

/// The address family of a socket address.
pub open spec fn wasi_family(addr: SocketAddr) -> IpAddressFamily {
    match addr {
        SocketAddr::V4(_) => IpAddressFamily::Ipv4,
        SocketAddr::V6(_) => IpAddressFamily::Ipv6,
    }
}

/// Converts an IP address of the host.
pub fn wasi_ip_to_std(ip: IpAddress) -> (res: IpAddr)
    ensures
        res == std_ip(ip),
{
    match ip {
        IpAddress::Ipv4((a, b, c, d)) => IpAddr::V4(Ipv4Addr(a, b, c, d)),
        IpAddress::Ipv6((a, b, c, d, e, f, g, h)) => IpAddr::V6(Ipv6Addr(a, b, c, d, e, f, g, h)),
    }
}

/// Converts a [`SocketAddr`] into a socket address of the host.
pub fn sockaddr_to_wasi(addr: SocketAddr) -> (res: IpSocketAddress)
    ensures
        res == wasi_sockaddr(addr),
{
    match addr {
        SocketAddr::V4(a) => {
            let Ipv4Addr(b0, b1, b2, b3) = a.ip;
            IpSocketAddress::Ipv4(Ipv4SocketAddress { port: a.port, address: (b0, b1, b2, b3) })
        },
        SocketAddr::V6(a) => {
            let Ipv6Addr(s0, s1, s2, s3, s4, s5, s6, s7) = a.ip;
            IpSocketAddress::Ipv6(
                Ipv6SocketAddress {
                    port: a.port,
                    flow_info: a.flowinfo,
                    address: (s0, s1, s2, s3, s4, s5, s6, s7),
                    scope_id: a.scope_id,
                },
            )
        },
    }
}

/// Converts a socket address of the host into a [`SocketAddr`]. The flow label
/// and the scope of an IPv6 one are left behind.
pub fn wasi_sockaddr_to_std(addr: IpSocketAddress) -> (res: SocketAddr)
    ensures
        res == std_sockaddr(addr),
{
    match addr {
        IpSocketAddress::Ipv4(a) => {
            SocketAddr::new(wasi_ip_to_std(IpAddress::Ipv4(a.address)), a.port)
        },
        IpSocketAddress::Ipv6(a) => {
            SocketAddr::new(wasi_ip_to_std(IpAddress::Ipv6(a.address)), a.port)
        },
    }
}

/// The address family under which a socket for `addr` is created.
pub fn address_family(addr: SocketAddr) -> (res: IpAddressFamily)
    ensures
        res == wasi_family(addr),
{
    if addr.is_ipv4() {
        IpAddressFamily::Ipv4
    } else {
        IpAddressFamily::Ipv6
    }
}

// ── Laws ─────────────────────────────────────────────────────────────────────

/// An address that goes to the host and comes back keeps its IP address and
/// its port; so it comes back unchanged unless it has a flow label or a scope.
pub proof fn lemma_wasi_sockaddr_roundtrip(addr: SocketAddr)
    ensures
        std_sockaddr(wasi_sockaddr(addr)) == socket_addr(addr.spec_ip(), addr.spec_port()),
        addr.is_plain() <==> std_sockaddr(wasi_sockaddr(addr)) == addr,
{
}

/// An address of the host that has neither a flow label nor a scope comes back
/// to the host unchanged.
pub proof fn lemma_std_sockaddr_roundtrip(addr: IpSocketAddress)
    requires
        addr matches IpSocketAddress::Ipv6(a) ==> a.flow_info == 0 && a.scope_id == 0,
    ensures
        wasi_sockaddr(std_sockaddr(addr)) == addr,
{
}

/// Whether an address of the host is the very socket address `addr`: of the
/// same family, with every part of the IP address in its place and the same
/// port, and for IPv6 with the same flow label and the same scope.
pub open spec fn is_host_form(host: IpSocketAddress, addr: SocketAddr) -> bool {
    match (host, addr) {
        (IpSocketAddress::Ipv4(h), SocketAddr::V4(a)) => {
            &&& h.port == a.port
            &&& h.address.0 == a.ip.0 && h.address.1 == a.ip.1
            &&& h.address.2 == a.ip.2 && h.address.3 == a.ip.3
        },
        (IpSocketAddress::Ipv6(h), SocketAddr::V6(a)) => {
            &&& h.port == a.port && h.flow_info == a.flowinfo && h.scope_id == a.scope_id
            &&& h.address.0 == a.ip.0 && h.address.1 == a.ip.1
            &&& h.address.2 == a.ip.2 && h.address.3 == a.ip.3
            &&& h.address.4 == a.ip.4 && h.address.5 == a.ip.5
            &&& h.address.6 == a.ip.6 && h.address.7 == a.ip.7
        },
        _ => false,
    }
}

/// The host is handed the very address, and the family that it is of.
pub proof fn lemma_host_gets_every_part(addr: SocketAddr)
    ensures
        is_host_form(wasi_sockaddr(addr), addr),
        wasi_family(addr) == IpAddressFamily::Ipv4 <==> addr is V4,
        wasi_family(addr) == IpAddressFamily::Ipv6 <==> addr is V6,
{
}

/// An IPv4 address of the host keeps every octet in its place, and its port.
pub proof fn lemma_host_ipv4_keeps_every_part(h: Ipv4SocketAddress)
    ensures
        std_ip(IpAddress::Ipv4(h.address)) matches IpAddr::V4(ip) && {
            &&& ip.0 == h.address.0 && ip.1 == h.address.1
            &&& ip.2 == h.address.2 && ip.3 == h.address.3
        },
        std_sockaddr(IpSocketAddress::Ipv4(h)) matches SocketAddr::V4(a) && {
            &&& IpAddr::V4(a.ip) == std_ip(IpAddress::Ipv4(h.address))
            &&& a.port == h.port
        },
{
}

/// An IPv6 address of the host keeps every segment in its place, and its port;
/// its flow label and its scope are left behind.
pub proof fn lemma_host_ipv6_keeps_every_part(h: Ipv6SocketAddress)
    ensures
        std_ip(IpAddress::Ipv6(h.address)) matches IpAddr::V6(ip) && {
            &&& ip.0 == h.address.0 && ip.1 == h.address.1
            &&& ip.2 == h.address.2 && ip.3 == h.address.3
            &&& ip.4 == h.address.4 && ip.5 == h.address.5
            &&& ip.6 == h.address.6 && ip.7 == h.address.7
        },
        std_sockaddr(IpSocketAddress::Ipv6(h)) matches SocketAddr::V6(a) && {
            &&& IpAddr::V6(a.ip) == std_ip(IpAddress::Ipv6(h.address))
            &&& a.port == h.port
            &&& a.flowinfo == 0 && a.scope_id == 0
        },
{
}

/// An error code without a meaning of its own is told by its text, and by that
/// alone: it is no denial.
pub proof fn lemma_error_code_is_told_by_its_text(code: ErrorCode)
    ensures
        wasi_io_error(code).kind == ErrorKind::Other,
        wasi_io_error(code).message == error_code_text(code),
{
}

} // verus!
