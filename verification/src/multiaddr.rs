//! Multiaddresses: which ones name a TCP endpoint, and how an endpoint is
//! written as one.

use libp2p_core::multiaddr::{Multiaddr, Protocol as Component};
use vstd::prelude::*;

use crate::addr::{socket_addr, IpAddr, Ipv4Addr, Ipv6Addr, SocketAddr};
use crate::error::{Error, ErrorView};

verus! {

/// One component of a multiaddress.
///
/// The components that the transport looks at have a variant each. Every other
/// one is kept as the bytes that it has inside a multiaddress.
#[derive(Debug)]
pub enum Protocol {
    Ip4((u8, u8, u8, u8)),
    Ip6((u16, u16, u16, u16, u16, u16, u16, u16)),
    Tcp(u16),
    Dns(String),
    Dns4(String),
    Dns6(String),
    /// The peer identifier, as bytes.
    P2p(Vec<u8>),
    Other(Vec<u8>),
}

/// The value of a [`Protocol`].
pub enum ProtocolView {
    Ip4(Ipv4Addr),
    Ip6(Ipv6Addr),
    Tcp(u16),
    Dns(Seq<char>),
    Dns4(Seq<char>),
    Dns6(Seq<char>),
    P2p(Seq<u8>),
    Other(Seq<u8>),
}

impl View for Protocol {
    type V = ProtocolView;

    open spec fn view(&self) -> ProtocolView {
        match self {
            Protocol::Ip4((a, b, c, d)) => ProtocolView::Ip4(Ipv4Addr(*a, *b, *c, *d)),
            Protocol::Ip6((a, b, c, d, e, f, g, h)) => ProtocolView::Ip6(
                Ipv6Addr(*a, *b, *c, *d, *e, *f, *g, *h),
            ),
            Protocol::Tcp(port) => ProtocolView::Tcp(*port),
            Protocol::Dns(host) => ProtocolView::Dns(host@),
            Protocol::Dns4(host) => ProtocolView::Dns4(host@),
            Protocol::Dns6(host) => ProtocolView::Dns6(host@),
            Protocol::P2p(id) => ProtocolView::P2p(id@),
            Protocol::Other(bytes) => ProtocolView::Other(bytes@),
        }
    }
}

/// The values of a list of components.
pub open spec fn protocol_views(protocols: Seq<Protocol>) -> Seq<ProtocolView> {
    protocols.map_values(|p: Protocol| p@)
}

/// One of the components that an endpoint is written with.
#[derive(Copy, Clone, Debug, PartialEq, Eq, Structural)]
pub enum EndpointProtocol {
    Ip4(Ipv4Addr),
    Ip6(Ipv6Addr),
    Tcp(u16),
}

impl View for EndpointProtocol {
    type V = ProtocolView;

    open spec fn view(&self) -> ProtocolView {
        match self {
            EndpointProtocol::Ip4(a) => ProtocolView::Ip4(*a),
            EndpointProtocol::Ip6(a) => ProtocolView::Ip6(*a),
            EndpointProtocol::Tcp(port) => ProtocolView::Tcp(*port),
        }
    }
}

/// The multiaddress of libp2p: `libp2p_core::multiaddr::Multiaddr`, a list of components.
#[verifier::external_type_specification]
#[verifier::external_body]
pub struct ExMultiaddr(Multiaddr);

/// The components of a multiaddress, in order.
pub uninterp spec fn multiaddr_protocols(addr: Multiaddr) -> Seq<ProtocolView>;

/// Calls `Multiaddr::empty`: the address that it gives has no component.
#[verifier::external_body]
fn multiaddr_empty() -> (res: Multiaddr)
    ensures
        multiaddr_protocols(res) == Seq::<ProtocolView>::empty(),
{
    Multiaddr::empty()
}

/// Calls `Multiaddr::push`: the component becomes the last one, behind those
/// that were there.
#[verifier::external_body]
fn multiaddr_push(addr: &mut Multiaddr, protocol: EndpointProtocol)
    ensures
        multiaddr_protocols(*final(addr)) == multiaddr_protocols(*old(addr)).push(protocol@),
{
    addr.push(match protocol {
        EndpointProtocol::Ip4(a) => Component::Ip4([a.0, a.1, a.2, a.3].into()),
        EndpointProtocol::Ip6(a) => {
            Component::Ip6([a.0, a.1, a.2, a.3, a.4, a.5, a.6, a.7].into())
        },
        EndpointProtocol::Tcp(port) => Component::Tcp(port),
    })
}

/// Calls `Multiaddr::clone`: the copy is the same address, byte for byte.
#[verifier::external_body]
fn multiaddr_clone(addr: &Multiaddr) -> (res: Multiaddr)
    ensures
        res == *addr,
{
    addr.clone()
}

/// Calls `Multiaddr::iter`: it hands out every component, in order.
#[verifier::external_body]
fn multiaddr_iter(addr: &Multiaddr) -> (res: Vec<Protocol>)
    ensures
        protocol_views(res@) == multiaddr_protocols(*addr),
{
    let mut protocols = Vec::new();
    for component in addr.iter() {
        protocols.push(match component {
            Component::Ip4(a) => Protocol::Ip4(a.octets().into()),
            Component::Ip6(a) => Protocol::Ip6(a.segments().into()),
            Component::Tcp(port) => Protocol::Tcp(port),
            Component::Dns(host) => Protocol::Dns(host.into_owned()),
            Component::Dns4(host) => Protocol::Dns4(host.into_owned()),
            Component::Dns6(host) => Protocol::Dns6(host.into_owned()),
            Component::P2p(id) => Protocol::P2p(id.to_bytes()),
            other => Protocol::Other(Multiaddr::from(other).to_vec()),
        });
    }
    protocols
}

// ── Dial targets ─────────────────────────────────────────────────────────────

/// IP address family constraint for a DNS dial target.
#[derive(Copy, Clone, Debug, PartialEq, Eq, Structural)]
pub enum DnsFamily {
    /// `/dns4`: accept only IPv4 addresses.
    V4,
    /// `/dns6`: accept only IPv6 addresses.
    V6,
    /// `/dns`: accept the first address of either family.
    Any,
}

impl DnsFamily {
    /// Whether an address is of this family.
    pub open spec fn admits(self, ip: IpAddr) -> bool {
        match self {
            DnsFamily::V4 => ip is V4,
            DnsFamily::V6 => ip is V6,
            DnsFamily::Any => true,
        }
    }

    /// The name of this family.
    pub open spec fn name(self) -> Seq<char> {
        match self {
            DnsFamily::V4 => "IPv4"@,
            DnsFamily::V6 => "IPv6"@,
            DnsFamily::Any => "any-family"@,
        }
    }

    /// Tells whether `ip` is of this family.
    pub fn matches(self, ip: IpAddr) -> (res: bool)
        ensures
            res == self.admits(ip),
    {
        match (self, ip) {
            (DnsFamily::V4, IpAddr::V4(_)) => true,
            (DnsFamily::V6, IpAddr::V6(_)) => true,
            (DnsFamily::Any, _) => true,
            _ => false,
        }
    }

    /// Names this family in a message.
    pub fn description(self) -> (res: &'static str)
        ensures
            res@ == self.name(),
    {
        match self {
            DnsFamily::V4 => "IPv4",
            DnsFamily::V6 => "IPv6",
            DnsFamily::Any => "any-family",
        }
    }
}

/// Where a dial goes to.
#[derive(Debug)]
pub enum DialTarget {
    /// Already resolved: connect directly.
    Addr(SocketAddr),
    /// A DNS hostname: resolve it, then connect.
    Dns { host: String, port: u16, family: DnsFamily },
}

/// The value of a [`DialTarget`].
pub enum DialTargetView {
    Addr(SocketAddr),
    Dns { host: Seq<char>, port: u16, family: DnsFamily },
}

impl View for DialTarget {
    type V = DialTargetView;

    open spec fn view(&self) -> DialTargetView {
        match self {
            DialTarget::Addr(addr) => DialTargetView::Addr(*addr),
            DialTarget::Dns { host, port, family } => DialTargetView::Dns {
                host: host@,
                port: *port,
                family: *family,
            },
        }
    }
}

/// Whether a list of components is `<host>/tcp/<port>`, with or without
/// `/p2p/<peer-id>` behind it, whatever the host is.
pub open spec fn is_tcp_address(protocols: Seq<ProtocolView>) -> bool {
    &&& protocols.len() == 2 || (protocols.len() == 3 && protocols[2] is P2p)
    &&& protocols[1] is Tcp
}

/// What dialling an address with these components goes to, if it can be dialled.
pub open spec fn dial_target(protocols: Seq<ProtocolView>) -> Option<DialTargetView> {
    if !is_tcp_address(protocols) {
        None
    } else {
        let port = protocols[1]->Tcp_0;
        match protocols[0] {
            ProtocolView::Ip4(a) => Some(DialTargetView::Addr(socket_addr(IpAddr::V4(a), port))),
            ProtocolView::Ip6(a) => Some(DialTargetView::Addr(socket_addr(IpAddr::V6(a), port))),
            ProtocolView::Dns4(host) => Some(
                DialTargetView::Dns { host, port, family: DnsFamily::V4 },
            ),
            ProtocolView::Dns6(host) => Some(
                DialTargetView::Dns { host, port, family: DnsFamily::V6 },
            ),
            ProtocolView::Dns(host) => Some(
                DialTargetView::Dns { host, port, family: DnsFamily::Any },
            ),
            _ => None,
        }
    }
}

/// The socket address that an address with these components is, if it is one.
pub open spec fn listen_addr(protocols: Seq<ProtocolView>) -> Option<SocketAddr> {
    match dial_target(protocols) {
        Some(DialTargetView::Addr(addr)) => Some(addr),
        _ => None,
    }
}

/// The components that a socket address is written with.
pub open spec fn endpoint_protocols(addr: SocketAddr) -> Seq<ProtocolView> {
    match addr.spec_ip() {
        IpAddr::V4(a) => seq![ProtocolView::Ip4(a), ProtocolView::Tcp(addr.spec_port())],
        IpAddr::V6(a) => seq![ProtocolView::Ip6(a), ProtocolView::Tcp(addr.spec_port())],
    }
}

/// Reads a [`DialTarget`] off the components of an address.
///
/// Accepted forms (all optionally ending in `/p2p/<peer-id>`):
///   - `/ip4/<addr>/tcp/<port>`
///   - `/ip6/<addr>/tcp/<port>`
///   - `/dns4/<host>/tcp/<port>`: resolve to IPv4, then connect
///   - `/dns6/<host>/tcp/<port>`: resolve to IPv6, then connect
///   - `/dns/<host>/tcp/<port>`: resolve to any family, then connect
///
/// `/dnsaddr` (libp2p TXT-record discovery) is not among them.
pub fn protocols_to_dial_target(protocols: &Vec<Protocol>) -> (res: Option<DialTarget>)
    ensures
        res is Some <==> dial_target(protocol_views(protocols@)) is Some,
        res matches Some(target) ==> dial_target(protocol_views(protocols@)) == Some(target@),
{
    let ghost views = protocol_views(protocols@);
    assert(forall|i: int| 0 <= i < views.len() ==> views[i] == protocols@[i]@);
    if protocols.len() != 2 && protocols.len() != 3 {
        return None;
    }
    let port = match &protocols[1] {
        Protocol::Tcp(port) => *port,
        _ => return None,
    };
    if protocols.len() == 3 {
        match &protocols[2] {
            Protocol::P2p(_) => {},
            _ => return None,
        }
    }
    match &protocols[0] {
        Protocol::Ip4((a, b, c, d)) => {
            let ip = Ipv4Addr(*a, *b, *c, *d);
            Some(DialTarget::Addr(SocketAddr::new(IpAddr::V4(ip), port)))
        },
        Protocol::Ip6((a, b, c, d, e, f, g, h)) => {
            let ip = Ipv6Addr(*a, *b, *c, *d, *e, *f, *g, *h);
            Some(DialTarget::Addr(SocketAddr::new(IpAddr::V6(ip), port)))
        },
        Protocol::Dns4(host) => Some(
            DialTarget::Dns { host: host.clone(), port, family: DnsFamily::V4 },
        ),
        Protocol::Dns6(host) => Some(
            DialTarget::Dns { host: host.clone(), port, family: DnsFamily::V6 },
        ),
        Protocol::Dns(host) => Some(
            DialTarget::Dns { host: host.clone(), port, family: DnsFamily::Any },
        ),
        _ => None,
    }
}

/// Parses a [`Multiaddr`] into a [`DialTarget`], by the forms of
/// [`protocols_to_dial_target`]. Everything else is
/// [`Error::UnsupportedMultiaddr`] with the address itself.
pub fn multiaddr_to_dial_target(addr: &Multiaddr) -> (res: Result<DialTarget, Error>)
    ensures
        match res {
            Ok(target) => dial_target(multiaddr_protocols(*addr)) == Some(target@),
            Err(e) => {
                &&& dial_target(multiaddr_protocols(*addr)) is None
                &&& e@ == ErrorView::UnsupportedMultiaddr(*addr)
            },
        },
{
    match protocols_to_dial_target(&multiaddr_iter(addr)) {
        Some(target) => Ok(target),
        None => Err(Error::UnsupportedMultiaddr(multiaddr_clone(addr))),
    }
}

// ── Socket addresses ─────────────────────────────────────────────────────────

/// Reads a [`SocketAddr`] off the components of an address.
///
/// Accepted forms:
///   - `/ip4/<addr>/tcp/<port>[/p2p/<peer-id>]`
///   - `/ip6/<addr>/tcp/<port>[/p2p/<peer-id>]`
pub fn protocols_to_socketaddr(protocols: &Vec<Protocol>) -> (res: Option<SocketAddr>)
    ensures
        res == listen_addr(protocol_views(protocols@)),
{
    match protocols_to_dial_target(protocols) {
        Some(DialTarget::Addr(addr)) => Some(addr),
        _ => None,
    }
}

/// Parses a [`Multiaddr`] into a [`SocketAddr`], by the forms of
/// [`protocols_to_socketaddr`]. Everything else is
/// [`Error::UnsupportedMultiaddr`] with the address itself.
pub fn multiaddr_to_socketaddr(addr: &Multiaddr) -> (res: Result<SocketAddr, Error>)
    ensures
        match res {
            Ok(a) => listen_addr(multiaddr_protocols(*addr)) == Some(a),
            Err(e) => {
                &&& listen_addr(multiaddr_protocols(*addr)) is None
                &&& e@ == ErrorView::UnsupportedMultiaddr(*addr)
            },
        },
{
    match protocols_to_socketaddr(&multiaddr_iter(addr)) {
        Some(a) => Ok(a),
        None => Err(Error::UnsupportedMultiaddr(multiaddr_clone(addr))),
    }
}

/// Writes a [`SocketAddr`] as a `/ip4/.../tcp/...` or `/ip6/.../tcp/...` [`Multiaddr`].
pub fn socketaddr_to_multiaddr(addr: SocketAddr) -> (res: Multiaddr)
    ensures
        multiaddr_protocols(res) == endpoint_protocols(addr),
{
    let mut ma = multiaddr_empty();
    match addr.ip() {
        IpAddr::V4(a) => multiaddr_push(&mut ma, EndpointProtocol::Ip4(a)),
        IpAddr::V6(a) => multiaddr_push(&mut ma, EndpointProtocol::Ip6(a)),
    }
    multiaddr_push(&mut ma, EndpointProtocol::Tcp(addr.port()));
    assert(multiaddr_protocols(ma) =~= endpoint_protocols(addr));
    ma
}

// ── Laws ─────────────────────────────────────────────────────────────────────

/// Reading back what a socket address was written as gives its IP address and
/// its port; so it gives the address itself, unless that has a flow label or a
/// scope, which no multiaddress of this form holds.
pub proof fn lemma_socketaddr_roundtrip(addr: SocketAddr)
    ensures
        listen_addr(endpoint_protocols(addr)) == Some(
            socket_addr(addr.spec_ip(), addr.spec_port()),
        ),
        addr.is_plain() <==> listen_addr(endpoint_protocols(addr)) == Some(addr),
{
}

/// A `/p2p/<peer-id>` put behind an address changes nothing, unless that is a
/// TCP address that ends in one already.
pub proof fn lemma_p2p_suffix_is_stripped(protocols: Seq<ProtocolView>, peer: Seq<u8>)
    requires
        is_tcp_address(protocols) ==> protocols.len() == 2,
    ensures
        dial_target(protocols.push(ProtocolView::P2p(peer))) == dial_target(protocols),
        listen_addr(protocols.push(ProtocolView::P2p(peer))) == listen_addr(protocols),
{
    let longer = protocols.push(ProtocolView::P2p(peer));
    assert(forall|i: int| 0 <= i < protocols.len() ==> longer[i] == protocols[i]);
}

/// What can be listened on is exactly what can be dialled without a lookup, as
/// the same socket address.
pub proof fn lemma_listen_addr_is_direct_target(protocols: Seq<ProtocolView>, addr: SocketAddr)
    ensures
        listen_addr(protocols) == Some(addr) <==> dial_target(protocols) == Some(
            DialTargetView::Addr(addr),
        ),
{
}

/// Whether a list of components is `/ip4/<addr>/tcp/<port>` or
/// `/ip6/<addr>/tcp/<port>` with the IP address and the port of `addr`.
pub open spec fn is_endpoint(protocols: Seq<ProtocolView>, addr: SocketAddr) -> bool {
    &&& protocols.len() == 2
    &&& match addr {
        SocketAddr::V4(a) => protocols[0] == ProtocolView::Ip4(a.ip) && protocols[1]
            == ProtocolView::Tcp(a.port),
        SocketAddr::V6(a) => protocols[0] == ProtocolView::Ip6(a.ip) && protocols[1]
            == ProtocolView::Tcp(a.port),
    }
}

/// A socket address is written with its own IP address and its own port.
pub proof fn lemma_endpoint_is_written_whole(addr: SocketAddr)
    ensures
        is_endpoint(endpoint_protocols(addr), addr),
{
}

/// The host component that an address must begin with for a dial of it to go to
/// `target`.
pub open spec fn host_component(target: DialTargetView) -> ProtocolView {
    match target {
        DialTargetView::Addr(SocketAddr::V4(a)) => ProtocolView::Ip4(a.ip),
        DialTargetView::Addr(SocketAddr::V6(a)) => ProtocolView::Ip6(a.ip),
        DialTargetView::Dns { host, family: DnsFamily::V4, .. } => ProtocolView::Dns4(host),
        DialTargetView::Dns { host, family: DnsFamily::V6, .. } => ProtocolView::Dns6(host),
        DialTargetView::Dns { host, family: DnsFamily::Any, .. } => ProtocolView::Dns(host),
    }
}

/// The port of `target`.
pub open spec fn port_of(target: DialTargetView) -> u16 {
    match target {
        DialTargetView::Addr(SocketAddr::V4(a)) => a.port,
        DialTargetView::Addr(SocketAddr::V6(a)) => a.port,
        DialTargetView::Dns { port, .. } => port,
    }
}

/// A dial goes to `target` exactly when the address that is dialled says so: it
/// begins with the very IP address or host name of the target, of the family
/// of the target; its port comes next; and nothing else stands there but
/// `/p2p/<peer-id>` at the end. No target has a flow label or a scope.
pub proof fn lemma_dial_target_is_what_the_address_says(
    protocols: Seq<ProtocolView>,
    target: DialTargetView,
)
    ensures
        dial_target(protocols) == Some(target) <==> {
            &&& protocols.len() == 2 || (protocols.len() == 3 && protocols[2] is P2p)
            &&& protocols[0] == host_component(target)
            &&& protocols[1] == ProtocolView::Tcp(port_of(target))
            &&& target matches DialTargetView::Addr(SocketAddr::V6(a)) ==> a.flowinfo == 0
                && a.scope_id == 0
        },
{
}

/// Every address of the five forms can be dialled, whatever its host and its
/// port are, and every other one is refused.
pub proof fn lemma_which_addresses_can_be_dialled(protocols: Seq<ProtocolView>)
    ensures
        dial_target(protocols) is Some <==> {
            &&& protocols.len() == 2 || (protocols.len() == 3 && protocols[2] is P2p)
            &&& protocols[0] is Ip4 || protocols[0] is Ip6 || protocols[0] is Dns
                || protocols[0] is Dns4 || protocols[0] is Dns6
            &&& protocols[1] is Tcp
        },
{
}

/// Listening goes to `addr` exactly when the address that is listened on is
/// written with its IP address and its port, with or without `/p2p/<peer-id>`
/// at the end; and `addr` has neither a flow label nor a scope.
pub proof fn lemma_listen_addr_is_what_the_address_says(
    protocols: Seq<ProtocolView>,
    addr: SocketAddr,
)
    ensures
        listen_addr(protocols) == Some(addr) <==> {
            &&& protocols.len() == 2 || (protocols.len() == 3 && protocols[2] is P2p)
            &&& is_endpoint(protocols.take(2), addr)
            &&& addr matches SocketAddr::V6(a) ==> a.flowinfo == 0 && a.scope_id == 0
        },
{
}

/// `/dns4` admits every IPv4 address and no other, `/dns6` every IPv6 address
/// and no other, `/dns` every address; and messages call them so.
pub proof fn lemma_families(v4: Ipv4Addr, v6: Ipv6Addr)
    ensures
        DnsFamily::V4.admits(IpAddr::V4(v4)) && !DnsFamily::V4.admits(IpAddr::V6(v6)),
        !DnsFamily::V6.admits(IpAddr::V4(v4)) && DnsFamily::V6.admits(IpAddr::V6(v6)),
        DnsFamily::Any.admits(IpAddr::V4(v4)) && DnsFamily::Any.admits(IpAddr::V6(v6)),
        DnsFamily::V4.name() == "IPv4"@,
        DnsFamily::V6.name() == "IPv6"@,
        DnsFamily::Any.name() == "any-family"@,
{
}

/// A component keeps what it was made with: every part of an IP address in its
/// place, the port, the name, the bytes.
pub proof fn lemma_component_keeps_its_value(
    ip4: (u8, u8, u8, u8),
    ip6: (u16, u16, u16, u16, u16, u16, u16, u16),
    port: u16,
    host: String,
    bytes: Vec<u8>,
)
    ensures
        Protocol::Ip4(ip4)@ == ProtocolView::Ip4(Ipv4Addr(ip4.0, ip4.1, ip4.2, ip4.3)),
        Protocol::Ip6(ip6)@ == ProtocolView::Ip6(
            Ipv6Addr(ip6.0, ip6.1, ip6.2, ip6.3, ip6.4, ip6.5, ip6.6, ip6.7),
        ),
        Protocol::Tcp(port)@ == ProtocolView::Tcp(port),
        Protocol::Dns(host)@ == ProtocolView::Dns(host@),
        Protocol::Dns4(host)@ == ProtocolView::Dns4(host@),
        Protocol::Dns6(host)@ == ProtocolView::Dns6(host@),
        Protocol::P2p(bytes)@ == ProtocolView::P2p(bytes@),
        Protocol::Other(bytes)@ == ProtocolView::Other(bytes@),
{
}

/// A list of components keeps every one of them in its place.
pub proof fn lemma_components_keep_their_places(protocols: Seq<Protocol>)
    ensures
        protocol_views(protocols).len() == protocols.len(),
        forall|i: int| 0 <= i < protocols.len() ==> #[trigger] protocol_views(protocols)[i]
            == protocols[i]@,
{
}

/// A component that an endpoint is written with keeps what it was made with.
pub proof fn lemma_endpoint_component_keeps_its_value(ip4: Ipv4Addr, ip6: Ipv6Addr, port: u16)
    ensures
        EndpointProtocol::Ip4(ip4)@ == ProtocolView::Ip4(ip4),
        EndpointProtocol::Ip6(ip6)@ == ProtocolView::Ip6(ip6),
        EndpointProtocol::Tcp(port)@ == ProtocolView::Tcp(port),
{
}

/// A dial target keeps what it was made with.
pub proof fn lemma_target_keeps_its_value(
    addr: SocketAddr,
    host: String,
    port: u16,
    family: DnsFamily,
)
    ensures
        DialTarget::Addr(addr)@ == DialTargetView::Addr(addr),
        (DialTarget::Dns { host, port, family })@ == (DialTargetView::Dns {
            host: host@,
            port,
            family,
        }),
{
}

} // verus!
