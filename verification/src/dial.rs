//! Dialling: what a dial begins with, and how it goes on to a connection.

use vstd::prelude::*;

use crate::addr::{IpAddr, SocketAddr};
use crate::dns::{lemma_lookup_gives_first_match, Lookup, LookupAnswer, LookupView};
use crate::error::{Error, ErrorView};
use crate::multiaddr::{
    dial_target, is_endpoint, DialTarget, DialTargetView, DnsFamily, ProtocolView,
};
use crate::socket::{connect_actions, ipv6_error, Connect};

verus! {

/// A dial that was asked for: where it goes to, and with which keep-alive idle
/// time.
#[derive(Debug)]
pub struct PendingDial {
    pub target: DialTarget,
    pub keep_alive: Option<u64>,
}

/// What a dial begins with.
#[derive(Debug)]
pub enum DialStart {
    /// Look up a name; connect to the address that comes of it.
    Lookup(Lookup),
    /// Connect to this address.
    Connect(SocketAddr),
}

/// The value of a [`DialStart`].
pub enum DialStartView {
    Lookup(LookupView),
    Connect(SocketAddr),
}

impl View for DialStart {
    type V = DialStartView;

    open spec fn view(&self) -> DialStartView {
        match self {
            DialStart::Lookup(lookup) => DialStartView::Lookup(lookup@),
            DialStart::Connect(addr) => DialStartView::Connect(*addr),
        }
    }
}

/// What a dial to `target` begins with.
pub open spec fn dial_start(target: DialTargetView) -> DialStartView {
    match target {
        DialTargetView::Addr(addr) => DialStartView::Connect(addr),
        DialTargetView::Dns { host, port, family } => DialStartView::Lookup(
            LookupView { host, port, family },
        ),
    }
}

impl PendingDial {
    /// What this dial begins with: a lookup where its target is a name.
    pub fn start(&self) -> (res: DialStart)
        ensures
            res@ == dial_start(self.target@),
    {
        match &self.target {
            DialTarget::Addr(addr) => DialStart::Connect(*addr),
            DialTarget::Dns { host, port, family } => DialStart::Lookup(
                Lookup { host: host.clone(), port: *port, family: *family },
            ),
        }
    }

    /// Begins to connect to `addr`, the address that this dial goes to or that
    /// the lookup of its target gave. Only IPv4 addresses can be connected to.
    pub fn connect(&self, addr: SocketAddr) -> (res: Result<Connect, Error>)
        ensures
            match res {
                Ok(connect) => {
                    &&& addr is V4
                    &&& connect.addr == addr
                    &&& connect.procedure.actions@ == connect_actions(addr, self.keep_alive)
                    &&& connect.procedure.position == 0
                },
                Err(e) => addr is V6 && e@ == ipv6_error(),
            },
    {
        Connect::new(addr, self.keep_alive)
    }
}

// ── Laws ─────────────────────────────────────────────────────────────────────

/// The address that a dial to `target` connects to, or the failure of its
/// lookup, where the lookup gets these answers; `None` while they do not bring
/// the lookup to its end.
pub open spec fn dial_address(target: DialTargetView, answers: Seq<LookupAnswer>) -> Option<
    Result<SocketAddr, ErrorView>,
> {
    match dial_start(target) {
        DialStartView::Connect(addr) => Some(Ok(addr)),
        DialStartView::Lookup(lookup) => lookup.outcome(answers),
    }
}

/// A dial connects to the port that its multiaddress names, and to an address
/// of the family that it names; to the very address where it names one.
pub proof fn lemma_dial_goes_where_it_is_addressed(
    protocols: Seq<ProtocolView>,
    answers: Seq<LookupAnswer>,
    addr: SocketAddr,
)
    requires
        dial_target(protocols) matches Some(target) && dial_address(target, answers) == Some(
            Ok::<SocketAddr, ErrorView>(addr),
        ),
    ensures
        protocols[1] == ProtocolView::Tcp(addr.spec_port()),
        match protocols[0] {
            ProtocolView::Ip4(ip) => addr.spec_ip() == IpAddr::V4(ip),
            ProtocolView::Ip6(ip) => addr.spec_ip() == IpAddr::V6(ip),
            ProtocolView::Dns4(_) => addr is V4,
            ProtocolView::Dns6(_) => addr is V6,
            ProtocolView::Dns(_) => true,
            _ => false,
        },
{
    if let DialStartView::Lookup(lookup) = dial_start(dial_target(protocols)->0) {
        lemma_lookup_gives_first_match(lookup, answers, addr);
    }
}

/// A dial of a name begins with a lookup of the very host name that its
/// multiaddress begins with, with its port and of its family, for `/dns`,
/// `/dns4` and `/dns6` alike; every other dial begins with connecting.
pub proof fn lemma_dial_looks_up_the_name_it_is_given(protocols: Seq<ProtocolView>)
    requires
        dial_target(protocols) is Some,
    ensures
        match protocols[0] {
            ProtocolView::Dns(name) => {
                dial_start(dial_target(protocols)->0) matches DialStartView::Lookup(lookup)
                    && lookup.host == name && lookup.family == DnsFamily::Any
                    && ProtocolView::Tcp(lookup.port) == protocols[1]
            },
            ProtocolView::Dns4(name) => {
                dial_start(dial_target(protocols)->0) matches DialStartView::Lookup(lookup)
                    && lookup.host == name && lookup.family == DnsFamily::V4
                    && ProtocolView::Tcp(lookup.port) == protocols[1]
            },
            ProtocolView::Dns6(name) => {
                dial_start(dial_target(protocols)->0) matches DialStartView::Lookup(lookup)
                    && lookup.host == name && lookup.family == DnsFamily::V6
                    && ProtocolView::Tcp(lookup.port) == protocols[1]
            },
            _ => {
                dial_start(dial_target(protocols)->0) matches DialStartView::Connect(addr)
                    && is_endpoint(protocols.take(2), addr)
            },
        },
{
}

/// What a dial begins with is its target, whole: the address to connect to, or
/// the name, the port and the family to look up.
pub proof fn lemma_dial_starts_with_its_target(
    addr: SocketAddr,
    host: Seq<char>,
    port: u16,
    family: DnsFamily,
)
    ensures
        dial_start(DialTargetView::Addr(addr)) == DialStartView::Connect(addr),
        dial_start(DialTargetView::Dns { host, port, family }) matches DialStartView::Lookup(lookup)
            && lookup.host == host && lookup.port == port && lookup.family == family,
{
}

/// What a dial begins with keeps the lookup or the address that it was made
/// with.
pub proof fn lemma_start_keeps_its_value(lookup: Lookup, addr: SocketAddr)
    ensures
        DialStart::Lookup(lookup)@ == DialStartView::Lookup(lookup@),
        DialStart::Connect(addr)@ == DialStartView::Connect(addr),
{
}

} // verus!
