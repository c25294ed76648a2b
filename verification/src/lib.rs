//! A TCP transport for libp2p over the WASI 0.2 socket interface.
//!
//! This crate is the verified core of the transport: which multiaddresses it
//! accepts, which socket operations a listener, a dial and a name lookup ask
//! the host for and in which order, what each answer of the host leads to,
//! and which events a transport reports. Nothing in it performs input or
//! output; the host bindings that drive it live beside it.
//!
//! # Supported multiaddrs
//!
//! | Pattern | Supported |
//! |---|---|
//! | `/ip4/<addr>/tcp/<port>[/p2p/<peer-id>]` | listen and dial |
//! | `/ip6/<addr>/tcp/<port>[/p2p/<peer-id>]` | listen |
//! | `/dns4/<host>/tcp/<port>[/p2p/<peer-id>]` | dial, IPv4 answers only |
//! | `/dns6/<host>/tcp/<port>[/p2p/<peer-id>]` | resolved, IPv6 answers only |
//! | `/dns/<host>/tcp/<port>[/p2p/<peer-id>]` | dial, first answer of either family |
//!
//! Every other address is refused with [`Error::UnsupportedMultiaddr`].

pub mod addr;
pub mod dial;
pub mod dns;
pub mod duration;
pub mod error;
pub mod history;
pub mod listener;
pub mod multiaddr;
pub mod poll;
pub mod socket;
pub mod stream;
pub mod table;
pub mod timer;
pub mod transport;
pub mod wasi;

pub use addr::{IpAddr, Ipv4Addr, Ipv6Addr, SocketAddr, SocketAddrV4, SocketAddrV6};
pub use error::{Error, ErrorKind, IoError};
pub use poll::Poll;
pub use stream::WasiTcpStream;
pub use transport::{Config, WasiTcpTransport};
