use std::time::Duration;

use libp2p_core::multiaddr::Multiaddr;
use libp2p_core::transport::ListenerId;

use libp2p_wasi_sockets::dial::DialStart;
use libp2p_wasi_sockets::listener::{accept_replied, AcceptStep};
use libp2p_wasi_sockets::multiaddr::DnsFamily;
use libp2p_wasi_sockets::socket::SocketAction;
use libp2p_wasi_sockets::transport::{PollStep, TransportEvent};
use libp2p_wasi_sockets::wasi::{ErrorCode, IpSocketAddress, Ipv4SocketAddress};
use libp2p_wasi_sockets::{
    Config, Error, ErrorKind, IoError, IpAddr, Ipv4Addr, Poll, SocketAddr, WasiTcpTransport,
};

fn addr(text: &str) -> Multiaddr {
    text.parse().unwrap()
}

fn local(port: u16) -> SocketAddr {
    SocketAddr::new(IpAddr::V4(Ipv4Addr(127, 0, 0, 1)), port)
}

fn listen(transport: &mut WasiTcpTransport) -> ListenerId {
    let id = ListenerId::next();
    assert!(transport.listen_on(id, addr("/ip4/127.0.0.1/tcp/0")).is_ok());
    id
}

/// Lets the next listener whose bringing up is polled come up on `port`.
fn come_up(transport: &mut WasiTcpTransport, port: u16) -> (ListenerId, String) {
    let mut step = transport.poll();
    loop {
        step = match step {
            PollStep::PollBind { at, .. } => {
                transport.bind_polled(at, Poll::Ready(Ok(local(port))))
            }
            PollStep::PollAccept { at, .. } => transport.accept_polled(at, Poll::Pending),
            PollStep::Ready(TransportEvent::NewAddress { listener_id, listen_addr }) => {
                return (listener_id, listen_addr.to_string());
            }
            other => panic!("{other:?}"),
        };
    }
}

/// Polls the transport while nothing that is in flight gets finished.
fn poll_idle(transport: &mut WasiTcpTransport) -> Option<TransportEvent> {
    let mut step = transport.poll();
    loop {
        step = match step {
            PollStep::PollBind { at, .. } => transport.bind_polled(at, Poll::Pending),
            PollStep::PollAccept { at, .. } => transport.accept_polled(at, Poll::Pending),
            PollStep::Pending => return None,
            PollStep::Ready(event) => return Some(event),
        };
    }
}

#[test]
fn listen_on_brings_up_a_listener() {
    let mut transport = WasiTcpTransport::new(Config {
        nodelay: true,
        keep_alive: Some(Duration::from_secs(2)),
        listen_backlog: 9,
    });
    let id = ListenerId::next();
    let mut bind = transport.listen_on(id, addr("/ip4/10.0.0.1/tcp/80")).unwrap();
    assert!(bind.replied(Ok(())).is_none());
    assert!(matches!(bind.action(), SocketAction::SetListenBacklogSize(9)));
    assert!(bind.replied(Ok(())).is_none());
    assert!(bind.replied(Ok(())).is_none());
    assert!(matches!(bind.action(), SocketAction::SetKeepAliveIdleTime(2_000_000_000)));
    assert!(matches!(transport.poll(), PollStep::PollBind { at: 0, id: polled } if polled == id));
}

#[test]
fn listen_on_refuses_what_is_no_socket_address() {
    let mut transport = WasiTcpTransport::default();
    let ma = addr("/dns4/localhost/tcp/0");
    match transport.listen_on(ListenerId::next(), ma.clone()) {
        Err(Error::UnsupportedMultiaddr(refused)) => assert_eq!(refused, ma),
        other => panic!("{other:?}"),
    }
    assert!(matches!(transport.poll(), PollStep::Pending));
}

#[test]
fn a_transport_without_listeners_is_pending() {
    assert!(poll_idle(&mut WasiTcpTransport::default()).is_none());
}

#[test]
fn two_listeners_one_removed() {
    let mut transport = WasiTcpTransport::default();
    let id1 = listen(&mut transport);
    let id2 = listen(&mut transport);
    assert_eq!(come_up(&mut transport, 1001), (id1, String::from("/ip4/127.0.0.1/tcp/1001")));
    assert_eq!(come_up(&mut transport, 1002), (id2, String::from("/ip4/127.0.0.1/tcp/1002")));
    assert!(poll_idle(&mut transport).is_none());

    assert!(transport.remove_listener(id2));
    match poll_idle(&mut transport) {
        Some(TransportEvent::AddressExpired { listener_id, listen_addr }) => {
            assert_eq!(listener_id, id2);
            assert_eq!(listen_addr.to_string(), "/ip4/127.0.0.1/tcp/1002");
        }
        other => panic!("{other:?}"),
    }
    assert!(transport.remove_listener(id2));
    match poll_idle(&mut transport) {
        Some(TransportEvent::ListenerClosed { listener_id, reason }) => {
            assert_eq!(listener_id, id2);
            assert!(reason.is_ok());
        }
        other => panic!("{other:?}"),
    }
    assert!(!transport.remove_listener(id2));
    assert!(poll_idle(&mut transport).is_none());
    assert!(transport.remove_listener(id1));
}

#[test]
fn a_listener_that_never_came_up_is_closed_at_once() {
    let mut transport = WasiTcpTransport::default();
    let id = listen(&mut transport);
    assert!(transport.remove_listener(id));
    assert!(matches!(
        poll_idle(&mut transport),
        Some(TransportEvent::ListenerClosed { listener_id, reason: Ok(()) }) if listener_id == id
    ));
    assert!(poll_idle(&mut transport).is_none());
}

#[test]
fn removing_an_unknown_listener_does_nothing() {
    let mut transport = WasiTcpTransport::default();
    let id = listen(&mut transport);
    assert!(!transport.remove_listener(ListenerId::next()));
    assert!(matches!(transport.poll(), PollStep::PollBind { id: polled, .. } if polled == id));
}

#[test]
fn a_second_listener_under_an_identifier_replaces_the_first() {
    let mut transport = WasiTcpTransport::default();
    let id = listen(&mut transport);
    come_up(&mut transport, 7);
    assert!(transport.listen_on(id, addr("/ip4/127.0.0.1/tcp/8")).is_ok());
    assert!(transport.listener_at(1).is_none());
    let state = transport.listener_at(0).unwrap();
    assert!(state.binding && !state.announced && state.listener.is_none());
    assert_eq!(state.bind_addr, local(8));
}

#[test]
fn connections_come_in_on_the_announced_address() {
    let mut transport = WasiTcpTransport::default();
    let id = listen(&mut transport);
    come_up(&mut transport, 4001);
    let PollStep::PollAccept { at, start: true, .. } = transport.poll() else {
        panic!("expected to accept")
    };
    assert!(matches!(transport.accept_polled(at, Poll::Pending), PollStep::Pending));
    let PollStep::PollAccept { at, start: false, .. } = transport.poll() else {
        panic!("expected to go on accepting")
    };
    match transport.accept_polled(at, Poll::Ready(Ok(Some(local(50000))))) {
        PollStep::Ready(TransportEvent::Incoming { listener_id, local_addr, send_back_addr }) => {
            assert_eq!(listener_id, id);
            assert_eq!(local_addr.to_string(), "/ip4/127.0.0.1/tcp/4001");
            assert_eq!(send_back_addr.to_string(), "/ip4/127.0.0.1/tcp/50000");
        }
        other => panic!("{other:?}"),
    }
    let PollStep::PollAccept { at, start: true, .. } = transport.poll() else {
        panic!("expected to accept anew")
    };
    match transport.accept_polled(at, Poll::Ready(Ok(None))) {
        PollStep::Ready(TransportEvent::Incoming { local_addr, send_back_addr, .. }) => {
            assert_eq!(local_addr, send_back_addr);
        }
        other => panic!("{other:?}"),
    }
}

#[test]
fn a_failed_accept_is_reported_and_tried_again() {
    let mut transport = WasiTcpTransport::default();
    listen(&mut transport);
    come_up(&mut transport, 4001);
    let PollStep::PollAccept { at, .. } = transport.poll() else {
        panic!("expected to accept")
    };
    let error = IoError::new(ErrorKind::PermissionDenied, "no");
    match transport.accept_polled(at, Poll::Ready(Err(error))) {
        PollStep::Ready(TransportEvent::ListenerError { error: Error::Io(e), .. }) => {
            assert_eq!(e.kind, ErrorKind::PermissionDenied);
            assert_eq!(e.message, "no");
        }
        other => panic!("{other:?}"),
    }
    assert!(matches!(transport.poll(), PollStep::PollAccept { start: true, .. }));
}

#[test]
fn a_denied_listener_is_access_denied() {
    let mut transport = WasiTcpTransport::default();
    let id = listen(&mut transport);
    let PollStep::PollBind { at, .. } = transport.poll() else {
        panic!("expected to bind")
    };
    let denied = IoError::new(ErrorKind::PermissionDenied, "network access denied");
    assert!(matches!(
        transport.bind_polled(at, Poll::Ready(Err(denied))),
        PollStep::Ready(TransportEvent::ListenerError { listener_id, error: Error::AccessDenied })
            if listener_id == id
    ));
    assert!(poll_idle(&mut transport).is_none());
    assert!(transport.remove_listener(id));
    assert!(matches!(poll_idle(&mut transport), Some(TransportEvent::ListenerClosed { .. })));
}

#[test]
fn a_listener_that_fails_otherwise_says_how() {
    let mut transport = WasiTcpTransport::default();
    listen(&mut transport);
    let PollStep::PollBind { at, .. } = transport.poll() else {
        panic!("expected to bind")
    };
    let error = IoError::new(ErrorKind::Other, "in use");
    match transport.bind_polled(at, Poll::Ready(Err(error))) {
        PollStep::Ready(TransportEvent::ListenerError { error: Error::Io(e), .. }) => {
            assert_eq!(e.message, "in use")
        }
        other => panic!("{other:?}"),
    }
}

#[test]
fn a_closing_listener_is_reported_behind_busy_ones() {
    let mut transport = WasiTcpTransport::default();
    listen(&mut transport);
    come_up(&mut transport, 1);
    listen(&mut transport);
    let last = listen(&mut transport);
    assert!(transport.remove_listener(last));
    assert!(matches!(
        poll_idle(&mut transport),
        Some(TransportEvent::ListenerClosed { listener_id, .. }) if listener_id == last
    ));
    assert!(transport.listener_at(2).is_none());
}

#[test]
fn accepting_waits_while_it_would_block() {
    assert!(matches!(accept_replied(Err(ErrorCode::WouldBlock)), AcceptStep::Wait));
    let remote = IpSocketAddress::Ipv4(Ipv4SocketAddress { port: 9, address: (127, 0, 0, 1) });
    assert!(matches!(
        accept_replied(Ok(Ok(remote))),
        AcceptStep::Done(Ok(Some(peer))) if peer == local(9)
    ));
    assert!(matches!(
        accept_replied(Ok(Err(ErrorCode::InvalidState))),
        AcceptStep::Done(Ok(None))
    ));
    match accept_replied(Err(ErrorCode::ConnectionAborted)) {
        AcceptStep::Done(Err(e)) => assert!(e.message.contains("connection-aborted")),
        other => panic!("{other:?}"),
    }
}

#[test]
fn dialling_an_address_connects_to_it() {
    let mut transport = WasiTcpTransport::default();
    let dial = transport.dial(addr("/ip4/127.0.0.1/tcp/4001")).unwrap();
    assert_eq!(dial.keep_alive, None);
    match dial.start() {
        DialStart::Connect(to) => {
            assert_eq!(to, local(4001));
            assert_eq!(dial.connect(to).unwrap().addr, to);
        }
        other => panic!("{other:?}"),
    }
}

#[test]
fn dialling_a_name_looks_it_up() {
    let mut transport = WasiTcpTransport::new(Config {
        nodelay: true,
        keep_alive: Some(Duration::from_nanos(5)),
        listen_backlog: 1,
    });
    let dial = transport.dial(addr("/dns4/localhost/tcp/4001")).unwrap();
    assert_eq!(dial.keep_alive, Some(5));
    match dial.start() {
        DialStart::Lookup(lookup) => {
            assert_eq!(lookup.host, "localhost");
            assert_eq!(lookup.port, 4001);
            assert_eq!(lookup.family, DnsFamily::V4);
        }
        other => panic!("{other:?}"),
    }
}

#[test]
fn dialling_ipv6_fails_when_it_connects() {
    let mut transport = WasiTcpTransport::default();
    let dial = transport.dial(addr("/ip6/::1/tcp/4001")).unwrap();
    match dial.start() {
        DialStart::Connect(to) => assert!(matches!(
            dial.connect(to),
            Err(Error::Io(IoError { kind: ErrorKind::Unsupported, .. }))
        )),
        other => panic!("{other:?}"),
    }
}

#[test]
fn dialling_an_unsupported_address_names_it() {
    let mut transport = WasiTcpTransport::default();
    let ma = addr("/ip4/1.2.3.4/udp/1/quic-v1");
    match transport.dial(ma.clone()) {
        Err(Error::UnsupportedMultiaddr(refused)) => assert_eq!(refused, ma),
        other => panic!("{other:?}"),
    }
}

#[test]
fn a_poll_is_pending_while_every_listener_is_quiet() {
    let mut transport = WasiTcpTransport::default();
    listen(&mut transport);
    come_up(&mut transport, 1);
    let binding = listen(&mut transport);
    assert!(poll_idle(&mut transport).is_none());
    assert!(poll_idle(&mut transport).is_none());
    assert!(transport.remove_listener(binding));
    assert!(poll_idle(&mut transport).is_some());
    assert!(poll_idle(&mut transport).is_none());
}

#[test]
fn a_listener_that_cannot_come_up_reports_one_error() {
    let mut transport = WasiTcpTransport::default();
    let id = listen(&mut transport);
    let PollStep::PollBind { at, .. } = transport.poll() else {
        panic!("expected to bind")
    };
    let error = IoError::new(ErrorKind::Other, "in use");
    assert!(matches!(
        transport.bind_polled(at, Poll::Ready(Err(error))),
        PollStep::Ready(TransportEvent::ListenerError { .. })
    ));
    assert!(matches!(transport.poll(), PollStep::Pending));
    assert!(transport.remove_listener(id));
    assert!(matches!(
        transport.poll(),
        PollStep::Ready(TransportEvent::ListenerClosed { listener_id, .. }) if listener_id == id
    ));
    assert!(!transport.remove_listener(id));
    assert!(transport.listen_on(id, addr("/ip4/127.0.0.1/tcp/0")).is_ok());
    assert!(transport.remove_listener(id));
}
