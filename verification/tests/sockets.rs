use wasip2::sockets::network::ErrorCode as Code;

use libp2p_wasi_sockets::socket::{Bind, Connect, SocketAction};
use libp2p_wasi_sockets::wasi::{
    address_family, sockaddr_to_wasi, wasi_io_err, wasi_ip_to_std, wasi_sockaddr_to_std,
    ErrorCode, IpAddress, IpAddressFamily, IpSocketAddress, Ipv4SocketAddress, Ipv6SocketAddress,
};
use libp2p_wasi_sockets::{
    Error, ErrorKind, IpAddr, Ipv4Addr, Ipv6Addr, SocketAddr, SocketAddrV6,
};

fn four() -> SocketAddr {
    SocketAddr::new(IpAddr::V4(Ipv4Addr(127, 0, 0, 1)), 4001)
}

fn six() -> SocketAddr {
    SocketAddr::new(IpAddr::V6(Ipv6Addr(1, 2, 3, 4, 5, 6, 7, 8)), 4001)
}

fn bind_script(bind: &mut Bind) -> Vec<String> {
    let mut script = vec![];
    loop {
        let action = bind.action();
        if matches!(action, SocketAction::LocalAddress | SocketAction::Stop) {
            return script;
        }
        script.push(format!("{action:?}"));
        assert!(bind.replied(Ok(())).is_none());
    }
}

#[test]
fn a_listener_is_brought_up_step_by_step() {
    let mut bind = Bind::new(four(), 128, None);
    assert_eq!(
        bind_script(&mut bind),
        vec![
            "Create(Ipv4)",
            "SetListenBacklogSize(128)",
            "StartBind(Ipv4(Ipv4SocketAddress { port: 4001, address: (127, 0, 0, 1) }))",
            "Wait",
            "FinishBind",
            "StartListen",
            "Wait",
            "FinishListen",
        ]
    );
    let addr = IpSocketAddress::Ipv4(Ipv4SocketAddress { port: 5, address: (127, 0, 0, 1) });
    let bound = bind.located(Ok(addr)).unwrap();
    assert_eq!(bound, SocketAddr::new(IpAddr::V4(Ipv4Addr(127, 0, 0, 1)), 5));
    assert!(matches!(bind.action(), SocketAction::Stop));
}

#[test]
fn a_listener_gets_keep_alive_before_it_binds() {
    let mut bind = Bind::new(six(), 7, Some(99));
    let script = bind_script(&mut bind);
    assert_eq!(script[0], "Create(Ipv6)");
    assert_eq!(script[1], "SetListenBacklogSize(7)");
    assert_eq!(script[2], "EnableKeepAlive");
    assert_eq!(script[3], "SetKeepAliveIdleTime(99)");
    assert!(script[4].starts_with("StartBind(Ipv6("));
    let e = bind.located(Err(ErrorCode::Timeout)).unwrap_err();
    assert_eq!(e.kind, ErrorKind::Other);
}

#[test]
fn options_may_be_refused() {
    let mut bind = Bind::new(four(), 128, Some(1));
    assert!(bind.replied(Ok(())).is_none());
    for _ in 0..3 {
        assert!(bind.replied(Err(ErrorCode::NotSupported)).is_none());
    }
    assert!(matches!(bind.action(), SocketAction::StartBind(_)));
}

#[test]
fn a_denied_bind_is_a_denied_permission() {
    let mut bind = Bind::new(four(), 128, None);
    assert!(bind.replied(Ok(())).is_none());
    assert!(bind.replied(Ok(())).is_none());
    let e = bind.replied(Err(ErrorCode::AccessDenied)).unwrap();
    assert_eq!(e.kind, ErrorKind::PermissionDenied);
    assert_eq!(e.message, "network access denied");
    assert!(matches!(bind.action(), SocketAction::Stop));
}

#[test]
fn other_refusals_keep_their_code() {
    let mut bind = Bind::new(four(), 128, None);
    let e = bind.replied(Err(ErrorCode::AccessDenied)).unwrap();
    assert_eq!(e.kind, ErrorKind::Other);
    assert!(e.message.contains("access-denied"));
    let mut bind = Bind::new(four(), 128, None);
    assert!(bind.replied(Ok(())).is_none());
    assert!(bind.replied(Ok(())).is_none());
    let e = bind.replied(Err(ErrorCode::AddressInUse)).unwrap();
    assert_eq!(e.kind, ErrorKind::Other);
    assert!(e.message.contains("address-in-use"));
}

#[test]
fn a_connection_is_made_step_by_step() {
    let mut connect = Connect::new(four(), Some(30)).unwrap();
    let mut script = vec![];
    while !matches!(connect.action(), SocketAction::Stop) {
        script.push(format!("{:?}", connect.action()));
        assert!(connect.replied(Ok(())).is_none());
    }
    assert_eq!(
        script,
        vec![
            "Create(Ipv4)",
            "EnableKeepAlive",
            "SetKeepAliveIdleTime(30)",
            "StartConnect(Ipv4(Ipv4SocketAddress { port: 4001, address: (127, 0, 0, 1) }))",
            "Wait",
            "FinishConnect",
        ]
    );
    assert_eq!(connect.addr, four());
}

#[test]
fn a_denied_connection_is_access_denied() {
    for denied in 0..4 {
        let mut connect = Connect::new(four(), None).unwrap();
        let mut error = None;
        for _ in 0..denied {
            assert!(connect.replied(Ok(())).is_none());
        }
        if !matches!(connect.action(), SocketAction::Wait) {
            error = connect.replied(Err(ErrorCode::AccessDenied));
        } else {
            assert!(connect.replied(Err(ErrorCode::AccessDenied)).is_none());
        }
        assert_eq!(denied == 2, error.is_none());
        assert!(matches!(error, None | Some(Error::AccessDenied)));
    }
}

#[test]
fn a_refused_connection_keeps_its_code() {
    let mut connect = Connect::new(four(), None).unwrap();
    assert!(connect.replied(Ok(())).is_none());
    match connect.replied(Err(ErrorCode::ConnectionRefused)) {
        Some(Error::Io(e)) => {
            assert_eq!(e.kind, ErrorKind::Other);
            assert!(e.message.contains("connection-refused"));
        }
        other => panic!("{other:?}"),
    }
    assert!(matches!(connect.action(), SocketAction::Stop));
}

#[test]
fn ipv6_cannot_be_connected_to() {
    match Connect::new(six(), None) {
        Err(Error::Io(e)) => {
            assert_eq!(e.kind, ErrorKind::Unsupported);
            assert_eq!(e.message, "IPv6 TCP is not yet supported (wstd limitation)");
        }
        other => panic!("{other:?}"),
    }
}

#[test]
fn addresses_go_to_the_host_and_back() {
    assert_eq!(wasi_sockaddr_to_std(sockaddr_to_wasi(four())), four());
    assert_eq!(wasi_sockaddr_to_std(sockaddr_to_wasi(six())), six());
    assert_eq!(address_family(four()), IpAddressFamily::Ipv4);
    assert_eq!(address_family(six()), IpAddressFamily::Ipv6);
}

#[test]
fn a_scope_goes_to_the_host_but_not_back() {
    let scoped = SocketAddr::V6(SocketAddrV6 {
        ip: Ipv6Addr(1, 2, 3, 4, 5, 6, 7, 8),
        port: 4001,
        flowinfo: 11,
        scope_id: 12,
    });
    match sockaddr_to_wasi(scoped) {
        IpSocketAddress::Ipv6(Ipv6SocketAddress { port, flow_info, address, scope_id }) => {
            assert_eq!((port, flow_info, scope_id), (4001, 11, 12));
            assert_eq!(address, (1, 2, 3, 4, 5, 6, 7, 8));
        }
        other => panic!("{other:?}"),
    }
    assert_eq!(wasi_sockaddr_to_std(sockaddr_to_wasi(scoped)), six());
}

#[test]
fn host_addresses_are_read_in_order() {
    assert_eq!(wasi_ip_to_std(IpAddress::Ipv4((1, 2, 3, 4))), IpAddr::V4(Ipv4Addr(1, 2, 3, 4)));
    assert_eq!(
        wasi_ip_to_std(IpAddress::Ipv6((1, 2, 3, 4, 5, 6, 7, 8))),
        IpAddr::V6(Ipv6Addr(1, 2, 3, 4, 5, 6, 7, 8))
    );
}

#[test]
fn error_codes_are_printed_as_the_bindings_print_them() {
    let pairs = vec![
        (ErrorCode::Unknown, Code::Unknown),
        (ErrorCode::AccessDenied, Code::AccessDenied),
        (ErrorCode::NotSupported, Code::NotSupported),
        (ErrorCode::InvalidArgument, Code::InvalidArgument),
        (ErrorCode::OutOfMemory, Code::OutOfMemory),
        (ErrorCode::Timeout, Code::Timeout),
        (ErrorCode::ConcurrencyConflict, Code::ConcurrencyConflict),
        (ErrorCode::NotInProgress, Code::NotInProgress),
        (ErrorCode::WouldBlock, Code::WouldBlock),
        (ErrorCode::InvalidState, Code::InvalidState),
        (ErrorCode::NewSocketLimit, Code::NewSocketLimit),
        (ErrorCode::AddressNotBindable, Code::AddressNotBindable),
        (ErrorCode::AddressInUse, Code::AddressInUse),
        (ErrorCode::RemoteUnreachable, Code::RemoteUnreachable),
        (ErrorCode::ConnectionRefused, Code::ConnectionRefused),
        (ErrorCode::ConnectionReset, Code::ConnectionReset),
        (ErrorCode::ConnectionAborted, Code::ConnectionAborted),
        (ErrorCode::DatagramTooLarge, Code::DatagramTooLarge),
        (ErrorCode::NameUnresolvable, Code::NameUnresolvable),
        (ErrorCode::TemporaryResolverFailure, Code::TemporaryResolverFailure),
        (ErrorCode::PermanentResolverFailure, Code::PermanentResolverFailure),
    ];
    for (ours, theirs) in pairs {
        let e = wasi_io_err(ours);
        assert_eq!(e.kind, ErrorKind::Other);
        assert_eq!(e.message, format!("{theirs:?}"));
    }
    assert_eq!(
        wasi_io_err(ErrorCode::Unknown).message,
        "ErrorCode { code: 0, name: \"unknown\", message: \"Unknown error\" }"
    );
}
