use libp2p_core::multiaddr::Multiaddr;

use libp2p_wasi_sockets::multiaddr::{
    multiaddr_to_dial_target, multiaddr_to_socketaddr, protocols_to_dial_target,
    protocols_to_socketaddr, socketaddr_to_multiaddr, DialTarget, DnsFamily, Protocol,
};
use libp2p_wasi_sockets::{Error, IpAddr, Ipv4Addr, Ipv6Addr, SocketAddr, SocketAddrV6};

const LOCALHOST_V6: Ipv6Addr = Ipv6Addr(0, 0, 0, 0, 0, 0, 0, 1);

fn v4(a: u8, b: u8, c: u8, d: u8, port: u16) -> SocketAddr {
    SocketAddr::new(IpAddr::V4(Ipv4Addr(a, b, c, d)), port)
}

#[test]
fn roundtrip_ipv4() {
    let sa = v4(127, 0, 0, 1, 4001);
    let ma = socketaddr_to_multiaddr(sa);
    assert_eq!(multiaddr_to_socketaddr(&ma).unwrap(), sa);
}

#[test]
fn roundtrip_ipv6() {
    let sa = SocketAddr::new(IpAddr::V6(LOCALHOST_V6), 4001);
    let ma = socketaddr_to_multiaddr(sa);
    assert_eq!(multiaddr_to_socketaddr(&ma).unwrap(), sa);
}

#[test]
fn strips_p2p_suffix() {
    let ma: Multiaddr =
        "/ip4/127.0.0.1/tcp/4001/p2p/12D3KooWGjwWkrTXkqQKGegFKSQpKyUMMU6ZVJZ7suwT1SjTz6Vs"
            .parse()
            .unwrap();
    let sa = multiaddr_to_socketaddr(&ma).unwrap();
    assert_eq!(sa.port(), 4001);
    assert_eq!(sa.ip(), IpAddr::V4(Ipv4Addr(127, 0, 0, 1)));
}

#[test]
fn rejects_dns() {
    let ma: Multiaddr = "/dns4/example.com/tcp/4001".parse().unwrap();
    assert!(multiaddr_to_socketaddr(&ma).is_err());
}

#[test]
fn dial_target_ipv4() {
    let ma: Multiaddr = "/ip4/1.2.3.4/tcp/1234".parse().unwrap();
    let target = multiaddr_to_dial_target(&ma).unwrap();
    let DialTarget::Addr(sa) = target else {
        panic!("expected Addr")
    };
    assert_eq!(sa, v4(1, 2, 3, 4, 1234));
}

#[test]
fn dial_target_ipv6() {
    let ma: Multiaddr = "/ip6/::1/tcp/4001".parse().unwrap();
    let target = multiaddr_to_dial_target(&ma).unwrap();
    let DialTarget::Addr(sa) = target else {
        panic!("expected Addr")
    };
    assert_eq!(sa.port(), 4001);
}

#[test]
fn dial_target_dns4() {
    let ma: Multiaddr = "/dns4/example.com/tcp/80".parse().unwrap();
    let target = multiaddr_to_dial_target(&ma).unwrap();
    let DialTarget::Dns { host, port, family } = target else {
        panic!("expected Dns")
    };
    assert_eq!(host, "example.com");
    assert_eq!(port, 80);
    assert!(matches!(family, DnsFamily::V4));
}

#[test]
fn dial_target_dns6() {
    let ma: Multiaddr = "/dns6/example.com/tcp/443".parse().unwrap();
    let target = multiaddr_to_dial_target(&ma).unwrap();
    let DialTarget::Dns { family, .. } = target else {
        panic!("expected Dns")
    };
    assert!(matches!(family, DnsFamily::V6));
}

#[test]
fn dial_target_dns_any() {
    let ma: Multiaddr = "/dns/example.com/tcp/8080".parse().unwrap();
    let target = multiaddr_to_dial_target(&ma).unwrap();
    let DialTarget::Dns { family, .. } = target else {
        panic!("expected Dns")
    };
    assert!(matches!(family, DnsFamily::Any));
}

#[test]
fn dial_target_dns4_strips_p2p() {
    let ma: Multiaddr =
        "/dns4/example.com/tcp/4001/p2p/12D3KooWGjwWkrTXkqQKGegFKSQpKyUMMU6ZVJZ7suwT1SjTz6Vs"
            .parse()
            .unwrap();
    let target = multiaddr_to_dial_target(&ma).unwrap();
    let DialTarget::Dns { host, port, .. } = target else {
        panic!("expected Dns")
    };
    assert_eq!(host, "example.com");
    assert_eq!(port, 4001);
}

#[test]
fn dial_target_rejects_dnsaddr() {
    let ma: Multiaddr = "/dnsaddr/bootstrap.libp2p.io/tcp/4001".parse().unwrap();
    assert!(multiaddr_to_dial_target(&ma).is_err());
}

#[test]
fn zero_port_ipv4() {
    let sa = v4(0, 0, 0, 0, 0);
    let ma = socketaddr_to_multiaddr(sa);
    assert_eq!(multiaddr_to_socketaddr(&ma).unwrap(), sa);
}

#[test]
fn zero_port_ipv6() {
    let sa = SocketAddr::new(IpAddr::V6(Ipv6Addr(0, 0, 0, 0, 0, 0, 0, 0)), 0);
    let ma = socketaddr_to_multiaddr(sa);
    assert_eq!(multiaddr_to_socketaddr(&ma).unwrap(), sa);
}

#[test]
fn endpoints_are_written_as_text() {
    let ma = socketaddr_to_multiaddr(v4(192, 168, 7, 9, 65535));
    assert_eq!(ma.to_string(), "/ip4/192.168.7.9/tcp/65535");
    let ip = Ipv6Addr(0x2001, 0xdb8, 1, 2, 3, 4, 5, 0xff);
    let ma = socketaddr_to_multiaddr(SocketAddr::new(IpAddr::V6(ip), 7));
    assert_eq!(ma.to_string(), "/ip6/2001:db8:1:2:3:4:5:ff/tcp/7");
}

#[test]
fn ipv6_segments_are_read_in_order() {
    let ma: Multiaddr = "/ip6/1:2:3:4:5:6:7:8/tcp/1".parse().unwrap();
    assert_eq!(
        multiaddr_to_socketaddr(&ma).unwrap(),
        SocketAddr::new(IpAddr::V6(Ipv6Addr(1, 2, 3, 4, 5, 6, 7, 8)), 1)
    );
}

#[test]
fn a_scope_is_not_written() {
    let scoped = SocketAddr::V6(SocketAddrV6 {
        ip: LOCALHOST_V6,
        port: 80,
        flowinfo: 1,
        scope_id: 3,
    });
    let ma = socketaddr_to_multiaddr(scoped);
    assert_eq!(
        multiaddr_to_socketaddr(&ma).unwrap(),
        SocketAddr::new(IpAddr::V6(LOCALHOST_V6), 80)
    );
}

#[test]
fn refuses_every_other_form_with_the_address() {
    let peer = "12D3KooWGjwWkrTXkqQKGegFKSQpKyUMMU6ZVJZ7suwT1SjTz6Vs";
    let others = vec![
        String::from("/ip4/1.2.3.4"),
        String::from("/tcp/80"),
        String::from("/tcp/80/ip4/1.2.3.4"),
        String::from("/ip4/1.2.3.4/udp/80"),
        String::from("/ip4/1.2.3.4/tcp/80/ws"),
        String::from("/ip4/1.2.3.4/tcp/80/tcp/81"),
        String::from("/dns4/example.com/tcp/443/wss"),
        String::from("/ip4/1.2.3.4/udp/80/quic-v1"),
        String::from("/memory/7"),
        format!("/p2p/{peer}"),
        format!("/ip4/1.2.3.4/p2p/{peer}"),
        format!("/ip4/1.2.3.4/tcp/80/p2p/{peer}/p2p-circuit"),
        format!("/dns/example.com/tcp/80/p2p/{peer}/p2p/{peer}"),
    ];
    for text in others {
        let ma: Multiaddr = text.parse().unwrap();
        match multiaddr_to_dial_target(&ma) {
            Err(Error::UnsupportedMultiaddr(addr)) => assert_eq!(addr, ma),
            other => panic!("{text}: {other:?}"),
        }
        match multiaddr_to_socketaddr(&ma) {
            Err(Error::UnsupportedMultiaddr(addr)) => assert_eq!(addr, ma),
            other => panic!("{text}: {other:?}"),
        }
    }
    let empty = Multiaddr::empty();
    assert!(multiaddr_to_dial_target(&empty).is_err());
    assert!(multiaddr_to_socketaddr(&empty).is_err());
}

#[test]
fn dns_is_no_listen_address_but_the_error_names_it() {
    let ma: Multiaddr = "/dns6/example.com/tcp/1".parse().unwrap();
    match multiaddr_to_socketaddr(&ma) {
        Err(Error::UnsupportedMultiaddr(addr)) => {
            assert_eq!(addr.to_string(), "/dns6/example.com/tcp/1")
        }
        other => panic!("{other:?}"),
    }
}

#[test]
fn components_decide() {
    let host = || Protocol::Dns(String::from("h"));
    let peer = || Protocol::P2p(vec![1, 2, 3]);
    let other = || Protocol::Other(vec![9]);
    assert!(protocols_to_dial_target(&vec![]).is_none());
    assert!(protocols_to_dial_target(&vec![host()]).is_none());
    assert!(protocols_to_dial_target(&vec![host(), host()]).is_none());
    assert!(protocols_to_dial_target(&vec![other(), Protocol::Tcp(1)]).is_none());
    assert!(protocols_to_dial_target(&vec![host(), Protocol::Tcp(1), other()]).is_none());
    assert!(protocols_to_dial_target(&vec![host(), Protocol::Tcp(1), peer(), peer()]).is_none());
    assert!(matches!(
        protocols_to_dial_target(&vec![host(), Protocol::Tcp(1), peer()]),
        Some(DialTarget::Dns { port: 1, family: DnsFamily::Any, .. })
    ));
    assert!(protocols_to_socketaddr(&vec![host(), Protocol::Tcp(1)]).is_none());
    assert_eq!(
        protocols_to_socketaddr(&vec![Protocol::Ip4((1, 2, 3, 4)), Protocol::Tcp(5)]),
        Some(v4(1, 2, 3, 4, 5))
    );
    assert_eq!(
        protocols_to_socketaddr(&vec![Protocol::Ip6((0, 0, 0, 0, 0, 0, 0, 1)), Protocol::Tcp(5), peer()]),
        Some(SocketAddr::new(IpAddr::V6(LOCALHOST_V6), 5))
    );
}

#[test]
fn families_match_their_addresses() {
    let four = IpAddr::V4(Ipv4Addr(1, 1, 1, 1));
    let six = IpAddr::V6(LOCALHOST_V6);
    assert!(DnsFamily::V4.matches(four) && !DnsFamily::V4.matches(six));
    assert!(!DnsFamily::V6.matches(four) && DnsFamily::V6.matches(six));
    assert!(DnsFamily::Any.matches(four) && DnsFamily::Any.matches(six));
}

#[test]
fn families_have_names() {
    assert_eq!(DnsFamily::V4.description(), "IPv4");
    assert_eq!(DnsFamily::V6.description(), "IPv6");
    assert_eq!(DnsFamily::Any.description(), "any-family");
}

#[test]
fn socket_addresses_know_their_family() {
    assert!(v4(1, 2, 3, 4, 5).is_ipv4() && !v4(1, 2, 3, 4, 5).is_ipv6());
    let six = SocketAddr::new(IpAddr::V6(LOCALHOST_V6), 5);
    assert!(six.is_ipv6() && !six.is_ipv4());
}

#[test]
fn a_refusal_names_the_very_address() {
    let short: Multiaddr = "/ip4/1.2.3.4/tcp/80/ws".parse().unwrap();
    let mut bytes = "/ip4/1.2.3.4/tcp/80".parse::<Multiaddr>().unwrap().to_vec();
    bytes.extend_from_slice(&[0xa2, 0x25, 1, b'/']);
    let long = Multiaddr::try_from(bytes).unwrap();
    assert!(short != long && short.iter().eq(long.iter()));
    for ma in vec![short, long] {
        match multiaddr_to_dial_target(&ma) {
            Err(Error::UnsupportedMultiaddr(addr)) => assert_eq!(addr.to_vec(), ma.to_vec()),
            other => panic!("{other:?}"),
        }
        match multiaddr_to_socketaddr(&ma) {
            Err(Error::UnsupportedMultiaddr(addr)) => assert_eq!(addr.to_vec(), ma.to_vec()),
            other => panic!("{other:?}"),
        }
    }
}
