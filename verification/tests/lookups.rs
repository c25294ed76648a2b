use libp2p_wasi_sockets::dns::{Lookup, LookupStep};
use libp2p_wasi_sockets::multiaddr::DnsFamily;
use libp2p_wasi_sockets::wasi::{ErrorCode, IpAddress};
use libp2p_wasi_sockets::{Error, ErrorKind, IpAddr, Ipv4Addr, Ipv6Addr, SocketAddr};

const TIMEOUT: &str = "ErrorCode { code: 5, name: \"timeout\", message: \
                       \"The operation timed out before it could finish completely.\" }";

fn lookup(family: DnsFamily) -> Lookup {
    Lookup { host: String::from("example.com"), port: 4001, family }
}

fn message(error: Error) -> String {
    match error {
        Error::Io(e) => {
            assert_eq!(e.kind, ErrorKind::Other);
            e.message
        }
        other => panic!("{other:?}"),
    }
}

fn outcome(
    lookup: &Lookup,
    answers: Vec<Result<Option<IpAddress>, ErrorCode>>,
) -> Option<Result<SocketAddr, Error>> {
    for answer in answers {
        if let LookupStep::Done(res) = lookup.answered(answer) {
            return Some(res);
        }
    }
    None
}

#[test]
fn first_address_of_the_family_wins() {
    let answers = || {
        vec![
            Err(ErrorCode::WouldBlock),
            Ok(Some(IpAddress::Ipv6((1, 2, 3, 4, 5, 6, 7, 8)))),
            Err(ErrorCode::WouldBlock),
            Ok(Some(IpAddress::Ipv4((10, 0, 0, 1)))),
            Ok(Some(IpAddress::Ipv4((10, 0, 0, 2)))),
            Ok(None),
        ]
    };
    let four = SocketAddr::new(IpAddr::V4(Ipv4Addr(10, 0, 0, 1)), 4001);
    let six = SocketAddr::new(IpAddr::V6(Ipv6Addr(1, 2, 3, 4, 5, 6, 7, 8)), 4001);
    assert_eq!(outcome(&lookup(DnsFamily::V4), answers()).unwrap().unwrap(), four);
    assert_eq!(outcome(&lookup(DnsFamily::V6), answers()).unwrap().unwrap(), six);
    assert_eq!(outcome(&lookup(DnsFamily::Any), answers()).unwrap().unwrap(), six);
}

#[test]
fn the_end_of_the_list_is_an_error() {
    let res = outcome(
        &lookup(DnsFamily::V6),
        vec![Ok(Some(IpAddress::Ipv4((10, 0, 0, 1)))), Ok(None)],
    );
    assert_eq!(
        message(res.unwrap().unwrap_err()),
        "DNS: no IPv6 addresses found for 'example.com'"
    );
    let res = outcome(&lookup(DnsFamily::Any), vec![Ok(None)]);
    assert_eq!(
        message(res.unwrap().unwrap_err()),
        "DNS: no any-family addresses found for 'example.com'"
    );
}

#[test]
fn a_failing_lookup_says_why() {
    let res = outcome(&lookup(DnsFamily::V4), vec![Err(ErrorCode::Timeout)]);
    assert_eq!(
        message(res.unwrap().unwrap_err()),
        format!("DNS: resolution failed for 'example.com': {TIMEOUT}")
    );
}

#[test]
fn a_lookup_that_does_not_start_says_why() {
    assert_eq!(
        message(lookup(DnsFamily::V4).start_failed(ErrorCode::Timeout)),
        format!("DNS: could not start resolution for 'example.com': {TIMEOUT}")
    );
}

#[test]
fn waiting_and_passing_over_are_told_apart() {
    let lookup = lookup(DnsFamily::V4);
    assert!(matches!(lookup.answered(Err(ErrorCode::WouldBlock)), LookupStep::Wait));
    assert!(matches!(
        lookup.answered(Ok(Some(IpAddress::Ipv6((0, 0, 0, 0, 0, 0, 0, 1))))),
        LookupStep::Next
    ));
    assert!(outcome(&lookup, vec![Err(ErrorCode::WouldBlock)]).is_none());
}

#[test]
fn an_earlier_end_hides_a_match() {
    let ip = || Ok(Some(IpAddress::Ipv4((10, 0, 0, 1))));
    let ended = outcome(&lookup(DnsFamily::V4), vec![Ok(None), ip()]);
    assert!(ended.unwrap().is_err());
    let failed = outcome(&lookup(DnsFamily::V4), vec![Err(ErrorCode::Timeout), ip()]);
    assert!(failed.unwrap().is_err());
    let waited = outcome(&lookup(DnsFamily::V4), vec![Err(ErrorCode::WouldBlock), ip()]);
    assert!(waited.unwrap().is_ok());
}
