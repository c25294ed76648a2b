use std::time::Duration;

use libp2p_wasi_sockets::duration::{
    keep_alive_nanos, saturated_nanos, timer_nanos, truncated_nanos,
};
use libp2p_wasi_sockets::{Config, WasiTcpTransport};

#[test]
fn default_config_nodelay() {
    let config = Config::default();
    assert!(config.nodelay);
}

#[test]
fn default_config_no_keepalive() {
    let config = Config::default();
    assert!(config.keep_alive.is_none());
}

#[test]
fn default_config_backlog() {
    let config = Config::default();
    assert_eq!(config.listen_backlog, 128);
}

#[test]
fn transport_default_constructs() {
    let _t = WasiTcpTransport::default();
}

#[test]
fn config_clone_is_the_same() {
    let config = Config {
        nodelay: false,
        keep_alive: Some(Duration::from_secs(7)),
        listen_backlog: 3,
    };
    let copy = config.clone();
    assert!(!copy.nodelay);
    assert_eq!(copy.keep_alive, Some(Duration::from_secs(7)));
    assert_eq!(copy.listen_backlog, 3);
}

#[test]
fn keep_alive_counts_nanoseconds() {
    assert_eq!(keep_alive_nanos(Duration::from_secs(30)), 30_000_000_000);
    assert_eq!(keep_alive_nanos(Duration::new(1, 5)), 1_000_000_005);
    assert_eq!(keep_alive_nanos(Duration::ZERO), 0);
}

#[test]
fn keep_alive_is_cut_to_64_bits() {
    assert_eq!(truncated_nanos(u64::MAX as u128), u64::MAX);
    assert_eq!(truncated_nanos(u64::MAX as u128 + 1), 0);
    assert_eq!(truncated_nanos(u64::MAX as u128 + 6), 5);
    let long = Duration::from_nanos(u64::MAX) + Duration::from_nanos(3);
    assert_eq!(keep_alive_nanos(long), 2);
}

#[test]
fn timer_stops_at_the_longest_time() {
    assert_eq!(saturated_nanos(12), 12);
    assert_eq!(saturated_nanos(u64::MAX as u128 + 1), u64::MAX);
    assert_eq!(timer_nanos(Duration::from_millis(15)), 15_000_000);
    assert_eq!(timer_nanos(Duration::from_nanos(u64::MAX)), u64::MAX);
    assert_eq!(timer_nanos(Duration::MAX), u64::MAX);
}
