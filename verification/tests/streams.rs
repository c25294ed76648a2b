use libp2p_wasi_sockets::stream::{
    unsupported, FlushAction, ReadAction, WriteAction, WriteState,
};
use libp2p_wasi_sockets::{ErrorKind, IpAddr, Ipv4Addr, Poll, SocketAddr, WasiTcpStream};

fn ready_read(bytes: &[u8], n: usize) -> Poll<Result<(Vec<u8>, usize), i32>> {
    Poll::Ready(Ok((bytes.to_vec(), n)))
}

#[test]
fn unsupported_says_where_it_works() {
    let e = unsupported();
    assert_eq!(e.kind, ErrorKind::Unsupported);
    assert_eq!(e.message, "WasiTcpStream is only functional on wasm32-wasip2");
}

#[test]
fn a_new_stream_is_idle_and_knows_its_peer() {
    let peer = Some(SocketAddr::new(IpAddr::V4(Ipv4Addr(1, 2, 3, 4)), 5));
    let stream = WasiTcpStream::from_raw(peer);
    assert_eq!(stream.peer_addr(), peer);
    assert!(!stream.is_reading());
    assert_eq!(stream.write_state(), WriteState::Idle);
    assert_eq!(WasiTcpStream::from_raw(None).peer_addr(), None);
}

#[test]
fn a_read_is_started_once_and_polled_until_it_is_ready() {
    let mut stream = WasiTcpStream::from_raw(None);
    let mut buf = [7u8; 4];
    assert_eq!(stream.begin_read(buf.len()), ReadAction::Start { len: 4 });
    assert!(matches!(stream.poll_read::<i32>(&mut buf, Poll::Pending), Poll::Pending));
    assert!(stream.is_reading());
    assert_eq!(stream.begin_read(buf.len()), ReadAction::Resume);
    assert!(matches!(
        stream.poll_read(&mut buf, ready_read(&[1, 2, 3, 0], 3)),
        Poll::Ready(Ok(3))
    ));
    assert_eq!(buf, [1, 2, 3, 7]);
    assert!(!stream.is_reading());
    assert_eq!(stream.begin_read(2), ReadAction::Start { len: 2 });
}

#[test]
fn a_read_gives_no_more_than_fits() {
    let mut stream = WasiTcpStream::from_raw(None);
    let mut buf = [0u8; 2];
    assert_eq!(stream.begin_read(4), ReadAction::Start { len: 4 });
    assert!(matches!(
        stream.poll_read(&mut buf, ready_read(&[1, 2, 3, 4], 4)),
        Poll::Ready(Ok(2))
    ));
    assert_eq!(buf, [1, 2]);
}

#[test]
fn the_end_of_the_stream_reads_nothing() {
    let mut stream = WasiTcpStream::from_raw(None);
    let mut buf = [9u8; 3];
    stream.begin_read(3);
    assert!(matches!(stream.poll_read(&mut buf, ready_read(&[0, 0, 0], 0)), Poll::Ready(Ok(0))));
    assert_eq!(buf, [9, 9, 9]);
}

#[test]
fn a_failed_read_passes_its_error_on() {
    let mut stream = WasiTcpStream::from_raw(None);
    let mut buf = [9u8; 3];
    stream.begin_read(3);
    assert!(matches!(stream.poll_read(&mut buf, Poll::Ready(Err(42))), Poll::Ready(Err(42))));
    assert_eq!(buf, [9, 9, 9]);
    assert!(!stream.is_reading());
}

#[test]
fn a_flush_waits_for_the_write_in_flight() {
    let mut stream = WasiTcpStream::from_raw(None);
    assert_eq!(stream.begin_write(b"abc"), WriteAction::Start { data: b"abc".to_vec() });
    assert!(matches!(stream.poll_write::<i32>(Poll::Pending), Poll::Pending));
    assert_eq!(stream.begin_flush(), FlushAction::Blocked);
    assert_eq!(stream.write_state(), WriteState::Writing);
    assert_eq!(stream.begin_write(b"abc"), WriteAction::Resume);
    assert!(matches!(stream.poll_write::<i32>(Poll::Ready(Ok(5))), Poll::Ready(Ok(5))));
    assert_eq!(stream.begin_flush(), FlushAction::Start);
}

#[test]
fn a_write_waits_for_the_flush_in_flight() {
    let mut stream = WasiTcpStream::from_raw(None);
    assert_eq!(stream.begin_flush(), FlushAction::Start);
    assert!(matches!(stream.poll_flush::<i32>(Poll::Pending), Poll::Pending));
    assert_eq!(stream.begin_write(b"abc"), WriteAction::Blocked);
    assert_eq!(stream.write_state(), WriteState::Flushing);
    assert_eq!(stream.begin_flush(), FlushAction::Resume);
    assert!(matches!(stream.poll_flush::<i32>(Poll::Ready(Err(3))), Poll::Ready(Err(3))));
    assert_eq!(stream.write_state(), WriteState::Idle);
    assert_eq!(stream.begin_write(b"abc"), WriteAction::Start { data: b"abc".to_vec() });
}

#[test]
fn reading_and_writing_do_not_disturb_each_other() {
    let mut stream = WasiTcpStream::from_raw(None);
    stream.begin_read(1);
    assert_eq!(stream.begin_write(b"abc"), WriteAction::Start { data: b"abc".to_vec() });
    assert!(stream.is_reading());
    assert_eq!(stream.write_state(), WriteState::Writing);
}

#[test]
fn a_write_in_flight_keeps_its_bytes() {
    let mut stream = WasiTcpStream::from_raw(None);
    assert_eq!(stream.begin_write(&[1, 2, 3]), WriteAction::Start { data: vec![1, 2, 3] });
    assert!(matches!(stream.poll_write::<i32>(Poll::Pending), Poll::Pending));
    assert_eq!(stream.begin_write(&[9]), WriteAction::Resume);
    assert!(matches!(stream.poll_write::<i32>(Poll::Pending), Poll::Pending));
    assert_eq!(stream.begin_write(&[]), WriteAction::Resume);
    assert!(matches!(stream.poll_write::<i32>(Poll::Ready(Ok(2))), Poll::Ready(Ok(2))));
    assert_eq!(stream.begin_write(&[3]), WriteAction::Start { data: vec![3] });
    assert!(matches!(stream.poll_write(Poll::Ready(Err(8))), Poll::Ready(Err(8))));
    assert_eq!(stream.begin_write(&[]), WriteAction::Start { data: vec![] });
}

#[test]
fn reads_that_fit_give_all_bytes_in_order() {
    let mut stream = WasiTcpStream::from_raw(None);
    let mut got = vec![];
    let reads: Vec<&[u8]> = vec![&[1, 2], &[3, 4, 5], &[], &[6]];
    for bytes in reads {
        let mut buf = [0u8; 3];
        assert_eq!(stream.begin_read(buf.len()), ReadAction::Start { len: 3 });
        assert!(matches!(stream.poll_read::<i32>(&mut buf, Poll::Pending), Poll::Pending));
        assert_eq!(stream.begin_read(buf.len()), ReadAction::Resume);
        match stream.poll_read(&mut buf, ready_read(bytes, bytes.len())) {
            Poll::Ready(Ok(n)) => got.extend_from_slice(&buf[..n]),
            other => panic!("{other:?}"),
        }
    }
    assert_eq!(got, vec![1, 2, 3, 4, 5, 6]);
}
