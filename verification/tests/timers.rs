use libp2p_wasi_sockets::timer::DelayState;
use libp2p_wasi_sockets::Poll;

#[test]
fn a_delay_wakes_the_latest_who_waits() {
    let mut delay = DelayState::new();
    assert!(matches!(delay.poll("first"), Poll::Pending));
    assert!(matches!(delay.poll("second"), Poll::Pending));
    assert_eq!(delay.fire(), Some("second"));
    assert!(matches!(delay.poll("third"), Poll::Ready(())));
    assert_eq!(delay.fire(), None);
    assert!(matches!(delay.poll("fourth"), Poll::Ready(())));
}

#[test]
fn a_delay_nobody_waits_for_wakes_nobody() {
    let mut delay: DelayState<u8> = DelayState::new();
    assert_eq!(delay.fire(), None);
    assert!(matches!(delay.poll(1), Poll::Ready(())));
}
