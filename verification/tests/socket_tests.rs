use mini_executor::socket::{
    connect_step, ConnectEvent, ConnectStep, PeerError, Socket, SocketPoll, RETRY_OS_ERROR,
};

// Polling before any data is registered for the socket: the poll is pending
// and leaves a waker; the data that arrives afterwards wakes the task and the
// next poll returns it.
#[test]
fn test_poll_before_regist() {
    let mut s = Socket::new(7);
    assert!(!s.is_readable());
    assert_eq!(s.poll(), SocketPoll::Pending);
    assert!(s.accepts(true, 7));
    assert!(s.deliver(vec![1, 2, 3]));
    assert!(s.is_readable());
    assert_eq!(s.poll(), SocketPoll::Ready(vec![1, 2, 3]));
}

#[test]
fn delivery_without_waker_asks_no_wake() {
    let mut s = Socket::new(1);
    assert!(!s.deliver(vec![9]));
    assert_eq!(s.poll(), SocketPoll::Ready(vec![9]));
}

#[test]
fn readable_socket_waits_for_next_bytes() {
    let mut s = Socket::new(1);
    s.deliver(vec![1]);
    assert_eq!(s.poll(), SocketPoll::Ready(vec![1]));
    assert!(s.is_readable());
    assert_eq!(s.poll(), SocketPoll::Waiting);
    s.deliver(vec![2]);
    assert_eq!(s.poll(), SocketPoll::Ready(vec![2]));
}

#[test]
fn readable_socket_with_reader_gone_is_closed() {
    let mut s = Socket::new(1);
    s.deliver(vec![4]);
    s.reader_gone();
    assert_eq!(s.poll(), SocketPoll::Ready(vec![4]));
    assert_eq!(s.poll(), SocketPoll::Closed);
}

#[test]
fn deliveries_come_out_in_order() {
    let mut s = Socket::new(2);
    s.deliver(vec![1]);
    s.deliver(vec![2, 2]);
    assert_eq!(s.poll(), SocketPoll::Ready(vec![1]));
    assert_eq!(s.poll(), SocketPoll::Ready(vec![2, 2]));
}

#[test]
fn only_readable_events_with_own_token_are_read() {
    let s = Socket::new(5);
    assert_eq!(s.id(), 5);
    assert!(s.accepts(true, 5));
    assert!(!s.accepts(false, 5));
    assert!(!s.accepts(true, 6));
}

#[test]
fn connect_steps() {
    assert_eq!(connect_step(ConnectEvent::NotWritable), ConnectStep::Continue);
    assert_eq!(connect_step(ConnectEvent::WritableWithPeer), ConnectStep::Connected);
    let not_connected = PeerError { not_connected: true, raw_os_error: Some(107) };
    assert_eq!(connect_step(ConnectEvent::WritableWithoutPeer(not_connected)), ConnectStep::Continue);
    let retry = PeerError { not_connected: false, raw_os_error: Some(RETRY_OS_ERROR) };
    assert_eq!(connect_step(ConnectEvent::WritableWithoutPeer(retry)), ConnectStep::Continue);
    let refused = PeerError { not_connected: false, raw_os_error: Some(111) };
    assert_eq!(connect_step(ConnectEvent::WritableWithoutPeer(refused)), ConnectStep::Failed);
    let no_code = PeerError { not_connected: false, raw_os_error: None };
    assert_eq!(connect_step(ConnectEvent::WritableWithoutPeer(no_code)), ConnectStep::Failed);
}
