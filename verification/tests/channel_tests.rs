use mini_executor::channel::{Channel, TryRecvError, TrySendError, CHANNEL_CAPACITY};

#[test]
fn fifo_order_is_kept() {
    let mut c: Channel<u32> = Channel::bounded(4);
    assert_eq!(c.try_send(10), Ok(()));
    assert_eq!(c.try_send(20), Ok(()));
    assert_eq!(c.try_send(30), Ok(()));
    assert_eq!(c.len(), 3);
    assert_eq!(c.try_recv(), Ok(10));
    assert_eq!(c.try_recv(), Ok(20));
    assert_eq!(c.try_recv(), Ok(30));
    assert_eq!(c.try_recv(), Err(TryRecvError::Empty));
}

#[test]
fn round_trip_restores_empty_queue() {
    let mut c: Channel<&str> = Channel::bounded(1);
    assert_eq!(c.try_send("x"), Ok(()));
    assert_eq!(c.try_recv(), Ok("x"));
    assert_eq!(c.len(), 0);
    assert_eq!(c.sender_count(), 1);
    assert!(c.receiver_alive());
}

#[test]
fn full_bounded_queue_hands_message_back() {
    let mut c: Channel<u8> = Channel::bounded(2);
    assert_eq!(c.try_send(1), Ok(()));
    assert_eq!(c.try_send(2), Ok(()));
    assert_eq!(c.try_send(3), Err(TrySendError::Full(3)));
    assert_eq!(c.len(), 2);
    assert_eq!(c.try_recv(), Ok(1));
    assert_eq!(c.try_send(3), Ok(()));
    assert_eq!(c.try_recv(), Ok(2));
    assert_eq!(c.try_recv(), Ok(3));
}

#[test]
fn runtime_capacity_is_enforced() {
    let mut c: Channel<usize> = Channel::bounded(CHANNEL_CAPACITY);
    for i in 0..CHANNEL_CAPACITY {
        assert_eq!(c.try_send(i), Ok(()));
    }
    assert_eq!(c.try_send(9999), Err(TrySendError::Full(9999)));
    assert_eq!(c.len(), 1024);
}

#[test]
fn unbounded_queue_never_full() {
    let mut c: Channel<usize> = Channel::unbounded();
    for i in 0..5000 {
        assert_eq!(c.try_send(i), Ok(()));
    }
    assert_eq!(c.len(), 5000);
    assert_eq!(c.try_recv(), Ok(0));
}

#[test]
fn send_after_receiver_dropped_is_disconnected() {
    let mut c: Channel<u8> = Channel::bounded(4);
    assert_eq!(c.try_send(1), Ok(()));
    c.drop_receiver();
    assert!(!c.receiver_alive());
    assert_eq!(c.len(), 0);
    assert_eq!(c.try_send(5), Err(TrySendError::Disconnected(5)));
}

#[test]
fn queued_messages_drain_before_disconnect() {
    let mut c: Channel<u8> = Channel::bounded(4);
    assert_eq!(c.try_send(7), Ok(()));
    assert_eq!(c.try_send(8), Ok(()));
    c.drop_sender();
    assert_eq!(c.sender_count(), 0);
    assert_eq!(c.try_recv(), Ok(7));
    assert_eq!(c.try_recv(), Ok(8));
    assert_eq!(c.try_recv(), Err(TryRecvError::Disconnected));
    assert_eq!(c.try_recv(), Err(TryRecvError::Disconnected));
}

#[test]
fn cloned_sender_keeps_queue_connected() {
    let mut c: Channel<u8> = Channel::bounded(4);
    c.add_sender();
    assert_eq!(c.sender_count(), 2);
    c.drop_sender();
    assert_eq!(c.try_recv(), Err(TryRecvError::Empty));
    c.drop_sender();
    assert_eq!(c.try_recv(), Err(TryRecvError::Disconnected));
}
