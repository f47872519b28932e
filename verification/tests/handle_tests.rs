use mini_executor::channel::TryRecvError;
use mini_executor::handle::Handle;

#[test]
fn get_data_before_completion_is_empty() {
    let mut h: Handle<u64> = Handle::new();
    assert!(h.task_alive());
    assert_eq!(h.get_data(), Err(TryRecvError::Empty));
    assert_eq!(h.get_data(), Err(TryRecvError::Empty));
}

#[test]
fn get_data_returns_output_once() {
    let mut h: Handle<String> = Handle::new();
    h.complete(String::from("done"));
    assert!(!h.task_alive());
    assert_eq!(h.get_data(), Ok(String::from("done")));
    assert_eq!(h.get_data(), Err(TryRecvError::Disconnected));
    assert_eq!(h.get_data(), Err(TryRecvError::Disconnected));
}

#[test]
fn abandoned_task_disconnects_handle() {
    let mut h: Handle<u8> = Handle::new();
    h.abandon();
    assert!(!h.task_alive());
    assert_eq!(h.get_data(), Err(TryRecvError::Disconnected));
}

#[test]
fn handle_yields_at_most_one_value() {
    let mut h: Handle<u32> = Handle::new();
    h.complete(5);
    assert_eq!(h.get_data(), Ok(5));
    assert!(!h.task_alive());
    for _ in 0..3 {
        assert_eq!(h.get_data(), Err(TryRecvError::Disconnected));
    }
}
