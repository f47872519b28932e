use mini_executor::timer::{TaskPoll, TimerState, TIMER_OUTPUT};

#[test]
fn pending_poll_then_fire_wakes_and_completes() {
    let mut t = TimerState::new();
    assert!(!t.is_complete());
    assert_eq!(t.poll(), TaskPoll::Pending);
    assert!(t.fire());
    assert!(t.is_complete());
    assert_eq!(t.poll(), TaskPoll::Ready(1));
}

#[test]
fn fire_before_poll_needs_no_wake() {
    let mut t = TimerState::new();
    assert!(!t.fire());
    assert_eq!(t.poll(), TaskPoll::Ready(TIMER_OUTPUT));
    assert_eq!(t.poll(), TaskPoll::Ready(1));
}
