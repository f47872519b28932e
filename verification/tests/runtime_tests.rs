use mini_executor::runtime::{create_runtime, SpawnOutcome, Step, TaskState, WakeOutcome};

#[test]
fn new_runtime_is_idle() {
    let mut rt = create_runtime();
    assert_eq!(rt.task_count(), 0);
    assert_eq!(rt.queued(), 0);
    assert!(rt.spawner_alive());
    assert!(rt.executor_alive());
    assert_eq!(rt.next_task(), Step::Idle);
}

#[test]
fn spawned_tasks_are_polled_in_spawn_order() {
    let mut rt = create_runtime();
    assert_eq!(rt.spawn(), SpawnOutcome::Queued(0));
    assert_eq!(rt.spawn(), SpawnOutcome::Queued(1));
    assert_eq!(rt.spawn(), SpawnOutcome::Queued(2));
    assert_eq!(rt.queued(), 3);
    assert_eq!(rt.next_task(), Step::Poll(0));
    assert_eq!(rt.next_task(), Step::Poll(1));
    assert_eq!(rt.next_task(), Step::Poll(2));
    assert_eq!(rt.next_task(), Step::Idle);
}

#[test]
fn woken_task_is_polled_again() {
    let mut rt = create_runtime();
    assert_eq!(rt.spawn(), SpawnOutcome::Queued(0));
    assert_eq!(rt.next_task(), Step::Poll(0));
    assert_eq!(rt.next_task(), Step::Idle);
    assert_eq!(rt.wake(0), WakeOutcome::Queued);
    assert_eq!(rt.next_task(), Step::Poll(0));
}

#[test]
fn wake_goes_behind_queued_tasks() {
    let mut rt = create_runtime();
    assert_eq!(rt.spawn(), SpawnOutcome::Queued(0));
    assert_eq!(rt.next_task(), Step::Poll(0));
    assert_eq!(rt.spawn(), SpawnOutcome::Queued(1));
    assert_eq!(rt.wake(0), WakeOutcome::Queued);
    assert_eq!(rt.next_task(), Step::Poll(1));
    assert_eq!(rt.next_task(), Step::Poll(0));
}

#[test]
fn woken_finished_task_blocks_next_step() {
    let mut rt = create_runtime();
    assert_eq!(rt.spawn(), SpawnOutcome::Queued(0));
    assert!(rt.head_live());
    assert_eq!(rt.next_task(), Step::Poll(0));
    rt.complete(0);
    assert_eq!(rt.task_state(0), TaskState::Completed);
    assert_eq!(rt.wake(0), WakeOutcome::Queued);
    assert_eq!(rt.peek(), Some(0));
    assert!(rt.is_queued(0));
    assert!(!rt.head_live());
}

#[test]
fn peek_and_is_queued_follow_the_queue() {
    let mut rt = create_runtime();
    assert_eq!(rt.peek(), None);
    assert_eq!(rt.spawn(), SpawnOutcome::Queued(0));
    assert_eq!(rt.spawn(), SpawnOutcome::Queued(1));
    assert_eq!(rt.peek(), Some(0));
    assert!(rt.is_queued(1));
    assert_eq!(rt.next_task(), Step::Poll(0));
    assert!(!rt.is_queued(0));
    assert_eq!(rt.peek(), Some(1));
}

#[test]
fn executor_stops_only_when_all_done() {
    let mut rt = create_runtime();
    assert_eq!(rt.spawn(), SpawnOutcome::Queued(0));
    rt.drop_spawner();
    assert!(!rt.spawner_alive());
    assert_eq!(rt.next_task(), Step::Poll(0));
    assert_eq!(rt.next_task(), Step::Idle);
    rt.complete(0);
    assert_eq!(rt.next_task(), Step::Idle);
    rt.release(0);
    assert_eq!(rt.task_state(0), TaskState::Released);
    assert_eq!(rt.next_task(), Step::Stop);
    assert!(!rt.executor_alive());
}

#[test]
fn completed_task_with_waker_keeps_executor_waiting() {
    let mut rt = create_runtime();
    assert_eq!(rt.spawn(), SpawnOutcome::Queued(0));
    assert_eq!(rt.next_task(), Step::Poll(0));
    rt.complete(0);
    rt.drop_spawner();
    assert_eq!(rt.next_task(), Step::Idle);
    assert_eq!(rt.wake(0), WakeOutcome::Queued);
    assert!(!rt.head_live());
}

#[test]
fn pending_task_released_without_completing() {
    let mut rt = create_runtime();
    assert_eq!(rt.spawn(), SpawnOutcome::Queued(0));
    assert_eq!(rt.next_task(), Step::Poll(0));
    rt.release(0);
    assert_eq!(rt.task_state(0), TaskState::Released);
    rt.drop_spawner();
    assert_eq!(rt.next_task(), Step::Stop);
}

#[test]
fn spawner_alive_keeps_executor_running() {
    let mut rt = create_runtime();
    assert_eq!(rt.spawn(), SpawnOutcome::Queued(0));
    assert_eq!(rt.next_task(), Step::Poll(0));
    rt.complete(0);
    rt.release(0);
    assert_eq!(rt.next_task(), Step::Idle);
    rt.drop_spawner();
    assert_eq!(rt.next_task(), Step::Stop);
}

#[test]
fn full_queue_blocks_spawn_and_wake() {
    let mut rt = create_runtime();
    for i in 0..1024usize {
        assert_eq!(rt.spawn(), SpawnOutcome::Queued(i));
    }
    assert_eq!(rt.queued(), 1024);
    assert_eq!(rt.spawn(), SpawnOutcome::Full);
    assert_eq!(rt.task_count(), 1024);
    assert_eq!(rt.wake(3), WakeOutcome::Full);
    assert_eq!(rt.next_task(), Step::Poll(0));
    assert_eq!(rt.spawn(), SpawnOutcome::Queued(1024));
}

#[test]
fn spawn_after_executor_gone_is_rejected() {
    let mut rt = create_runtime();
    assert_eq!(rt.spawn(), SpawnOutcome::Queued(0));
    rt.drop_executor();
    assert!(!rt.executor_alive());
    assert_eq!(rt.queued(), 0);
    assert!(!rt.is_queued(0));
    assert_eq!(rt.task_state(0), TaskState::Live);
    assert_eq!(rt.spawn(), SpawnOutcome::Rejected(1));
    assert_eq!(rt.task_state(1), TaskState::Released);
    assert_eq!(rt.wake(0), WakeOutcome::Dropped);
    rt.release(0);
    assert_eq!(rt.task_state(0), TaskState::Released);
}

#[test]
fn dropped_executor_lets_every_task_be_released() {
    let mut rt = create_runtime();
    assert_eq!(rt.spawn(), SpawnOutcome::Queued(0));
    assert_eq!(rt.spawn(), SpawnOutcome::Queued(1));
    assert_eq!(rt.spawn(), SpawnOutcome::Queued(2));
    rt.drop_executor();
    for id in 0..3usize {
        assert!(!rt.is_queued(id));
        rt.release(id);
        assert_eq!(rt.task_state(id), TaskState::Released);
    }
    assert_eq!(rt.task_count(), 3);
    assert!(rt.spawner_alive());
}
