//! Tests for the concurrency primitives and the task scheduler.

use crowd::late::LateInit;
use crowd::lazy::{u32_to_state, LazyState, LazyUpdate};
use crowd::tasker::{Task, Tasker};

#[test]
fn test_u32_to_state() {
    assert_eq!(u32_to_state(0), LazyState::Uninit);
    assert_eq!(u32_to_state(1), LazyState::Initialized);
    assert_eq!(u32_to_state(2), LazyState::Updating);
}

#[test]
fn test_lazy_update_runs_updater_with_previous_value() {
    let mut cell: LazyUpdate<u32> = LazyUpdate::new();
    assert_eq!(cell.state(), LazyState::Uninit);

    let ran = cell.update(|prev| {
        assert!(prev.is_none());
        5
    });
    assert!(ran);
    assert_eq!(cell.state(), LazyState::Initialized);
    assert_eq!(*cell.get(), 5);

    let ran = cell.update(|prev| prev.unwrap() + 1);
    assert!(ran);
    assert_eq!(*cell.get(), 6);
}

#[test]
fn test_lazy_update_single_winner_per_transition() {
    let mut cell: LazyUpdate<u32> = LazyUpdate::new();
    // The first caller wins the transition...
    assert!(cell.begin_update());
    assert_eq!(cell.state(), LazyState::Updating);
    // ...and every caller arriving before it finishes loses.
    assert!(!cell.begin_update());
    assert!(!cell.begin_update());
    cell.finish_update(9);
    assert_eq!(cell.state(), LazyState::Initialized);
    assert_eq!(*cell.get(), 9);
    // A finished transition reopens the cell for the next one.
    assert!(cell.begin_update());
    cell.finish_update(10);
    assert_eq!(*cell.get(), 10);
}

#[test]
fn test_lazy_force_runs_only_once() {
    let mut cell: LazyUpdate<u32> = LazyUpdate::new();
    let mut runs: u32 = 0;
    assert!(cell.force(|_| {
        runs += 1;
        3
    }));
    assert!(!cell.force(|_| {
        runs += 1;
        4
    }));
    assert_eq!(*cell.get(), 3);
    assert_eq!(runs, 1);
}

#[test]
fn test_late_init_runs_initializer_exactly_once() {
    let mut slot: LateInit<u32> = LateInit::new();
    let mut runs: u32 = 0;
    assert!(slot.ensure_initialized(|| {
        runs += 1;
        42
    }));
    assert_eq!(*slot.get(), 42);
    assert!(!slot.ensure_initialized(|| {
        runs += 1;
        7
    }));
    assert_eq!(*slot.get(), 42);
    assert_eq!(runs, 1);
}

#[test]
fn test_task_flags() {
    let t = Task::new("plain".to_string());
    assert!(!t.is_blocking());
    assert_eq!(t.name(), "plain");
    let b = Task::new_blocking("heavy".to_string());
    assert!(b.is_blocking());
    assert_eq!(b.name(), "heavy");
}

#[test]
fn test_one_worker_processes_five_tasks_exactly_once() {
    let mut tasker = Tasker::new(1);
    for i in 0..5u32 {
        tasker.sched(Task::new(format!("task-{}", i)));
    }
    assert_eq!(tasker.queue_len(), 5);
    tasker.run_worker(0);
    // All five were processed, each exactly once.
    assert_eq!(tasker.worker_processed(0), 5);
    assert_eq!(tasker.queue_len(), 0);
    // Nothing is left to process.
    tasker.run_worker(0);
    assert_eq!(tasker.worker_processed(0), 5);
}

#[test]
fn test_worker_takes_tasks_in_order() {
    let mut tasker = Tasker::new(1);
    tasker.sched(Task::new("first".to_string()));
    tasker.sched(Task::new("second".to_string()));
    let a = tasker.worker_step(0).expect("a task is queued");
    assert_eq!(a.name(), "first");
    let b = tasker.worker_step(0).expect("a task is queued");
    assert_eq!(b.name(), "second");
    assert!(tasker.worker_step(0).is_none());
}

#[test]
fn test_sched_many_keeps_order() {
    let mut tasker = Tasker::new(2);
    let batch = vec![
        Task::new("a".to_string()),
        Task::new_blocking("b".to_string()),
        Task::new("c".to_string()),
    ];
    tasker.sched_many(batch);
    assert_eq!(tasker.queue_len(), 3);
    assert_eq!(tasker.worker_step(0).expect("queued").name(), "a");
    let b = tasker.worker_step(1).expect("queued");
    assert_eq!(b.name(), "b");
    assert!(b.is_blocking());
    assert_eq!(tasker.worker_step(0).expect("queued").name(), "c");
    assert_eq!(tasker.worker_processed(0), 2);
    assert_eq!(tasker.worker_processed(1), 1);
}

#[test]
fn test_disposal_wins_and_queue_is_not_drained() {
    let mut tasker = Tasker::new(1);
    tasker.sched(Task::new("left".to_string()));
    tasker.sched(Task::new("behind".to_string()));
    tasker.dispose();
    // Disposal ends the worker's turn at once, without draining.
    assert!(tasker.worker_step(0).is_none());
    assert_eq!(tasker.queue_len(), 2);
    assert_eq!(tasker.worker_processed(0), 0);
    // Scheduling after disposal still enqueues; nothing runs it.
    tasker.sched(Task::new("late".to_string()));
    assert_eq!(tasker.queue_len(), 3);
}
