use dbos::task::executor::Executor;
use dbos::task::Task;

#[test]
fn executor_runs_spawned_tasks_in_wake_order() {
    let mut counter: u64 = 0;
    let mut executor = Executor::new();
    let t1 = Task::new(&mut counter);
    let t2 = Task::new(&mut counter);
    let id1 = t1.id();
    let id2 = t2.id();
    executor.spawn(t1);
    executor.spawn(t2);
    assert!(!executor.should_sleep());
    assert_eq!(executor.pop_woken(), Some(id1));
    assert_eq!(executor.pop_woken(), Some(id2));
    assert_eq!(executor.pop_woken(), None);
    assert!(executor.should_sleep());
}

#[test]
fn executor_skips_stale_wakes_and_drops_finished_tasks() {
    let mut counter: u64 = 0;
    let mut executor = Executor::new();
    let task = Task::new(&mut counter);
    let id = task.id();
    executor.spawn(task);
    assert_eq!(executor.pop_woken(), Some(id));
    assert!(executor.is_registered(id));
    // First poll needs a fresh waker, a re-poll reuses the cached one.
    assert!(executor.prepare_waker(id));
    assert!(!executor.prepare_waker(id));
    // The task finishes: it is gone, and a late wake finds it stale.
    executor.task_finished(id);
    assert!(!executor.is_registered(id));
    executor.wake_task(id);
    assert_eq!(executor.pop_woken(), Some(id));
    assert!(!executor.is_registered(id));
}
