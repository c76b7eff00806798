use echo_supervisor::registry::Tasks;
use std::sync::Arc;
use tokio::runtime::{Builder, Runtime};
use tokio::sync::Notify;
use tokio::task::{yield_now, Id, JoinHandle};

fn runtime() -> Runtime {
    Builder::new_current_thread().enable_all().build().unwrap()
}

/// A task that ends as soon as it is polled.
fn short() -> JoinHandle<()> {
    tokio::spawn(async {})
}

/// A task that runs until `gate` is opened.
fn held_by(gate: &Arc<Notify>) -> JoinHandle<()> {
    let gate = gate.clone();
    tokio::spawn(async move {
        gate.notified().await;
    })
}

/// Gives every spawned task a chance to run.
async fn settle() {
    for _ in 0..16 {
        yield_now().await;
    }
}

fn ids(handles: &[JoinHandle<()>]) -> Vec<Id> {
    handles.iter().map(|h| h.id()).collect()
}

#[test]
fn new_registry_is_empty() {
    let tasks: Tasks<()> = Tasks::new();
    assert_eq!(tasks.len(), 0);
    let tasks: Tasks<u8> = Tasks::default();
    assert_eq!(tasks.len(), 0);
}

#[test]
fn add_appends_in_order() {
    runtime().block_on(async {
        let mut tasks = Tasks::new();
        let mut want = Vec::new();
        for n in 1..=5usize {
            let handle = short();
            want.push(handle.id());
            tasks.add(handle);
            assert_eq!(tasks.len(), n);
        }
        assert_eq!(ids(&tasks.take_all()), want);
    });
}

#[test]
fn take_all_empties_the_registry() {
    runtime().block_on(async {
        let mut tasks = Tasks::new();
        tasks.add(short());
        tasks.add(short());
        let handles = tasks.take_all();
        assert_eq!(handles.len(), 2);
        assert_eq!(tasks.len(), 0);
        assert_eq!(tasks.take_all().len(), 0);
        for handle in handles {
            handle.await.unwrap();
        }
    });
}

#[test]
fn remove_finished_keeps_running_tasks() {
    runtime().block_on(async {
        let gate = Arc::new(Notify::new());
        let mut tasks = Tasks::new();
        tasks.add(short());
        let first = held_by(&gate);
        let first_id = first.id();
        tasks.add(first);
        tasks.add(short());
        let second = held_by(&gate);
        let second_id = second.id();
        tasks.add(second);
        tasks.add(short());
        settle().await;

        tasks.remove_finished_tasks();
        assert_eq!(tasks.len(), 2);
        tasks.remove_finished_tasks();
        assert_eq!(tasks.len(), 2);

        let left = tasks.take_all();
        assert_eq!(ids(&left), vec![first_id, second_id]);
        assert!(left.iter().all(|h| !h.is_finished()));
        gate.notify_waiters();
        for handle in left {
            handle.await.unwrap();
        }
    });
}

#[test]
fn remove_finished_removes_nothing_while_all_run() {
    runtime().block_on(async {
        let gate = Arc::new(Notify::new());
        let mut tasks = Tasks::new();
        for _ in 0..4 {
            tasks.add(held_by(&gate));
        }
        settle().await;
        tasks.remove_finished_tasks();
        assert_eq!(tasks.len(), 4);
        gate.notify_waiters();
        settle().await;
        tasks.remove_finished_tasks();
        assert_eq!(tasks.len(), 0);
    });
}

#[test]
fn remove_finished_on_an_empty_registry() {
    let mut tasks: Tasks<()> = Tasks::new();
    tasks.remove_finished_tasks();
    assert_eq!(tasks.len(), 0);
}

#[test]
fn panicked_task_counts_as_finished() {
    runtime().block_on(async {
        let mut tasks: Tasks<()> = Tasks::new();
        tasks.add(tokio::spawn(async {
            panic!("handler failed");
        }));
        settle().await;
        tasks.remove_finished_tasks();
        assert_eq!(tasks.len(), 0);
    });
}

#[test]
fn observe_asks_every_task() {
    runtime().block_on(async {
        let gate = Arc::new(Notify::new());
        let mut tasks = Tasks::new();
        tasks.add(held_by(&gate));
        tasks.add(short());
        tasks.add(held_by(&gate));
        settle().await;
        assert_eq!(tasks.observe(), vec![false, true, false]);
        assert_eq!(tasks.len(), 3);
        gate.notify_waiters();
        settle().await;
        assert_eq!(tasks.observe(), vec![true, true, true]);
    });
}

#[test]
fn retain_unfinished_follows_the_observations() {
    runtime().block_on(async {
        let mut tasks = Tasks::new();
        let mut all = Vec::new();
        for _ in 0..5 {
            let handle = short();
            all.push(handle.id());
            tasks.add(handle);
        }
        tasks.retain_unfinished(&vec![true, false, false, true, false]);
        assert_eq!(tasks.len(), 3);
        tasks.retain_unfinished(&vec![false, true, false]);
        assert_eq!(ids(&tasks.take_all()), vec![all[1], all[4]]);
    });
}

#[test]
fn retain_unfinished_keeps_what_was_not_observed() {
    runtime().block_on(async {
        let mut tasks = Tasks::new();
        let mut all = Vec::new();
        for _ in 0..3 {
            let handle = short();
            all.push(handle.id());
            tasks.add(handle);
        }
        tasks.retain_unfinished(&vec![true]);
        assert_eq!(tasks.len(), 2);
        tasks.retain_unfinished(&vec![]);
        assert_eq!(tasks.len(), 2);
        tasks.retain_unfinished(&vec![false, false, true, true]);
        assert_eq!(ids(&tasks.take_all()), vec![all[1], all[2]]);
    });
}
