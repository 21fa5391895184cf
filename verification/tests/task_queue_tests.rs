use remcached::cache_task::CacheTask;
use remcached::task_queue::{add_pending, contains_task, find_task, TaskQueue};

fn exp(at: u128, id: &str, key: i64) -> CacheTask<i64> {
    CacheTask::entry_expiration_at(at, "games", id.to_string(), key)
}

#[test]
fn queue_orders_tasks_by_exec_time() {
    let mut q = TaskQueue::new();
    q.merge(vec![exp(30, "c", 3), exp(10, "a", 1), exp(20, "b", 2)]);
    assert_eq!(q.len(), 3);
    assert_eq!(q.next_exec_time(), Some(10));
    assert!(q.pop_ready(5).is_none());
    let first = q.pop_ready(25).unwrap();
    assert_eq!(first.id(), Some("a"));
    let second = q.pop_ready(25).unwrap();
    assert_eq!(second.id(), Some("b"));
    assert!(q.pop_ready(25).is_none());
    assert_eq!(q.len(), 1);
    assert_eq!(q.pop_ready(30).unwrap().id(), Some("c"));
    assert!(q.is_empty());
}

#[test]
fn whole_cache_tasks_run_before_expirations() {
    let mut q = TaskQueue::new();
    q.merge(vec![exp(10, "a", 1), CacheTask::flush_all("games")]);
    assert_eq!(q.pop_ready(100).unwrap().id(), None);
    assert_eq!(q.pop_ready(100).unwrap().id(), Some("a"));
}

#[test]
fn merge_discards_replaced_queued_tasks() {
    let mut q = TaskQueue::new();
    let removed = q.merge(vec![exp(10, "a", 1), exp(20, "b", 2)]);
    assert_eq!(removed, 0);
    let removed = q.merge(vec![exp(50, "a", 11)]);
    assert_eq!(removed, 1);
    assert_eq!(q.len(), 2);
    let first = q.pop_ready(100).unwrap();
    assert_eq!(first.id(), Some("b"));
    let second = q.pop_ready(100).unwrap();
    assert_eq!(second.exec_time(), 50);
    match second {
        CacheTask::EntryExpiration { key, .. } => assert_eq!(key, 11),
        _ => panic!("unexpected task"),
    }
}

#[test]
fn add_pending_keeps_the_newest_of_the_same_task() {
    let mut pending = Vec::new();
    assert!(!add_pending(&mut pending, exp(10, "a", 1)));
    assert!(!add_pending(&mut pending, exp(10, "b", 2)));
    assert!(add_pending(&mut pending, exp(99, "a", 3)));
    assert_eq!(pending.len(), 2);
    assert_eq!(pending[0].exec_time(), 99);
    assert_eq!(find_task(&pending, &exp(0, "b", 0)), Some(1));
    assert!(contains_task(&pending, &exp(0, "a", 0)));
    assert!(!contains_task(&pending, &exp(0, "z", 0)));
}
