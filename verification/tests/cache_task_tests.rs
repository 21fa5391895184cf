use remcached::cache_task::{CacheTask, Invalidation, TaskKind};
use remcached::utils::{calculate_time_until_next_ms, deadline_after, is_now_after, is_reached};

#[test]
fn init_stop_flush_tasks_carry_only_the_cache() {
    let init: CacheTask<i64> = CacheTask::init("games");
    let stop: CacheTask<i64> = CacheTask::stop("games");
    let flush: CacheTask<i64> = CacheTask::flush_all("games");
    assert_eq!(init.kind_of(), TaskKind::Init);
    assert_eq!(stop.kind_of(), TaskKind::Stop);
    assert_eq!(flush.kind_of(), TaskKind::FlushAll);
    for t in [&init, &stop, &flush] {
        assert_eq!(t.cache_id(), "games");
        assert_eq!(t.id(), None);
        assert_eq!(t.exec_time(), 0);
        assert_eq!(t.exp_time(), None);
        assert!(!t.is_async());
        assert!(!t.is_expired());
        assert!(t.is_executable());
    }
}

#[test]
fn entry_expiration_runs_after_its_delay() {
    let before = calculate_time_until_next_ms(0);
    let t = CacheTask::entry_expiration(60_000, "games", "47557".to_string(), 47557i64);
    assert_eq!(t.kind_of(), TaskKind::EntryExpiration);
    assert_eq!(t.cache_id(), "games");
    assert_eq!(t.id(), Some("47557"));
    assert!(t.exec_time() >= before + 60_000);
    assert_eq!(t.exp_time(), None);
    assert!(!t.is_executable());
    assert!(!t.is_expired());
    assert!(t.is_executable_at(t.exec_time()));
    assert!(!t.is_executable_at(t.exec_time() - 1));
    match t {
        CacheTask::EntryExpiration { key, .. } => assert_eq!(key, 47557),
        _ => panic!("not an expiration"),
    }
}

#[test]
fn entry_expiration_at_keeps_the_given_time() {
    let t = CacheTask::entry_expiration_at(1234, "games", "1".to_string(), 1i64);
    assert_eq!(t.exec_time(), 1234);
    assert!(t.is_executable_at(1234));
    assert!(!t.is_executable_at(1233));
}

#[test]
fn zero_delay_expiration_is_executable_now() {
    let t = CacheTask::entry_expiration(0, "games", "1".to_string(), 1i64);
    assert!(t.is_executable());
}

#[test]
fn invalidation_expires_after_its_delay() {
    let t = CacheTask::invalidation(60_000, "games", "7".to_string(), 7i64);
    assert_eq!(t.kind_of(), TaskKind::Invalidation);
    assert!(t.is_async());
    assert_eq!(t.exec_time(), 0);
    let exp = t.exp_time().unwrap();
    assert!(!t.is_expired());
    assert!(t.is_expired_at(exp));
    assert!(!t.is_expired_at(exp - 1));
    let old = CacheTask::invalidation_at(5, "games", "7".to_string(), 7i64);
    assert!(old.is_expired());
    assert_eq!(old.exp_time(), Some(5));
}

#[test]
fn invalidation_with_properties_carries_the_replacement() {
    let t = CacheTask::invalidation_with_properties("games", "7".to_string(), (7i64, "Game test"));
    assert_eq!(t.kind_of(), TaskKind::InvalidationWithProperties);
    assert_eq!(t.id(), Some("7"));
    assert_eq!(t.exp_time(), None);
    assert!(!t.is_async());
    match t {
        CacheTask::InvalidationWithProperties { invalidation, .. } => assert_eq!(invalidation, (7, "Game test")),
        _ => panic!("not an invalidation with properties"),
    }
}

#[test]
fn same_task_compares_cache_operation_and_entry() {
    let a = CacheTask::entry_expiration(10, "games", "1".to_string(), 1i64);
    let b = CacheTask::entry_expiration(99_999, "games", "1".to_string(), 2i64);
    let other_entry = CacheTask::entry_expiration(10, "games", "2".to_string(), 1i64);
    let other_cache = CacheTask::entry_expiration(10, "films", "1".to_string(), 1i64);
    let other_op = CacheTask::invalidation(10, "games", "1".to_string(), 1i64);
    assert!(a.same_task(&b));
    assert!(!a.same_task(&other_entry));
    assert!(!a.same_task(&other_cache));
    assert!(!a.same_task(&other_op));
    let f1: CacheTask<i64> = CacheTask::flush_all("games");
    let f2: CacheTask<i64> = CacheTask::flush_all("games");
    let s1: CacheTask<i64> = CacheTask::stop("games");
    assert!(f1.same_task(&f2));
    assert!(!f1.same_task(&s1));
}

#[test]
fn invalidation_value_holds_key_and_value() {
    let inv = Invalidation::new(3i64, "value".to_string());
    assert_eq!(*inv.key(), 3);
    assert_eq!(inv.value(), "value");
}

#[test]
fn deadline_adds_and_clamps() {
    assert_eq!(deadline_after(1000, 500), 1500);
    assert_eq!(deadline_after(u128::MAX - 1, 5), u128::MAX);
    assert!(is_reached(10, 10));
    assert!(is_reached(11, 10));
    assert!(!is_reached(9, 10));
    assert!(is_now_after(0));
    assert!(!is_now_after(u128::MAX));
}
