use std::sync::mpsc::channel;

use remcached::cache_task::{CacheTask, TaskKind};
use remcached::r_cache::{CacheLookup, CacheTaskProducer, RCache, StoreOutcome};
use remcached::r_cache_config::RCacheConfig;

fn cache() -> (RCache<i64, String, i64>, std::sync::mpsc::Receiver<CacheTask<i64>>) {
    let (tx, rx) = channel();
    (RCache::new(RCacheConfig::new("game_repo", 1000), tx), rx)
}

#[test]
fn config_keeps_id_and_lifetime() {
    let c = RCacheConfig::new("game_repo", 2500);
    assert_eq!(c.cache_id(), "game_repo");
    assert_eq!(c.entry_expires_in(), 2500);
}

#[test]
fn bypasses_storage_when_not_initialized() {
    let (mut c, _rx) = cache();
    assert!(!c.is_initialized());
    assert!(matches!(c.lookup(&47557), CacheLookup::Bypass));
    assert_eq!(c.store_fetched(47557, "The Last of Us".to_string(), "47557".to_string(), 47557), StoreOutcome::Stored);
    assert!(matches!(c.lookup(&47557), CacheLookup::Bypass));
    c.init();
    assert!(matches!(c.lookup(&47557), CacheLookup::Hit(ref v) if v == "The Last of Us"));
}

#[test]
fn miss_then_hit_and_expiration_scheduled() {
    let (mut c, rx) = cache();
    c.init();
    assert!(matches!(c.lookup(&1), CacheLookup::Miss));
    assert_eq!(c.store_fetched(1, "a".to_string(), "1".to_string(), 1), StoreOutcome::Stored);
    assert!(c.contains_key(&1));
    assert_eq!(c.len(), 1);
    assert!(!c.is_empty());
    assert!(matches!(c.lookup(&1), CacheLookup::Hit(ref v) if v == "a"));
    assert_eq!(c.statistics().hits_total(), 1);
    let task = rx.try_recv().unwrap();
    assert_eq!(task.kind_of(), TaskKind::EntryExpiration);
    assert_eq!(task.cache_id(), "game_repo");
    assert_eq!(task.id(), Some("1"));
    assert_eq!(c.task_producer_statistics().tasks_produced_total(), 1);
}

#[test]
fn fetched_value_never_overwrites_cached_one() {
    let (mut c, _rx) = cache();
    c.init();
    c.store_put(1, "new".to_string(), "1".to_string(), 1);
    assert_eq!(c.store_fetched(1, "old".to_string(), "1".to_string(), 1), StoreOutcome::AlreadyCached);
    assert!(matches!(c.lookup(&1), CacheLookup::Hit(ref v) if v == "new"));
}

#[test]
fn put_overwrites_and_expire_removes() {
    let (mut c, _rx) = cache();
    c.init();
    assert_eq!(c.store_put(1, "a".to_string(), "1".to_string(), 1), StoreOutcome::Stored);
    assert_eq!(c.store_put(1, "b".to_string(), "1".to_string(), 1), StoreOutcome::Stored);
    assert!(matches!(c.lookup(&1), CacheLookup::Hit(ref v) if v == "b"));
    c.expire(&1);
    assert!(!c.contains_key(&1));
    assert!(matches!(c.lookup(&1), CacheLookup::Miss));
    assert_eq!(c.statistics().expirations_processed_total(), 1);
}

#[test]
fn nothing_stays_cached_when_expiration_cannot_be_scheduled() {
    let (mut c, rx) = cache();
    c.init();
    assert_eq!(c.store_put(1, "a".to_string(), "1".to_string(), 1), StoreOutcome::Stored);
    drop(rx);
    assert_eq!(c.store_put(1, "b".to_string(), "1".to_string(), 1), StoreOutcome::NotScheduled);
    assert!(!c.contains_key(&1));
    assert_eq!(c.store_fetched(2, "c".to_string(), "2".to_string(), 2), StoreOutcome::NotScheduled);
    assert!(c.is_empty());
    assert_eq!(c.task_producer_statistics().tasks_produced_errors_total(), 2);
}

#[test]
fn invalidation_replaces_only_cached_entries() {
    let (mut c, _rx) = cache();
    c.init();
    assert_eq!(c.replace_cached(5, "x".to_string(), "5".to_string(), 5), StoreOutcome::NotCached);
    assert!(!c.contains_key(&5));
    c.store_put(5, "old".to_string(), "5".to_string(), 5);
    assert_eq!(c.replace_cached(5, "Game test".to_string(), "5".to_string(), 5), StoreOutcome::Stored);
    assert!(matches!(c.lookup(&5), CacheLookup::Hit(ref v) if v == "Game test"));
    assert_eq!(c.statistics().invalidations_processed_total(), 2);
}

#[test]
fn flush_all_empties_and_serves() {
    let (mut c, _rx) = cache();
    c.store_put(1, "a".to_string(), "1".to_string(), 1);
    c.store_put(2, "b".to_string(), "2".to_string(), 2);
    c.flush_all();
    assert!(c.is_empty());
    assert!(c.is_initialized());
    assert!(matches!(c.lookup(&1), CacheLookup::Miss));
}

#[test]
fn stop_keeps_entries_for_restart() {
    let (mut c, _rx) = cache();
    c.init();
    c.store_put(1, "a".to_string(), "1".to_string(), 1);
    c.stop();
    assert!(matches!(c.lookup(&1), CacheLookup::Bypass));
    assert!(c.contains_key(&1));
    c.init();
    assert!(matches!(c.lookup(&1), CacheLookup::Hit(ref v) if v == "a"));
    assert_eq!(c.cache_id(), "game_repo");
}

#[test]
fn producer_hands_back_task_it_could_not_send() {
    let (tx, rx) = channel();
    let p: CacheTaskProducer<i64> = CacheTaskProducer::new(RCacheConfig::new("game_repo", 1000), tx);
    assert!(p.expire("1".to_string(), 1).is_ok());
    drop(rx);
    let back = p.expire("2".to_string(), 2).unwrap_err();
    assert_eq!(back.id(), Some("2"));
    assert_eq!(p.statistics().tasks_produced_total(), 2);
    assert_eq!(p.statistics().tasks_produced_errors_total(), 1);
}

#[test]
fn plans_name_the_expiration_of_the_key() {
    let (mut c, _rx) = cache();
    c.init();
    let t = c.plan_fetched(&3, "3".to_string(), 3).unwrap();
    assert_eq!(t.kind_of(), TaskKind::EntryExpiration);
    assert_eq!(t.cache_id(), "game_repo");
    assert_eq!(t.id(), Some("3"));
    assert!(t.exec_time() >= 1000);
    assert!(c.plan_replace(&3, "3".to_string(), 3).is_none());
    c.store_put(3, "c".to_string(), "3".to_string(), 3);
    assert!(c.plan_fetched(&3, "3".to_string(), 3).is_none());
    let t = c.plan_replace(&3, "3".to_string(), 3).unwrap();
    assert_eq!(t.id(), Some("3"));
    let t = c.plan_put("4".to_string(), 4);
    assert_eq!(t.id(), Some("4"));
}

#[test]
fn complete_store_follows_the_send() {
    let (mut c, _rx) = cache();
    c.init();
    assert_eq!(c.complete_store(1, "a".to_string(), Ok(())), StoreOutcome::Stored);
    assert!(matches!(c.lookup(&1), CacheLookup::Hit(ref v) if v == "a"));
    let back = CacheTask::entry_expiration_at(5, "game_repo", "1".to_string(), 1i64);
    assert_eq!(c.complete_store(1, "b".to_string(), Err(back)), StoreOutcome::NotScheduled);
    assert!(!c.contains_key(&1));
}

#[test]
fn send_expiration_reaches_the_manager() {
    let (c, rx) = cache();
    let t = c.plan_put("7".to_string(), 7);
    assert!(c.send_expiration(t).is_ok());
    let got = rx.try_recv().unwrap();
    assert_eq!(got.id(), Some("7"));
    drop(rx);
    let t = c.plan_put("8".to_string(), 8);
    assert_eq!(c.send_expiration(t).unwrap_err().id(), Some("8"));
}

#[test]
fn after_put_stores_only_a_served_successful_write() {
    let (mut c, rx) = cache();
    assert_eq!(c.after_put(false, true, 1, "a".to_string(), "1".to_string(), 1), None);
    assert!(!c.contains_key(&1));
    c.init();
    assert_eq!(c.after_put(true, false, 1, "a".to_string(), "1".to_string(), 1), None);
    assert!(!c.contains_key(&1));
    assert!(rx.try_recv().is_err());
    assert_eq!(c.after_put(true, true, 1, "a".to_string(), "1".to_string(), 1), Some(StoreOutcome::Stored));
    assert!(matches!(c.lookup(&1), CacheLookup::Hit(ref v) if v == "a"));
    assert_eq!(rx.try_recv().unwrap().id(), Some("1"));
}

#[test]
fn refresh_replaces_only_with_a_found_value() {
    let (mut c, rx) = cache();
    c.init();
    c.store_put(4, "old".to_string(), "4".to_string(), 4);
    let _ = rx.try_recv();
    assert_eq!(c.refresh_with(4, None, "4".to_string(), 4), None);
    assert!(matches!(c.lookup(&4), CacheLookup::Hit(ref v) if v == "old"));
    assert!(rx.try_recv().is_err());
    assert_eq!(c.refresh_with(4, Some("new".to_string()), "4".to_string(), 4), Some(StoreOutcome::Stored));
    assert!(matches!(c.lookup(&4), CacheLookup::Hit(ref v) if v == "new"));
    assert_eq!(rx.try_recv().unwrap().id(), Some("4"));
    assert_eq!(c.refresh_with(9, Some("x".to_string()), "9".to_string(), 9), Some(StoreOutcome::NotCached));
    assert!(!c.contains_key(&9));
}
