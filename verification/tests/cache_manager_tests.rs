use std::any::Any;
use std::sync::{Arc, Mutex};

use remcached::async_executor::{AsyncExecutor, AsyncTask};
use remcached::cache_manager::{CacheManager, CacheManagerInner, Execution};
use remcached::cache_manager_config::CacheManagerConfig;
use remcached::cache_task::{CacheTask, TaskKind};
use remcached::errors::ManualOperationError;
use remcached::r_cache::{CacheTaskProcessor, InputValidator};

type Payload = Box<dyn Any + Send>;

struct Recorder {
    id: &'static str,
    log: Arc<Mutex<Vec<String>>>,
}

impl CacheTaskProcessor<Payload> for Recorder {
    type Refresh = String;
    fn init(&self) {
        self.log.lock().unwrap().push(format!("{}:init", self.id));
    }
    fn stop(&self) {
        self.log.lock().unwrap().push(format!("{}:stop", self.id));
    }
    fn flush_all(&self) {
        self.log.lock().unwrap().push(format!("{}:flush", self.id));
    }
    fn expire(&self, key: Payload) {
        let key = key.downcast::<i64>().unwrap();
        self.log.lock().unwrap().push(format!("{}:expire:{}", self.id, key));
    }
    fn invalidate_with_properties(&self, invalidation: Payload) {
        let (k, v) = *invalidation.downcast::<(i64, String)>().unwrap();
        self.log.lock().unwrap().push(format!("{}:replace:{}:{}", self.id, k, v));
    }
    fn invalidate(&self, key: Payload) -> String {
        let key = key.downcast::<i64>().unwrap();
        format!("{}:refresh:{}", self.id, key)
    }
    fn cache_id(&self) -> &str {
        self.id
    }
}

struct I64Validator;

impl InputValidator<Payload> for I64Validator {
    fn validate(&self, input: &Payload, is_invalidation_with_props: bool) -> bool {
        if is_invalidation_with_props {
            input.downcast_ref::<(i64, String)>().is_some()
        } else {
            input.downcast_ref::<i64>().is_some()
        }
    }
}

struct Background {
    finished: bool,
    expired: bool,
}

impl AsyncTask for Background {
    fn is_finished(&self) -> bool {
        self.finished
    }
    fn is_expired(&self) -> bool {
        self.expired
    }
    fn abort(&self) {}
}

struct LoggingExecutor {
    log: Arc<Mutex<Vec<String>>>,
    finish: bool,
    expire: bool,
}

impl AsyncExecutor<String> for LoggingExecutor {
    type Task = Background;
    fn execute(&self, _exp_time: u128, future: String) -> Background {
        self.log.lock().unwrap().push(future);
        Background { finished: self.finish, expired: self.expire }
    }
}

fn config() -> CacheManagerConfig {
    CacheManagerConfig::new(200, 20, 5, 2048)
}

fn manager(
    log: &Arc<Mutex<Vec<String>>>,
    finish: bool,
    expire: bool,
) -> CacheManager<Payload, I64Validator, Recorder, LoggingExecutor> {
    let executor = LoggingExecutor { log: log.clone(), finish, expire };
    let mut m = CacheManager::new(config(), executor);
    assert!(m.register(I64Validator, Recorder { id: "game_repo", log: log.clone() }));
    m
}

type Manager = CacheManager<Payload, I64Validator, Recorder, LoggingExecutor>;

fn submit(m: &Manager, checked: Result<CacheTask<Payload>, ManualOperationError>) -> Result<(), ManualOperationError> {
    m.deliver(checked?)
}

fn run_until_idle(inner: &mut CacheManagerInner<Payload, Recorder, LoggingExecutor>, m: &CacheManager<Payload, I64Validator, Recorder, LoggingExecutor>) {
    inner.run_cycle(m.statistics());
}

#[test]
fn config_keeps_its_waits() {
    let c = CacheManagerConfig::new(2000, 20, 10, 2048);
    assert_eq!(c.max_pending_ms_await(), 2000);
    assert_eq!(c.max_pending_first_poll_ms_await(), 20);
    assert_eq!(c.max_pending_bulk_poll_ms_await(), 10);
    assert_eq!(c.max_task_drain_size(), 2048);
}

#[test]
fn duplicated_cache_id_is_refused() {
    let log = Arc::new(Mutex::new(Vec::new()));
    let mut m = manager(&log, true, false);
    assert!(!m.register(I64Validator, Recorder { id: "game_repo", log: log.clone() }));
    assert!(m.register(I64Validator, Recorder { id: "game_repo_2", log: log.clone() }));
    assert_eq!(m.cache_ids().len(), 2);
    assert!(!m.is_started());
}

#[test]
fn manual_operations_fail_given_wrong_input() {
    let log = Arc::new(Mutex::new(Vec::new()));
    let m = manager(&log, true, false);
    assert_eq!(
        submit(&m, m.flush_all("not_valid_cache_id")),
        Err(ManualOperationError::CacheNotFound { cache_id: "not_valid_cache_id".to_string() })
    );
    let wrong_key: Payload = Box::new(1234u64);
    assert_eq!(
        submit(&m, m.force_expiration("game_repo", "1234".to_string(), wrong_key)),
        Err(ManualOperationError::InvalidInput)
    );
    let wrong_value: Payload = Box::new((1234i64, 5u8));
    assert_eq!(
        submit(&m, m.invalidate_with_properties("game_repo", "1234".to_string(), wrong_value)),
        Err(ManualOperationError::InvalidInput)
    );
    let good_value: Payload = Box::new((1234i64, "valid".to_string()));
    assert_eq!(submit(&m, m.invalidate_with_properties("game_repo", "1234".to_string(), good_value)), Ok(()));
    assert_eq!(submit(&m, m.init("game_repo")), Ok(()));
    assert_eq!(submit(&m, m.stop("game_repo")), Ok(()));
    let good_key: Payload = Box::new(1234i64);
    assert_eq!(submit(&m, m.invalidate(1000, "game_repo", "1234".to_string(), good_key)), Ok(()));
}

#[test]
fn send_fails_once_the_worker_is_gone() {
    let log = Arc::new(Mutex::new(Vec::new()));
    let mut m = manager(&log, true, false);
    let inner = m.take_inner().unwrap();
    assert!(m.is_started());
    drop(inner);
    assert_eq!(submit(&m, m.flush_all("game_repo")), Err(ManualOperationError::SendError));
    assert_eq!(
        submit(&m, m.flush_all("other")),
        Err(ManualOperationError::CacheNotFound { cache_id: "other".to_string() })
    );
}

#[test]
fn cycle_runs_manual_operations() {
    let log = Arc::new(Mutex::new(Vec::new()));
    let mut m = manager(&log, true, false);
    let mut inner = m.take_inner().unwrap();
    submit(&m, m.init("game_repo")).unwrap();
    submit(&m, m.flush_all("game_repo")).unwrap();
    let replacement: Payload = Box::new((7i64, "Game test".to_string()));
    submit(&m, m.invalidate_with_properties("game_repo", "7".to_string(), replacement)).unwrap();
    run_until_idle(&mut inner, &m);
    let entries = log.lock().unwrap().clone();
    assert!(entries.contains(&"game_repo:init".to_string()));
    assert!(entries.contains(&"game_repo:flush".to_string()));
    assert!(entries.contains(&"game_repo:replace:7:Game test".to_string()));
    let stats = m.statistics();
    assert_eq!(stats.tasks_total(), 3);
    assert_eq!(stats.pending_tasks_total(), 0);
    assert_eq!(stats.cycles_total(), 1);
}

#[test]
fn cycle_merges_related_tasks() {
    let log = Arc::new(Mutex::new(Vec::new()));
    let mut m = manager(&log, true, false);
    let mut inner = m.take_inner().unwrap();
    let tx = m.sender();
    tx.send(CacheTask::entry_expiration(60_000, "game_repo", "1".to_string(), Box::new(1i64) as Payload)).unwrap();
    tx.send(CacheTask::entry_expiration(60_000, "game_repo", "1".to_string(), Box::new(1i64) as Payload)).unwrap();
    let report = inner.run_cycle(m.statistics());
    assert_eq!(report.pushed, 1);
    assert_eq!(report.merged, 1);
    assert_eq!(report.pending, 1);
    tx.send(CacheTask::entry_expiration(60_000, "game_repo", "1".to_string(), Box::new(1i64) as Payload)).unwrap();
    let report = inner.run_cycle(m.statistics());
    assert_eq!(report.pushed, 1);
    assert_eq!(report.merged, 1);
    assert_eq!(report.pending, 1);
    assert_eq!(m.statistics().merged_tasks_total(), 2);
    assert_eq!(m.statistics().tasks_total(), 2);
    assert_eq!(m.statistics().pending_tasks_total(), 1);
}

#[test]
fn cycle_processes_due_expirations_in_priority_order() {
    let log = Arc::new(Mutex::new(Vec::new()));
    let mut m = manager(&log, true, false);
    let mut inner = m.take_inner().unwrap();
    let tx = m.sender();
    tx.send(CacheTask::entry_expiration(60_000, "game_repo", "late".to_string(), Box::new(2i64) as Payload)).unwrap();
    tx.send(CacheTask::entry_expiration_at(20, "game_repo", "b".to_string(), Box::new(1i64) as Payload)).unwrap();
    tx.send(CacheTask::entry_expiration_at(10, "game_repo", "a".to_string(), Box::new(0i64) as Payload)).unwrap();
    let report = inner.run_cycle(m.statistics());
    assert_eq!(report.pushed, 3);
    assert_eq!(report.processed, 2);
    assert_eq!(report.pending, 1);
    let entries = log.lock().unwrap().clone();
    assert_eq!(entries, vec!["game_repo:expire:0".to_string(), "game_repo:expire:1".to_string()]);
}

#[test]
fn expired_invalidation_is_dropped() {
    let log = Arc::new(Mutex::new(Vec::new()));
    let mut m = manager(&log, true, false);
    let mut inner = m.take_inner().unwrap();
    let tx = m.sender();
    tx.send(CacheTask::invalidation_at(1, "game_repo", "9".to_string(), Box::new(9i64) as Payload)).unwrap();
    let report = inner.run_cycle(m.statistics());
    assert_eq!(report.expired, 1);
    assert_eq!(m.statistics().expired_tasks_total(), 1);
    assert!(log.lock().unwrap().is_empty());
}

#[test]
fn invalidation_refreshes_in_background() {
    let log = Arc::new(Mutex::new(Vec::new()));
    let mut m = manager(&log, false, false);
    let mut inner = m.take_inner().unwrap();
    let tx = m.sender();
    tx.send(CacheTask::invalidation(60_000, "game_repo", "9".to_string(), Box::new(9i64) as Payload)).unwrap();
    let report = inner.run_cycle(m.statistics());
    assert_eq!(report.processed, 1);
    assert_eq!(report.pending_async, 1);
    assert_eq!(m.statistics().pending_async_tasks_total(), 1);
    assert_eq!(log.lock().unwrap().clone(), vec!["game_repo:refresh:9".to_string()]);
}

#[test]
fn late_background_refresh_is_aborted() {
    let log = Arc::new(Mutex::new(Vec::new()));
    let mut m = manager(&log, false, true);
    let mut inner = m.take_inner().unwrap();
    let tx = m.sender();
    tx.send(CacheTask::invalidation(60_000, "game_repo", "9".to_string(), Box::new(9i64) as Payload)).unwrap();
    let report = inner.run_cycle(m.statistics());
    assert_eq!(report.aborted_async, 1);
    assert_eq!(report.pending_async, 0);
    assert_eq!(m.statistics().expired_async_tasks_total(), 1);
}

#[test]
fn finished_background_refresh_is_released() {
    let log = Arc::new(Mutex::new(Vec::new()));
    let mut m = manager(&log, true, false);
    let mut inner = m.take_inner().unwrap();
    let tx = m.sender();
    tx.send(CacheTask::invalidation(60_000, "game_repo", "9".to_string(), Box::new(9i64) as Payload)).unwrap();
    let report = inner.run_cycle(m.statistics());
    assert_eq!(report.finished_async, 1);
    assert_eq!(report.pending_async, 0);
}

#[test]
fn task_of_unknown_cache_is_dropped() {
    let log = Arc::new(Mutex::new(Vec::new()));
    let mut m = manager(&log, true, false);
    let mut inner = m.take_inner().unwrap();
    let r = inner.execute(CacheTask::flush_all("nobody"), 0);
    assert_eq!(r, Execution::NoProcessor);
    let r = inner.execute(CacheTask::flush_all("game_repo"), 0);
    assert_eq!(r, Execution::Run { processor: 0, kind: TaskKind::FlushAll });
    assert!(log.lock().unwrap().contains(&"game_repo:flush".to_string()));
}

#[test]
fn empty_poll_waits_and_does_nothing() {
    let log = Arc::new(Mutex::new(Vec::new()));
    let mut m = manager(&log, true, false);
    let mut inner = m.take_inner().unwrap();
    let report = inner.run_cycle(m.statistics());
    assert_eq!(report.pushed, 0);
    assert_eq!(report.merged, 0);
    assert_eq!(report.processed, 0);
    assert_eq!(m.statistics().cycles_total(), 1);
}

#[test]
fn forced_expiration_runs_in_the_next_cycle() {
    let log = Arc::new(Mutex::new(Vec::new()));
    let mut m = manager(&log, true, false);
    let mut inner = m.take_inner().unwrap();
    let key: Payload = Box::new(47557i64);
    assert_eq!(submit(&m, m.force_expiration("game_repo", "47557".to_string(), key)), Ok(()));
    let report = inner.run_cycle(m.statistics());
    assert_eq!(report.processed, 1);
    assert_eq!(log.lock().unwrap().clone(), vec!["game_repo:expire:47557".to_string()]);
}

#[test]
fn newer_expiration_replaces_the_queued_one() {
    let log = Arc::new(Mutex::new(Vec::new()));
    let mut m = manager(&log, true, false);
    let mut inner = m.take_inner().unwrap();
    let tx = m.sender();
    tx.send(CacheTask::entry_expiration(60_000, "game_repo", "1".to_string(), Box::new(1i64) as Payload)).unwrap();
    inner.run_cycle(m.statistics());
    let key: Payload = Box::new(1i64);
    submit(&m, m.force_expiration("game_repo", "1".to_string(), key)).unwrap();
    let report = inner.run_cycle(m.statistics());
    assert_eq!(report.merged, 1);
    assert_eq!(report.processed, 1);
    assert_eq!(report.pending, 0);
    assert_eq!(log.lock().unwrap().clone(), vec!["game_repo:expire:1".to_string()]);
}

#[test]
fn process_tasks_reports_each_task_taken() {
    let log = Arc::new(Mutex::new(Vec::new()));
    let mut m = manager(&log, false, false);
    let mut inner = m.take_inner().unwrap();
    let tx = m.sender();
    tx.send(CacheTask::invalidation_at(1, "game_repo", "8".to_string(), Box::new(8i64) as Payload)).unwrap();
    tx.send(CacheTask::flush_all("nobody")).unwrap();
    tx.send(CacheTask::invalidation(60_000, "game_repo", "9".to_string(), Box::new(9i64) as Payload)).unwrap();
    tx.send(CacheTask::entry_expiration(60_000, "game_repo", "1".to_string(), Box::new(1i64) as Payload)).unwrap();
    let (merged, pushed) = inner.push_tasks();
    assert_eq!((merged, pushed), (0, 4));
    let (execs, expired) = inner.process_tasks();
    assert_eq!(
        execs,
        vec![
            Execution::Expired,
            Execution::NoProcessor,
            Execution::Run { processor: 0, kind: TaskKind::Invalidation },
        ]
    );
    assert_eq!(expired, 1);
    assert_eq!(log.lock().unwrap().clone(), vec!["game_repo:refresh:9".to_string()]);
}

#[test]
fn init_all_initializes_every_cache_once() {
    let log = Arc::new(Mutex::new(Vec::new()));
    let mut m = manager(&log, true, false);
    assert!(m.register(I64Validator, Recorder { id: "other_repo", log: log.clone() }));
    let mut inner = m.take_inner().unwrap();
    let execs = inner.init_all();
    assert_eq!(
        execs,
        vec![
            Execution::Run { processor: 0, kind: TaskKind::Init },
            Execution::Run { processor: 1, kind: TaskKind::Init },
        ]
    );
    assert_eq!(log.lock().unwrap().clone(), vec!["game_repo:init".to_string(), "other_repo:init".to_string()]);
}

#[test]
fn release_keeps_running_tasks_in_order() {
    let log = Arc::new(Mutex::new(Vec::new()));
    let mut m = manager(&log, false, false);
    let mut inner = m.take_inner().unwrap();
    for k in 0..4i64 {
        inner.execute(CacheTask::invalidation(60_000, "game_repo", k.to_string(), Box::new(k) as Payload), 0);
    }
    let reports = vec![(true, false), (false, true), (false, false), (true, true)];
    assert_eq!(inner.release(&reports), (2, 1));
    assert_eq!(inner.report_async_tasks(), vec![(false, false)]);
}

#[test]
fn delivery_result_follows_the_send() {
    assert_eq!(remcached::cache_manager::delivery_result::<Payload>(Ok(())), Ok(()));
    assert_eq!(
        remcached::cache_manager::delivery_result::<Payload>(Err(CacheTask::init("game_repo"))),
        Err(ManualOperationError::SendError)
    );
}

#[test]
fn validate_checks_key_or_replacement() {
    let log = Arc::new(Mutex::new(Vec::new()));
    let m = manager(&log, true, false);
    let as_key: Payload = Box::new(5i64);
    assert_eq!(
        m.validate(CacheTask::invalidation_with_properties("game_repo", "5".to_string(), as_key)).err(),
        Some(ManualOperationError::InvalidInput)
    );
    let as_replacement: Payload = Box::new((5i64, "five".to_string()));
    assert_eq!(
        m.validate(CacheTask::invalidation(100, "game_repo", "5".to_string(), as_replacement)).err(),
        Some(ManualOperationError::InvalidInput)
    );
    let t = m.validate(CacheTask::init("game_repo")).ok().unwrap();
    assert_eq!(t.kind_of(), TaskKind::Init);
    assert_eq!(t.cache_id(), "game_repo");
    let t = m.force_expiration("game_repo", "5".to_string(), Box::new(5i64)).ok().unwrap();
    assert_eq!(t.kind_of(), TaskKind::EntryExpiration);
    assert_eq!(t.id(), Some("5"));
}

#[test]
fn gather_pending_keeps_the_newest_of_each_task() {
    let log = Arc::new(Mutex::new(Vec::new()));
    let mut m = manager(&log, true, false);
    let inner = m.take_inner().unwrap();
    let tx = m.sender();
    tx.send(CacheTask::entry_expiration_at(10, "game_repo", "1".to_string(), Box::new(1i64) as Payload)).unwrap();
    tx.send(CacheTask::entry_expiration_at(20, "game_repo", "2".to_string(), Box::new(2i64) as Payload)).unwrap();
    tx.send(CacheTask::entry_expiration_at(30, "game_repo", "1".to_string(), Box::new(1i64) as Payload)).unwrap();
    let (pending, replaced, _, _) = inner.gather_pending();
    assert_eq!(replaced, 1);
    assert_eq!(pending.len(), 2);
    assert_eq!(pending[0].exec_time(), 30);
    assert_eq!(pending[1].exec_time(), 20);
}
