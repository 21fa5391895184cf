use vstd::prelude::*;

use std::collections::HashMap;
use std::hash::Hash;
use std::sync::atomic::AtomicU64;
use std::sync::atomic::Ordering;
use std::sync::mpsc::Sender;
use std::sync::Arc;

use crate::cache_task::CacheTask;
use crate::r_cache_config::RCacheConfig;
use crate::task_channel::{send_on, sent_on};
use crate::utils::{deadline_from_reading, elapsed_ms, instant_now};

verus! {

broadcast use vstd::std_specs::hash::group_hash_axioms;

/// Carries out, on one cache, the tasks that the cache manager schedules.
/// `P` is the form in which tasks carry entry keys and replacement values.
pub trait CacheTaskProcessor<P> {
    /// The background work that an invalidation starts: the refresh of an
    /// entry from the remote repository.
    type Refresh;

    /// Starts serving the cache from its storage.
    fn init(&self);

    /// Stops serving the cache from its storage.
    fn stop(&self);

    /// Removes every entry of the cache.
    fn flush_all(&self);

    /// Removes the entry under `key`.
    fn expire(&self, key: P);

    /// Replaces a cached entry by the value that `invalidation` carries.
    fn invalidate_with_properties(&self, invalidation: P);

    /// The refresh of the entry under `key` from the remote repository.
    fn invalidate(&self, key: P) -> Self::Refresh;

    /// The identifier of the cache.
    fn cache_id(&self) -> &str;
}

/// Checks that the input of a manual operation is of the cache's types: an
/// entry key, or (when `is_invalidation_with_props`) a replacement value.
pub trait InputValidator<P> {
    fn validate(&self, input: &P, is_invalidation_with_props: bool) -> bool;
}

/// `t` is the expiration of the entry `id` (carried as `key`) of cache
/// `cache_id`, due `lifetime` milliseconds after some clock reading.
pub open spec fn expiration_for<P>(
    t: CacheTask<P>,
    cache_id: Seq<char>,
    lifetime: u64,
    id: Seq<char>,
    key: P,
) -> bool {
    &&& t matches CacheTask::EntryExpiration { key: k, .. } && k == key
    &&& t.cache_id_view() == cache_id
    &&& t.id_view() == Some(id)
    &&& exists|now: u128| #[trigger] deadline_from_reading(now, lifetime, t.exec_time_of())
}

/// The storage went from `before` to `after` when `value` was to be cached
/// under `key` and the send of its expiration gave back `sent`: the value is
/// cached (`Stored`) exactly when the send succeeded; otherwise no entry stays
/// under `key` (`NotScheduled`).
pub open spec fn stored_after<K, V, P>(
    before: Map<K, V>,
    after: Map<K, V>,
    key: K,
    value: V,
    sent: Result<(), CacheTask<P>>,
    r: StoreOutcome,
) -> bool {
    &&& sent is Ok ==> r == StoreOutcome::Stored && after == before.insert(key, value)
    &&& sent is Err ==> r == StoreOutcome::NotScheduled && after == before.remove(key)
}

/// Counters of the expirations a cache schedules, shared with its users.
#[derive(Debug)]
pub struct TaskProducerStatistics {
    tasks_produced_total: AtomicU64,
    tasks_produced_errors_total: AtomicU64,
}

impl TaskProducerStatistics {
    fn init() -> (r: Self) {
        Self { tasks_produced_total: AtomicU64::new(0), tasks_produced_errors_total: AtomicU64::new(0) }
    }

    pub fn tasks_produced_total(&self) -> u64 {
        self.tasks_produced_total.load(Ordering::Relaxed)
    }

    pub fn tasks_produced_errors_total(&self) -> u64 {
        self.tasks_produced_errors_total.load(Ordering::Relaxed)
    }
}

/// Schedules the expiration of a cache's entries with the cache manager.
#[verifier::reject_recursive_types(P)]
pub struct CacheTaskProducer<P> {
    config: RCacheConfig,
    statistics: Arc<TaskProducerStatistics>,
    tx: Sender<CacheTask<P>>,
}

impl<P> CacheTaskProducer<P> {
    pub closed spec fn config_of(self) -> RCacheConfig {
        self.config
    }

    /// The sending half of the task channel the expirations go on.
    pub closed spec fn sender_of(self) -> Sender<CacheTask<P>> {
        self.tx
    }

    pub fn new(config: RCacheConfig, tx: Sender<CacheTask<P>>) -> (r: Self)
        ensures
            r.config_of() == config,
            r.sender_of() == tx,
    {
        Self { config, statistics: Arc::new(TaskProducerStatistics::init()), tx }
    }

    /// Schedules the expiration of the entry `id` (carried as `key`) after the
    /// cache's entry lifetime (see `expiration_task` and `send`).
    pub fn expire(&self, id: String, key: P) -> (r: Result<(), CacheTask<P>>)
        ensures
            exists|t: CacheTask<P>|
                expiration_for(t, self.config_of().id_view(), self.config_of().lifetime(), id@, key)
                    && #[trigger] sent_on(self.sender_of(), t, r),
    {
        let task = self.expiration_task(id, key);
        let ghost t = task;
        let r = self.send(task);
        assert(sent_on(self.sender_of(), t, r));
        r
    }

    /// The expiration of the entry `id` (carried as `key`) after the cache's
    /// entry lifetime, counted from now.
    pub fn expiration_task(&self, id: String, key: P) -> (t: CacheTask<P>)
        ensures
            expiration_for(t, self.config_of().id_view(), self.config_of().lifetime(), id@, key),
    {
        CacheTask::entry_expiration(self.config.entry_expires_in(), self.config.cache_id(), id, key)
    }

    /// Hands `task` to the cache manager; when it cannot take it (its worker
    /// is gone), the task is handed back. Every send, and every failed one, is
    /// counted.
    pub fn send(&self, task: CacheTask<P>) -> (r: Result<(), CacheTask<P>>)
        ensures
            sent_on(self.sender_of(), task, r),
            r matches Err(t) ==> t == task,
    {
        let result = send_on(&self.tx, task);
        self.statistics.tasks_produced_total.fetch_add(1, Ordering::Relaxed);
        if result.is_err() {
            self.statistics.tasks_produced_errors_total.fetch_add(1, Ordering::Relaxed);
        }
        result
    }

    pub closed spec fn statistics_of(self) -> Arc<TaskProducerStatistics> {
        self.statistics
    }

    /// The counters, shared with the cache's users.
    pub fn statistics(&self) -> (r: &Arc<TaskProducerStatistics>)
        ensures
            *r == self.statistics_of(),
    {
        &self.statistics
    }
}

/// Counters of a cache's work, shared with its users.
#[derive(Debug)]
pub struct CacheStatistics {
    hits_total: AtomicU64,
    hits_time_ms: AtomicU64,
    miss_total: AtomicU64,
    miss_time_ms: AtomicU64,
    gets_errors_total: AtomicU64,
    puts_total: AtomicU64,
    puts_errors_total: AtomicU64,
    puts_time_ms: AtomicU64,
    invalidations_processed_total: AtomicU64,
    invalidations_processed_time_ms: AtomicU64,
    expirations_processed_total: AtomicU64,
    expirations_processed_time_ms: AtomicU64,
}

impl CacheStatistics {
    fn init() -> (r: Self) {
        Self {
            hits_total: AtomicU64::new(0),
            hits_time_ms: AtomicU64::new(0),
            miss_total: AtomicU64::new(0),
            miss_time_ms: AtomicU64::new(0),
            gets_errors_total: AtomicU64::new(0),
            puts_total: AtomicU64::new(0),
            puts_errors_total: AtomicU64::new(0),
            puts_time_ms: AtomicU64::new(0),
            invalidations_processed_total: AtomicU64::new(0),
            invalidations_processed_time_ms: AtomicU64::new(0),
            expirations_processed_total: AtomicU64::new(0),
            expirations_processed_time_ms: AtomicU64::new(0),
        }
    }

    /// Counts a read served from the storage that took `elapsed` ms.
    pub fn record_hit(&self, elapsed: u64) {
        self.hits_time_ms.fetch_add(elapsed, Ordering::Relaxed);
        self.hits_total.fetch_add(1, Ordering::Relaxed);
    }

    /// Counts a read served by the remote repository that took `elapsed` ms.
    pub fn record_miss(&self, elapsed: u64) {
        self.miss_time_ms.fetch_add(elapsed, Ordering::Relaxed);
        self.miss_total.fetch_add(1, Ordering::Relaxed);
    }

    /// Counts a read of the remote repository that failed.
    pub fn record_get_error(&self) {
        self.gets_errors_total.fetch_add(1, Ordering::Relaxed);
    }

    /// Counts a write that took `elapsed` ms.
    pub fn record_put(&self, elapsed: u64) {
        self.puts_time_ms.fetch_add(elapsed, Ordering::Relaxed);
        self.puts_total.fetch_add(1, Ordering::Relaxed);
    }

    /// Counts a write to the remote repository that failed.
    pub fn record_put_error(&self) {
        self.puts_errors_total.fetch_add(1, Ordering::Relaxed);
    }

    /// Counts an invalidation processed in `elapsed` ms.
    pub fn record_invalidation(&self, elapsed: u64) {
        self.invalidations_processed_time_ms.fetch_add(elapsed, Ordering::Relaxed);
        self.invalidations_processed_total.fetch_add(1, Ordering::Relaxed);
    }

    /// Counts an expiration processed in `elapsed` ms.
    pub fn record_expiration(&self, elapsed: u64) {
        self.expirations_processed_time_ms.fetch_add(elapsed, Ordering::Relaxed);
        self.expirations_processed_total.fetch_add(1, Ordering::Relaxed);
    }

    pub fn hits_total(&self) -> u64 {
        self.hits_total.load(Ordering::Relaxed)
    }

    pub fn hits_time_ms(&self) -> u64 {
        self.hits_time_ms.load(Ordering::Relaxed)
    }

    pub fn miss_time_ms(&self) -> u64 {
        self.miss_time_ms.load(Ordering::Relaxed)
    }

    pub fn puts_total(&self) -> u64 {
        self.puts_total.load(Ordering::Relaxed)
    }

    pub fn puts_errors_total(&self) -> u64 {
        self.puts_errors_total.load(Ordering::Relaxed)
    }

    pub fn puts_time_ms(&self) -> u64 {
        self.puts_time_ms.load(Ordering::Relaxed)
    }

    pub fn miss_total(&self) -> u64 {
        self.miss_total.load(Ordering::Relaxed)
    }

    pub fn gets_errors_total(&self) -> u64 {
        self.gets_errors_total.load(Ordering::Relaxed)
    }

    pub fn invalidations_processed_total(&self) -> u64 {
        self.invalidations_processed_total.load(Ordering::Relaxed)
    }

    pub fn invalidations_processed_time_ms(&self) -> u64 {
        self.invalidations_processed_time_ms.load(Ordering::Relaxed)
    }

    pub fn expirations_processed_total(&self) -> u64 {
        self.expirations_processed_total.load(Ordering::Relaxed)
    }

    pub fn expirations_processed_time_ms(&self) -> u64 {
        self.expirations_processed_time_ms.load(Ordering::Relaxed)
    }
}

/// Where a read is served from.
pub enum CacheLookup<V> {
    /// The cache is not serving from its storage: read the remote repository.
    Bypass,
    /// The entry is cached; a clone of its value.
    Hit(V),
    /// The entry is not cached: read the remote repository, then store.
    Miss,
}

/// What became of a value to be cached.
#[derive(Clone, Copy, Debug, PartialEq, Eq, Structural)]
pub enum StoreOutcome {
    /// The value is cached and its expiration is scheduled.
    Stored,
    /// An entry was already cached under the key; it was kept.
    AlreadyCached,
    /// No entry was cached under the key; nothing was done.
    NotCached,
    /// The expiration could not be scheduled, so the entry was removed.
    NotScheduled,
}

/// The storage of one cache of remote entities, whether it serves from it,
/// its configuration, its counters, and the producer of its expirations.
/// `P` is the form in which tasks carry entry keys.
#[verifier::reject_recursive_types(K)]
#[verifier::reject_recursive_types(V)]
#[verifier::reject_recursive_types(P)]
pub struct RCache<K, V, P> {
    storage: HashMap<K, V>,
    initialized: bool,
    config: RCacheConfig,
    statistics: Arc<CacheStatistics>,
    task_producer: CacheTaskProducer<P>,
}

impl<K: Eq + Hash, V: Clone, P> RCache<K, V, P> {
    /// The cached entries.
    pub closed spec fn contents(self) -> Map<K, V> {
        self.storage@
    }

    /// Whether reads and writes are served from the storage.
    pub closed spec fn serving(self) -> bool {
        self.initialized
    }

    pub closed spec fn config_of(self) -> RCacheConfig {
        self.config
    }

    /// The value a read of `key` is served from the storage with, if any.
    pub open spec fn served(self, key: K) -> Option<V> {
        if self.serving() && self.contents().contains_key(key) {
            Some(self.contents()[key])
        } else {
            None
        }
    }

    /// The configuration the cache's expirations are made with.
    pub closed spec fn producer_config(self) -> RCacheConfig {
        self.task_producer.config_of()
    }

    /// The sending half of the task channel the cache's expirations go on.
    pub closed spec fn sender_of(self) -> Sender<CacheTask<P>> {
        self.task_producer.sender_of()
    }

    /// The expiration `t` of the entry `id` (carried as `payload`), made with
    /// the cache's configuration, was sent on the cache's channel, which gave
    /// back `s`.
    pub open spec fn scheduled(self, t: CacheTask<P>, id: Seq<char>, payload: P, s: Result<(), CacheTask<P>>) -> bool {
        &&& expiration_for(t, self.config_of().id_view(), self.config_of().lifetime(), id, payload)
        &&& sent_on(self.sender_of(), t, s)
    }

    /// Keys of type `K` behave as hash-map keys must (their hash agrees with
    /// their equality), and expirations are made with the cache's own
    /// configuration.
    pub open spec fn wf(self) -> bool {
        &&& vstd::std_specs::hash::obeys_key_model::<K>()
        &&& self.producer_config() == self.config_of()
    }

    /// An empty cache, not yet serving from its storage, whose expirations go
    /// to `tx`.
    pub fn new(config: RCacheConfig, tx: Sender<CacheTask<P>>) -> (r: Self)
        requires
            vstd::std_specs::hash::obeys_key_model::<K>(),
        ensures
            r.wf(),
            r.contents() == Map::<K, V>::empty(),
            !r.serving(),
            r.config_of() == config,
            r.sender_of() == tx,
    {
        Self {
            storage: HashMap::new(),
            initialized: false,
            config,
            statistics: Arc::new(CacheStatistics::init()),
            task_producer: CacheTaskProducer::new(config, tx),
        }
    }

    pub fn is_initialized(&self) -> (r: bool)
        ensures
            r == self.serving(),
    {
        self.initialized
    }

    /// Starts serving from the storage.
    pub fn init(&mut self)
        ensures
            final(self).serving(),
            final(self).contents() == old(self).contents(),
            final(self).config_of() == old(self).config_of(),
            final(self).wf() == old(self).wf(),
            final(self).sender_of() == old(self).sender_of(),
    {
        self.initialized = true;
    }

    /// Stops serving from the storage: reads and writes go to the remote
    /// repository.
    pub fn stop(&mut self)
        ensures
            !final(self).serving(),
            final(self).contents() == old(self).contents(),
            final(self).config_of() == old(self).config_of(),
            final(self).wf() == old(self).wf(),
            final(self).sender_of() == old(self).sender_of(),
    {
        self.initialized = false;
    }

    /// Removes every entry; the cache serves from its (empty) storage after.
    pub fn flush_all(&mut self)
        ensures
            final(self).serving(),
            final(self).contents() == Map::<K, V>::empty(),
            final(self).config_of() == old(self).config_of(),
            final(self).wf() == old(self).wf(),
            final(self).sender_of() == old(self).sender_of(),
    {
        self.stop();
        self.storage.clear();
        self.init();
    }

    /// Where a read of `key` is served from.
    pub fn lookup(&self, key: &K) -> (r: CacheLookup<V>)
        requires
            self.wf(),
        ensures
            !self.serving() ==> r is Bypass,
            self.serving() && !self.contents().contains_key(*key) ==> r is Miss,
            self.serving() && self.contents().contains_key(*key) ==> (r matches CacheLookup::Hit(v)
                && cloned(self.contents()[*key], v)),
    {
        if !self.initialized {
            return CacheLookup::Bypass;
        }
        let start = instant_now();
        match self.storage.get(key) {
            None => CacheLookup::Miss,
            Some(v) => {
                let value = v.clone();
                self.statistics.record_hit(elapsed_ms(&start));
                CacheLookup::Hit(value)
            },
        }
    }

    /// The expiration to schedule before caching a value read from the
    /// remote repository after a miss under `key` (whose textual form is `id`,
    /// carried as `payload`); `None` when an entry is cached there by now, and
    /// then nothing is to be stored.
    pub fn plan_fetched(&self, key: &K, id: String, payload: P) -> (r: Option<CacheTask<P>>)
        requires
            self.wf(),
        ensures
            self.contents().contains_key(*key) ==> r is None,
            !self.contents().contains_key(*key) ==> (r matches Some(t) && expiration_for(
                t,
                self.config_of().id_view(),
                self.config_of().lifetime(),
                id@,
                payload,
            )),
    {
        if self.storage.contains_key(key) {
            None
        } else {
            Some(self.task_producer.expiration_task(id, payload))
        }
    }

    /// The expiration to schedule before caching a value just written to the
    /// remote repository under the key whose textual form is `id` (carried as
    /// `payload`).
    pub fn plan_put(&self, id: String, payload: P) -> (t: CacheTask<P>)
        requires
            self.wf(),
        ensures
            expiration_for(t, self.config_of().id_view(), self.config_of().lifetime(), id@, payload),
    {
        self.task_producer.expiration_task(id, payload)
    }

    /// The expiration to schedule before replacing the cached entry under
    /// `key` (whose textual form is `id`, carried as `payload`) by a new
    /// value; `None` when no entry is cached under `key`, and then nothing is
    /// to be replaced.
    pub fn plan_replace(&self, key: &K, id: String, payload: P) -> (r: Option<CacheTask<P>>)
        requires
            self.wf(),
        ensures
            !self.contents().contains_key(*key) ==> r is None,
            self.contents().contains_key(*key) ==> (r matches Some(t) && expiration_for(
                t,
                self.config_of().id_view(),
                self.config_of().lifetime(),
                id@,
                payload,
            )),
    {
        if self.storage.contains_key(key) {
            Some(self.task_producer.expiration_task(id, payload))
        } else {
            None
        }
    }

    /// Hands an expiration to the cache manager (see `CacheTaskProducer::send`).
    pub fn send_expiration(&self, task: CacheTask<P>) -> (r: Result<(), CacheTask<P>>)
        ensures
            sent_on(self.sender_of(), task, r),
            r matches Err(t) ==> t == task,
    {
        self.task_producer.send(task)
    }

    /// Caches `value` under `key` when its expiration was handed to the cache
    /// manager (`sent` is `Ok`); otherwise no entry stays under `key`.
    pub fn complete_store(&mut self, key: K, value: V, sent: Result<(), CacheTask<P>>) -> (r:
        StoreOutcome)
        requires
            old(self).wf(),
        ensures
            final(self).wf(),
            stored_after(old(self).contents(), final(self).contents(), key, value, sent, r),
            final(self).serving() == old(self).serving(),
            final(self).config_of() == old(self).config_of(),
            final(self).sender_of() == old(self).sender_of(),
    {
        match sent {
            Ok(()) => {
                self.storage.insert(key, value);
                StoreOutcome::Stored
            },
            Err(_) => {
                self.storage.remove(&key);
                StoreOutcome::NotScheduled
            },
        }
    }

    /// Caches `value`, read from the remote repository after a miss under
    /// `key` (whose textual form is `id`, carried as `payload`), unless an
    /// entry is cached there by now: schedules its expiration (see
    /// `plan_fetched`), then keeps the value only if the cache manager took
    /// the expiration (see `complete_store`).
    pub fn store_fetched(&mut self, key: K, value: V, id: String, payload: P) -> (r: StoreOutcome)
        requires
            old(self).wf(),
        ensures
            final(self).wf(),
            old(self).contents().contains_key(key) ==> r == StoreOutcome::AlreadyCached
                && final(self).contents() == old(self).contents(),
            !old(self).contents().contains_key(key) ==> exists|t: CacheTask<P>, s: Result<(), CacheTask<P>>|
                #[trigger] old(self).scheduled(t, id@, payload, s) && stored_after(
                    old(self).contents(),
                    final(self).contents(),
                    key,
                    value,
                    s,
                    r,
                ),
            final(self).serving() == old(self).serving(),
            final(self).config_of() == old(self).config_of(),
            final(self).sender_of() == old(self).sender_of(),
    {
        let ghost pl = payload;
        match self.plan_fetched(&key, id, payload) {
            None => StoreOutcome::AlreadyCached,
            Some(task) => {
                let ghost t = task;
                let sent = self.send_expiration(task);
                let ghost k = key;
                let ghost v = value;
                let r = self.complete_store(key, value, sent);
                proof {
                    assert(old(self).scheduled(t, id@, pl, sent));
                    assert(stored_after(old(self).contents(), self.contents(), k, v, sent, r));
                }
                r
            },
        }
    }

    /// Caches `value`, just written to the remote repository under `key`
    /// (whose textual form is `id`, carried as `payload`): schedules its
    /// expiration (see `plan_put`), then keeps the value only if the cache
    /// manager took the expiration (see `complete_store`).
    pub fn store_put(&mut self, key: K, value: V, id: String, payload: P) -> (r: StoreOutcome)
        requires
            old(self).wf(),
        ensures
            final(self).wf(),
            exists|t: CacheTask<P>, s: Result<(), CacheTask<P>>|
                #[trigger] old(self).scheduled(t, id@, payload, s) && stored_after(
                    old(self).contents(),
                    final(self).contents(),
                    key,
                    value,
                    s,
                    r,
                ),
            final(self).serving() == old(self).serving(),
            final(self).config_of() == old(self).config_of(),
            final(self).sender_of() == old(self).sender_of(),
    {
        let ghost pl = payload;
        let task = self.plan_put(id, payload);
        let ghost t = task;
        let sent = self.send_expiration(task);
        let ghost k = key;
        let ghost v = value;
        let r = self.complete_store(key, value, sent);
        proof {
            assert(old(self).scheduled(t, id@, pl, sent));
            assert(stored_after(old(self).contents(), self.contents(), k, v, sent, r));
        }
        r
    }

    /// Replaces the cached entry under `key` (whose textual form is `id`,
    /// carried as `payload`) by `value`: schedules its expiration anew (see
    /// `plan_replace`), then keeps the value only if the cache manager took
    /// the expiration, else removes the entry (see `complete_store`). Nothing
    /// is done when no entry is cached under `key`. Counted as an
    /// invalidation either way.
    pub fn replace_cached(&mut self, key: K, value: V, id: String, payload: P) -> (r: StoreOutcome)
        requires
            old(self).wf(),
        ensures
            final(self).wf(),
            !old(self).contents().contains_key(key) ==> r == StoreOutcome::NotCached
                && final(self).contents() == old(self).contents(),
            old(self).contents().contains_key(key) ==> exists|t: CacheTask<P>, s: Result<(), CacheTask<P>>|
                #[trigger] old(self).scheduled(t, id@, payload, s) && stored_after(
                    old(self).contents(),
                    final(self).contents(),
                    key,
                    value,
                    s,
                    r,
                ),
            final(self).serving() == old(self).serving(),
            final(self).config_of() == old(self).config_of(),
            final(self).sender_of() == old(self).sender_of(),
    {
        let start = instant_now();
        let ghost pl = payload;
        let r = match self.plan_replace(&key, id, payload) {
            None => StoreOutcome::NotCached,
            Some(task) => {
                let ghost t = task;
                let sent = self.send_expiration(task);
                let ghost k = key;
                let ghost v = value;
                let r = self.complete_store(key, value, sent);
                proof {
                    assert(old(self).scheduled(t, id@, pl, sent));
                    assert(stored_after(old(self).contents(), self.contents(), k, v, sent, r));
                }
                r
            },
        };
        self.statistics.record_invalidation(elapsed_ms(&start));
        r
    }

    /// What follows a write of `value` under `key` (whose textual form is
    /// `id`, carried as `payload`) to the remote repository: the value is
    /// cached (see `store_put`) only when the cache served from its storage
    /// as the write began (`serving_before`) and the write succeeded
    /// (`written`); otherwise nothing is done.
    pub fn after_put(
        &mut self,
        serving_before: bool,
        written: bool,
        key: K,
        value: V,
        id: String,
        payload: P,
    ) -> (r: Option<StoreOutcome>)
        requires
            old(self).wf(),
        ensures
            final(self).wf(),
            !(serving_before && written) ==> r is None && final(self).contents() == old(self).contents(),
            serving_before && written ==> (r matches Some(o) && exists|t: CacheTask<P>, s: Result<(), CacheTask<P>>|
                #[trigger] old(self).scheduled(t, id@, payload, s) && stored_after(
                    old(self).contents(),
                    final(self).contents(),
                    key,
                    value,
                    s,
                    o,
                )),
            final(self).serving() == old(self).serving(),
            final(self).config_of() == old(self).config_of(),
            final(self).sender_of() == old(self).sender_of(),
    {
        if serving_before && written {
            Some(self.store_put(key, value, id, payload))
        } else {
            None
        }
    }

    /// What follows the read of the entry under `key` (whose textual form is
    /// `id`, carried as `payload`) from the remote repository, for its
    /// refresh: a value found (`fetched`) replaces the cached one (see
    /// `replace_cached`); when none is found nothing is done.
    pub fn refresh_with(&mut self, key: K, fetched: Option<V>, id: String, payload: P) -> (r: Option<
        StoreOutcome,
    >)
        requires
            old(self).wf(),
        ensures
            final(self).wf(),
            fetched is None ==> r is None && final(self).contents() == old(self).contents(),
            fetched matches Some(v) ==> (r matches Some(o) && (!old(self).contents().contains_key(key)
                ==> o == StoreOutcome::NotCached && final(self).contents() == old(self).contents()) && (
            old(self).contents().contains_key(key) ==> exists|t: CacheTask<P>, s: Result<(), CacheTask<P>>|
                #[trigger] old(self).scheduled(t, id@, payload, s) && stored_after(
                    old(self).contents(),
                    final(self).contents(),
                    key,
                    v,
                    s,
                    o,
                ))),
            final(self).serving() == old(self).serving(),
            final(self).config_of() == old(self).config_of(),
            final(self).sender_of() == old(self).sender_of(),
    {
        match fetched {
            None => None,
            Some(value) => Some(self.replace_cached(key, value, id, payload)),
        }
    }

    /// Removes the entry under `key` (its expiration).
    pub fn expire(&mut self, key: &K)
        requires
            old(self).wf(),
        ensures
            final(self).wf(),
            final(self).contents() == old(self).contents().remove(*key),
            final(self).serving() == old(self).serving(),
            final(self).config_of() == old(self).config_of(),
    {
        let start = instant_now();
        self.storage.remove(key);
        self.statistics.record_expiration(elapsed_ms(&start));
    }

    pub fn contains_key(&self, key: &K) -> (r: bool)
        requires
            self.wf(),
        ensures
            r == self.contents().contains_key(*key),
    {
        self.storage.contains_key(key)
    }

    pub fn len(&self) -> (r: usize)
        requires
            self.wf(),
        ensures
            r == self.contents().len(),
    {
        self.storage.len()
    }

    pub fn is_empty(&self) -> (r: bool)
        ensures
            r == (self.contents().len() == 0),
    {
        self.storage.is_empty()
    }

    pub fn cache_id(&self) -> (r: &'static str)
        ensures
            r@ == self.config_of().id_view(),
    {
        self.config.cache_id()
    }

    /// The cache's counters.
    pub closed spec fn statistics_of(self) -> Arc<CacheStatistics> {
        self.statistics
    }

    /// The counters of the cache's producer of expirations.
    pub closed spec fn producer_statistics_of(self) -> Arc<TaskProducerStatistics> {
        self.task_producer.statistics_of()
    }

    /// The cache's counters, shared with its users.
    pub fn statistics(&self) -> (r: &Arc<CacheStatistics>)
        ensures
            *r == self.statistics_of(),
    {
        &self.statistics
    }

    /// The counters of the expirations the cache scheduled, shared with its
    /// users.
    pub fn task_producer_statistics(&self) -> (r: &Arc<TaskProducerStatistics>)
        ensures
            *r == self.producer_statistics_of(),
    {
        self.task_producer.statistics()
    }

}

} // verus!
