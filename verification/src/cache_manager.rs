use vstd::prelude::*;

use std::sync::atomic::AtomicU64;
use std::sync::atomic::Ordering;
use std::sync::mpsc::{Receiver, Sender};
use std::sync::Arc;
use std::time::Duration;

use crate::async_executor::{AsyncExecutor, AsyncTask};
use crate::cache_manager_config::CacheManagerConfig;
use crate::cache_task::{CacheTask, TaskKind};
use crate::errors::ManualOperationError;
use crate::r_cache::{CacheTaskProcessor, InputValidator};
use crate::task_channel::{
    clone_sender, made_millis, millis, open_channel, receive_within, received_within, send_on, sent_on,
};
use crate::task_queue::{add_pending, distinct_identities, gathered, merged, not_replaced_by, TaskQueue};
use crate::utils::{
    clock_limit, clock_read, current_time_ms, deadline_from_reading, elapsed_ms, instant_now,
};

verus! {

broadcast use vstd::seq_lib::group_to_multiset_ensures;

/// `id` is one of the identifiers `ids`.
pub open spec fn id_registered(ids: Seq<String>, id: Seq<char>) -> bool {
    exists|i: int| 0 <= i < ids.len() && (#[trigger] ids[i])@ == id
}

/// No identifier occurs twice in `ids`.
pub open spec fn distinct_ids(ids: Seq<String>) -> bool {
    forall|i: int, j: int|
        0 <= i < ids.len() && 0 <= j < ids.len() && i != j ==> (#[trigger] ids[i])@ != (
        #[trigger] ids[j])@
}

/// The position of the identifier `id` among `ids`, if it is there.
pub fn find_id(ids: &Vec<String>, id: &String) -> (r: Option<usize>)
    ensures
        match r {
            Some(i) => i < ids@.len() && ids@[i as int]@ == id@,
            None => !id_registered(ids@, id@),
        },
{
    let mut i: usize = 0;
    while i < ids.len()
        invariant
            0 <= i <= ids.len(),
            forall|k: int| 0 <= k < i ==> (#[trigger] ids@[k])@ != id@,
        decreases ids.len() - i,
    {
        if ids[i] == *id {
            return Some(i);
        }
        i = i + 1;
    }
    None
}

/// Counters of the cache manager's work, shared with its worker.
#[derive(Debug)]
pub struct CacheManagerStatistics {
    tasks_total: AtomicU64,
    merged_tasks_total: AtomicU64,
    expired_tasks_total: AtomicU64,
    pending_tasks_total: AtomicU64,
    pending_async_tasks_total: AtomicU64,
    expired_async_tasks_total: AtomicU64,
    cycles_total: AtomicU64,
    cycles_time_ms: AtomicU64,
}

/// What one cycle of the cache manager's worker did.
#[derive(Clone, Copy, Debug, PartialEq, Eq, Structural)]
pub struct CycleReport {
    /// Tasks discarded because a newer task replaced them.
    pub merged: u64,
    /// Tasks moved from the channel to the task queue.
    pub pushed: u64,
    /// Tasks taken from the task queue.
    pub processed: u64,
    /// Invalidations dropped because they expired before they could start.
    pub expired: u64,
    /// Background tasks that ended.
    pub finished_async: u64,
    /// Background tasks aborted because they did not end in time.
    pub aborted_async: u64,
    /// Tasks left in the task queue.
    pub pending: u64,
    /// Background tasks still running.
    pub pending_async: u64,
    /// Milliseconds the cycle took.
    pub elapsed_ms: u64,
}

impl CacheManagerStatistics {
    fn init() -> (r: Self) {
        Self {
            tasks_total: AtomicU64::new(0),
            merged_tasks_total: AtomicU64::new(0),
            expired_tasks_total: AtomicU64::new(0),
            pending_tasks_total: AtomicU64::new(0),
            pending_async_tasks_total: AtomicU64::new(0),
            expired_async_tasks_total: AtomicU64::new(0),
            cycles_total: AtomicU64::new(0),
            cycles_time_ms: AtomicU64::new(0),
        }
    }

    /// Counters at zero, to be shared between the manager and its worker.
    pub fn share_init() -> (r: Arc<Self>) {
        Arc::new(Self::init())
    }

    /// Adds what one cycle did to the counters.
    pub fn record_cycle(&self, report: &CycleReport) {
        self.tasks_total.fetch_add(report.pushed, Ordering::Relaxed);
        self.merged_tasks_total.fetch_add(report.merged, Ordering::Relaxed);
        self.expired_tasks_total.fetch_add(report.expired, Ordering::Relaxed);
        self.pending_tasks_total.store(report.pending, Ordering::Relaxed);
        self.pending_async_tasks_total.store(report.pending_async, Ordering::Relaxed);
        self.expired_async_tasks_total.fetch_add(report.aborted_async, Ordering::Relaxed);
        self.cycles_time_ms.fetch_add(report.elapsed_ms, Ordering::Relaxed);
        self.cycles_total.fetch_add(1, Ordering::Relaxed);
    }

    pub fn tasks_total(&self) -> u64 {
        self.tasks_total.load(Ordering::Relaxed)
    }

    pub fn merged_tasks_total(&self) -> u64 {
        self.merged_tasks_total.load(Ordering::Relaxed)
    }

    pub fn expired_tasks_total(&self) -> u64 {
        self.expired_tasks_total.load(Ordering::Relaxed)
    }

    pub fn pending_tasks_total(&self) -> u64 {
        self.pending_tasks_total.load(Ordering::Relaxed)
    }

    pub fn pending_async_tasks_total(&self) -> u64 {
        self.pending_async_tasks_total.load(Ordering::Relaxed)
    }

    pub fn expired_async_tasks_total(&self) -> u64 {
        self.expired_async_tasks_total.load(Ordering::Relaxed)
    }

    pub fn cycles_total(&self) -> u64 {
        self.cycles_total.load(Ordering::Relaxed)
    }

    pub fn cycles_time_ms(&self) -> u64 {
        self.cycles_time_ms.load(Ordering::Relaxed)
    }
}

/// The queue `after` is `before` with the tasks gathered from the tasks
/// `received` in one poll (see `gathered`) merged in; `r` counts the tasks
/// merged away (replaced while gathering, or queued and replaced now) and the
/// tasks added.
pub open spec fn poll_merged<P>(
    before: Seq<CacheTask<P>>,
    after: Seq<CacheTask<P>>,
    received: Seq<CacheTask<P>>,
    r: (u64, u64),
) -> bool {
    let pending = gathered(received);
    &&& after.to_multiset() == merged(before, pending)
    &&& r.0 == crate::task_queue::saturating_sum(
        received.len() - pending.len(),
        before.len() - before.filter(not_replaced_by(pending)).len(),
    )
    &&& r.1 == pending.len()
}

/// Registering under `id` took the registry from `before` to `after`: it is
/// accepted (`r`) exactly when `id` was not registered, and then `id` is
/// added; otherwise nothing changes.
pub open spec fn registered_as(before: Seq<String>, after: Seq<String>, id: String, r: bool) -> bool {
    &&& r == !id_registered(before, id@)
    &&& r ==> after == before.push(id)
    &&& !r ==> after == before
}

/// The task queue `q` stops a processing round at the clock reading `now`:
/// it is empty or its first task may run only after `now`.
pub open spec fn stopped_at<P>(q: Seq<CacheTask<P>>, now: u128) -> bool {
    &&& clock_read(now)
    &&& now <= clock_limit()
    &&& (q.len() == 0 || q[0].exec_time_of() > now)
}

/// What became of one task taken from the task queue.
#[derive(Clone, Copy, Debug, PartialEq, Eq, Structural)]
pub enum Execution {
    /// The processor at position `processor` carried out the task, whose
    /// operation is `kind`; for an invalidation, it started the refresh of the
    /// entry on the async executor.
    Run { processor: usize, kind: TaskKind },
    /// The invalidation expired before it could start; it was dropped.
    Expired,
    /// No processor is registered for the task's cache; it was dropped.
    NoProcessor,
}

/// The position of the identifier `id` among `ids` (meaningful when it is
/// there).
pub open spec fn id_index(ids: Seq<String>, id: Seq<char>) -> int {
    choose|i: int| 0 <= i < ids.len() && (#[trigger] ids[i])@ == id
}

/// In a registry without duplicates, the identifier at position `i` is found
/// at position `i`.
pub proof fn lemma_id_index(ids: Seq<String>, i: int)
    requires
        distinct_ids(ids),
        0 <= i < ids.len(),
    ensures
        id_registered(ids, ids[i]@),
        id_index(ids, ids[i]@) == i,
{
    assert(id_registered(ids, ids[i]@));
    let j = id_index(ids, ids[i]@);
    if j != i {
        assert(ids[j]@ != ids[i]@);
    }
}

/// What becomes of `task` carried out at the clock reading `now`, with the
/// processors registered under `ids`: dropped when no processor is registered
/// for its cache, or when it is an invalidation whose expiration has come;
/// otherwise carried out by the processor of its cache.
pub open spec fn execution_of<P>(task: CacheTask<P>, ids: Seq<String>, now: u128) -> Execution {
    if !id_registered(ids, task.cache_id_view()) {
        Execution::NoProcessor
    } else if task.exp_time_of() is Some && now >= task.exp_time_of().unwrap() {
        Execution::Expired
    } else {
        Execution::Run { processor: id_index(ids, task.cache_id_view()) as usize, kind: task.kind() }
    }
}

/// `task` was taken from the task queue at the clock reading `now`, at which
/// it could run, and `e` is what became of it.
pub open spec fn taken_at<P>(task: CacheTask<P>, ids: Seq<String>, e: Execution, now: u128) -> bool {
    &&& clock_read(now)
    &&& now <= clock_limit()
    &&& task.exec_time_of() <= now
    &&& e == execution_of(task, ids, now)
}

/// `task` was taken from the task queue at some clock reading, and `e` is
/// what became of it then.
pub open spec fn taken<P>(task: CacheTask<P>, ids: Seq<String>, e: Execution) -> bool {
    exists|now: u128| #[trigger] taken_at(task, ids, e, now)
}

/// The first `execs.len()` tasks of `tasks` were taken in order, the k-th
/// becoming `execs[k]`.
pub open spec fn carried_out<P>(tasks: Seq<CacheTask<P>>, ids: Seq<String>, execs: Seq<Execution>) -> bool {
    &&& execs.len() <= tasks.len()
    &&& forall|k: int| 0 <= k < execs.len() ==> #[trigger] taken(tasks[k], ids, execs[k])
}

/// How many of `execs` are expired invalidations.
pub open spec fn count_expired(execs: Seq<Execution>) -> nat
    decreases execs.len(),
{
    if execs.len() == 0 {
        0
    } else {
        count_expired(execs.drop_last()) + if execs.last() == Execution::Expired {
            1nat
        } else {
            0nat
        }
    }
}

/// Whether `e` started a refresh on the async executor.
pub open spec fn started(e: Execution) -> bool {
    e matches Execution::Run { kind, .. } && kind == TaskKind::Invalidation
}

/// How many of `execs` started a refresh on the async executor.
pub open spec fn count_started(execs: Seq<Execution>) -> nat
    decreases execs.len(),
{
    if execs.len() == 0 {
        0
    } else {
        count_started(execs.drop_last()) + if started(execs.last()) {
            1nat
        } else {
            0nat
        }
    }
}

pub proof fn lemma_count_expired_bound(execs: Seq<Execution>)
    ensures
        count_expired(execs) <= execs.len(),
    decreases execs.len(),
{
    if execs.len() > 0 {
        lemma_count_expired_bound(execs.drop_last());
    }
}

/// The background tasks of `tasks` that stay tracked, when `reports[k]` tells
/// whether the k-th has ended and whether it is past its expiration: those
/// that have not ended and are not late.
pub open spec fn kept_tasks<A>(tasks: Seq<A>, reports: Seq<(bool, bool)>) -> Seq<A>
    decreases reports.len(),
{
    if reports.len() == 0 {
        Seq::empty()
    } else {
        let rest = kept_tasks(tasks, reports.drop_last());
        if reports.last().0 || reports.last().1 {
            rest
        } else {
            rest.push(tasks[reports.len() - 1])
        }
    }
}

/// How many of the reported background tasks have ended.
pub open spec fn count_finished(reports: Seq<(bool, bool)>) -> nat
    decreases reports.len(),
{
    if reports.len() == 0 {
        0
    } else {
        count_finished(reports.drop_last()) + if reports.last().0 {
            1nat
        } else {
            0nat
        }
    }
}

/// How many of the reported background tasks have not ended and are past
/// their expiration (and are aborted).
pub open spec fn count_late(reports: Seq<(bool, bool)>) -> nat
    decreases reports.len(),
{
    if reports.len() == 0 {
        0
    } else {
        count_late(reports.drop_last()) + if !reports.last().0 && reports.last().1 {
            1nat
        } else {
            0nat
        }
    }
}

pub proof fn lemma_report_counts_bound(reports: Seq<(bool, bool)>)
    ensures
        count_finished(reports) + count_late(reports) <= reports.len(),
    decreases reports.len(),
{
    if reports.len() > 0 {
        lemma_report_counts_bound(reports.drop_last());
    }
}

/// `reports` are what the background tasks `tasks` answered, one per task
/// in order: whether it has ended (`is_finished`) and whether it is past its
/// expiration (`is_expired`).
pub open spec fn reported<A: AsyncTask>(tasks: Seq<A>, reports: Seq<(bool, bool)>) -> bool {
    &&& reports.len() == tasks.len()
    &&& forall|k: int|
        0 <= k < reports.len() ==> #[trigger] call_ensures(A::is_finished, (&tasks[k],), reports[k].0)
            && call_ensures(A::is_expired, (&tasks[k],), reports[k].1)
}

/// Each background task of `tasks` that `reports` gives as not ended and
/// late was aborted (`abort` was called on it).
pub open spec fn aborted_late<A: AsyncTask>(tasks: Seq<A>, reports: Seq<(bool, bool)>) -> bool {
    forall|k: int|
        0 <= k < reports.len() && !reports[k].0 && reports[k].1 ==> #[trigger] call_ensures(
            A::abort,
            (&tasks[k],),
            (),
        )
}

/// The background tasks went from `before` to `after` when checked with
/// `reports` (one per task), and `r` counts those that ended and those
/// aborted.
pub open spec fn released<A>(before: Seq<A>, after: Seq<A>, reports: Seq<(bool, bool)>, r: (u64, u64)) -> bool {
    &&& reports.len() == before.len()
    &&& after == kept_tasks(before, reports)
    &&& r.0 == count_finished(reports)
    &&& r.1 == count_late(reports)
}

/// The part of the cache manager that its worker owns: the task queue, the
/// task processors, the async executor and the running background tasks.
#[verifier::reject_recursive_types(P)]
pub struct CacheManagerInner<P, T, E> where T: CacheTaskProcessor<P>, E: AsyncExecutor<T::Refresh> {
    tasks: TaskQueue<P>,
    processor_ids: Vec<String>,
    task_processors: Vec<T>,
    executor: E,
    async_tasks: Vec<E::Task>,
    config: CacheManagerConfig,
    rx: Receiver<CacheTask<P>>,
}

impl<P, T, E> CacheManagerInner<P, T, E> where T: CacheTaskProcessor<P>, E: AsyncExecutor<T::Refresh> {
    /// The tasks waiting in the task queue, earliest first.
    pub closed spec fn queue(self) -> Seq<CacheTask<P>> {
        self.tasks@
    }

    /// The identifiers of the caches with a registered processor.
    pub closed spec fn ids(self) -> Seq<String> {
        self.processor_ids@
    }

    /// The background tasks still tracked.
    pub closed spec fn running(self) -> Seq<E::Task> {
        self.async_tasks@
    }

    pub closed spec fn config_of(self) -> CacheManagerConfig {
        self.config
    }

    /// The task processors, in the order of their caches' identifiers.
    pub closed spec fn processors(self) -> Seq<T> {
        self.task_processors@
    }

    /// The async executor that runs the refreshes.
    pub closed spec fn executor_of(self) -> E {
        self.executor
    }

    /// The receiving half of the task channel.
    pub closed spec fn receiver_of(self) -> Receiver<CacheTask<P>> {
        self.rx
    }

    /// `task` was carried out as `e` says by the processors and the executor
    /// of `self`: for `Run`, the method of the task's operation was called on
    /// the processor at that position, with the task's key or replacement
    /// value; for an invalidation, the refresh it gave back was started on the
    /// async executor with the task's expiration, giving the background task
    /// `bg`. Nothing is called for a dropped task.
    pub open spec fn performed(self, task: CacheTask<P>, e: Execution, bg: E::Task) -> bool {
        match e {
            Execution::Run { processor, .. } => {
                let p = self.processors()[processor as int];
                match task {
                    CacheTask::Init { .. } => call_ensures(T::init, (&p,), ()),
                    CacheTask::Stop { .. } => call_ensures(T::stop, (&p,), ()),
                    CacheTask::FlushAll { .. } => call_ensures(T::flush_all, (&p,), ()),
                    CacheTask::EntryExpiration { key, .. } => call_ensures(T::expire, (&p, key), ()),
                    CacheTask::InvalidationWithProperties { invalidation, .. } => call_ensures(
                        T::invalidate_with_properties,
                        (&p, invalidation),
                        (),
                    ),
                    CacheTask::Invalidation { key, exp_time, .. } => exists|refresh: T::Refresh|
                        #[trigger] call_ensures(T::invalidate, (&p, key), refresh) && call_ensures(
                            E::execute,
                            (&self.executor_of(), exp_time, refresh),
                            bg,
                        ),
                }
            },
            _ => true,
        }
    }

    /// `task` was carried out as `e` says (see `performed`).
    pub open spec fn ran(self, task: CacheTask<P>, e: Execution) -> bool {
        exists|bg: E::Task| #[trigger] self.performed(task, e, bg)
    }

    /// The queue is ordered and holds no task twice, and each processor has
    /// its own cache identifier.
    pub closed spec fn wf(self) -> bool {
        &&& self.tasks.wf()
        &&& self.processor_ids@.len() == self.task_processors@.len()
        &&& distinct_ids(self.processor_ids@)
    }

    /// In every state the worker's operations keep (`wf`), its task queue is
    /// ordered by the instant from which each task may run and holds no task
    /// twice, and no two processors share a cache identifier.
    pub proof fn law_queue_ordered_and_distinct(self)
        requires
            self.wf(),
        ensures
            crate::task_queue::sorted_by_exec_time(self.queue()),
            distinct_identities(self.queue()),
            distinct_ids(self.ids()),
    {
    }

    pub fn new(config: CacheManagerConfig, rx: Receiver<CacheTask<P>>, executor: E) -> (r: Self)
        ensures
            r.wf(),
            r.queue() == Seq::<CacheTask<P>>::empty(),
            r.ids() == Seq::<String>::empty(),
            r.running() == Seq::<E::Task>::empty(),
            r.config_of() == config,
    {
        Self {
            tasks: TaskQueue::new(),
            processor_ids: Vec::new(),
            task_processors: Vec::new(),
            executor,
            async_tasks: Vec::new(),
            config,
            rx,
        }
    }

    /// Registers `task_processor` as the processor of cache `cache_id`.
    /// When that cache already has one, the registration is refused: false
    /// is returned and nothing changes (the caller decides; `app/` panics, as
    /// a duplicate registration is a programming error).
    pub fn register_as(&mut self, cache_id: String, task_processor: T) -> (r: bool)
        requires
            old(self).wf(),
        ensures
            final(self).wf(),
            r == !id_registered(old(self).ids(), cache_id@),
            r ==> final(self).ids() == old(self).ids().push(cache_id),
            !r ==> final(self).ids() == old(self).ids(),
            final(self).queue() == old(self).queue(),
            final(self).running() == old(self).running(),
            final(self).config_of() == old(self).config_of(),
            r ==> final(self).processors() == old(self).processors().push(task_processor),
            !r ==> final(self).processors() == old(self).processors(),
            final(self).executor_of() == old(self).executor_of(),
            final(self).receiver_of() == old(self).receiver_of(),
    {
        if find_id(&self.processor_ids, &cache_id).is_some() {
            return false;
        }
        let ghost before = self.processor_ids@;
        let ghost id = cache_id;
        self.processor_ids.push(cache_id);
        self.task_processors.push(task_processor);
        proof {
            assert forall|i: int, j: int|
                0 <= i < self.processor_ids@.len() && 0 <= j < self.processor_ids@.len() && i != j
                    implies (#[trigger] self.processor_ids@[i])@ != (
            #[trigger] self.processor_ids@[j])@ by {
                if i == before.len() {
                    assert(self.processor_ids@[j] == before[j]);
                    if before[j]@ == id@ {
                        assert(id_registered(before, id@));
                    }
                } else if j == before.len() {
                    assert(self.processor_ids@[i] == before[i]);
                    if before[i]@ == id@ {
                        assert(id_registered(before, id@));
                    }
                }
            }
        }
        true
    }

    /// Registers `task_processor` under the identifier it reports (its
    /// `cache_id`); refused (returns false, nothing changes) when that cache
    /// already has a processor (see `register_as`).
    pub fn register(&mut self, task_processor: T) -> (r: bool)
        requires
            old(self).wf(),
        ensures
            final(self).wf(),
            exists|s: &str, id: String|
                #[trigger] call_ensures(T::cache_id, (&task_processor,), s) && id@ == s@
                    && #[trigger] registered_as(old(self).ids(), final(self).ids(), id, r),
            r ==> final(self).processors() == old(self).processors().push(task_processor),
            !r ==> final(self).processors() == old(self).processors(),
            final(self).queue() == old(self).queue(),
            final(self).running() == old(self).running(),
            final(self).config_of() == old(self).config_of(),
            final(self).executor_of() == old(self).executor_of(),
            final(self).receiver_of() == old(self).receiver_of(),
    {
        let reported = task_processor.cache_id();
        let cache_id = reported.to_owned();
        let ghost s = reported;
        let ghost id = cache_id;
        let ghost tp = task_processor;
        let r = self.register_as(cache_id, task_processor);
        assert(call_ensures(T::cache_id, (&tp,), s) && id@ == s@ && registered_as(
            old(self).ids(),
            self.ids(),
            id,
            r,
        ));
        r
    }

    /// The `k`-th read of a poll waited on the task channel (and gave `r`) for
    /// the first-poll wait when `k` is 0, for the bulk-poll wait after.
    pub open spec fn read_with(self, k: int, r: Option<CacheTask<P>>) -> bool {
        exists|d: Duration|
            #[trigger] received_within(self.receiver_of(), d, r) && made_millis(
                if k == 0 {
                    self.config_of().first_poll_wait()
                } else {
                    self.config_of().bulk_poll_wait()
                },
                d,
            )
    }

    /// `reads` are the reads of one poll, in order (see `read_with`), and
    /// `received` the tasks they gave: every read gave a task, but the last
    /// may have given none, and then it ended the poll.
    pub open spec fn polled(self, reads: Seq<Option<CacheTask<P>>>, received: Seq<CacheTask<P>>) -> bool {
        &&& 1 <= reads.len()
        &&& forall|k: int| 0 <= k < reads.len() ==> #[trigger] self.read_with(k, reads[k])
        &&& received.len() <= reads.len() <= received.len() + 1
        &&& forall|k: int| 0 <= k < received.len() ==> reads[k] == Some(#[trigger] received[k])
        &&& reads.len() == received.len() + 1 ==> reads.last() is None
    }

    /// Gathers the tasks of one poll of the channel: waits for a first task
    /// up to the first-poll wait, then takes further tasks (each waited for up
    /// to the bulk-poll wait) until one does not come, `max_task_drain_size`
    /// further tasks were taken, or the pending window has passed. Returns
    /// the tasks gathered from those received (see `gathered`), how many
    /// received tasks replaced one gathered before, the tasks received, and
    /// the reads made (see `polled`).
    pub fn gather_pending(&self) -> (r: (
        Vec<CacheTask<P>>,
        u64,
        Ghost<Seq<CacheTask<P>>>,
        Ghost<Seq<Option<CacheTask<P>>>>,
    ))
        ensures
            r.0@ == gathered(r.2@),
            distinct_identities(r.0@),
            r.1 + r.0@.len() == r.2@.len(),
            r.2@.len() <= self.config_of().drain_size() + 1,
            self.polled(r.3@, r.2@),
    {
        let mut pending: Vec<CacheTask<P>> = Vec::new();
        let ghost mut received: Seq<CacheTask<P>> = Seq::empty();
        let ghost mut reads: Seq<Option<CacheTask<P>>> = Seq::empty();
        let first_wait = millis(self.config.max_pending_first_poll_ms_await());
        let first = receive_within(&self.rx, first_wait);
        proof {
            reads = reads.push(first);
            assert(received_within(self.receiver_of(), first_wait, first));
            assert(self.read_with(0, reads[0]));
        }
        match first {
            None => {
                return (pending, 0, Ghost(received), Ghost(reads));
            },
            Some(task) => {
                let ghost t = task;
                add_pending(&mut pending, task);
                proof {
                    received = received.push(t);
                    assert(received.drop_last() =~= Seq::<CacheTask<P>>::empty());
                    assert(gathered(Seq::<CacheTask<P>>::empty()) == Seq::<CacheTask<P>>::empty());
                    assert(received.last() == t);
                }
            },
        }
        let start = instant_now();
        let max_polls = self.config.max_task_drain_size();
        let window = self.config.max_pending_ms_await();
        let wait = self.config.max_pending_bulk_poll_ms_await();
        let mut polls: u64 = 0;
        let mut replaced: u64 = 0;
        while polls < max_polls
            invariant_except_break
                reads.len() == received.len(),
            invariant
                distinct_identities(pending@),
                pending@ == gathered(received),
                replaced <= polls,
                polls <= max_polls,
                max_polls == self.config_of().drain_size(),
                wait == self.config_of().bulk_poll_wait(),
                pending@.len() + replaced == received.len(),
                received.len() == polls + 1,
                received.len() <= reads.len() <= received.len() + 1,
                reads.len() == received.len() + 1 ==> reads.last() is None,
                forall|k: int| 0 <= k < reads.len() ==> #[trigger] self.read_with(k, reads[k]),
                forall|k: int| 0 <= k < received.len() ==> reads[k] == Some(#[trigger] received[k]),
            ensures
                distinct_identities(pending@),
                pending@ == gathered(received),
                pending@.len() + replaced == received.len(),
                received.len() <= max_polls + 1,
                max_polls == self.config_of().drain_size(),
                self.polled(reads, received),
            decreases max_polls - polls,
        {
            if elapsed_ms(&start) >= window {
                break;
            }
            let d = millis(wait);
            let got = receive_within(&self.rx, d);
            let ghost k = reads.len() as int;
            let ghost reads_before = reads;
            proof {
                reads = reads.push(got);
                assert(received_within(self.receiver_of(), d, got));
                assert(self.read_with(k, reads[k]));
                assert forall|m: int| 0 <= m < reads.len() implies #[trigger] self.read_with(m, reads[m]) by {
                    if m < k {
                        assert(reads[m] == reads_before[m]);
                    }
                }
            }
            match got {
                Some(task) => {
                    let ghost t = task;
                    let ghost before = received;
                    if add_pending(&mut pending, task) {
                        replaced = replaced + 1;
                    }
                    proof {
                        received = received.push(t);
                        assert(received.drop_last() =~= before);
                        assert forall|m: int| 0 <= m < received.len() implies reads[m] == Some(
                            #[trigger] received[m],
                        ) by {
                            if m < k {
                                assert(received[m] == before[m]);
                                assert(reads[m] == reads_before[m]);
                            }
                        }
                    }
                },
                None => {
                    proof {
                        assert forall|m: int| 0 <= m < received.len() implies reads[m] == Some(
                            #[trigger] received[m],
                        ) by {
                            assert(reads[m] == reads_before[m]);
                        }
                    }
                    break;
                },
            }
            polls = polls + 1;
        }
        (pending, replaced, Ghost(received), Ghost(reads))
    }

    /// Moves gathered tasks into the task queue: every queued task that a
    /// gathered task replaces is discarded. Returns how many tasks were
    /// merged away (the `replaced` ones discarded while gathering and the
    /// queued ones discarded now) and how many were added.
    pub fn merge_pending(&mut self, pending: Vec<CacheTask<P>>, replaced: u64) -> (r: (u64, u64))
        requires
            old(self).wf(),
            distinct_identities(pending@),
        ensures
            final(self).wf(),
            final(self).queue().to_multiset() == merged(old(self).queue(), pending@),
            r.0 == crate::task_queue::saturating_sum(
                replaced as int,
                old(self).queue().len() - old(self).queue().filter(not_replaced_by(pending@)).len(),
            ),
            r.1 == pending@.len(),
            final(self).ids() == old(self).ids(),
            final(self).running() == old(self).running(),
            final(self).config_of() == old(self).config_of(),
            final(self).processors() == old(self).processors(),
            final(self).executor_of() == old(self).executor_of(),
            final(self).receiver_of() == old(self).receiver_of(),
    {
        let pushed = pending.len() as u64;
        let removed = self.tasks.merge(pending);
        let merged_count = replaced.saturating_add(removed as u64);
        (merged_count, pushed)
    }

    /// One poll of the channel (see `gather_pending`) merged into the task
    /// queue (see `merge_pending`). Returns how many tasks were merged away
    /// and how many were added.
    pub fn push_tasks(&mut self) -> (r: (u64, u64))
        requires
            old(self).wf(),
        ensures
            final(self).wf(),
            exists|received: Seq<CacheTask<P>>, reads: Seq<Option<CacheTask<P>>>|
                #[trigger] poll_merged(old(self).queue(), final(self).queue(), received, r)
                    && received.len() <= old(self).config_of().drain_size() + 1 && #[trigger] old(
                    self,
                ).polled(reads, received),
            final(self).ids() == old(self).ids(),
            final(self).running() == old(self).running(),
            final(self).config_of() == old(self).config_of(),
            final(self).processors() == old(self).processors(),
            final(self).executor_of() == old(self).executor_of(),
            final(self).receiver_of() == old(self).receiver_of(),
    {
        let (pending, replaced, received, reads) = self.gather_pending();
        let r = self.merge_pending(pending, replaced);
        assert(poll_merged(old(self).queue(), self.queue(), received@, r));
        assert(old(self).polled(reads@, received@));
        r
    }

    /// What becomes of `task` carried out at the clock reading `now` (see
    /// `execution_of`).
    pub fn dispatch(&self, task: &CacheTask<P>, now: u128) -> (r: Execution)
        requires
            self.wf(),
        ensures
            r == execution_of(*task, self.ids(), now),
    {
        let i = match find_id(&self.processor_ids, task.cache_id_ref()) {
            None => {
                return Execution::NoProcessor;
            },
            Some(i) => i,
        };
        proof {
            let ids = self.ids();
            let id = task.cache_id_view();
            assert(id_registered(ids, id));
            let j = id_index(ids, id);
            if j != i as int {
                assert(ids[j]@ != ids[i as int]@);
            }
        }
        match task.exp_time() {
            Some(exp_time) => {
                if now >= exp_time {
                    return Execution::Expired;
                }
            },
            None => {},
        }
        Execution::Run { processor: i, kind: task.kind_of() }
    }

    /// Carries out `task` at the clock reading `now` (see `execution_of`):
    /// the processor of its cache runs its operation; an invalidation starts
    /// the refresh of its entry on the async executor, which is then tracked
    /// until it ends.
    pub fn execute(&mut self, task: CacheTask<P>, now: u128) -> (r: Execution)
        requires
            old(self).wf(),
        ensures
            final(self).wf(),
            r == execution_of(task, old(self).ids(), now),
            exists|bg: E::Task|
                #[trigger] old(self).performed(task, r, bg) && (started(r) ==> final(self).running()
                    == old(self).running().push(bg)),
            started(r) ==> final(self).running().len() == old(self).running().len() + 1
                && final(self).running().drop_last() == old(self).running(),
            !started(r) ==> final(self).running() == old(self).running(),
            final(self).queue() == old(self).queue(),
            final(self).ids() == old(self).ids(),
            final(self).config_of() == old(self).config_of(),
            final(self).processors() == old(self).processors(),
            final(self).executor_of() == old(self).executor_of(),
            final(self).receiver_of() == old(self).receiver_of(),
    {
        let e = self.dispatch(&task, now);
        let ghost t = task;
        let ghost arbitrary: E::Task = vstd::pervasive::arbitrary();
        let i = match e {
            Execution::Run { processor, .. } => processor,
            _ => {
                assert(old(self).performed(t, e, arbitrary));
                return e;
            },
        };
        proof {
            let ids = self.ids();
            let id = task.cache_id_view();
            let j = id_index(ids, id);
            assert(0 <= j < ids.len() && ids[j]@ == id);
        }
        match task {
            CacheTask::Init { .. } => {
                self.task_processors[i].init();
                assert(old(self).performed(t, e, arbitrary));
            },
            CacheTask::Stop { .. } => {
                self.task_processors[i].stop();
                assert(old(self).performed(t, e, arbitrary));
            },
            CacheTask::FlushAll { .. } => {
                self.task_processors[i].flush_all();
                assert(old(self).performed(t, e, arbitrary));
            },
            CacheTask::EntryExpiration { key, .. } => {
                self.task_processors[i].expire(key);
                assert(old(self).performed(t, e, arbitrary));
            },
            CacheTask::InvalidationWithProperties { invalidation, .. } => {
                self.task_processors[i].invalidate_with_properties(invalidation);
                assert(old(self).performed(t, e, arbitrary));
            },
            CacheTask::Invalidation { exp_time, key, .. } => {
                let refresh = self.task_processors[i].invalidate(key);
                let running = self.executor.execute(exp_time, refresh);
                let ghost bg = running;
                self.async_tasks.push(running);
                proof {
                    assert(self.async_tasks@.drop_last() =~= old(self).async_tasks@);
                    assert(old(self).performed(t, e, bg));
                }
            },
        }
        e
    }

    /// Carries out an `Init` task on every registered cache, in the order of
    /// registration, so that each starts serving from its storage. Returns
    /// what became of each.
    pub fn init_all(&mut self) -> (r: Vec<Execution>)
        requires
            old(self).wf(),
        ensures
            final(self).wf(),
            r@.len() == old(self).ids().len(),
            forall|i: int|
                0 <= i < r@.len() ==> #[trigger] r@[i] == (Execution::Run {
                    processor: i as usize,
                    kind: TaskKind::Init,
                }),
            forall|i: int|
                0 <= i < old(self).processors().len() ==> #[trigger] call_ensures(
                    T::init,
                    (&old(self).processors()[i],),
                    (),
                ),
            final(self).queue() == old(self).queue(),
            final(self).ids() == old(self).ids(),
            final(self).running() == old(self).running(),
            final(self).config_of() == old(self).config_of(),
            final(self).processors() == old(self).processors(),
            final(self).executor_of() == old(self).executor_of(),
            final(self).receiver_of() == old(self).receiver_of(),
    {
        let mut execs: Vec<Execution> = Vec::new();
        let n = self.processor_ids.len();
        let mut i: usize = 0;
        while i < n
            invariant
                self.wf(),
                n == self.ids().len(),
                i <= n,
                execs@.len() == i,
                forall|k: int|
                    0 <= k < i ==> #[trigger] execs@[k] == (Execution::Run {
                        processor: k as usize,
                        kind: TaskKind::Init,
                    }),
                forall|k: int| 0 <= k < i ==> #[trigger] call_ensures(T::init, (&old(self).processors()[k],), ()),
                self.queue() == old(self).queue(),
                self.ids() == old(self).ids(),
                self.running() == old(self).running(),
                self.config_of() == old(self).config_of(),
                self.processors() == old(self).processors(),
                self.executor_of() == old(self).executor_of(),
                self.receiver_of() == old(self).receiver_of(),
            decreases n - i,
        {
            let task: CacheTask<P> = CacheTask::init(self.processor_ids[i].as_str());
            proof {
                lemma_id_index(self.ids(), i as int);
                assert(id_registered(self.ids(), task.cache_id_view()));
            }
            let ghost pre = *self;
            let ghost t = task;
            let e = self.execute(task, 0);
            proof {
                let bg = choose|bg: E::Task| #[trigger] pre.performed(t, e, bg) && (started(e)
                    ==> self.running() == pre.running().push(bg));
                assert(pre.performed(t, e, bg));
                assert(call_ensures(T::init, (&old(self).processors()[i as int],), ()));
            }
            execs.push(e);
            i = i + 1;
        }
        execs
    }

    /// Takes from the task queue, earliest first, every task that may run at
    /// the clock reading taken when it is reached, and carries each out (see
    /// `execute`). Returns what became of each task taken, in order, and how
    /// many of them were expired invalidations.
    pub fn process_tasks(&mut self) -> (r: (Vec<Execution>, u64))
        requires
            old(self).wf(),
        ensures
            final(self).wf(),
            carried_out(old(self).queue(), old(self).ids(), r.0@),
            forall|k: int|
                0 <= k < r.0@.len() ==> #[trigger] old(self).ran(old(self).queue()[k], r.0@[k]),
            final(self).queue() == old(self).queue().skip(r.0@.len() as int),
            exists|now: u128| #[trigger] stopped_at(final(self).queue(), now),
            r.1 == count_expired(r.0@),
            final(self).running().len() == old(self).running().len() + count_started(r.0@),
            final(self).running().take(old(self).running().len() as int) == old(self).running(),
            final(self).ids() == old(self).ids(),
            final(self).config_of() == old(self).config_of(),
            final(self).processors() == old(self).processors(),
            final(self).executor_of() == old(self).executor_of(),
            final(self).receiver_of() == old(self).receiver_of(),
    {
        let ghost q0 = self.queue();
        let ghost a0 = self.running();
        let ghost ids0 = self.ids();
        let ghost mut stop_now: u128 = 0;
        let n0 = self.tasks.len();
        let mut execs: Vec<Execution> = Vec::new();
        let mut expired: u64 = 0;
        proof {
            assert(q0.skip(0) =~= q0);
            assert(a0.take(a0.len() as int) =~= a0);
        }
        loop
            invariant
                self.wf(),
                self.ids() == ids0,
                q0.len() == n0,
                carried_out(q0, ids0, execs@),
                forall|j: int| 0 <= j < execs@.len() ==> #[trigger] old(self).ran(q0[j], execs@[j]),
                self.queue() == q0.skip(execs@.len() as int),
                expired == count_expired(execs@),
                self.running().len() == a0.len() + count_started(execs@),
                self.running().take(a0.len() as int) == a0,
                self.config_of() == old(self).config_of(),
                self.processors() == old(self).processors(),
                self.executor_of() == old(self).executor_of(),
                self.receiver_of() == old(self).receiver_of(),
            ensures
                self.wf(),
                self.ids() == ids0,
                carried_out(q0, ids0, execs@),
                forall|j: int| 0 <= j < execs@.len() ==> #[trigger] old(self).ran(q0[j], execs@[j]),
                self.queue() == q0.skip(execs@.len() as int),
                stopped_at(self.queue(), stop_now),
                expired == count_expired(execs@),
                self.running().len() == a0.len() + count_started(execs@),
                self.running().take(a0.len() as int) == a0,
                self.config_of() == old(self).config_of(),
                self.processors() == old(self).processors(),
                self.executor_of() == old(self).executor_of(),
                self.receiver_of() == old(self).receiver_of(),
            decreases self.queue().len(),
        {
            let now = current_time_ms();
            let ghost before = self.running();
            let ghost done = execs@;
            match self.tasks.pop_ready(now) {
                None => {
                    proof {
                        stop_now = now;
                    }
                    break;
                },
                Some(task) => {
                    let ghost k = done.len() as int;
                    proof {
                        assert(self.queue() =~= q0.skip(k + 1));
                        assert(task == q0[k]);
                    }
                    let ghost pre = *self;
                    let e = self.execute(task, now);
                    proof {
                        lemma_count_expired_bound(done);
                    }
                    if e == Execution::Expired {
                        expired = expired + 1;
                    }
                    execs.push(e);
                    proof {
                        assert(taken_at(q0[k], ids0, e, now));
                        assert(execs@.drop_last() =~= done);
                        assert forall|m: int| 0 <= m < execs@.len() implies #[trigger] taken(
                            q0[m],
                            ids0,
                            execs@[m],
                        ) by {
                            if m < k {
                                assert(execs@[m] == done[m]);
                            }
                        }
                        let bg = choose|bg: E::Task| #[trigger] pre.performed(q0[k], e, bg) && (started(e)
                            ==> self.running() == pre.running().push(bg));
                        assert(old(self).performed(q0[k], e, bg));
                        assert forall|j: int| 0 <= j < execs@.len() implies #[trigger] old(self).ran(
                            q0[j],
                            execs@[j],
                        ) by {
                            if j < k {
                                assert(execs@[j] == done[j]);
                            }
                        }
                        if started(e) {
                            assert(self.running().take(a0.len() as int) =~= before.take(
                                a0.len() as int,
                            ));
                        }
                    }
                },
            }
        }
        (execs, expired)
    }

    /// Whether each tracked background task has ended, and whether it is past
    /// its expiration, in the order they are tracked.
    pub fn report_async_tasks(&self) -> (r: Vec<(bool, bool)>)
        ensures
            reported(self.running(), r@),
    {
        let mut reports: Vec<(bool, bool)> = Vec::new();
        let mut i: usize = 0;
        while i < self.async_tasks.len()
            invariant
                i <= self.running().len(),
                reports@.len() == i,
                forall|k: int|
                    0 <= k < i ==> #[trigger] call_ensures(
                        <E::Task as AsyncTask>::is_finished,
                        (&self.running()[k],),
                        reports@[k].0,
                    ) && call_ensures(
                        <E::Task as AsyncTask>::is_expired,
                        (&self.running()[k],),
                        reports@[k].1,
                    ),
            decreases self.running().len() - i,
        {
            let task = &self.async_tasks[i];
            let ended = task.is_finished();
            let late = task.is_expired();
            let ghost before = reports@;
            let ghost j = i as int;
            reports.push((ended, late));
            i = i + 1;
            proof {
                assert(*task == self.running()[j]);
                assert(reports@[j] == (ended, late));
                assert forall|k: int| 0 <= k < i implies #[trigger] call_ensures(
                    <E::Task as AsyncTask>::is_finished,
                    (&self.running()[k],),
                    reports@[k].0,
                ) && call_ensures(
                    <E::Task as AsyncTask>::is_expired,
                    (&self.running()[k],),
                    reports@[k].1,
                ) by {
                    if k < j {
                        assert(reports@[k] == before[k]);
                    }
                }
            }
        }
        reports
    }

    /// Checks the tracked background tasks against `reports` (one per task,
    /// in order: whether it ended, whether it is past its expiration): those
    /// that ended stop being tracked; those that did not end and are late are
    /// aborted and stop being tracked; the others stay, in order. Returns how
    /// many ended and how many were aborted.
    pub fn release(&mut self, reports: &Vec<(bool, bool)>) -> (r: (u64, u64))
        requires
            old(self).wf(),
            reports@.len() == old(self).running().len(),
        ensures
            final(self).wf(),
            released(old(self).running(), final(self).running(), reports@, r),
            aborted_late(old(self).running(), reports@),
            final(self).queue() == old(self).queue(),
            final(self).ids() == old(self).ids(),
            final(self).config_of() == old(self).config_of(),
            final(self).processors() == old(self).processors(),
            final(self).executor_of() == old(self).executor_of(),
            final(self).receiver_of() == old(self).receiver_of(),
    {
        let ghost a0 = self.running();
        let n = self.async_tasks.len();
        let mut kept: Vec<E::Task> = Vec::new();
        let mut finished: u64 = 0;
        let mut aborted: u64 = 0;
        let mut k: usize = 0;
        proof {
            assert(a0.skip(0) =~= a0);
            assert(reports@.take(0) =~= Seq::<(bool, bool)>::empty());
        }
        while k < n
            invariant
                self.wf(),
                n == a0.len(),
                reports@.len() == n,
                k <= n,
                self.async_tasks@ == a0.skip(k as int),
                kept@ == kept_tasks(a0, reports@.take(k as int)),
                finished == count_finished(reports@.take(k as int)),
                aborted == count_late(reports@.take(k as int)),
                forall|j: int|
                    0 <= j < k && !reports@[j].0 && reports@[j].1 ==> #[trigger] call_ensures(
                        <E::Task as AsyncTask>::abort,
                        (&a0[j],),
                        (),
                    ),
                self.queue() == old(self).queue(),
                self.ids() == old(self).ids(),
                self.config_of() == old(self).config_of(),
                self.processors() == old(self).processors(),
                self.executor_of() == old(self).executor_of(),
                self.receiver_of() == old(self).receiver_of(),
            decreases n - k,
        {
            let ghost before = self.async_tasks@;
            let task = self.async_tasks.remove(0);
            let (ended, late) = reports[k];
            proof {
                assert(self.async_tasks@ =~= a0.skip(k as int + 1));
                assert(task == a0[k as int]);
                lemma_report_counts_bound(reports@.take(k as int));
                assert(reports@.take(k as int + 1).drop_last() =~= reports@.take(k as int));
                assert(reports@.take(k as int + 1).last() == reports@[k as int]);
            }
            if ended {
                finished = finished + 1;
            } else if late {
                task.abort();
                aborted = aborted + 1;
            } else {
                kept.push(task);
            }
            k = k + 1;
        }
        proof {
            assert(reports@.take(n as int) =~= reports@);
            assert(aborted_late(a0, reports@));
        }
        self.async_tasks = kept;
        (finished, aborted)
    }

    /// Checks the tracked background tasks (see `report_async_tasks` and
    /// `release`). Returns how many ended and how many were aborted.
    pub fn poll_async_tasks(&mut self) -> (r: (u64, u64))
        requires
            old(self).wf(),
        ensures
            final(self).wf(),
            exists|reports: Seq<(bool, bool)>|
                #[trigger] released(old(self).running(), final(self).running(), reports, r)
                    && reported(old(self).running(), reports) && aborted_late(
                    old(self).running(),
                    reports,
                ),
            final(self).queue() == old(self).queue(),
            final(self).ids() == old(self).ids(),
            final(self).config_of() == old(self).config_of(),
            final(self).processors() == old(self).processors(),
            final(self).executor_of() == old(self).executor_of(),
            final(self).receiver_of() == old(self).receiver_of(),
    {
        let reports = self.report_async_tasks();
        let r = self.release(&reports);
        assert(released(old(self).running(), self.running(), reports@, r));
        r
    }

    /// One cycle of the worker: a poll of the channel merged into the task
    /// queue, the tasks that may run carried out, the background tasks
    /// checked; the counters in `statistics` are brought up to date.
    pub fn run_cycle(&mut self, statistics: &CacheManagerStatistics) -> (r: CycleReport)
        requires
            old(self).wf(),
        ensures
            final(self).wf(),
            exists|
                merged_queue: Seq<CacheTask<P>>,
                received: Seq<CacheTask<P>>,
                reads: Seq<Option<CacheTask<P>>>,
                execs: Seq<Execution>,
            |
                #[trigger] cycle_ran(old(self).queue(), merged_queue, final(self).queue(), received, old(self).ids(), execs, r)
                    && #[trigger] old(self).polled(reads, received)
                    && forall|k: int| 0 <= k < execs.len() ==> #[trigger] old(self).ran(merged_queue[k], execs[k]),
            exists|mid: Seq<E::Task>, reports: Seq<(bool, bool)>|
                #[trigger] released(mid, final(self).running(), reports, (r.finished_async, r.aborted_async))
                    && reported(mid, reports) && aborted_late(mid, reports)
                    && mid.take(old(self).running().len() as int) == old(self).running()
                    && old(self).running().len() <= mid.len(),
            r.pending == final(self).queue().len(),
            r.pending_async == final(self).running().len(),
            final(self).ids() == old(self).ids(),
            final(self).config_of() == old(self).config_of(),
            final(self).processors() == old(self).processors(),
            final(self).executor_of() == old(self).executor_of(),
            final(self).receiver_of() == old(self).receiver_of(),
    {
        let start = instant_now();
        let (merged_count, pushed) = self.push_tasks();
        let ghost merged_queue = self.queue();
        let ghost pushed_state = *self;
        let (execs, expired) = self.process_tasks();
        let ghost mid = self.running();
        let (finished_async, aborted_async) = self.poll_async_tasks();
        let report = CycleReport {
            merged: merged_count,
            pushed,
            processed: execs.len() as u64,
            expired,
            finished_async,
            aborted_async,
            pending: self.tasks.len() as u64,
            pending_async: self.async_tasks.len() as u64,
            elapsed_ms: elapsed_ms(&start),
        };
        statistics.record_cycle(&report);
        proof {
            let (received, reads) = choose|received: Seq<CacheTask<P>>, reads: Seq<Option<CacheTask<P>>>|
                #[trigger] poll_merged(old(self).queue(), merged_queue, received, (merged_count, pushed))
                    && received.len() <= old(self).config_of().drain_size() + 1 && #[trigger] old(
                    self,
                ).polled(reads, received);
            assert(cycle_ran(old(self).queue(), merged_queue, self.queue(), received, old(self).ids(), execs@, report));
            assert forall|k: int| 0 <= k < execs@.len() implies #[trigger] old(self).ran(merged_queue[k], execs@[k]) by {
                assert(pushed_state.ran(merged_queue[k], execs@[k]));
                let bg = choose|bg: E::Task| #[trigger] pushed_state.performed(merged_queue[k], execs@[k], bg);
                assert(old(self).performed(merged_queue[k], execs@[k], bg));
            }
            let reports = choose|reports: Seq<(bool, bool)>|
                #[trigger] released(mid, self.running(), reports, (finished_async, aborted_async))
                    && reported(mid, reports) && aborted_late(mid, reports);
            assert(released(mid, self.running(), reports, (report.finished_async, report.aborted_async)));
        }
        report
    }
}

/// One cycle took the task queue from `before` to `after`: the tasks gathered
/// from those `received` were merged in (giving `merged_queue`), then the
/// first tasks of `merged_queue` were taken, becoming `execs`; `r` reports
/// it.
pub open spec fn cycle_ran<P>(
    before: Seq<CacheTask<P>>,
    merged_queue: Seq<CacheTask<P>>,
    after: Seq<CacheTask<P>>,
    received: Seq<CacheTask<P>>,
    ids: Seq<String>,
    execs: Seq<Execution>,
    r: CycleReport,
) -> bool {
    &&& poll_merged(before, merged_queue, received, (r.merged, r.pushed))
    &&& carried_out(merged_queue, ids, execs)
    &&& after == merged_queue.skip(execs.len() as int)
    &&& r.processed == execs.len()
    &&& r.expired == count_expired(execs)
}


/// The outcome of checking `task` for the registry `ids`, given the verdict
/// of its cache's input validator (`input_valid`): refused when its cache is
/// not registered, else when its input is not valid; accepted, as it is,
/// otherwise.
pub open spec fn validated<P>(
    r: Result<CacheTask<P>, ManualOperationError>,
    ids: Seq<String>,
    task: CacheTask<P>,
    input_valid: bool,
) -> bool {
    if !id_registered(ids, task.cache_id_view()) {
        r matches Err(ManualOperationError::CacheNotFound { cache_id: c }) && c@ == task.cache_id_view()
    } else if !input_valid {
        r == Err::<CacheTask<P>, ManualOperationError>(ManualOperationError::InvalidInput)
    } else {
        r == Ok::<CacheTask<P>, ManualOperationError>(task)
    }
}

/// The outcome of checking `task` for the registry `ids`, for some verdict of
/// its cache's input validator; a task without input (on a whole cache) is
/// never refused as invalid.
pub open spec fn checked<P>(r: Result<CacheTask<P>, ManualOperationError>, ids: Seq<String>, task: CacheTask<P>) -> bool {
    exists|input_valid: bool|
        #[trigger] validated(r, ids, task, input_valid) && (task.input_of() is None ==> input_valid)
}

/// The outcome of handing a task to the worker, from what the send gave back.
pub open spec fn delivered(r: Result<(), ManualOperationError>, sent: bool) -> bool {
    if sent {
        r == Ok::<(), ManualOperationError>(())
    } else {
        r == Err::<(), ManualOperationError>(ManualOperationError::SendError)
    }
}

/// The outcome of handing a task to the worker: `Ok` when the channel took
/// it, else a `SendError`.
pub fn delivery_result<P>(sent: Result<(), CacheTask<P>>) -> (r: Result<(), ManualOperationError>)
    ensures
        delivered(r, sent is Ok),
{
    match sent {
        Ok(()) => Ok(()),
        Err(_) => Err(ManualOperationError::SendError),
    }
}

/// The cache manager: the registry of caches with their input validators,
/// the sending half of the task channel, the shared counters, and (until its
/// worker starts) the part that the worker owns.
#[verifier::reject_recursive_types(P)]
pub struct CacheManager<P, V, T, E> where
    V: InputValidator<P>,
    T: CacheTaskProcessor<P>,
    E: AsyncExecutor<T::Refresh>,
 {
    inner: Option<CacheManagerInner<P, T, E>>,
    cache_ids: Vec<String>,
    input_validators: Vec<V>,
    statistics: Arc<CacheManagerStatistics>,
    tx: Sender<CacheTask<P>>,
}

impl<P, V, T, E> CacheManager<P, V, T, E> where
    V: InputValidator<P>,
    T: CacheTaskProcessor<P>,
    E: AsyncExecutor<T::Refresh>,
 {
    /// The identifiers of the registered caches.
    pub closed spec fn ids(self) -> Seq<String> {
        self.cache_ids@
    }

    /// The input validators, in the order of their caches' identifiers.
    pub closed spec fn validators(self) -> Seq<V> {
        self.input_validators@
    }

    /// `v` is the verdict on `task` of the input validator at position `i`:
    /// what its `validate` answered for the task's input and flag (see
    /// `CacheTask::input_of`); a task without input is valid.
    pub open spec fn verdict(self, task: CacheTask<P>, i: int, v: bool) -> bool {
        match task.input_of() {
            Some((input, for_replacement)) => call_ensures(
                V::validate,
                (&self.validators()[i], &input, for_replacement),
                v,
            ),
            None => v,
        }
    }

    /// `r` is the outcome of checking `task` (see `validated`), with the
    /// verdict of the input validator of its cache when it is registered.
    pub open spec fn validated_by(self, r: Result<CacheTask<P>, ManualOperationError>, task: CacheTask<P>) -> bool {
        exists|v: bool|
            #[trigger] validated(r, self.ids(), task, v) && (id_registered(
                self.ids(),
                task.cache_id_view(),
            ) ==> self.verdict(task, id_index(self.ids(), task.cache_id_view()), v))
    }

    /// The counters shared with the worker.
    pub closed spec fn statistics_of(self) -> Arc<CacheManagerStatistics> {
        self.statistics
    }

    /// The sending half of the task channel.
    pub closed spec fn sender_of(self) -> Sender<CacheTask<P>> {
        self.tx
    }

    /// The part the worker owns, while the worker has not started.
    pub closed spec fn inner_of(self) -> Option<CacheManagerInner<P, T, E>> {
        self.inner
    }

    /// Each registered cache has one input validator; the worker's part, while
    /// here, knows the same caches.
    pub closed spec fn wf(self) -> bool {
        &&& self.cache_ids@.len() == self.input_validators@.len()
        &&& distinct_ids(self.cache_ids@)
        &&& self.inner matches Some(inner) ==> inner.wf() && inner.ids() == self.cache_ids@
    }

    /// In every state the manager's operations keep (`wf`), no cache
    /// identifier is registered twice, and the worker's part (while the
    /// manager holds it) knows exactly the registered caches.
    pub proof fn law_registry_distinct(self)
        requires
            self.wf(),
        ensures
            distinct_ids(self.ids()),
            self.validators().len() == self.ids().len(),
            self.inner_of() matches Some(inner) ==> inner.ids() == self.ids(),
    {
    }

    /// A manager with no cache registered; its worker is not started.
    pub fn new(config: CacheManagerConfig, executor: E) -> (r: Self)
        ensures
            r.wf(),
            r.ids() == Seq::<String>::empty(),
            r.inner_of() matches Some(inner) && inner.queue() == Seq::<CacheTask<P>>::empty()
                && inner.running() == Seq::<E::Task>::empty() && inner.config_of() == config,
    {
        let (tx, rx) = open_channel();
        let inner = CacheManagerInner::new(config, rx, executor);
        Self {
            inner: Some(inner),
            cache_ids: Vec::new(),
            input_validators: Vec::new(),
            statistics: CacheManagerStatistics::share_init(),
            tx,
        }
    }

    /// Whether the worker has started (it then owns the task queue and the
    /// task processors).
    pub fn is_started(&self) -> (r: bool)
        ensures
            r == (self.inner_of() is None),
    {
        self.inner.is_none()
    }

    /// Registers a cache under `cache_id` with its input validator and task
    /// processor. When a cache with that identifier is registered, the
    /// registration is refused: false is returned and nothing changes (the
    /// caller decides; `app/` panics, as a duplicate registration is a
    /// programming error).
    pub fn register_as(&mut self, cache_id: String, input_validator: V, task_processor: T) -> (r:
        bool)
        requires
            old(self).wf(),
            old(self).inner_of() is Some,
        ensures
            final(self).wf(),
            final(self).inner_of() is Some,
            r == !id_registered(old(self).ids(), cache_id@),
            r ==> final(self).ids() == old(self).ids().push(cache_id),
            !r ==> final(self).ids() == old(self).ids(),
            r ==> final(self).validators() == old(self).validators().push(input_validator),
            !r ==> final(self).validators() == old(self).validators(),
    {
        if find_id(&self.cache_ids, &cache_id).is_some() {
            return false;
        }
        let mut inner = self.inner.take().unwrap();
        let accepted = inner.register_as(cache_id.clone(), task_processor);
        self.inner = Some(inner);
        let ghost before = self.cache_ids@;
        let ghost id = cache_id;
        self.cache_ids.push(cache_id);
        self.input_validators.push(input_validator);
        proof {
            assert(accepted);
            assert forall|i: int, j: int|
                0 <= i < self.cache_ids@.len() && 0 <= j < self.cache_ids@.len() && i != j
                    implies (#[trigger] self.cache_ids@[i])@ != (#[trigger] self.cache_ids@[j])@ by {
                if i == before.len() {
                    assert(self.cache_ids@[j] == before[j]);
                    if before[j]@ == id@ {
                        assert(id_registered(before, id@));
                    }
                } else if j == before.len() {
                    assert(self.cache_ids@[i] == before[i]);
                    if before[i]@ == id@ {
                        assert(id_registered(before, id@));
                    }
                }
            }
        }
        true
    }

    /// Registers a cache, under the identifier its task processor reports,
    /// with its input validator and task processor; refused (returns false,
    /// nothing changes) when a cache with that identifier is registered.
    pub fn register(&mut self, input_validator: V, task_processor: T) -> (r: bool)
        requires
            old(self).wf(),
            old(self).inner_of() is Some,
        ensures
            final(self).wf(),
            final(self).inner_of() is Some,
            r ==> final(self).validators() == old(self).validators().push(input_validator),
            !r ==> final(self).validators() == old(self).validators(),
            exists|s: &str, id: String|
                #[trigger] call_ensures(T::cache_id, (&task_processor,), s) && id@ == s@
                    && #[trigger] registered_as(old(self).ids(), final(self).ids(), id, r),
    {
        let reported = task_processor.cache_id();
        let cache_id = reported.to_owned();
        let ghost s = reported;
        let ghost id = cache_id;
        let ghost tp = task_processor;
        let r = self.register_as(cache_id, input_validator, task_processor);
        assert(call_ensures(T::cache_id, (&tp,), s) && id@ == s@ && registered_as(
            old(self).ids(),
            self.ids(),
            id,
            r,
        ));
        r
    }

    /// Hands the worker's part over, to be run by the worker; the manager
    /// keeps the registry, the sender and the counters.
    pub fn take_inner(&mut self) -> (r: Option<CacheManagerInner<P, T, E>>)
        requires
            old(self).wf(),
        ensures
            final(self).wf(),
            r == old(self).inner_of(),
            final(self).inner_of() is None,
            final(self).ids() == old(self).ids(),
            final(self).validators() == old(self).validators(),
            r matches Some(inner) ==> inner.wf() && inner.ids() == old(self).ids(),
    {
        self.inner.take()
    }

    /// Another sending half of the task channel, for the caches' expirations.
    pub fn sender(&self) -> (r: Sender<CacheTask<P>>) {
        clone_sender(&self.tx)
    }

    /// The counters shared with the worker.
    pub fn statistics(&self) -> (r: &Arc<CacheManagerStatistics>)
        ensures
            *r == self.statistics_of(),
    {
        &self.statistics
    }

    pub fn cache_ids(&self) -> (r: &Vec<String>)
        ensures
            r@ == self.ids(),
    {
        &self.cache_ids
    }

    /// The position of cache `cache_id` in the registry, or the refusal of an
    /// operation on an unknown cache.
    fn validate_cache_id(&self, cache_id: &String) -> (r: Result<usize, ManualOperationError>)
        ensures
            match r {
                Ok(i) => i < self.ids().len() && self.ids()[i as int]@ == cache_id@,
                Err(e) => {
                    &&& !id_registered(self.ids(), cache_id@)
                    &&& e matches ManualOperationError::CacheNotFound { cache_id: c } && c@ == cache_id@
                },
            },
    {
        match find_id(&self.cache_ids, cache_id) {
            Some(i) => Ok(i),
            None => Err(ManualOperationError::CacheNotFound { cache_id: cache_id.clone() }),
        }
    }

    /// Asks the validator at position `i` whether the input of `task` (see
    /// `CacheTask::input_of`) is of its cache's types. Tasks on a whole cache
    /// carry no input and are valid.
    fn validate_task(&self, task: &CacheTask<P>, i: usize) -> (r: bool)
        requires
            self.wf(),
            i < self.ids().len(),
        ensures
            self.verdict(*task, i as int, r),
    {
        match task.input() {
            None => true,
            Some((input, for_replacement)) => self.input_validators[i].validate(input, for_replacement),
        }
    }

    /// Checks `task` before it is handed to the worker: its cache must be
    /// registered and its input valid. Gives the task back when it passes.
    pub fn validate(&self, task: CacheTask<P>) -> (r: Result<CacheTask<P>, ManualOperationError>)
        requires
            self.wf(),
        ensures
            self.validated_by(r, task),
            checked(r, self.ids(), task),
    {
        let i = match self.validate_cache_id(task.cache_id_ref()) {
            Ok(i) => i,
            Err(e) => {
                proof {
                    assert(validated(Err(e), self.ids(), task, true));
                }
                return Err(e);
            },
        };
        proof {
            lemma_id_index(self.ids(), i as int);
            assert(id_registered(self.ids(), task.cache_id_view()));
        }
        let valid = self.validate_task(&task, i);
        if !valid {
            proof {
                assert(validated(Err(ManualOperationError::InvalidInput), self.ids(), task, false));
            }
            return Err(ManualOperationError::InvalidInput);
        }
        proof {
            assert(validated(Ok(task), self.ids(), task, true));
        }
        Ok(task)
    }

    /// Hands a checked `task` to the worker: sends it on the task channel,
    /// and reports the send's outcome (see `delivery_result`).
    pub fn deliver(&self, task: CacheTask<P>) -> (r: Result<(), ManualOperationError>)
        ensures
            exists|s: Result<(), CacheTask<P>>|
                #[trigger] sent_on(self.sender_of(), task, s) && delivered(r, s is Ok),
    {
        let s = send_on(&self.tx, task);
        let r = delivery_result(s);
        assert(sent_on(self.sender_of(), task, s));
        r
    }

    /// The task that starts serving cache `cache_id` from its storage,
    /// checked (see `validate`), to be handed to the worker (see `deliver`).
    pub fn init(&self, cache_id: &str) -> (r: Result<CacheTask<P>, ManualOperationError>)
        requires
            self.wf(),
        ensures
            exists|t: CacheTask<P>|
                #[trigger] self.validated_by(r, t) && checked(r, self.ids(), t) && t.kind() == TaskKind::Init && t.cache_id_view()
                    == cache_id@,
    {
        let t = CacheTask::init(cache_id);
        let r = self.validate(t);
        assert(self.validated_by(r, t) && checked(r, self.ids(), t));
        r
    }

    /// The task that stops serving cache `cache_id` from its storage (its
    /// reads and writes then go to the remote repository), checked (see
    /// `validate`), to be handed to the worker (see `deliver`).
    pub fn stop(&self, cache_id: &str) -> (r: Result<CacheTask<P>, ManualOperationError>)
        requires
            self.wf(),
        ensures
            exists|t: CacheTask<P>|
                #[trigger] self.validated_by(r, t) && checked(r, self.ids(), t) && t.kind() == TaskKind::Stop && t.cache_id_view()
                    == cache_id@,
    {
        let t = CacheTask::stop(cache_id);
        let r = self.validate(t);
        assert(self.validated_by(r, t) && checked(r, self.ids(), t));
        r
    }

    /// The task that removes every entry of cache `cache_id`, checked (see
    /// `validate`), to be handed to the worker (see `deliver`).
    pub fn flush_all(&self, cache_id: &str) -> (r: Result<CacheTask<P>, ManualOperationError>)
        requires
            self.wf(),
        ensures
            exists|t: CacheTask<P>|
                #[trigger] self.validated_by(r, t) && checked(r, self.ids(), t) && t.kind() == TaskKind::FlushAll
                    && t.cache_id_view() == cache_id@,
    {
        let t = CacheTask::flush_all(cache_id);
        let r = self.validate(t);
        assert(self.validated_by(r, t) && checked(r, self.ids(), t));
        r
    }

    /// The task that expires at once the entry `id` (carried as `key`) of
    /// cache `cache_id`, checked (see `validate`), to be handed to the worker
    /// (see `deliver`).
    pub fn force_expiration(&self, cache_id: &str, id: String, key: P) -> (r: Result<
        CacheTask<P>,
        ManualOperationError,
    >)
        requires
            self.wf(),
        ensures
            exists|t: CacheTask<P>|
                #[trigger] self.validated_by(r, t) && checked(r, self.ids(), t) && t.cache_id_view() == cache_id@ && t.id_view()
                    == Some(id@) && (t matches CacheTask::EntryExpiration { key: k, .. } && k == key)
                    && exists|now: u128| #[trigger] deadline_from_reading(now, 0, t.exec_time_of()),
    {
        let t = CacheTask::entry_expiration(0, cache_id, id, key);
        let r = self.validate(t);
        assert(self.validated_by(r, t) && checked(r, self.ids(), t));
        r
    }

    /// The task that refreshes the entry `id` (carried as `key`) of cache
    /// `cache_id` from the remote repository, unless the refresh cannot start
    /// within `expires_in` milliseconds, checked (see `validate`), to be
    /// handed to the worker (see `deliver`).
    pub fn invalidate(&self, expires_in: u64, cache_id: &str, id: String, key: P) -> (r: Result<
        CacheTask<P>,
        ManualOperationError,
    >)
        requires
            self.wf(),
        ensures
            exists|t: CacheTask<P>|
                #[trigger] self.validated_by(r, t) && checked(r, self.ids(), t) && t.cache_id_view() == cache_id@ && t.id_view()
                    == Some(id@) && (t matches CacheTask::Invalidation { key: k, exp_time, .. } && k
                    == key && exists|now: u128| #[trigger] deadline_from_reading(now, expires_in, exp_time)),
    {
        let t = CacheTask::invalidation(expires_in, cache_id, id, key);
        let r = self.validate(t);
        assert(self.validated_by(r, t) && checked(r, self.ids(), t));
        r
    }

    /// The task that replaces the cached entry `id` of cache `cache_id` by
    /// the value that `invalidation` carries, checked (see `validate`), to be
    /// handed to the worker (see `deliver`).
    pub fn invalidate_with_properties(&self, cache_id: &str, id: String, invalidation: P) -> (r:
        Result<CacheTask<P>, ManualOperationError>)
        requires
            self.wf(),
        ensures
            exists|t: CacheTask<P>|
                #[trigger] self.validated_by(r, t) && checked(r, self.ids(), t) && t.cache_id_view() == cache_id@ && t.id_view()
                    == Some(id@) && (t matches CacheTask::InvalidationWithProperties {
                    invalidation: v,
                    ..
                } && v == invalidation),
    {
        let t = CacheTask::invalidation_with_properties(cache_id, id, invalidation);
        let r = self.validate(t);
        assert(self.validated_by(r, t) && checked(r, self.ids(), t));
        r
    }
}

} // verus!
