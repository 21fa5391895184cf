use vstd::prelude::*;

use std::hash::Hash;

use crate::cache_manager::{
    carried_out, checked, validated, count_expired, count_finished, count_late, execution_of, id_registered,
    kept_tasks, released, taken, taken_at, Execution,
};
use crate::async_executor::{AsyncExecutor, AsyncTask, TokioAsyncTask};
use crate::cache_manager::{distinct_ids, id_index, CacheManager, CacheManagerInner};
use crate::cache_task::{CacheTask, TaskKind};
use crate::r_cache::{CacheTaskProcessor, InputValidator};
use crate::utils::{clock_read, deadline_from_reading};
use crate::errors::ManualOperationError;
use crate::r_cache::{stored_after, RCache, StoreOutcome};
use crate::task_queue::{
    distinct_identities, gathered, identity_in, identity_index, merged, not_replaced_by,
    sorted_by_exec_time, with_pending,
};

verus! {

broadcast use {
    vstd::seq_lib::group_to_multiset_ensures,
    vstd::seq_lib::group_filter_ensures,
    vstd::multiset::group_multiset_axioms,
};

/// When gathered tasks are merged into the task queue, the newest task wins:
/// every gathered task is queued after the merge; a queued task stays queued
/// exactly when no gathered task is the same task; and nothing else is
/// queued.
pub proof fn law_merge_keeps_newest<P>(
    queued: Seq<CacheTask<P>>,
    pending: Seq<CacheTask<P>>,
    result: Seq<CacheTask<P>>,
)
    requires
        result.to_multiset() == merged(queued, pending),
    ensures
        forall|p: CacheTask<P>| pending.contains(p) ==> #[trigger] result.contains(p),
        forall|t: CacheTask<P>|
            queued.contains(t) && !identity_in(t, pending) ==> #[trigger] result.contains(t),
        forall|x: CacheTask<P>|
            #[trigger] result.contains(x) ==> pending.contains(x) || (queued.contains(x)
                && !identity_in(x, pending)),
{
    let kept = queued.filter(not_replaced_by(pending));
    assert forall|p: CacheTask<P>| pending.contains(p) implies #[trigger] result.contains(p) by {
        assert(pending.to_multiset().count(p) > 0);
        assert(result.to_multiset().count(p) > 0);
    }
    assert forall|t: CacheTask<P>|
        queued.contains(t) && !identity_in(t, pending) implies #[trigger] result.contains(t) by {
        let i = choose|i: int| 0 <= i < queued.len() && queued[i] == t;
        assert(not_replaced_by(pending)(queued[i]));
        assert(kept.contains(t));
        assert(kept.to_multiset().count(t) > 0);
        assert(result.to_multiset().count(t) > 0);
    }
    assert forall|x: CacheTask<P>| #[trigger] result.contains(x) implies pending.contains(x) || (
    queued.contains(x) && !identity_in(x, pending)) by {
        assert(result.to_multiset().count(x) > 0);
        if !pending.contains(x) {
            assert(pending.to_multiset().count(x) == 0);
            assert(kept.to_multiset().count(x) > 0);
            assert(kept.contains(x));
            queued.lemma_filter_contains_rev(not_replaced_by(pending), x);
            let k = choose|k: int| 0 <= k < kept.len() && kept[k] == x;
            assert(not_replaced_by(pending)(kept[k]));
        }
    }
}

/// The tasks a cycle takes from the queue (a prefix of it, earliest first)
/// are scheduled no later than any task left in the queue.
pub proof fn law_processing_order<P>(queue: Seq<CacheTask<P>>, taken: int)
    requires
        sorted_by_exec_time(queue),
        0 <= taken <= queue.len(),
    ensures
        forall|i: int, j: int|
            0 <= i < taken && 0 <= j < queue.skip(taken).len() ==> (#[trigger] queue[i]).exec_time_of()
                <= (#[trigger] queue.skip(taken)[j]).exec_time_of(),
{
    assert forall|i: int, j: int|
        0 <= i < taken && 0 <= j < queue.skip(taken).len() implies (#[trigger] queue[i]).exec_time_of()
        <= (#[trigger] queue.skip(taken)[j]).exec_time_of() by {
        assert(queue.skip(taken)[j] == queue[taken + j]);
    }
}

/// A value that `store_put` or `store_fetched` stored is what later reads of
/// its key are served with, as long as the cache serves from its storage.
pub proof fn law_read_after_store<K: Eq + Hash, V: Clone, P>(
    before: RCache<K, V, P>,
    after: RCache<K, V, P>,
    key: K,
    value: V,
)
    requires
        after.contents() == before.contents().insert(key, value),
        after.serving(),
    ensures
        after.served(key) == Some(value),
{
}

/// After the expiration of a key, reads of it are not served from the storage.
pub proof fn law_read_after_expire<K: Eq + Hash, V: Clone, P>(
    before: RCache<K, V, P>,
    after: RCache<K, V, P>,
    key: K,
)
    requires
        after.contents() == before.contents().remove(key),
    ensures
        after.served(key) is None,
        forall|k: K| k != key ==> after.contents().contains_key(k) == before.contents().contains_key(k),
{
}

/// After a flush, no read is served from the storage until a value is stored
/// again.
pub proof fn law_read_after_flush<K: Eq + Hash, V: Clone, P>(after: RCache<K, V, P>, key: K)
    requires
        after.contents() == Map::<K, V>::empty(),
    ensures
        after.served(key) is None,
{
}

/// While a cache is stopped no read is served from its storage, and starting
/// it again serves the entries it held.
pub proof fn law_stop_then_init<K: Eq + Hash, V: Clone, P>(
    running: RCache<K, V, P>,
    stopped: RCache<K, V, P>,
    restarted: RCache<K, V, P>,
    key: K,
)
    requires
        running.serving(),
        !stopped.serving(),
        stopped.contents() == running.contents(),
        restarted.serving(),
        restarted.contents() == stopped.contents(),
    ensures
        stopped.served(key) is None,
        restarted.served(key) == running.served(key),
{
}

/// An invalidation (`replace_cached`) never caches a key that was not cached:
/// it replaces, or removes, an existing entry, or does nothing.
pub proof fn law_invalidation_adds_no_key<K: Eq + Hash, V: Clone, P>(
    before: RCache<K, V, P>,
    after: RCache<K, V, P>,
    key: K,
    value: V,
    sent: Result<(), CacheTask<P>>,
    r: StoreOutcome,
)
    requires
        !before.contents().contains_key(key) ==> r == StoreOutcome::NotCached && after.contents()
            == before.contents(),
        before.contents().contains_key(key) ==> stored_after(
            before.contents(),
            after.contents(),
            key,
            value,
            sent,
            r,
        ),
    ensures
        after.contents().dom().subset_of(before.contents().dom()),
{
}

/// A value read from the remote repository after a miss (`store_fetched`)
/// never overwrites an entry cached in the meantime, and touches no other
/// key.
pub proof fn law_fetch_keeps_cached<K: Eq + Hash, V: Clone, P>(
    before: RCache<K, V, P>,
    after: RCache<K, V, P>,
    key: K,
    value: V,
    sent: Result<(), CacheTask<P>>,
    r: StoreOutcome,
)
    requires
        before.contents().contains_key(key) ==> r == StoreOutcome::AlreadyCached && after.contents()
            == before.contents(),
        !before.contents().contains_key(key) ==> stored_after(
            before.contents(),
            after.contents(),
            key,
            value,
            sent,
            r,
        ),
    ensures
        before.contents().contains_key(key) ==> after.contents()[key] == before.contents()[key],
        forall|k: K| k != key ==> after.contents().contains_key(k) == before.contents().contains_key(k),
        !before.contents().contains_key(key) && sent is Err ==> after.contents() == before.contents(),
{
    if !before.contents().contains_key(key) && sent is Err {
        assert(after.contents() =~= before.contents());
    }
}

/// A manual operation on a cache that is not registered is refused with
/// `CacheNotFound`, naming the cache; one on a registered cache is never
/// refused for that reason; one on a whole cache (init, stop, flush all) is
/// accepted; what is accepted is the task asked for, unchanged; and a check
/// never reports a failed send.
pub proof fn law_manual_operation_refusals<P>(
    r: Result<CacheTask<P>, ManualOperationError>,
    ids: Seq<String>,
    task: CacheTask<P>,
)
    requires
        checked(r, ids, task),
    ensures
        !id_registered(ids, task.cache_id_view()) ==> (r matches Err(
            ManualOperationError::CacheNotFound { cache_id: c },
        ) && c@ == task.cache_id_view()),
        id_registered(ids, task.cache_id_view()) ==> !(r matches Err(
            ManualOperationError::CacheNotFound { .. },
        )),
        id_registered(ids, task.cache_id_view()) && task.input_of() is None ==> r == Ok::<
            CacheTask<P>,
            ManualOperationError,
        >(task),
        r matches Ok(t) ==> t == task,
        !(r matches Err(ManualOperationError::SendError)),
{
}

/// Checking the background tasks accounts for each of them once: every
/// task either ended, or was aborted as late, or stays tracked.
pub proof fn law_release_accounts_for_every_task<A>(
    before: Seq<A>,
    after: Seq<A>,
    reports: Seq<(bool, bool)>,
    r: (u64, u64),
)
    requires
        released(before, after, reports, r),
    ensures
        after.len() + r.0 + r.1 == before.len(),
{
    lemma_kept_count(before, reports);
}

proof fn lemma_kept_count<A>(tasks: Seq<A>, reports: Seq<(bool, bool)>)
    ensures
        kept_tasks(tasks, reports).len() + count_finished(reports) + count_late(reports)
            == reports.len(),
    decreases reports.len(),
{
    if reports.len() > 0 {
        lemma_kept_count(tasks, reports.drop_last());
    }
}

/// Every task taken from the queue could run at the clock reading when it
/// was taken, and became what `execution_of` says at that reading: only an
/// invalidation is dropped as expired, only a task of a registered cache is
/// carried out, and no more tasks are counted expired than were taken.
pub proof fn law_taken_tasks_were_due<P>(
    tasks: Seq<CacheTask<P>>,
    ids: Seq<String>,
    execs: Seq<Execution>,
    k: int,
)
    requires
        carried_out(tasks, ids, execs),
        0 <= k < execs.len(),
    ensures
        exists|now: u128|
            #![trigger taken_at(tasks[k], ids, execs[k], now)]
            tasks[k].exec_time_of() <= now && execs[k] == execution_of(tasks[k], ids, now),
        execs[k] == Execution::Expired ==> tasks[k].exp_time_of() is Some,
        execs[k] is Run ==> id_registered(ids, tasks[k].cache_id_view()),
        count_expired(execs) <= execs.len(),
{
    assert(taken(tasks[k], ids, execs[k]));
    crate::cache_manager::lemma_count_expired_bound(execs);
}

/// On a registered cache, a task is refused as invalid exactly when its
/// cache's input validator rejected its input (`v` is the verdict), and
/// accepted unchanged otherwise.
pub proof fn law_validation_follows_verdict<P>(
    r: Result<CacheTask<P>, ManualOperationError>,
    ids: Seq<String>,
    task: CacheTask<P>,
    v: bool,
)
    requires
        validated(r, ids, task, v),
        id_registered(ids, task.cache_id_view()),
    ensures
        !v <==> r == Err::<CacheTask<P>, ManualOperationError>(ManualOperationError::InvalidInput),
        v <==> r == Ok::<CacheTask<P>, ManualOperationError>(task),
{
}

/// The received task at position `j` is the last one of its identity.
pub open spec fn last_of_its_task<P>(received: Seq<CacheTask<P>>, j: int) -> bool {
    forall|m: int| j < m < received.len() ==> !(#[trigger] received[m]).same_identity(received[j])
}

/// Of the tasks received in one poll, the gathered ones are exactly the last
/// received of each task (identity), with no task twice.
pub proof fn law_gathered_keeps_last<P>(received: Seq<CacheTask<P>>)
    ensures
        distinct_identities(gathered(received)),
        forall|j: int|
            0 <= j < received.len() && last_of_its_task(received, j) ==> #[trigger] gathered(
                received,
            ).contains(received[j]),
        forall|x: CacheTask<P>|
            #[trigger] gathered(received).contains(x) ==> exists|j: int|
                0 <= j < received.len() && received[j] == x && last_of_its_task(received, j),
    decreases received.len(),
{
    if received.len() == 0 {
        return;
    }
    let rest = received.drop_last();
    let t = received.last();
    let n = received.len() - 1;
    law_gathered_keeps_last(rest);
    let g = gathered(rest);
    let res = gathered(received);
    assert(res == with_pending(g, t));
    // distinct
    if identity_in(t, g) {
        let idx = identity_index(t, g);
        assert(0 <= idx < g.len() && t.same_identity(g[idx]));
        assert(res == g.update(idx, t));
        assert forall|a: int, b: int|
            0 <= a < res.len() && 0 <= b < res.len() && a != b implies !(#[trigger] res[a]).same_identity(
            #[trigger] res[b],
        ) by {
            assert(!g[a].same_identity(g[b]));
        }
    } else {
        assert(res == g.push(t));
        assert forall|a: int, b: int|
            0 <= a < res.len() && 0 <= b < res.len() && a != b implies !(#[trigger] res[a]).same_identity(
            #[trigger] res[b],
        ) by {
            if a == g.len() {
                if t.same_identity(g[b]) {
                    assert(identity_in(t, g));
                }
            } else if b == g.len() {
                if g[a].same_identity(t) {
                    assert(t.same_identity(g[a]));
                    assert(identity_in(t, g));
                }
            }
        }
    }
    // every last-of-identity received task is gathered
    assert forall|j: int|
        0 <= j < received.len() && last_of_its_task(received, j) implies #[trigger] res.contains(
        received[j],
    ) by {
        if j == n {
            if identity_in(t, g) {
                let idx = identity_index(t, g);
                assert(res[idx] == t);
            } else {
                assert(res[g.len() as int] == t);
            }
        } else {
            assert(received[j] == rest[j]);
            assert(!received[n].same_identity(received[j]));
            assert forall|m: int| j < m < rest.len() implies !(#[trigger] rest[m]).same_identity(rest[j]) by {
                assert(rest[m] == received[m]);
            }
            assert(last_of_its_task(rest, j));
            assert(g.contains(rest[j]));
            let q = choose|q: int| 0 <= q < g.len() && g[q] == rest[j];
            if identity_in(t, g) {
                let idx = identity_index(t, g);
                if q == idx {
                    assert(t.same_identity(g[idx]));
                    assert(t.same_identity(received[j]));
                }
                assert(res[q] == received[j]);
            } else {
                assert(res[q] == received[j]);
            }
        }
    }
    // every gathered task is a last-of-identity received task
    assert forall|x: CacheTask<P>| #[trigger] res.contains(x) implies exists|j: int|
        0 <= j < received.len() && received[j] == x && last_of_its_task(received, j) by {
        let q = choose|q: int| 0 <= q < res.len() && res[q] == x;
        if x == t {
            assert(received[n] == x && last_of_its_task(received, n));
        } else {
            let in_g: bool = identity_in(t, g);
            let idx = identity_index(t, g);
            if in_g {
                assert(q != idx);
                assert(res[q] == g[q]);
                assert(!g[q].same_identity(g[idx]));
                if x.same_identity(t) {
                    assert(g[q].same_identity(g[idx]));
                }
            } else {
                assert(q < g.len());
                assert(res[q] == g[q]);
                if x.same_identity(t) {
                    assert(t.same_identity(g[q]));
                    assert(identity_in(t, g));
                }
            }
            assert(g.contains(x));
            let j = choose|j: int| 0 <= j < rest.len() && rest[j] == x && last_of_its_task(rest, j);
            assert(received[j] == x);
            assert forall|m: int| j < m < received.len() implies !(#[trigger] received[m]).same_identity(
                received[j],
            ) by {
                if m < n {
                    assert(received[m] == rest[m]);
                } else {
                    assert(!t.same_identity(x));
                }
            }
            assert(last_of_its_task(received, j));
        }
    }
}

/// An entry expiration made with the delay `exec_in` may run `exec_in`
/// milliseconds after the clock reading taken when it is made (and is for
/// the given cache, entry and key).
pub proof fn law_entry_expiration_runs_after_its_delay<P>(
    exec_in: u64,
    cache_id: &str,
    id: String,
    key: P,
    t: CacheTask<P>,
)
    requires
        call_ensures(CacheTask::<P>::entry_expiration, (exec_in, cache_id, id, key), t),
    ensures
        exists|now: u128| #[trigger] clock_read(now) && t.exec_time_of() == now + exec_in,
        t.kind() == TaskKind::EntryExpiration,
        t.cache_id_view() == cache_id@,
        t.id_view() == Some(id@),
{
    let now = choose|now: u128| #[trigger] deadline_from_reading(now, exec_in, t.exec_time_of());
    assert(clock_read(now) && t.exec_time_of() == now + exec_in);
}

/// An invalidation made with `expires_in` expires `expires_in` milliseconds
/// after the clock reading taken when it is made.
pub proof fn law_invalidation_expires_after_its_delay<P>(
    expires_in: u64,
    cache_id: &str,
    id: String,
    key: P,
    t: CacheTask<P>,
)
    requires
        call_ensures(CacheTask::<P>::invalidation, (expires_in, cache_id, id, key), t),
    ensures
        exists|now: u128| #[trigger] clock_read(now) && t.exp_time_of() == Some((now + expires_in) as u128),
        t.kind() == TaskKind::Invalidation,
        t.cache_id_view() == cache_id@,
        t.id_view() == Some(id@),
{
    let e = t.exp_time_of().unwrap();
    let now = choose|now: u128| #[trigger] deadline_from_reading(now, expires_in, e);
    assert(clock_read(now) && t.exp_time_of() == Some((now + expires_in) as u128));
}

/// A background refresh is expired exactly when the clock reading (in
/// milliseconds) taken when asked has reached the instant by which it had to
/// end.
pub proof fn law_refresh_expires_at_its_deadline<O: Send>(task: TokioAsyncTask<O>, r: bool)
    requires
        call_ensures(<TokioAsyncTask<O> as AsyncTask>::is_expired, (&task,), r),
    ensures
        exists|now: u128| #[trigger] clock_read(now) && r == (now >= task.exp_time_of()),
{
    let now = choose|now: u128| #[trigger] crate::utils::reading_gives(now, task.exp_time_of(), r);
    assert(clock_read(now) && r == (now >= task.exp_time_of()));
}

/// A task whose cache is registered (at position `p` of a registry without
/// duplicates) and which is not an invalidation past its expiration is
/// carried out by that cache's processor, as the operation it asks for.
pub proof fn law_registered_task_is_carried_out<P>(
    task: CacheTask<P>,
    ids: Seq<String>,
    now: u128,
    p: int,
)
    requires
        distinct_ids(ids),
        0 <= p < ids.len(),
        ids[p]@ == task.cache_id_view(),
        task.exp_time_of() is None || now < task.exp_time_of().unwrap(),
    ensures
        execution_of(task, ids, now) == (Execution::Run { processor: p as usize, kind: task.kind() }),
{
    crate::cache_manager::lemma_id_index(ids, p);
}

/// A task is dropped only when its cache is not registered, or when it is an
/// invalidation taken at or after its expiration.
pub proof fn law_dropped_tasks<P>(task: CacheTask<P>, ids: Seq<String>, now: u128)
    ensures
        execution_of(task, ids, now) == Execution::NoProcessor <==> !id_registered(
            ids,
            task.cache_id_view(),
        ),
        execution_of(task, ids, now) == Execution::Expired <==> id_registered(ids, task.cache_id_view())
            && task.kind() == TaskKind::Invalidation && now >= task.exp_time_of().unwrap(),
{
}

/// What the worker decides for a task it is asked about (`dispatch`) is what
/// the laws above say: carried out by the processor at the position of its
/// cache, unless its cache is unknown or it is an invalidation past its
/// expiration.
pub proof fn law_dispatch_runs_registered_tasks<P, T, E>(
    inner: CacheManagerInner<P, T, E>,
    task: CacheTask<P>,
    now: u128,
    r: Execution,
    p: int,
) where T: CacheTaskProcessor<P>, E: AsyncExecutor<T::Refresh>
    requires
        inner.wf(),
        call_ensures(CacheManagerInner::<P, T, E>::dispatch, (&inner, &task, now), r),
        0 <= p < inner.ids().len(),
        inner.ids()[p]@ == task.cache_id_view(),
        task.exp_time_of() is None || now < task.exp_time_of().unwrap(),
    ensures
        r == (Execution::Run { processor: p as usize, kind: task.kind() }),
{
    inner.law_queue_ordered_and_distinct();
    law_registered_task_is_carried_out(task, inner.ids(), now, p);
}

/// After cache `c` is registered with the input validator `v`, the tasks of
/// `c` are checked by `v`: the validator at the position of `c` is `v`.
pub proof fn law_registered_validator_checks_its_cache<P, V, T, E>(
    before: CacheManager<P, V, T, E>,
    after: CacheManager<P, V, T, E>,
    c: String,
    v: V,
) where V: InputValidator<P>, T: CacheTaskProcessor<P>, E: AsyncExecutor<T::Refresh>
    requires
        before.wf(),
        after.wf(),
        !id_registered(before.ids(), c@),
        after.ids() == before.ids().push(c),
        after.validators() == before.validators().push(v),
    ensures
        id_registered(after.ids(), c@),
        after.validators()[id_index(after.ids(), c@)] == v,
{
    before.law_registry_distinct();
    after.law_registry_distinct();
    crate::cache_manager::lemma_id_index(after.ids(), before.ids().len() as int);
}

} // verus!
