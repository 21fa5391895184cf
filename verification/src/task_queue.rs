use vstd::prelude::*;

use vstd::multiset::Multiset;

use crate::cache_task::CacheTask;

verus! {

broadcast use vstd::seq_lib::group_to_multiset_ensures;

/// `s` is ordered by the instant from which each task may run, earliest first.
pub open spec fn sorted_by_exec_time<P>(s: Seq<CacheTask<P>>) -> bool {
    forall|i: int, j: int| 0 <= i <= j < s.len() ==> s[i].exec_time_of() <= s[j].exec_time_of()
}

/// No two tasks of `s` are the same task.
pub open spec fn distinct_identities<P>(s: Seq<CacheTask<P>>) -> bool {
    forall|i: int, j: int|
        0 <= i < s.len() && 0 <= j < s.len() && i != j ==> !(#[trigger] s[i]).same_identity(
            #[trigger] s[j],
        )
}

/// Some task of `s` is the same task as `t`.
pub open spec fn identity_in<P>(t: CacheTask<P>, s: Seq<CacheTask<P>>) -> bool {
    exists|i: int| 0 <= i < s.len() && t.same_identity(#[trigger] s[i])
}

/// The tasks that no task of `pending` replaces.
pub open spec fn not_replaced_by<P>(pending: Seq<CacheTask<P>>) -> spec_fn(CacheTask<P>) -> bool {
    |t: CacheTask<P>| !identity_in(t, pending)
}

/// The queue after `pending` has been merged into `queued`: every queued
/// task that a pending task replaces is discarded, and the pending tasks are
/// added.
pub open spec fn merged<P>(queued: Seq<CacheTask<P>>, pending: Seq<CacheTask<P>>) -> Multiset<
    CacheTask<P>,
> {
    queued.filter(not_replaced_by(pending)).to_multiset().add(pending.to_multiset())
}

/// The position of a task of `tasks` that is the same task as `t`, if any.
pub fn find_task<P>(tasks: &Vec<CacheTask<P>>, t: &CacheTask<P>) -> (r: Option<usize>)
    ensures
        match r {
            Some(i) => i < tasks@.len() && t.same_identity(tasks@[i as int]),
            None => !identity_in(*t, tasks@),
        },
{
    let mut i: usize = 0;
    while i < tasks.len()
        invariant
            0 <= i <= tasks.len(),
            forall|k: int| 0 <= k < i ==> !t.same_identity(#[trigger] tasks@[k]),
        decreases tasks.len() - i,
    {
        if t.same_task(&tasks[i]) {
            return Some(i);
        }
        i = i + 1;
    }
    None
}

/// `a + b`, or the largest `u64` when that does not fit.
pub open spec fn saturating_sum(a: int, b: int) -> int {
    if a + b <= u64::MAX {
        a + b
    } else {
        u64::MAX as int
    }
}

/// Whether the task `t` is the same task as one of `tasks`.
pub fn contains_task<P>(tasks: &Vec<CacheTask<P>>, t: &CacheTask<P>) -> (r: bool)
    ensures
        r == identity_in(*t, tasks@),
{
    find_task(tasks, t).is_some()
}

/// The position of a task of `s` that is the same task as `t` (meaningful
/// when there is one).
pub open spec fn identity_index<P>(t: CacheTask<P>, s: Seq<CacheTask<P>>) -> int {
    choose|i: int| 0 <= i < s.len() && t.same_identity(#[trigger] s[i])
}

/// The tasks gathered in a poll after `task` is received: it takes the place
/// of the same task if one was gathered, else it comes last.
pub open spec fn with_pending<P>(pending: Seq<CacheTask<P>>, task: CacheTask<P>) -> Seq<
    CacheTask<P>,
> {
    if identity_in(task, pending) {
        pending.update(identity_index(task, pending), task)
    } else {
        pending.push(task)
    }
}

/// The tasks gathered from the tasks `received` in one poll, in the order
/// received: of the same task received twice, the newest is kept, in the
/// place of the first.
pub open spec fn gathered<P>(received: Seq<CacheTask<P>>) -> Seq<CacheTask<P>>
    decreases received.len(),
{
    if received.len() == 0 {
        Seq::empty()
    } else {
        with_pending(gathered(received.drop_last()), received.last())
    }
}

/// Adds a received task to the tasks gathered in one poll of the task
/// channel. A gathered task that is the same task is replaced: the newest
/// one is kept. Returns whether a gathered task was replaced.
pub fn add_pending<P>(pending: &mut Vec<CacheTask<P>>, task: CacheTask<P>) -> (replaced: bool)
    requires
        distinct_identities(old(pending)@),
    ensures
        distinct_identities(final(pending)@),
        replaced == identity_in(task, old(pending)@),
        final(pending)@ == with_pending(old(pending)@, task),
{
    match find_task(pending, &task) {
        Some(i) => {
            let ghost before = pending@;
            let ghost t = task;
            pending.set(i, task);
            proof {
                assert(before[i as int].same_identity(t));
                let j = identity_index(t, before);
                assert(identity_in(t, before));
                assert(0 <= j < before.len() && t.same_identity(before[j]));
                if j != i as int {
                    assert(before[i as int].same_identity(before[j]));
                }
                assert(pending@ == with_pending(before, t));
                assert forall|a: int, b: int|
                    0 <= a < pending@.len() && 0 <= b < pending@.len() && a != b implies !(
                #[trigger] pending@[a]).same_identity(#[trigger] pending@[b]) by {
                    if a == i {
                        assert(!before[a].same_identity(before[b]));
                    } else if b == i {
                        assert(!before[a].same_identity(before[b]));
                    }
                }
            }
            true
        },
        None => {
            let ghost before = pending@;
            let ghost t = task;
            pending.push(task);
            proof {
                assert forall|a: int, b: int|
                    0 <= a < pending@.len() && 0 <= b < pending@.len() && a != b implies !(
                #[trigger] pending@[a]).same_identity(#[trigger] pending@[b]) by {
                    if a == before.len() {
                        if t.same_identity(before[b]) {
                            assert(identity_in(t, before));
                        }
                    } else if b == before.len() {
                        if before[a].same_identity(t) {
                            assert(t.same_identity(before[a]));
                            assert(identity_in(t, before));
                        }
                    }
                }
            }
            false
        },
    }
}

/// The tasks waiting for their turn, ordered by the instant from which each
/// may run (the earliest first), with no task twice.
pub struct TaskQueue<P> {
    tasks: Vec<CacheTask<P>>,
}

impl<P> View for TaskQueue<P> {
    type V = Seq<CacheTask<P>>;

    closed spec fn view(&self) -> Seq<CacheTask<P>> {
        self.tasks@
    }
}

impl<P> TaskQueue<P> {
    /// The queue is ordered and holds no task twice.
    pub open spec fn wf(self) -> bool {
        &&& sorted_by_exec_time(self@)
        &&& distinct_identities(self@)
    }

    pub fn new() -> (r: Self)
        ensures
            r.wf(),
            r@ == Seq::<CacheTask<P>>::empty(),
    {
        TaskQueue { tasks: Vec::new() }
    }

    pub fn len(&self) -> (r: usize)
        ensures
            r == self@.len(),
    {
        self.tasks.len()
    }

    pub fn is_empty(&self) -> (r: bool)
        ensures
            r == (self@.len() == 0),
    {
        self.tasks.len() == 0
    }

    /// The exec time of the first task, if any.
    pub fn next_exec_time(&self) -> (r: Option<u128>)
        ensures
            match r {
                Some(t) => self@.len() > 0 && t == self@[0].exec_time_of(),
                None => self@.len() == 0,
            },
    {
        if self.tasks.len() == 0 {
            None
        } else {
            Some(self.tasks[0].exec_time())
        }
    }

    /// The first position whose task may run only after `exec_time`.
    fn insert_position(&self, exec_time: u128) -> (k: usize)
        requires
            sorted_by_exec_time(self@),
        ensures
            k <= self@.len(),
            forall|i: int| 0 <= i < k ==> self@[i].exec_time_of() <= exec_time,
            forall|i: int| k <= i < self@.len() ==> self@[i].exec_time_of() > exec_time,
    {
        let mut k: usize = 0;
        while k < self.tasks.len() && self.tasks[k].exec_time() <= exec_time
            invariant
                0 <= k <= self.tasks@.len(),
                sorted_by_exec_time(self@),
                forall|i: int| 0 <= i < k ==> self@[i].exec_time_of() <= exec_time,
            decreases self.tasks.len() - k,
        {
            k = k + 1;
        }
        k
    }

    /// Discards every queued task that a task of `pending` replaces; returns
    /// how many were discarded.
    pub fn discard_replaced(&mut self, pending: &Vec<CacheTask<P>>) -> (removed: usize)
        requires
            old(self).wf(),
        ensures
            final(self).wf(),
            final(self)@ == old(self)@.filter(not_replaced_by(pending@)),
            removed == old(self)@.len() - final(self)@.len(),
    {
        let ghost s = self@;
        let ghost pred = not_replaced_by(pending@);
        let ghost mut j: int = 0;
        let old_len = self.tasks.len();
        let mut i: usize = 0;
        proof {
            assert(s.take(0) =~= Seq::<CacheTask<P>>::empty());
            assert(s.take(0).filter(pred) =~= Seq::<CacheTask<P>>::empty());
            assert(s.skip(0) =~= s);
            assert(self@ =~= s.take(0).filter(pred) + s.skip(0));
        }
        while i < self.tasks.len()
            invariant
                self.wf(),
                0 <= j <= s.len(),
                i <= self@.len(),
                self@ == s.take(j).filter(pred) + s.skip(j),
                i == s.take(j).filter(pred).len(),
                pred == not_replaced_by(pending@),
            decreases self.tasks.len() - i,
        {
            let ghost before = self@;
            proof {
                assert(j < s.len());
                assert(self@[i as int] == s[j]);
                s.lemma_take_succ_push(j);
                s.take(j).lemma_filter_push(s[j], pred);
            }
            if contains_task(pending, &self.tasks[i]) {
                let _discarded = self.tasks.remove(i);
                proof {
                    assert(!pred(s[j]));
                    assert(self@ =~= s.take(j + 1).filter(pred) + s.skip(j + 1));
                    assert forall|a: int, b: int| 0 <= a <= b < self@.len() implies self@[a].exec_time_of()
                        <= self@[b].exec_time_of() by {
                        let aa = if a < i { a } else { a + 1 };
                        let bb = if b < i { b } else { b + 1 };
                        assert(self@[a] == before[aa]);
                        assert(self@[b] == before[bb]);
                    }
                    assert forall|a: int, b: int|
                        0 <= a < self@.len() && 0 <= b < self@.len() && a != b implies !(
                    #[trigger] self@[a]).same_identity(#[trigger] self@[b]) by {
                        let aa = if a < i { a } else { a + 1 };
                        let bb = if b < i { b } else { b + 1 };
                        assert(self@[a] == before[aa]);
                        assert(self@[b] == before[bb]);
                    }
                }
            } else {
                i = i + 1;
                proof {
                    assert(pred(s[j]));
                    assert(self@ =~= s.take(j + 1).filter(pred) + s.skip(j + 1));
                }
            }
            proof {
                j = j + 1;
            }
        }
        proof {
            assert(j == s.len());
            assert(s.take(j) =~= s);
            assert(s.skip(j) =~= Seq::<CacheTask<P>>::empty());
            assert(self@ =~= s.filter(pred));
        }
        old_len - self.tasks.len()
    }

    /// Merges `pending` (no task twice) into the queue: every queued task that
    /// a pending task replaces is discarded, then the pending tasks are added
    /// at their places. Returns how many queued tasks were discarded.
    pub fn merge(&mut self, pending: Vec<CacheTask<P>>) -> (removed: usize)
        requires
            old(self).wf(),
            distinct_identities(pending@),
        ensures
            final(self).wf(),
            final(self)@.to_multiset() == merged(old(self)@, pending@),
            final(self)@.len() == old(self)@.filter(not_replaced_by(pending@)).len() + pending@.len(),
            removed == old(self)@.len() - old(self)@.filter(not_replaced_by(pending@)).len(),
    {
        let ghost orig = pending@;
        let ghost pred = not_replaced_by(orig);
        let removed = self.discard_replaced(&pending);
        let ghost filtered = self@;
        let mut rest = pending;
        let ghost mut m: int = 0;
        proof {
            assert(orig.take(0) =~= Seq::<CacheTask<P>>::empty());
            assert(orig.skip(0) =~= orig);
            assert(self@.to_multiset() =~= filtered.to_multiset().add(orig.take(0).to_multiset()));
        }
        while rest.len() > 0
            invariant
                self.wf(),
                0 <= m <= orig.len(),
                rest@ == orig.skip(m),
                filtered == old(self)@.filter(pred),
                pred == not_replaced_by(orig),
                distinct_identities(orig),
                self@.to_multiset() == filtered.to_multiset().add(orig.take(m).to_multiset()),
                self@.len() == filtered.len() + m,
            decreases rest.len(),
        {
            proof {
                assert(m < orig.len());
                assert(rest@[0] == orig[m]);
            }
            let task = rest.remove(0);
            proof {
                assert(rest@ =~= orig.skip(m + 1));
                let t = orig[m];
                if identity_in(t, self@) {
                    let k = choose|k: int| 0 <= k < self@.len() && t.same_identity(#[trigger] self@[k]);
                    let x = self@[k];
                    assert(self@.contains(x));
                    assert(self@.to_multiset().count(x) > 0);
                    if filtered.to_multiset().count(x) > 0 {
                        assert(filtered.contains(x));
                        let fi = choose|fi: int| 0 <= fi < filtered.len() && filtered[fi] == x;
                        assert(pred(filtered[fi]));
                        assert(x.same_identity(orig[m]));
                        assert(identity_in(x, orig));
                        assert(false);
                    } else {
                        assert(orig.take(m).to_multiset().count(x) > 0);
                        assert(orig.take(m).contains(x));
                        let ti = choose|ti: int| 0 <= ti < m && orig.take(m)[ti] == x;
                        assert(orig[ti] == x);
                        assert(!orig[ti].same_identity(orig[m]));
                        assert(false);
                    }
                }
            }
            self.insert(task);
            proof {
                orig.lemma_take_succ_push(m);
                assert(orig.take(m + 1).to_multiset() =~= orig.take(m).to_multiset().insert(orig[m]));
                assert(self@.to_multiset() =~= filtered.to_multiset().add(orig.take(m + 1).to_multiset()));
                m = m + 1;
            }
        }
        proof {
            assert(m == orig.len());
            assert(orig.take(m) =~= orig);
        }
        removed
    }

    /// Takes out the first task if it may run at the instant `now`.
    pub fn pop_ready(&mut self, now: u128) -> (r: Option<CacheTask<P>>)
        requires
            old(self).wf(),
        ensures
            final(self).wf(),
            match r {
                Some(t) => {
                    &&& old(self)@.len() > 0
                    &&& t == old(self)@[0]
                    &&& t.exec_time_of() <= now
                    &&& final(self)@ == old(self)@.drop_first()
                },
                None => {
                    &&& final(self)@ == old(self)@
                    &&& (old(self)@.len() == 0 || old(self)@[0].exec_time_of() > now)
                },
            },
    {
        if self.tasks.len() > 0 && self.tasks[0].is_executable_at(now) {
            let ghost before = self@;
            let t = self.tasks.remove(0);
            proof {
                assert(self@ =~= before.drop_first());
                assert forall|a: int, b: int| 0 <= a <= b < self@.len() implies self@[a].exec_time_of()
                    <= self@[b].exec_time_of() by {
                    assert(self@[a] == before[a + 1]);
                    assert(self@[b] == before[b + 1]);
                }
                assert forall|a: int, b: int|
                    0 <= a < self@.len() && 0 <= b < self@.len() && a != b implies !(
                #[trigger] self@[a]).same_identity(#[trigger] self@[b]) by {
                    assert(self@[a] == before[a + 1]);
                    assert(self@[b] == before[b + 1]);
                }
            }
            Some(t)
        } else {
            None
        }
    }

    /// Adds `task`, which is not already queued, at its place.
    pub fn insert(&mut self, task: CacheTask<P>)
        requires
            old(self).wf(),
            !identity_in(task, old(self)@),
        ensures
            final(self).wf(),
            final(self)@.to_multiset() == old(self)@.to_multiset().insert(task),
            final(self)@.len() == old(self)@.len() + 1,
    {
        let k = self.insert_position(task.exec_time());
        let ghost s = self@;
        let ghost t = task;
        self.tasks.insert(k, task);
        proof {
            let n = self@;
            assert(n == s.insert(k as int, t));
            assert forall|i: int, j: int| 0 <= i <= j < n.len() implies n[i].exec_time_of()
                <= n[j].exec_time_of() by {
                if i < k && j < k {
                } else if i < k && j == k {
                } else if i < k {
                    assert(n[j] == s[j - 1]);
                } else if i == k && j == k {
                } else if i == k {
                    assert(n[j] == s[j - 1]);
                } else {
                    assert(n[i] == s[i - 1]);
                    assert(n[j] == s[j - 1]);
                }
            }
            assert forall|i: int, j: int|
                0 <= i < n.len() && 0 <= j < n.len() && i != j implies !(#[trigger] n[i]).same_identity(
                #[trigger] n[j],
            ) by {
                if i == k {
                    let jj = if j < k { j } else { j - 1 };
                    assert(n[j] == s[jj]);
                    if t.same_identity(s[jj]) {
                        assert(identity_in(t, s));
                    }
                } else if j == k {
                    let ii = if i < k { i } else { i - 1 };
                    assert(n[i] == s[ii]);
                    if s[ii].same_identity(t) {
                        assert(t.same_identity(s[ii]));
                        assert(identity_in(t, s));
                    }
                } else {
                    let ii = if i < k { i } else { i - 1 };
                    let jj = if j < k { j } else { j - 1 };
                    assert(n[i] == s[ii]);
                    assert(n[j] == s[jj]);
                }
            }
        }
    }
}

} // verus!
