use vstd::prelude::*;

use crate::utils::{
    calculate_time_until_next_ms, clock_limit, deadline_from_reading, is_now_after, is_reached,
    reading_gives,
};

verus! {

/// The operation a cache task asks of its cache.
#[derive(Clone, Copy, Debug, PartialEq, Eq, Structural)]
pub enum TaskKind {
    Init,
    Stop,
    FlushAll,
    EntryExpiration,
    Invalidation,
    InvalidationWithProperties,
}

/// A unit of work for one cache, addressed by the cache's identifier.
///
/// `id` is the textual form of the entry key a task is about; `key` and
/// `invalidation` carry the entry key (and the replacement value) in the form
/// that the cache's task processor understands.
pub enum CacheTask<P> {
    Init { cache_id: String },
    Stop { cache_id: String },
    FlushAll { cache_id: String },
    EntryExpiration { exec_time: u128, cache_id: String, id: String, key: P },
    Invalidation { exp_time: u128, cache_id: String, id: String, key: P },
    InvalidationWithProperties { cache_id: String, id: String, invalidation: P },
}

/// A replacement value for the entry under `key`.
pub struct Invalidation<K, V> {
    key: K,
    value: V,
}

impl<K, V> Invalidation<K, V> {
    pub closed spec fn key_of(self) -> K {
        self.key
    }

    pub closed spec fn value_of(self) -> V {
        self.value
    }

    pub fn new(key: K, value: V) -> (r: Self)
        ensures
            r.key_of() == key,
            r.value_of() == value,
    {
        Self { key, value }
    }

    pub fn key(&self) -> (r: &K)
        ensures
            *r == self.key_of(),
    {
        &self.key
    }

    pub fn value(&self) -> (r: &V)
        ensures
            *r == self.value_of(),
    {
        &self.value
    }
}

impl<P> CacheTask<P> {
    /// The operation of the task.
    pub open spec fn kind(self) -> TaskKind {
        match self {
            CacheTask::Init { .. } => TaskKind::Init,
            CacheTask::Stop { .. } => TaskKind::Stop,
            CacheTask::FlushAll { .. } => TaskKind::FlushAll,
            CacheTask::EntryExpiration { .. } => TaskKind::EntryExpiration,
            CacheTask::Invalidation { .. } => TaskKind::Invalidation,
            CacheTask::InvalidationWithProperties { .. } => TaskKind::InvalidationWithProperties,
        }
    }

    /// The identifier of the cache the task is for.
    pub open spec fn cache_id_view(self) -> Seq<char> {
        match self {
            CacheTask::Init { cache_id } => cache_id@,
            CacheTask::Stop { cache_id } => cache_id@,
            CacheTask::FlushAll { cache_id } => cache_id@,
            CacheTask::EntryExpiration { cache_id, .. } => cache_id@,
            CacheTask::Invalidation { cache_id, .. } => cache_id@,
            CacheTask::InvalidationWithProperties { cache_id, .. } => cache_id@,
        }
    }

    /// The identifier of the entry the task is about, for the tasks that are
    /// about one entry.
    pub open spec fn id_view(self) -> Option<Seq<char>> {
        match self {
            CacheTask::EntryExpiration { id, .. } => Some(id@),
            CacheTask::Invalidation { id, .. } => Some(id@),
            CacheTask::InvalidationWithProperties { id, .. } => Some(id@),
            _ => None,
        }
    }

    /// The instant (milliseconds since the epoch) from which the task may run:
    /// that of an entry expiration, 0 (at once) for every other task.
    pub open spec fn exec_time_of(self) -> u128 {
        match self {
            CacheTask::EntryExpiration { exec_time, .. } => exec_time,
            _ => 0,
        }
    }

    /// The instant after which an invalidation is dropped unprocessed.
    pub open spec fn exp_time_of(self) -> Option<u128> {
        match self {
            CacheTask::Invalidation { exp_time, .. } => Some(exp_time),
            _ => None,
        }
    }

    /// Two tasks are the same task, and one replaces the other, when they are
    /// for the same cache, ask the same operation, and are about the same
    /// entry (or about no entry).
    pub open spec fn same_identity(self, other: Self) -> bool {
        &&& self.cache_id_view() == other.cache_id_view()
        &&& self.kind() == other.kind()
        &&& self.id_view() == other.id_view()
    }

    /// An expiration of the entry `id` of cache `cache_id`, to run at
    /// `exec_time` (milliseconds since the epoch).
    pub fn entry_expiration_at(exec_time: u128, cache_id: &str, id: String, key: P) -> (r: Self)
        ensures
            r == (CacheTask::EntryExpiration { exec_time, cache_id: r.cache_id_string(), id, key }),
            r.cache_id_view() == cache_id@,
    {
        CacheTask::EntryExpiration { exec_time, cache_id: cache_id.to_owned(), id, key }
    }

    /// An expiration of the entry `id` of cache `cache_id`, to run `exec_in`
    /// milliseconds from now.
    pub fn entry_expiration(exec_in: u64, cache_id: &str, id: String, key: P) -> (r: Self)
        ensures
            r.kind() == TaskKind::EntryExpiration,
            r.cache_id_view() == cache_id@,
            r.id_view() == Some(id@),
            exists|now: u128| #[trigger] deadline_from_reading(now, exec_in, r.exec_time_of()),
            r.exec_time_of() >= exec_in,
            r.exp_time_of() is None,
            r matches CacheTask::EntryExpiration { key: k, .. } && k == key,
    {
        let exec_time = calculate_time_until_next_ms(exec_in);
        let r = Self::entry_expiration_at(exec_time, cache_id, id, key);
        proof {
            let now = choose|now: u128| #[trigger] deadline_from_reading(now, exec_in, exec_time);
            assert(deadline_from_reading(now, exec_in, r.exec_time_of()));
        }
        r
    }

    /// A replacement of the entry `id` of cache `cache_id` by the value that
    /// `invalidation` carries.
    pub fn invalidation_with_properties(cache_id: &str, id: String, invalidation: P) -> (r: Self)
        ensures
            r.kind() == TaskKind::InvalidationWithProperties,
            r.cache_id_view() == cache_id@,
            r.id_view() == Some(id@),
            r.exec_time_of() == 0,
            r.exp_time_of() is None,
            r matches CacheTask::InvalidationWithProperties { invalidation: v, .. } && v == invalidation,
    {
        CacheTask::InvalidationWithProperties { cache_id: cache_id.to_owned(), id, invalidation }
    }

    /// A refresh of the entry `id` of cache `cache_id` from the remote
    /// repository, dropped if not started by `exp_time`.
    pub fn invalidation_at(exp_time: u128, cache_id: &str, id: String, key: P) -> (r: Self)
        ensures
            r == (CacheTask::Invalidation { exp_time, cache_id: r.cache_id_string(), id, key }),
            r.cache_id_view() == cache_id@,
    {
        CacheTask::Invalidation { exp_time, cache_id: cache_id.to_owned(), id, key }
    }

    /// A refresh of the entry `id` of cache `cache_id` from the remote
    /// repository, dropped if not started within `expires_in` milliseconds.
    pub fn invalidation(expires_in: u64, cache_id: &str, id: String, key: P) -> (r: Self)
        ensures
            r.kind() == TaskKind::Invalidation,
            r.cache_id_view() == cache_id@,
            r.id_view() == Some(id@),
            r.exec_time_of() == 0,
            r.exp_time_of() matches Some(t) && t >= expires_in && exists|now: u128|
                #[trigger] deadline_from_reading(now, expires_in, t),
            r matches CacheTask::Invalidation { key: k, .. } && k == key,
    {
        let exp_time = calculate_time_until_next_ms(expires_in);
        let r = Self::invalidation_at(exp_time, cache_id, id, key);
        proof {
            let now = choose|now: u128| #[trigger] deadline_from_reading(now, expires_in, exp_time);
            assert(deadline_from_reading(now, expires_in, exp_time));
        }
        r
    }

    /// Removes every entry of cache `cache_id`.
    pub fn flush_all(cache_id: &str) -> (r: Self)
        ensures
            r.kind() == TaskKind::FlushAll,
            r.cache_id_view() == cache_id@,
    {
        CacheTask::FlushAll { cache_id: cache_id.to_owned() }
    }

    /// Starts serving cache `cache_id` from its storage.
    pub fn init(cache_id: &str) -> (r: Self)
        ensures
            r.kind() == TaskKind::Init,
            r.cache_id_view() == cache_id@,
    {
        CacheTask::Init { cache_id: cache_id.to_owned() }
    }

    /// Stops serving cache `cache_id` from its storage.
    pub fn stop(cache_id: &str) -> (r: Self)
        ensures
            r.kind() == TaskKind::Stop,
            r.cache_id_view() == cache_id@,
    {
        CacheTask::Stop { cache_id: cache_id.to_owned() }
    }

    /// The input a cache's input validator checks for the task, and whether it
    /// is checked as the replacement value of an invalidation with properties
    /// (rather than as an entry key); none for the tasks on a whole cache.
    pub open spec fn input_of(self) -> Option<(P, bool)> {
        match self {
            CacheTask::EntryExpiration { key, .. } => Some((key, false)),
            CacheTask::Invalidation { key, .. } => Some((key, false)),
            CacheTask::InvalidationWithProperties { invalidation, .. } => Some((invalidation, true)),
            _ => None,
        }
    }

    /// The input to check for the task (see `input_of`).
    pub fn input(&self) -> (r: Option<(&P, bool)>)
        ensures
            match r {
                Some((p, b)) => self.input_of() == Some((*p, b)),
                None => self.input_of() is None,
            },
    {
        match self {
            CacheTask::EntryExpiration { key, .. } => Some((key, false)),
            CacheTask::Invalidation { key, .. } => Some((key, false)),
            CacheTask::InvalidationWithProperties { invalidation, .. } => Some((invalidation, true)),
            _ => None,
        }
    }

    /// The cache identifier as stored in the task.
    pub open spec fn cache_id_string(self) -> String {
        match self {
            CacheTask::Init { cache_id } => cache_id,
            CacheTask::Stop { cache_id } => cache_id,
            CacheTask::FlushAll { cache_id } => cache_id,
            CacheTask::EntryExpiration { cache_id, .. } => cache_id,
            CacheTask::Invalidation { cache_id, .. } => cache_id,
            CacheTask::InvalidationWithProperties { cache_id, .. } => cache_id,
        }
    }

    pub fn kind_of(&self) -> (r: TaskKind)
        ensures
            r == self.kind(),
    {
        match self {
            CacheTask::Init { .. } => TaskKind::Init,
            CacheTask::Stop { .. } => TaskKind::Stop,
            CacheTask::FlushAll { .. } => TaskKind::FlushAll,
            CacheTask::EntryExpiration { .. } => TaskKind::EntryExpiration,
            CacheTask::Invalidation { .. } => TaskKind::Invalidation,
            CacheTask::InvalidationWithProperties { .. } => TaskKind::InvalidationWithProperties,
        }
    }

    pub fn exec_time(&self) -> (r: u128)
        ensures
            r == self.exec_time_of(),
    {
        match self {
            CacheTask::EntryExpiration { exec_time, .. } => *exec_time,
            _ => 0,
        }
    }

    pub fn exp_time(&self) -> (r: Option<u128>)
        ensures
            r == self.exp_time_of(),
    {
        match self {
            CacheTask::Invalidation { exp_time, .. } => Some(*exp_time),
            _ => None,
        }
    }

    /// Invalidations run in the background, on the async executor.
    pub fn is_async(&self) -> (r: bool)
        ensures
            r == (self.kind() == TaskKind::Invalidation),
    {
        match self {
            CacheTask::Invalidation { .. } => true,
            _ => false,
        }
    }

    pub fn id(&self) -> (r: Option<&str>)
        ensures
            match (r, self.id_view()) {
                (Some(s), Some(i)) => s@ == i,
                (None, None) => true,
                _ => false,
            },
    {
        match self {
            CacheTask::Invalidation { id, .. } => Some(id.as_str()),
            CacheTask::EntryExpiration { id, .. } => Some(id.as_str()),
            CacheTask::InvalidationWithProperties { id, .. } => Some(id.as_str()),
            _ => None,
        }
    }

    pub fn cache_id(&self) -> (r: &str)
        ensures
            r@ == self.cache_id_view(),
    {
        match self {
            CacheTask::Init { cache_id } => cache_id.as_str(),
            CacheTask::Stop { cache_id } => cache_id.as_str(),
            CacheTask::FlushAll { cache_id } => cache_id.as_str(),
            CacheTask::EntryExpiration { cache_id, .. } => cache_id.as_str(),
            CacheTask::Invalidation { cache_id, .. } => cache_id.as_str(),
            CacheTask::InvalidationWithProperties { cache_id, .. } => cache_id.as_str(),
        }
    }

    pub fn cache_id_ref(&self) -> (r: &String)
        ensures
            r@ == self.cache_id_view(),
    {
        match self {
            CacheTask::Init { cache_id } => cache_id,
            CacheTask::Stop { cache_id } => cache_id,
            CacheTask::FlushAll { cache_id } => cache_id,
            CacheTask::EntryExpiration { cache_id, .. } => cache_id,
            CacheTask::Invalidation { cache_id, .. } => cache_id,
            CacheTask::InvalidationWithProperties { cache_id, .. } => cache_id,
        }
    }

    fn id_ref(&self) -> (r: Option<&String>)
        ensures
            match (r, self.id_view()) {
                (Some(s), Some(i)) => s@ == i,
                (None, None) => true,
                _ => false,
            },
    {
        match self {
            CacheTask::Invalidation { id, .. } => Some(id),
            CacheTask::EntryExpiration { id, .. } => Some(id),
            CacheTask::InvalidationWithProperties { id, .. } => Some(id),
            _ => None,
        }
    }

    /// Whether the task may run at the instant `now`.
    pub fn is_executable_at(&self, now: u128) -> (r: bool)
        ensures
            r == (now >= self.exec_time_of()),
    {
        is_reached(now, self.exec_time())
    }

    /// Whether the task is past its expiration at the instant `now`; only
    /// invalidations expire.
    pub fn is_expired_at(&self, now: u128) -> (r: bool)
        ensures
            r == (self.exp_time_of() matches Some(t) && now >= t),
    {
        match self.exp_time() {
            None => false,
            Some(exp_time) => is_reached(now, exp_time),
        }
    }

    /// Whether the task may run now.
    pub fn is_executable(&self) -> (r: bool)
        ensures
            exists|now: u128| #[trigger] reading_gives(now, self.exec_time_of(), r),
            self.exec_time_of() == 0 ==> r,
            self.exec_time_of() > clock_limit() ==> !r,
    {
        is_now_after(self.exec_time())
    }

    /// Whether the task is past its expiration now; only invalidations expire.
    pub fn is_expired(&self) -> (r: bool)
        ensures
            self.exp_time_of() is None ==> !r,
            self.exp_time_of() matches Some(t) ==> exists|now: u128| #[trigger] reading_gives(now, t, r),
            self.exp_time_of() matches Some(t) && t == 0 ==> r,
            self.exp_time_of() matches Some(t) && t > clock_limit() ==> !r,
    {
        match self.exp_time() {
            None => false,
            Some(exp_time) => is_now_after(exp_time),
        }
    }

    /// Whether `self` and `other` are the same task (see `same_identity`).
    pub fn same_task(&self, other: &Self) -> (r: bool)
        ensures
            r == self.same_identity(*other),
    {
        let cache_matches = *self.cache_id_ref() == *other.cache_id_ref();
        let op_matches = self.kind_of() == other.kind_of();
        let input_matches = match (self.id_ref(), other.id_ref()) {
            (Some(a), Some(b)) => *a == *b,
            (None, None) => true,
            _ => false,
        };
        cache_matches && op_matches && input_matches
    }
}

/// Two tasks are equal when they are the same task (see `same_identity`):
/// the newer of two equal tasks replaces the older.
impl<P> PartialEq for CacheTask<P> {
    fn eq(&self, other: &Self) -> (r: bool) {
        self.same_task(other)
    }
}

impl<P> Eq for CacheTask<P> {

}

impl<P> vstd::std_specs::cmp::PartialEqSpecImpl for CacheTask<P> {
    open spec fn obeys_eq_spec() -> bool {
        true
    }

    open spec fn eq_spec(&self, other: &Self) -> bool {
        self.same_identity(*other)
    }
}

} // verus!
