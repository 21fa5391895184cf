use vstd::prelude::*;

verus! {

/// How the cache manager polls its task channel. All waits are in
/// milliseconds.
#[derive(Clone, Copy, Debug)]
pub struct CacheManagerConfig {
    max_pending_ms_await: u64,
    max_pending_first_poll_ms_await: u64,
    max_pending_bulk_poll_ms_await: u64,
    max_task_drain_size: u64,
}

impl CacheManagerConfig {
    /// Longest time tasks are gathered from the channel before they are moved
    /// to the task queue.
    pub closed spec fn pending_window(self) -> u64 {
        self.max_pending_ms_await
    }

    /// Longest wait for the first task of a poll.
    pub closed spec fn first_poll_wait(self) -> u64 {
        self.max_pending_first_poll_ms_await
    }

    /// Longest wait for each further task of a poll.
    pub closed spec fn bulk_poll_wait(self) -> u64 {
        self.max_pending_bulk_poll_ms_await
    }

    /// Most tasks taken from the channel after the first one in one poll.
    pub closed spec fn drain_size(self) -> u64 {
        self.max_task_drain_size
    }

    pub fn new(
        max_pending_ms_await: u64,
        max_pending_first_poll_ms_await: u64,
        max_pending_bulk_poll_ms_await: u64,
        max_task_drain_size: u64,
    ) -> (r: Self)
        ensures
            r.pending_window() == max_pending_ms_await,
            r.first_poll_wait() == max_pending_first_poll_ms_await,
            r.bulk_poll_wait() == max_pending_bulk_poll_ms_await,
            r.drain_size() == max_task_drain_size,
    {
        Self {
            max_pending_ms_await,
            max_pending_first_poll_ms_await,
            max_pending_bulk_poll_ms_await,
            max_task_drain_size,
        }
    }

    pub fn max_pending_ms_await(&self) -> (r: u64)
        ensures
            r == self.pending_window(),
    {
        self.max_pending_ms_await
    }

    pub fn max_pending_first_poll_ms_await(&self) -> (r: u64)
        ensures
            r == self.first_poll_wait(),
    {
        self.max_pending_first_poll_ms_await
    }

    pub fn max_pending_bulk_poll_ms_await(&self) -> (r: u64)
        ensures
            r == self.bulk_poll_wait(),
    {
        self.max_pending_bulk_poll_ms_await
    }

    pub fn max_task_drain_size(&self) -> (r: u64)
        ensures
            r == self.drain_size(),
    {
        self.max_task_drain_size
    }
}

} // verus!
