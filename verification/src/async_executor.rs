use vstd::prelude::*;

use tokio::runtime::Handle;
use tokio::task::{JoinError, JoinHandle};

use crate::utils::{clock_limit, is_now_after, reading_gives};

verus! {

#[verifier::external_type_specification]
#[verifier::external_body]
pub struct ExHandle(Handle);

#[verifier::external_type_specification]
#[verifier::external_body]
#[verifier::reject_recursive_types(T)]
pub struct ExJoinHandle<T>(JoinHandle<T>);

#[verifier::external_type_specification]
#[verifier::external_body]
pub struct ExJoinError(JoinError);

/// Whether the tokio task has completed, through `JoinHandle::is_finished`.
/// It depends on the scheduler: nothing is stated.
#[verifier::external_body]
fn join_handle_is_finished<T>(handle: &JoinHandle<T>) -> (r: bool) {
    handle.is_finished()
}

/// Asks tokio to cancel the task, through `JoinHandle::abort`.
#[verifier::external_body]
fn join_handle_abort<T>(handle: &JoinHandle<T>) {
    handle.abort()
}

/// Work running in the background on an async executor.
pub trait AsyncTask: Send {
    /// Whether the work has ended.
    fn is_finished(&self) -> bool;

    /// Whether the work is past the instant by which it had to end.
    fn is_expired(&self) -> bool;

    /// Stops the work.
    fn abort(&self);
}

/// Runs background work `F` (such as the refresh of an invalidated entry)
/// that has to end by an instant.
pub trait AsyncExecutor<F>: Send {
    type Task: AsyncTask;

    /// Starts `future`, which has to end by `exp_time` (milliseconds since
    /// the epoch).
    fn execute(&self, exp_time: u128, future: F) -> Self::Task;
}

/// An async executor on a tokio runtime.
pub struct TokioAsyncExecutor {
    handle: Handle,
}

impl TokioAsyncExecutor {
    pub closed spec fn handle_of(self) -> Handle {
        self.handle
    }

    /// An executor that spawns its work on the runtime behind `handle`.
    pub fn new(handle: Handle) -> (r: Self)
        ensures
            r.handle_of() == handle,
    {
        Self { handle }
    }

    /// The runtime the work is spawned on.
    pub fn handle(&self) -> (r: &Handle)
        ensures
            *r == self.handle_of(),
    {
        &self.handle
    }
}

/// Work spawned on a tokio runtime that has to end by `exp_time`.
#[verifier::reject_recursive_types(O)]
pub struct TokioAsyncTask<O> {
    delegate: JoinHandle<O>,
    exp_time: u128,
}

impl<O> TokioAsyncTask<O> {
    pub closed spec fn exp_time_of(self) -> u128 {
        self.exp_time
    }

    pub closed spec fn delegate_of(self) -> JoinHandle<O> {
        self.delegate
    }

    /// Tracks the spawned `delegate`, which has to end by `exp_time`
    /// (milliseconds since the epoch).
    pub fn new(delegate: JoinHandle<O>, exp_time: u128) -> (r: Self)
        ensures
            r.exp_time_of() == exp_time,
            r.delegate_of() == delegate,
    {
        Self { delegate, exp_time }
    }
}

impl<O: Send> AsyncTask for TokioAsyncTask<O> {
    fn is_finished(&self) -> bool {
        join_handle_is_finished(&self.delegate)
    }

    fn is_expired(&self) -> (r: bool)
        ensures
            exists|now: u128| #[trigger] reading_gives(now, self.exp_time_of(), r),
            self.exp_time_of() == 0 ==> r,
            self.exp_time_of() > clock_limit() ==> !r,
    {
        let r = is_now_after(self.exp_time);
        proof {
            let now = choose|now: u128| #[trigger] reading_gives(now, self.exp_time, r);
            assert(reading_gives(now, self.exp_time_of(), r));
        }
        r
    }

    fn abort(&self) {
        join_handle_abort(&self.delegate)
    }
}

} // verus!
