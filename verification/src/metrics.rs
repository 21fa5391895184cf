use vstd::prelude::*;

use std::sync::atomic::AtomicU64;
use std::sync::atomic::Ordering;

use crate::utils::{elapsed_ms, instant_now};

verus! {

/// Runs `f`, then adds one to `counter` and the milliseconds that `f` took to
/// `elapsed`. Returns what `f` returned.
pub fn measure<F, T>(counter: &AtomicU64, elapsed: &AtomicU64, f: F) -> (r: T) where
    F: FnOnce() -> T,
    T: Send,

    requires
        f.requires(()),
    ensures
        f.ensures((), r),
{
    let start = instant_now();
    let result = f();
    let elapsed_time = elapsed_ms(&start);
    elapsed.fetch_add(elapsed_time, Ordering::Relaxed);
    counter.fetch_add(1, Ordering::Relaxed);
    result
}

} // verus!
