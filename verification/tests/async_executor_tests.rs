use std::sync::atomic::{AtomicU64, Ordering};

use remcached::async_executor::{AsyncTask, TokioAsyncExecutor, TokioAsyncTask};
use remcached::metrics::measure;
use remcached::utils::calculate_time_until_next_ms;

#[test]
fn tokio_task_reports_finish_and_expiration() {
    let rt = tokio::runtime::Builder::new_current_thread().build().unwrap();
    let executor = TokioAsyncExecutor::new(rt.handle().clone());
    let handle = executor.handle().spawn(async { 7u32 });
    let task = TokioAsyncTask::new(handle, calculate_time_until_next_ms(60_000));
    assert!(!task.is_expired());
    rt.block_on(async { tokio::task::yield_now().await });
    let mut waited = 0;
    while !task.is_finished() && waited < 100 {
        rt.block_on(async { tokio::task::yield_now().await });
        waited += 1;
    }
    assert!(task.is_finished());
}

#[test]
fn tokio_task_past_its_deadline_is_expired_and_can_be_aborted() {
    let rt = tokio::runtime::Builder::new_current_thread().build().unwrap();
    let handle = rt.handle().spawn(std::future::pending::<()>());
    let task = TokioAsyncTask::new(handle, 1);
    assert!(task.is_expired());
    assert!(!task.is_finished());
    task.abort();
    let mut waited = 0;
    while !task.is_finished() && waited < 100 {
        rt.block_on(async { tokio::task::yield_now().await });
        waited += 1;
    }
    assert!(task.is_finished());
}

#[test]
fn measure_counts_and_returns() {
    let counter = AtomicU64::new(0);
    let elapsed = AtomicU64::new(0);
    let r = measure(&counter, &elapsed, || 41 + 1);
    assert_eq!(r, 42);
    assert_eq!(counter.load(Ordering::Relaxed), 1);
    let r = measure(&counter, &elapsed, || "done");
    assert_eq!(r, "done");
    assert_eq!(counter.load(Ordering::Relaxed), 2);
}
