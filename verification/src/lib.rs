//! A remote-entity cache: per-cache storage with automatic expiration, a
//! cache manager that merges and schedules cache tasks by priority, and
//! manual operations with validated inputs.

pub mod async_executor;
pub mod cache_manager;
pub mod cache_manager_config;
pub mod cache_task;
pub mod errors;
pub mod laws;
pub mod metrics;
pub mod r_cache;
pub mod r_cache_config;
pub mod task_channel;
pub mod task_queue;
pub mod utils;
