# remcached

A cache of entities held by remote repositories (REST APIs, databases, ...),
with entries that expire after a configured time and a cache manager that
schedules the caches' tasks.

- `src/` is the library, verified with Verus:
  - `cache_task`: the tasks (init, stop, flush all, entry expiration,
    invalidation, invalidation with properties) and when two are the same task;
  - `task_queue`: the queue of pending tasks, ordered by the instant each may
    run, where a newer task replaces an older one of the same identity;
  - `cache_manager`: the registry of caches, manual operations with checked
    inputs, and the worker's cycle (poll the task channel, merge, run what is
    due, track background refreshes);
  - `r_cache`: one cache's storage and the decisions of its reads, writes,
    expirations and invalidations;
  - `laws`: properties that span several operations.
- `app/` holds what runs on threads and async runtimes: the async front of a
  cache over its remote repository, the task processors and input validators
  that take keys out of `dyn Any`, the worker thread, and the tokio executor.

A cache's storage is a `std::collections::HashMap`, whose contents vstd
specifies, rather than a concurrent `DashMap`: declaring `DashMap` to Verus
was tried and refused, and its methods change the map through `&self`, which
a contract over the map's contents cannot follow. The cache's front in `app/`
shares the verified storage behind a `Mutex` instead.
