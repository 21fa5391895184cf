use vstd::prelude::*;

verus! {

/// Why a manual operation on the cache manager was refused.
#[derive(Debug, PartialEq, Eq)]
pub enum ManualOperationError {
    /// No cache with this identifier is registered.
    CacheNotFound { cache_id: String },
    /// The key or the replacement value is not of the cache's types.
    InvalidInput,
    /// The task could not be handed to the cache manager's worker.
    SendError,
}

} // verus!
