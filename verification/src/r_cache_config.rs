use vstd::prelude::*;

verus! {

/// The identity of a cache and how long its entries live.
#[derive(Clone, Copy, Debug)]
pub struct RCacheConfig {
    cache_id: &'static str,
    entry_expires_in: u64,
}

impl RCacheConfig {
    /// The cache's identifier.
    pub closed spec fn id_view(self) -> Seq<char> {
        self.cache_id@
    }

    /// Milliseconds an entry stays cached before it expires.
    pub closed spec fn lifetime(self) -> u64 {
        self.entry_expires_in
    }

    pub fn new(cache_id: &'static str, entry_expires_in: u64) -> (r: Self)
        ensures
            r.id_view() == cache_id@,
            r.lifetime() == entry_expires_in,
    {
        Self { cache_id, entry_expires_in }
    }

    pub fn entry_expires_in(&self) -> (r: u64)
        ensures
            r == self.lifetime(),
    {
        self.entry_expires_in
    }

    pub fn cache_id(&self) -> (r: &'static str)
        ensures
            r@ == self.id_view(),
    {
        self.cache_id
    }
}

} // verus!
