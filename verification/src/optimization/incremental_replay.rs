//! The state cache of incremental replay: verified states kept by key, with
//! hit and miss counts, and expiry of entries not used for a while.

use vstd::prelude::*;

verus! {

/// A cached state: its hash, its bytes, and when it was last used
/// (milliseconds since the Unix epoch).
pub struct StateCacheEntry {
    pub state_hash: String,
    pub state_data: Vec<u8>,
    pub last_accessed_ms: u64,
}

/// Keeps the states replay has verified, each key once, and counts lookups.
pub struct IncrementalReplayer {
    pub state_cache: Vec<(String, StateCacheEntry)>,
    pub cache_hits: u64,
    pub cache_misses: u64,
}

/// The entry has gone unused for longer than `ttl_secs` at `now_ms` (a clock
/// that went back counts as no time).
pub open spec fn stale(e: StateCacheEntry, now_ms: u64, ttl_secs: u64) -> bool {
    now_ms > e.last_accessed_ms && now_ms - e.last_accessed_ms > ttl_secs * 1000
}

/// The entries of `cs` that are not stale, in order.
pub open spec fn kept_entries(cs: Seq<(String, StateCacheEntry)>, now_ms: u64, ttl_secs: u64) -> Seq<(String, StateCacheEntry)>
    decreases cs.len(),
{
    if cs.len() == 0 {
        seq![]
    } else {
        kept_entries(cs.drop_last(), now_ms, ttl_secs) + if stale(cs.last().1, now_ms, ttl_secs) {
            seq![]
        } else {
            seq![cs.last()]
        }
    }
}

impl IncrementalReplayer {
    /// An empty cache with no lookups counted.
    pub fn new() -> (r: Self)
        ensures
            r.state_cache@.len() == 0,
            r.cache_hits == 0,
            r.cache_misses == 0,
    {
        IncrementalReplayer { state_cache: Vec::new(), cache_hits: 0, cache_misses: 0 }
    }

    /// Drops the entries unused for longer than `ttl_secs` at `now_ms`,
    /// keeping the others in order; returns how many were dropped.
    pub fn cleanup_expired_cache_at(&mut self, ttl_secs: u64, now_ms: u64) -> (n: usize)
        ensures
            final(self).state_cache@ == kept_entries(old(self).state_cache@, now_ms, ttl_secs),
            n + final(self).state_cache@.len() == old(self).state_cache@.len(),
            final(self).cache_hits == old(self).cache_hits,
            final(self).cache_misses == old(self).cache_misses,
    {
        let mut rest: Vec<(String, StateCacheEntry)> = Vec::new();
        std::mem::swap(&mut rest, &mut self.state_cache);
        let ghost cs = rest@;
        let total = rest.len();
        let mut kept: Vec<(String, StateCacheEntry)> = Vec::new();
        let mut dropped: usize = 0;
        let mut i: usize = 0;
        let limit: u128 = (ttl_secs as u128) * 1000;
        while rest.len() > 0
            invariant
                i + rest@.len() == cs.len(),
                cs.len() == total,
                rest@ == cs.subrange(i as int, cs.len() as int),
                kept@ == kept_entries(cs.subrange(0, i as int), now_ms, ttl_secs),
                dropped + kept@.len() == i,
                limit == ttl_secs * 1000,
                self.cache_hits == old(self).cache_hits,
                self.cache_misses == old(self).cache_misses,
            decreases rest@.len(),
        {
            let e = rest.remove(0);
            proof {
                assert(e == cs[i as int]);
                assert(cs.subrange(0, i + 1).drop_last() =~= cs.subrange(0, i as int));
                assert(cs.subrange(0, i + 1).last() == e);
            }
            let is_stale = e.1.last_accessed_ms < now_ms && ((now_ms - e.1.last_accessed_ms) as u128) > limit;
            if is_stale {
                dropped = dropped + 1;
            } else {
                kept.push(e);
            }
            i = i + 1;
            assert(rest@ =~= cs.subrange(i as int, cs.len() as int));
        }
        assert(cs.subrange(0, cs.len() as int) =~= cs);
        self.state_cache = kept;
        dropped
    }

    /// Drops the entries unused for longer than `ttl_secs`, as of the clock's
    /// reading; returns how many were dropped.
    pub fn cleanup_expired_cache(&mut self, ttl_secs: u64) -> (n: usize)
        ensures
            exists|now_ms: u64| final(self).state_cache@ == #[trigger] kept_entries(old(self).state_cache@, now_ms, ttl_secs),
            n + final(self).state_cache@.len() == old(self).state_cache@.len(),
            final(self).cache_hits == old(self).cache_hits,
            final(self).cache_misses == old(self).cache_misses,
    {
        self.cleanup_expired_cache_at(ttl_secs, crate::clock::unix_now_millis())
    }

    /// Hits per hundred lookups, rounded down; zero before any lookup.
    pub fn get_cache_hit_rate_percent(&self) -> (r: u128)
        ensures
            r == (if self.cache_hits + self.cache_misses == 0 {
                0
            } else {
                (self.cache_hits * 100) / (self.cache_hits + self.cache_misses)
            }),
    {
        let total = (self.cache_hits as u128) + (self.cache_misses as u128);
        if total == 0 {
            0
        } else {
            (self.cache_hits as u128) * 100 / total
        }
    }
}

} // verus!
