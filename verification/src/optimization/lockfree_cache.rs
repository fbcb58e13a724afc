//! Entries and counters of the concurrent cache: expiry by time to live,
//! access counting, and hit/miss statistics.

use vstd::prelude::*;
use crate::clock::unix_now_millis;

verus! {

/// A cached value with its creation and last-access times (milliseconds since
/// the Unix epoch), how often it was read, and an optional time to live.
pub struct CacheEntry<V> {
    pub value: V,
    pub created_at_ms: u64,
    pub last_accessed_at_ms: u64,
    pub access_count: usize,
    pub ttl_seconds: Option<u64>,
}

/// Whole seconds from `from_ms` to `to_ms`; a clock that went back counts as none.
pub open spec fn elapsed_secs(from_ms: u64, to_ms: u64) -> int {
    if to_ms <= from_ms { 0 } else { (to_ms - from_ms) / 1000 }
}

/// An entry with a time to live has expired once that many whole seconds
/// have passed since it was created; one without never expires.
pub open spec fn expired<V>(e: CacheEntry<V>, now_ms: u64) -> bool {
    match e.ttl_seconds {
        Some(ttl) => elapsed_secs(e.created_at_ms, now_ms) >= ttl,
        None => false,
    }
}

/// An entry that has expired stays expired at every later reading; an entry
/// with a time to live of zero has expired from the start.
pub proof fn law_expiry_is_lasting<V>(e: CacheEntry<V>, t1: u64, t2: u64)
    requires
        t1 <= t2,
    ensures
        expired(e, t1) ==> expired(e, t2),
        e.ttl_seconds == Some(0u64) ==> expired(e, t1),
{
    assert((t1 - e.created_at_ms) / 1000 <= (t2 - e.created_at_ms) / 1000) by (nonlinear_arith)
        requires
            t1 <= t2,
    ;
}

/// One more access, wrapping at `usize::MAX` like the atomic counter it models.
pub open spec fn next_count(n: usize) -> usize {
    if n == usize::MAX { 0 } else { (n + 1) as usize }
}

impl<V> CacheEntry<V> {
    /// A new entry created at `now_ms`, counted as accessed once.
    pub fn new_at(value: V, ttl_seconds: Option<u64>, now_ms: u64) -> (e: Self)
        ensures
            e.value == value,
            e.created_at_ms == now_ms,
            e.last_accessed_at_ms == now_ms,
            e.access_count == 1,
            e.ttl_seconds == ttl_seconds,
    {
        CacheEntry { value, created_at_ms: now_ms, last_accessed_at_ms: now_ms, access_count: 1, ttl_seconds }
    }

    /// A new entry created now, counted as accessed once.
    pub fn new(value: V, ttl_seconds: Option<u64>) -> (e: Self)
        ensures
            e.value == value,
            e.created_at_ms == e.last_accessed_at_ms,
            e.access_count == 1,
            e.ttl_seconds == ttl_seconds,
    {
        CacheEntry::new_at(value, ttl_seconds, unix_now_millis())
    }

    /// Whether the entry has expired at `now_ms`.
    pub fn is_expired_at(&self, now_ms: u64) -> (b: bool)
        ensures
            b == expired(*self, now_ms),
    {
        match self.ttl_seconds {
            Some(ttl) => {
                let elapsed = if now_ms <= self.created_at_ms { 0 } else { (now_ms - self.created_at_ms) / 1000 };
                elapsed >= ttl
            },
            None => false,
        }
    }

    /// Whether the entry has expired now; one without a time to live never has.
    pub fn is_expired(&self) -> (b: bool)
        ensures
            self.ttl_seconds is None ==> !b,
            exists|now_ms: u64| b == #[trigger] expired(*self, now_ms),
    {
        self.is_expired_at(unix_now_millis())
    }

    /// Records an access at `now_ms`.
    pub fn touch_at(&mut self, now_ms: u64)
        ensures
            final(self).last_accessed_at_ms == now_ms,
            final(self).access_count == next_count(old(self).access_count),
            final(self).value == old(self).value,
            final(self).created_at_ms == old(self).created_at_ms,
            final(self).ttl_seconds == old(self).ttl_seconds,
    {
        self.last_accessed_at_ms = now_ms;
        self.access_count = if self.access_count == usize::MAX { 0 } else { self.access_count + 1 };
    }

    /// Records an access now.
    pub fn touch(&mut self)
        ensures
            final(self).access_count == next_count(old(self).access_count),
            final(self).value == old(self).value,
            final(self).created_at_ms == old(self).created_at_ms,
            final(self).ttl_seconds == old(self).ttl_seconds,
    {
        self.touch_at(unix_now_millis());
    }

    /// How often the entry was accessed.
    pub fn access_count(&self) -> (n: usize)
        ensures
            n == self.access_count,
    {
        self.access_count
    }
}

/// Hit, miss, insert, eviction and expiry counters, and the current size.
#[derive(Debug, Clone, Copy, PartialEq, Eq, Structural)]
pub struct CacheStats {
    pub hits: u64,
    pub misses: u64,
    pub inserts: u64,
    pub evictions: u64,
    pub expirations: u64,
    pub current_size: usize,
}

impl CacheStats {
    /// All counters at zero.
    pub fn new() -> (s: Self)
        ensures
            s == (CacheStats { hits: 0, misses: 0, inserts: 0, evictions: 0, expirations: 0, current_size: 0 }),
    {
        CacheStats { hits: 0, misses: 0, inserts: 0, evictions: 0, expirations: 0, current_size: 0 }
    }

    /// Hits plus misses.
    pub fn total_requests(&self) -> (n: u64)
        requires
            self.hits + self.misses <= u64::MAX,
        ensures
            n == self.hits + self.misses,
    {
        self.hits + self.misses
    }
}

} // verus!
