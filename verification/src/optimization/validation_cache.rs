//! A cache of validation verdicts, keyed by request hash and verifier version,
//! with expiry and least-used eviction.

use vstd::prelude::*;
use crate::clock::unix_now_millis;
use crate::text::{cat, str_eq};

verus! {

/// Capacity, expiry and cleanup period of a validation cache.
pub struct ValidationCacheConfig {
    pub capacity: usize,
    pub ttl_secs: u64,
    pub cleanup_interval_secs: u64,
}

impl Default for ValidationCacheConfig {
    /// 10000 entries, kept 5 minutes, cleaned every minute.
    fn default() -> (c: Self)
        ensures
            c.capacity == 10000,
            c.ttl_secs == 300,
            c.cleanup_interval_secs == 60,
    {
        ValidationCacheConfig { capacity: 10000, ttl_secs: 300, cleanup_interval_secs: 60 }
    }
}

/// A cached verdict.
pub struct CacheEntry {
    pub result: bool,
    pub created_at_ms: u64,
    pub access_count: u64,
}

/// What a verdict is cached under.
pub struct ValidationCacheKey {
    pub request_hash: String,
    pub verifier_version: String,
}

/// Counters of a validation cache.
pub struct ValidationCacheStats {
    pub capacity: usize,
    pub current_size: usize,
    pub hits: u64,
    pub misses: u64,
}

/// The text a key is stored under: `request_hash:verifier_version`.
pub open spec fn key_text(k: ValidationCacheKey) -> Seq<char> {
    k.request_hash@ + ":"@ + k.verifier_version@
}

/// `ms` milliseconds exceed a time to live of `ttl_secs` seconds.
pub open spec fn exceeds(ms: int, ttl_secs: u64) -> bool {
    ms > ttl_secs * 1000
}

/// Time from `from` to `to`; a clock that went back counts as no time.
pub open spec fn age(from: u64, to: u64) -> int {
    if to >= from { to - from } else { 0 }
}

fn age_exceeds(from: u64, to: u64, ttl_secs: u64) -> (b: bool)
    ensures
        b == exceeds(age(from, to), ttl_secs),
{
    let a: u64 = if to >= from { to - from } else { 0 };
    match ttl_secs.checked_mul(1000) {
        Some(limit) => a > limit,
        None => false,
    }
}

/// The entries of a cache hold each key once.
pub open spec fn keys_unique(entries: Seq<(String, CacheEntry)>) -> bool {
    forall|i: int, j: int| 0 <= i < j < entries.len() ==> entries[i].0@ != entries[j].0@
}

/// The position of key `k` among the entries.
pub open spec fn position_of(entries: Seq<(String, CacheEntry)>, k: Seq<char>, i: int) -> bool {
    0 <= i < entries.len() && entries[i].0@ == k
}

/// Key `k` has an entry that has not outlived the time to live at `now_ms`.
pub open spec fn fresh_entry(entries: Seq<(String, CacheEntry)>, k: Seq<char>, now_ms: u64, ttl_secs: u64) -> bool {
    exists|i: int| position_of(entries, k, i) && !exceeds(age(entries[i].1.created_at_ms, now_ms), ttl_secs)
}

/// Key `k` holds `result`, cached at `now_ms` and used once.
pub open spec fn stored(entries: Seq<(String, CacheEntry)>, k: Seq<char>, result: bool, now_ms: u64) -> bool {
    exists|i: int| position_of(entries, k, i) && entries[i].1 == (CacheEntry { result, created_at_ms: now_ms, access_count: 1 })
}

/// What caching `result` under key `k` at `now_ms` does, from `c0` to `c1`:
/// counters and settings stay; the key holds `result`, cached at `now_ms` and
/// used once; every other entry was there before. Unless a cleanup is due,
/// every other entry is kept, except that a full cache first drops one entry
/// of fewest uses.
pub open spec fn set_outcome(c0: ValidationCache, c1: ValidationCache, k: Seq<char>, result: bool, now_ms: u64) -> bool {
    let o = c0.cache@;
    let f = c1.cache@;
    let due = cleanup_due(c0.last_cleanup_ms, now_ms, c0.config.cleanup_interval_secs);
    &&& c1.hits == c0.hits
    &&& c1.misses == c0.misses
    &&& c1.config == c0.config
    &&& stored(f, k, result, now_ms)
    &&& forall|j: int| 0 <= j < f.len() && (#[trigger] f[j]).0@ != k ==> o.contains(f[j])
    &&& (!due && o.len() < c0.config.capacity) ==> forall|j: int|
        0 <= j < o.len() && (#[trigger] o[j]).0@ != k ==> f.contains(o[j])
    &&& (!due && o.len() >= c0.config.capacity && o.len() > 0) ==> exists|m: int|
        #[trigger] least_used(o, m) && (forall|j: int| 0 <= j < f.len() && (#[trigger] f[j]).0@ != k ==> o.remove(m).contains(f[j]))
            && (forall|j: int| 0 <= j < o.len() && j != m && (#[trigger] o[j]).0@ != k ==> f.contains(o[j]))
}

/// The most entries a cache of `capacity` holds.
pub open spec fn room(capacity: usize) -> int {
    if capacity == 0 { 1 } else { capacity as int }
}

/// Whether a periodic cleanup is due at `now_ms`.
pub open spec fn cleanup_due(last_cleanup_ms: u64, now_ms: u64, interval_secs: u64) -> bool {
    exceeds(age(last_cleanup_ms, now_ms), interval_secs)
}

/// `after` is what cleaning `before` at `now_ms` leaves: only entries of
/// `before`, none of them expired, and every unexpired one kept.
pub open spec fn cleaned(before: Seq<(String, CacheEntry)>, after: Seq<(String, CacheEntry)>, now_ms: u64, ttl_secs: u64) -> bool {
    &&& forall|i: int| 0 <= i < after.len() ==> !exceeds(age((#[trigger] after[i]).1.created_at_ms, now_ms), ttl_secs)
    &&& forall|i: int| 0 <= i < after.len() ==> before.contains(#[trigger] after[i])
    &&& forall|i: int| 0 <= i < before.len() && !exceeds(age((#[trigger] before[i]).1.created_at_ms, now_ms), ttl_secs) ==> after.contains(before[i])
}

/// Entry `m` has the fewest uses of all entries.
pub open spec fn least_used(entries: Seq<(String, CacheEntry)>, m: int) -> bool {
    &&& 0 <= m < entries.len()
    &&& forall|j: int| 0 <= j < entries.len() ==> entries[m].1.access_count <= #[trigger] entries[j].1.access_count
}

/// Caches verdicts; counts hits and misses.
pub struct ValidationCache {
    pub cache: Vec<(String, CacheEntry)>,
    pub config: ValidationCacheConfig,
    pub hits: u64,
    pub misses: u64,
    pub last_cleanup_ms: u64,
}

fn find_key(entries: &Vec<(String, CacheEntry)>, k: &str) -> (r: Option<usize>)
    ensures
        match r {
            Some(i) => position_of(entries@, k@, i as int),
            None => forall|i: int| !position_of(entries@, k@, i),
        },
{
    let mut i: usize = 0;
    while i < entries.len()
        invariant
            i <= entries@.len(),
            forall|j: int| 0 <= j < i ==> entries@[j].0@ != k@,
        decreases entries@.len() - i,
    {
        if str_eq(entries[i].0.as_str(), k) {
            return Some(i);
        }
        i = i + 1;
    }
    None
}

impl ValidationCache {
    /// Each key is held once, and the cache holds no more entries than its
    /// capacity (one, for a capacity of zero: the entry just set).
    pub open spec fn wf(&self) -> bool {
        &&& keys_unique(self.cache@)
        &&& self.cache@.len() <= room(self.config.capacity)
    }

    /// An empty cache whose cleanup clock starts now.
    pub fn new(config: ValidationCacheConfig) -> (c: Self)
        ensures
            c.wf(),
            c.cache@.len() == 0,
            c.hits == 0,
            c.misses == 0,
            c.config == config,
    {
        ValidationCache { cache: Vec::new(), config, hits: 0, misses: 0, last_cleanup_ms: unix_now_millis() }
    }

    fn compute_cache_key(&self, key: &ValidationCacheKey) -> (s: String)
        ensures
            s@ == key_text(*key),
    {
        cat(cat(key.request_hash.as_str(), ":").as_str(), key.verifier_version.as_str())
    }

    fn remove_at(&mut self, i: usize)
        requires
            old(self).wf(),
            i < old(self).cache@.len(),
        ensures
            final(self).wf(),
            final(self).cache@ == old(self).cache@.remove(i as int),
            final(self).hits == old(self).hits,
            final(self).misses == old(self).misses,
            final(self).config == old(self).config,
            final(self).last_cleanup_ms == old(self).last_cleanup_ms,
    {
        self.cache.remove(i);
        assert forall|a: int, b: int| 0 <= a < b < self.cache@.len() implies self.cache@[a].0@ != self.cache@[b].0@ by {
            let oa = if a < i { a } else { a + 1 };
            let ob = if b < i { b } else { b + 1 };
            assert(self.cache@[a] == old(self).cache@[oa]);
            assert(self.cache@[b] == old(self).cache@[ob]);
        }
    }

    /// Drops every entry older than the time to live, as of `now_ms`.
    pub fn cleanup_at(&mut self, now_ms: u64)
        requires
            old(self).wf(),
        ensures
            final(self).wf(),
            cleaned(old(self).cache@, final(self).cache@, now_ms, old(self).config.ttl_secs),
            final(self).hits == old(self).hits,
            final(self).misses == old(self).misses,
            final(self).config == old(self).config,
            final(self).last_cleanup_ms == old(self).last_cleanup_ms,
    {
        let mut i: usize = 0;
        while i < self.cache.len()
            invariant
                self.wf(),
                i <= self.cache@.len(),
                self.config == old(self).config,
                self.hits == old(self).hits,
                self.misses == old(self).misses,
                self.last_cleanup_ms == old(self).last_cleanup_ms,
                forall|j: int| 0 <= j < i ==> !exceeds(age((#[trigger] self.cache@[j]).1.created_at_ms, now_ms), self.config.ttl_secs),
                forall|j: int| 0 <= j < self.cache@.len() ==> old(self).cache@.contains(#[trigger] self.cache@[j]),
                forall|j: int| 0 <= j < old(self).cache@.len() && !exceeds(age((#[trigger] old(self).cache@[j]).1.created_at_ms, now_ms), old(self).config.ttl_secs) ==> self.cache@.contains(old(self).cache@[j]),
            decreases self.cache@.len() - i,
        {
            if age_exceeds(self.cache[i].1.created_at_ms, now_ms, self.config.ttl_secs) {
                let ghost before = self.cache@;
                self.remove_at(i);
                assert forall|j: int| 0 <= j < self.cache@.len() implies old(self).cache@.contains(#[trigger] self.cache@[j]) by {
                    let oj = if j < i { j } else { j + 1 };
                    assert(self.cache@[j] == before[oj]);
                }
                assert forall|j: int| 0 <= j < old(self).cache@.len() && !exceeds(age((#[trigger] old(self).cache@[j]).1.created_at_ms, now_ms), old(self).config.ttl_secs) implies self.cache@.contains(old(self).cache@[j]) by {
                    let e = old(self).cache@[j];
                    assert(before.contains(e));
                    let k = choose|k: int| 0 <= k < before.len() && before[k] == e;
                    assert(k != i);
                    let nk = if k < i { k } else { k - 1 };
                    assert(self.cache@[nk] == e);
                }
            } else {
                i = i + 1;
            }
        }
    }

    /// Drops expired entries, as `cleanup_at` does at the clock's reading.
    pub fn cleanup(&mut self)
        requires
            old(self).wf(),
        ensures
            final(self).wf(),
            exists|now_ms: u64| #[trigger] cleaned(old(self).cache@, final(self).cache@, now_ms, old(self).config.ttl_secs),
            final(self).hits == old(self).hits,
            final(self).misses == old(self).misses,
            final(self).config == old(self).config,
            final(self).last_cleanup_ms == old(self).last_cleanup_ms,
    {
        self.cleanup_at(unix_now_millis())
    }

    fn maybe_cleanup(&mut self, now_ms: u64)
        requires
            old(self).wf(),
        ensures
            final(self).wf(),
            final(self).hits == old(self).hits,
            final(self).misses == old(self).misses,
            final(self).config == old(self).config,
            !cleanup_due(old(self).last_cleanup_ms, now_ms, old(self).config.cleanup_interval_secs) ==> final(self).cache == old(self).cache,
            cleanup_due(old(self).last_cleanup_ms, now_ms, old(self).config.cleanup_interval_secs) ==> cleaned(
                old(self).cache@,
                final(self).cache@,
                now_ms,
                old(self).config.ttl_secs,
            ),
    {
        if age_exceeds(self.last_cleanup_ms, now_ms, self.config.cleanup_interval_secs) {
            self.cleanup_at(now_ms);
            self.last_cleanup_ms = now_ms;
        }
    }

    /// The cached verdict for `key` as of `now_ms`: a hit counts and bumps
    /// the entry's uses; a missing or expired entry counts as a miss, and an
    /// expired one is dropped.
    pub fn get_at(&mut self, now_ms: u64, key: &ValidationCacheKey) -> (r: Option<bool>)
        requires
            old(self).wf(),
            old(self).hits < u64::MAX,
            old(self).misses < u64::MAX,
        ensures
            final(self).wf(),
            final(self).config == old(self).config,
            r is Some ==> final(self).hits == old(self).hits + 1 && final(self).misses == old(self).misses,
            r is None ==> final(self).misses == old(self).misses + 1 && final(self).hits == old(self).hits,
            r matches Some(b) ==> (exists|i: int| position_of(final(self).cache@, key_text(*key), i) && final(self).cache@[i].1.result == b),
            r is None ==> (forall|i: int| !position_of(final(self).cache@, key_text(*key), i)),
            r is Some <==> fresh_entry(old(self).cache@, key_text(*key), now_ms, old(self).config.ttl_secs),
            r matches Some(b) ==> (exists|i: int| position_of(old(self).cache@, key_text(*key), i) && old(self).cache@[i].1.result == b),
    {
        let ghost c0 = self.cache@;
        self.maybe_cleanup(now_ms);
        let ghost c1 = self.cache@;
        let ghost k = key_text(*key);
        let ghost ttl = self.config.ttl_secs;
        let ck = self.compute_cache_key(key);
        match find_key(&self.cache, ck.as_str()) {
            Some(i) => {
                if age_exceeds(self.cache[i].1.created_at_ms, now_ms, self.config.ttl_secs) {
                    assert(!fresh_entry(c0, k, now_ms, ttl)) by {
                        lemma_lookup_after_cleanup(c0, c1, k, now_ms, ttl);
                        if fresh_entry(c0, k, now_ms, ttl) {
                            let i2 = choose|i2: int| position_of(c1, k, i2) && !exceeds(age(c1[i2].1.created_at_ms, now_ms), ttl);
                            assert(i2 == i);
                        }
                    }
                    let ghost before = self.cache@;
                    self.remove_at(i);
                    self.misses = self.misses + 1;
                    assert forall|j: int| !position_of(self.cache@, key_text(*key), j) by {
                        if position_of(self.cache@, key_text(*key), j) {
                            let oj = if j < i { j } else { j + 1 };
                            assert(self.cache@[j] == before[oj]);
                        }
                    }
                    None
                } else {
                    assert(fresh_entry(c0, k, now_ms, ttl) && exists|j: int| position_of(c0, k, j) && c0[j].1.result == c1[i as int].1.result) by {
                        lemma_lookup_after_cleanup(c0, c1, k, now_ms, ttl);
                        assert(position_of(c1, k, i as int));
                        let j = choose|j: int| position_of(c0, k, j) && c0[j] == c1[i as int];
                        assert(position_of(c0, k, j) && !exceeds(age(c0[j].1.created_at_ms, now_ms), ttl));
                    }
                    let mut entry = (String::new(), CacheEntry { result: false, created_at_ms: 0, access_count: 0 });
                    let ghost before = self.cache@;
                    std::mem::swap(&mut entry, &mut self.cache[i]);
                    entry.1.access_count = entry.1.access_count.wrapping_add(1);
                    let result = entry.1.result;
                    self.cache.set(i, entry);
                    assert forall|a: int, b: int| 0 <= a < b < self.cache@.len() implies self.cache@[a].0@ != self.cache@[b].0@ by {
                        assert(self.cache@[a].0 == before[a].0);
                        assert(self.cache@[b].0 == before[b].0);
                    }
                    self.hits = self.hits + 1;
                    assert(position_of(self.cache@, key_text(*key), i as int));
                    Some(result)
                }
            },
            None => {
                assert(!fresh_entry(c0, k, now_ms, ttl)) by {
                    lemma_lookup_after_cleanup(c0, c1, k, now_ms, ttl);
                }
                self.misses = self.misses + 1;
                None
            },
        }
    }

    /// The cached verdict for `key`, as `get_at` gives it at the clock's reading.
    pub fn get(&mut self, key: &ValidationCacheKey) -> (r: Option<bool>)
        requires
            old(self).wf(),
            old(self).hits < u64::MAX,
            old(self).misses < u64::MAX,
        ensures
            final(self).wf(),
            final(self).config == old(self).config,
            r is Some ==> final(self).hits == old(self).hits + 1 && final(self).misses == old(self).misses,
            r is None ==> final(self).misses == old(self).misses + 1 && final(self).hits == old(self).hits,
            r matches Some(b) ==> (exists|i: int| position_of(final(self).cache@, key_text(*key), i) && final(self).cache@[i].1.result == b),
            r is None ==> (forall|i: int| !position_of(final(self).cache@, key_text(*key), i)),
            exists|now_ms: u64| (r is Some <==> #[trigger] fresh_entry(old(self).cache@, key_text(*key), now_ms, old(self).config.ttl_secs)),
    {
        self.get_at(unix_now_millis(), key)
    }

    fn evict_least_used(&mut self)
        requires
            old(self).wf(),
        ensures
            final(self).wf(),
            old(self).cache@.len() > 0 ==> exists|m: int| least_used(old(self).cache@, m) && final(self).cache@ == old(
                self,
            ).cache@.remove(m),
            old(self).cache@.len() == 0 ==> final(self).cache@.len() == 0,
            final(self).hits == old(self).hits,
            final(self).misses == old(self).misses,
            final(self).config == old(self).config,
    {
        if self.cache.len() == 0 {
            return;
        }
        let mut least: usize = 0;
        let mut i: usize = 1;
        while i < self.cache.len()
            invariant
                1 <= i <= self.cache@.len(),
                least < i,
                forall|j: int| 0 <= j < i ==> self.cache@[least as int].1.access_count <= #[trigger] self.cache@[j].1.access_count,
            decreases self.cache@.len() - i,
        {
            if self.cache[i].1.access_count < self.cache[least].1.access_count {
                least = i;
            }
            i = i + 1;
        }
        let ghost c = self.cache@;
        self.remove_at(least);
        assert(least_used(c, least as int));
    }

    /// Caches `result` for `key` as of `now_ms`, first evicting the least-used
    /// entry when the cache is at capacity.
    pub fn set_at(&mut self, now_ms: u64, key: &ValidationCacheKey, result: bool)
        requires
            old(self).wf(),
        ensures
            final(self).wf(),
            final(self).hits == old(self).hits,
            final(self).misses == old(self).misses,
            final(self).config == old(self).config,
            set_outcome(*old(self), *final(self), key_text(*key), result, now_ms),
    {
        self.maybe_cleanup(now_ms);
        let ghost c1 = self.cache@;
        let ghost k = key_text(*key);
        assert forall|j: int| 0 <= j < c1.len() implies old(self).cache@.contains(#[trigger] c1[j]) by {
            if c1 != old(self).cache@ {
                assert(cleaned(old(self).cache@, c1, now_ms, old(self).config.ttl_secs));
            } else {
                assert(old(self).cache@[j] == c1[j]);
            }
        }
        let ck = self.compute_cache_key(key);
        if self.cache.len() >= self.config.capacity {
            self.evict_least_used();
        }
        let ghost c2 = self.cache@;
        assert forall|j: int| 0 <= j < c2.len() implies c1.contains(#[trigger] c2[j]) by {
            if c2 != c1 {
                let m = choose|m: int| least_used(c1, m) && c2 == c1.remove(m);
                let oj = if j < m { j } else { j + 1 };
                assert(c2[j] == c1[oj]);
            } else {
                assert(c1[j] == c2[j]);
            }
        }
        let entry = CacheEntry { result, created_at_ms: now_ms, access_count: 1 };
        match find_key(&self.cache, ck.as_str()) {
            Some(i) => {
                let ghost before = self.cache@;
                self.cache.set(i, (ck, entry));
                assert forall|a: int, b: int| 0 <= a < b < self.cache@.len() implies self.cache@[a].0@ != self.cache@[b].0@ by {
                    assert(self.cache@[a].0@ == before[a].0@);
                    assert(self.cache@[b].0@ == before[b].0@);
                }
                assert(position_of(self.cache@, key_text(*key), i as int));
                assert forall|j: int| 0 <= j < self.cache@.len() && (#[trigger] self.cache@[j]).0@ != k implies c2.contains(self.cache@[j]) by {
                    assert(j != i);
                    assert(self.cache@[j] == c2[j]);
                }
                assert forall|x: int| 0 <= x < c2.len() && (#[trigger] c2[x]).0@ != k implies self.cache@.contains(c2[x]) by {
                    assert(x != i);
                    assert(self.cache@[x] == c2[x]);
                }
            },
            None => {
                let ghost before = self.cache@;
                self.cache.push((ck, entry));
                let ghost n = before.len() as int;
                assert forall|a: int, b: int| 0 <= a < b < self.cache@.len() implies self.cache@[a].0@ != self.cache@[b].0@ by {
                    if b == n {
                        assert(!position_of(before, key_text(*key), a));
                    }
                }
                assert(position_of(self.cache@, key_text(*key), n));
                assert forall|j: int| 0 <= j < self.cache@.len() && (#[trigger] self.cache@[j]).0@ != k implies c2.contains(self.cache@[j]) by {
                    assert(j != n);
                    assert(self.cache@[j] == c2[j]);
                }
                assert forall|x: int| 0 <= x < c2.len() && (#[trigger] c2[x]).0@ != k implies self.cache@.contains(c2[x]) by {
                    assert(self.cache@[x] == c2[x]);
                }
            },
        }
        assert forall|j: int| 0 <= j < self.cache@.len() && (#[trigger] self.cache@[j]).0@ != k implies old(self).cache@.contains(self.cache@[j]) by {
            assert(c2.contains(self.cache@[j]));
            let j2 = choose|j2: int| 0 <= j2 < c2.len() && c2[j2] == self.cache@[j];
            assert(c1.contains(c2[j2]));
        }
        proof {
            if !cleanup_due(old(self).last_cleanup_ms, now_ms, old(self).config.cleanup_interval_secs) && old(self).cache@.len() >= old(self).config.capacity && old(self).cache@.len() > 0 {
                assert(c1 == old(self).cache@);
                let m = choose|m: int| least_used(c1, m) && c2 == c1.remove(m);
                assert(least_used(old(self).cache@, m));
                assert forall|j: int| 0 <= j < self.cache@.len() && (#[trigger] self.cache@[j]).0@ != k implies old(self).cache@.remove(m).contains(self.cache@[j]) by {
                    assert(c2.contains(self.cache@[j]));
                }
                assert forall|j: int| 0 <= j < c1.len() && j != m && (#[trigger] c1[j]).0@ != k implies self.cache@.contains(c1[j]) by {
                    let j2 = if j < m { j } else { j - 1 };
                    assert(c2[j2] == c1[j]);
                }
                assert(least_used(old(self).cache@, m));
            }
            if !cleanup_due(old(self).last_cleanup_ms, now_ms, old(self).config.cleanup_interval_secs) && old(self).cache@.len() < old(self).config.capacity {
                assert(c1 == old(self).cache@);
                assert(c2 == c1);
                assert forall|j: int| 0 <= j < c1.len() && (#[trigger] c1[j]).0@ != k implies self.cache@.contains(c1[j]) by {
                    assert(c2[j] == c1[j]);
                }
            }
        }
    }

    /// Caches `result` for `key`, as `set_at` does at the clock's reading.
    pub fn set(&mut self, key: &ValidationCacheKey, result: bool)
        requires
            old(self).wf(),
        ensures
            final(self).wf(),
            final(self).hits == old(self).hits,
            final(self).misses == old(self).misses,
            final(self).config == old(self).config,
            exists|now_ms: u64| #[trigger] set_outcome(*old(self), *final(self), key_text(*key), result, now_ms),
    {
        self.set_at(unix_now_millis(), key, result)
    }

    pub fn get_stats(&self) -> (s: ValidationCacheStats)
        ensures
            s.capacity == self.config.capacity,
            s.current_size == self.cache@.len(),
            s.hits == self.hits,
            s.misses == self.misses,
    {
        ValidationCacheStats { capacity: self.config.capacity, current_size: self.cache.len(), hits: self.hits, misses: self.misses }
    }

    /// Hits per hundred lookups, rounded down; zero before any lookup.
    pub fn get_hit_rate_percent(&self) -> (r: u128)
        ensures
            r == (if self.hits + self.misses == 0 {
                0
            } else {
                (self.hits * 100) / (self.hits + self.misses)
            }),
    {
        let total = (self.hits as u128) + (self.misses as u128);
        if total == 0 {
            0
        } else {
            (self.hits as u128) * 100 / total
        }
    }

    /// Empties the cache and its counters.
    pub fn clear(&mut self)
        ensures
            final(self).wf(),
            final(self).cache@.len() == 0,
            final(self).hits == 0,
            final(self).misses == 0,
            final(self).config == old(self).config,
    {
        self.cache = Vec::new();
        self.hits = 0;
        self.misses = 0;
    }
}

/// Looking a key up after a cleanup at `now_ms` (or none): an entry found was
/// in the cache before, and an entry that was fresh is still found.
proof fn lemma_lookup_after_cleanup(c0: Seq<(String, CacheEntry)>, c1: Seq<(String, CacheEntry)>, k: Seq<char>, now_ms: u64, ttl_secs: u64)
    requires
        keys_unique(c1),
        c1 == c0 || cleaned(c0, c1, now_ms, ttl_secs),
    ensures
        forall|i: int| #[trigger] position_of(c1, k, i) ==> exists|j: int| position_of(c0, k, j) && c0[j] == c1[i],
        fresh_entry(c0, k, now_ms, ttl_secs) ==> exists|i: int|
            position_of(c1, k, i) && !exceeds(age(c1[i].1.created_at_ms, now_ms), ttl_secs),
{
    assert forall|i: int| #[trigger] position_of(c1, k, i) implies exists|j: int| position_of(c0, k, j) && c0[j] == c1[i] by {
        if c1 == c0 {
            assert(position_of(c0, k, i) && c0[i] == c1[i]);
        } else {
            assert(c0.contains(c1[i]));
            let j = choose|j: int| 0 <= j < c0.len() && c0[j] == c1[i];
            assert(position_of(c0, k, j));
        }
    }
    if fresh_entry(c0, k, now_ms, ttl_secs) {
        let j = choose|j: int| position_of(c0, k, j) && !exceeds(age(c0[j].1.created_at_ms, now_ms), ttl_secs);
        if c1 == c0 {
            assert(position_of(c1, k, j));
        } else {
            assert(c1.contains(c0[j]));
            let i = choose|i: int| 0 <= i < c1.len() && c1[i] == c0[j];
            assert(position_of(c1, k, i));
        }
    }
}

/// Once `result` is cached for a key at `now_ms`, the key has an entry that
/// is fresh at `now_ms`, and each entry for the key carries `result`; so a
/// lookup at that moment gives `result` back.
pub proof fn law_set_then_get(c: ValidationCache, key: ValidationCacheKey, result: bool, now_ms: u64)
    requires
        c.wf(),
        stored(c.cache@, key_text(key), result, now_ms),
    ensures
        fresh_entry(c.cache@, key_text(key), now_ms, c.config.ttl_secs),
        forall|i: int| #[trigger] position_of(c.cache@, key_text(key), i) ==> c.cache@[i].1.result == result,
{
    let k = key_text(key);
    let i = choose|i: int| position_of(c.cache@, k, i) && c.cache@[i].1 == (CacheEntry { result, created_at_ms: now_ms, access_count: 1 });
    assert(age(now_ms, now_ms) == 0);
    assert(position_of(c.cache@, k, i) && !exceeds(age(c.cache@[i].1.created_at_ms, now_ms), c.config.ttl_secs));
    assert forall|j: int| #[trigger] position_of(c.cache@, k, j) implies c.cache@[j].1.result == result by {
        if j != i {
            if j < i {
                assert(c.cache@[j].0@ != c.cache@[i].0@);
            } else {
                assert(c.cache@[i].0@ != c.cache@[j].0@);
            }
        }
    }
}

} // verus!
