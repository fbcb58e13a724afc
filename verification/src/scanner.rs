//! Bookkeeping of the non-determinism scanner: the kinds of locks it sees,
//! its cache entries, and the per-operation timing history it adapts to.

use vstd::prelude::*;
use crate::text::{str_eq, owned};

verus! {

/// A kind of lock.
#[derive(Debug, Clone, Copy, PartialEq, Eq, Structural)]
pub enum LockType {
    Mutex,
    RwLockRead,
    RwLockWrite,
    SpinLock,
    Semaphore,
    ConditionVariable,
}

/// What a lock covers.
#[derive(Debug, Clone, Copy, PartialEq, Eq, Structural)]
pub enum LockGranularity {
    ObjectLevel,
    ResourceLevel,
    SystemLevel,
}

/// A lock the scanner saw taken, with the resources it covers and when it
/// was taken (milliseconds since the epoch).
pub struct LockMetadata {
    pub lock_type: LockType,
    pub granularity: LockGranularity,
    pub object_id: Option<String>,
    pub resource_ids: Vec<String>,
    pub acquired_at_ms: u64,
    pub holder_thread_id: Option<u64>,
}

impl LockMetadata {
    pub fn is_read_lock(&self) -> (b: bool)
        ensures
            b == (self.lock_type == LockType::RwLockRead),
    {
        self.lock_type == LockType::RwLockRead
    }

    pub fn is_write_lock(&self) -> (b: bool)
        ensures
            b == (self.lock_type == LockType::RwLockWrite),
    {
        self.lock_type == LockType::RwLockWrite
    }

    pub fn is_spin_lock(&self) -> (b: bool)
        ensures
            b == (self.lock_type == LockType::SpinLock),
    {
        self.lock_type == LockType::SpinLock
    }
}

/// A cached scan result, valid until `expires_at_ms`.
pub struct CacheEntry<T> {
    pub value: T,
    pub created_at_ms: u64,
    pub expires_at_ms: u64,
    pub access_count: u64,
}

impl<T> CacheEntry<T> {
    /// An entry created at `now_ms` that lives `ttl_ms`.
    pub fn new_at(value: T, ttl_ms: u64, now_ms: u64) -> (e: Self)
        requires
            now_ms + ttl_ms <= u64::MAX,
        ensures
            e.value == value,
            e.created_at_ms == now_ms,
            e.expires_at_ms == now_ms + ttl_ms,
            e.access_count == 0,
    {
        CacheEntry { value, created_at_ms: now_ms, expires_at_ms: now_ms + ttl_ms, access_count: 0 }
    }

    /// The entry has expired at `now_ms`.
    pub fn is_expired_at(&self, now_ms: u64) -> (b: bool)
        ensures
            b == (now_ms > self.expires_at_ms),
    {
        now_ms > self.expires_at_ms
    }

    /// Counts one use of the entry.
    pub fn hit(&mut self)
        requires
            old(self).access_count < u64::MAX,
        ensures
            final(self).access_count == old(self).access_count + 1,
            final(self).value == old(self).value,
            final(self).created_at_ms == old(self).created_at_ms,
            final(self).expires_at_ms == old(self).expires_at_ms,
    {
        self.access_count = self.access_count + 1;
    }
}

/// Timing history of one operation.
#[derive(Debug, Clone, Copy, PartialEq, Eq, Structural)]
pub struct OperationStats {
    pub count: u64,
    pub total_time_us: u64,
    pub false_positive_count: u64,
}

/// Timing history by operation key, in the order the keys first occurred.
pub struct OperationHistory {
    pub stats: Vec<(String, OperationStats)>,
}

/// Where the history of `key` is kept.
pub open spec fn history_index(h: Seq<(String, OperationStats)>, key: Seq<char>, i: int) -> Option<int>
    decreases h.len() - i,
{
    if i < 0 || i >= h.len() {
        None
    } else if h[i].0@ == key {
        Some(i)
    } else {
        history_index(h, key, i + 1)
    }
}

/// `s` with one more run of `time_us` counted.
pub open spec fn with_run(s: OperationStats, time_us: u64, is_false_positive: bool) -> OperationStats {
    OperationStats {
        count: (s.count + 1) as u64,
        total_time_us: (s.total_time_us + time_us) as u64,
        false_positive_count: if is_false_positive { (s.false_positive_count + 1) as u64 } else { s.false_positive_count },
    }
}

impl OperationHistory {
    pub fn new() -> (h: Self)
        ensures
            h.stats@.len() == 0,
    {
        OperationHistory { stats: Vec::new() }
    }

    fn find(&self, key: &str) -> (r: Option<usize>)
        ensures
            match r {
                Some(i) => history_index(self.stats@, key@, 0) == Some(i as int) && i < self.stats@.len()
                    && self.stats@[i as int].0@ == key@,
                None => history_index(self.stats@, key@, 0) is None,
            },
    {
        let mut i: usize = 0;
        while i < self.stats.len()
            invariant
                i <= self.stats@.len(),
                history_index(self.stats@, key@, 0) == history_index(self.stats@, key@, i as int),
            decreases self.stats@.len() - i,
        {
            if str_eq(self.stats[i].0.as_str(), key) {
                return Some(i);
            }
            i = i + 1;
        }
        None
    }

    /// Counts one run of operation `key` that took `execution_time_us`, and
    /// a false positive when it was one.
    pub fn record_operation(&mut self, key: &str, execution_time_us: u64, is_false_positive: bool)
        requires
            forall|i: int|
                0 <= i < old(self).stats@.len() ==> (#[trigger] old(self).stats@[i]).1.count < u64::MAX
                    && old(self).stats@[i].1.total_time_us + execution_time_us <= u64::MAX
                    && old(self).stats@[i].1.false_positive_count < u64::MAX,
        ensures
            match history_index(old(self).stats@, key@, 0) {
                Some(i) => final(self).stats@.len() == old(self).stats@.len() && final(self).stats@[i].0@ == key@
                    && final(self).stats@[i].1 == with_run(old(self).stats@[i].1, execution_time_us, is_false_positive)
                    && forall|j: int| 0 <= j < old(self).stats@.len() && j != i ==> #[trigger] final(self).stats@[j] == old(self).stats@[j],
                None => final(self).stats@ == old(self).stats@.push(
                    (final(self).stats@.last().0, with_run(
                        OperationStats { count: 0, total_time_us: 0, false_positive_count: 0 },
                        execution_time_us,
                        is_false_positive,
                    )),
                ) && final(self).stats@.last().0@ == key@,
            },
    {
        match self.find(key) {
            Some(i) => {
                let s = self.stats[i].1;
                let n = OperationStats {
                    count: s.count + 1,
                    total_time_us: s.total_time_us + execution_time_us,
                    false_positive_count: if is_false_positive { s.false_positive_count + 1 } else { s.false_positive_count },
                };
                let k = self.stats[i].0.clone();
                self.stats.set(i, (k, n));
            },
            None => {
                let n = OperationStats {
                    count: 1,
                    total_time_us: execution_time_us,
                    false_positive_count: if is_false_positive { 1 } else { 0 },
                };
                self.stats.push((owned(key), n));
            },
        }
    }

    /// The mean run time of operation `key`, if it has a history.
    pub fn get_historical_average(&self, key: &str) -> (r: Option<u64>)
        ensures
            match history_index(self.stats@, key@, 0) {
                Some(i) => r == Some(
                    if self.stats@[i].1.count > 0 {
                        (self.stats@[i].1.total_time_us / self.stats@[i].1.count) as u64
                    } else {
                        0u64
                    },
                ),
                None => r is None,
            },
    {
        match self.find(key) {
            Some(i) => {
                let s = self.stats[i].1;
                Some(if s.count > 0 { s.total_time_us / s.count } else { 0 })
            },
            None => None,
        }
    }
}

} // verus!

verus! {

/// Checks and conflict counts of one lock.
#[derive(Debug, Clone, Copy, PartialEq, Eq, Structural)]
pub struct LockConflictStats {
    pub total_checks: u64,
    pub conflicts_detected: u64,
    pub false_positives: u64,
}

/// The position of the first entry named `id` at or after `i`, or -1.
pub open spec fn entry_index<V>(es: Seq<(String, V)>, id: Seq<char>, i: int) -> int
    decreases es.len() - i,
{
    if i < 0 || i >= es.len() {
        -1
    } else if es[i].0@ == id {
        i
    } else {
        entry_index(es, id, i + 1)
    }
}

proof fn lemma_entry_index<V>(es: Seq<(String, V)>, id: Seq<char>, i: int)
    requires
        0 <= i,
    ensures
        entry_index(es, id, i) == -1 || (i <= entry_index(es, id, i) < es.len() && es[entry_index(es, id, i)].0@ == id),
    decreases es.len() - i,
{
    if i < es.len() && es[i].0@ != id {
        lemma_entry_index(es, id, i + 1);
    }
}

fn entry_position<V>(es: &Vec<(String, V)>, id: &str) -> (r: Option<usize>)
    ensures
        match r {
            Some(j) => entry_index(es@, id@, 0) == j as int && j < es@.len(),
            None => entry_index(es@, id@, 0) == -1,
        },
{
    proof {
        lemma_entry_index(es@, id@, 0);
    }
    let mut i: usize = 0;
    while i < es.len()
        invariant
            i <= es@.len(),
            entry_index(es@, id@, 0) == entry_index(es@, id@, i as int),
        decreases es@.len() - i,
    {
        if str_eq(es[i].0.as_str(), id) {
            return Some(i);
        }
        i = i + 1;
    }
    None
}

/// Whether the lock covers a resource: an object lock its object, a
/// resource lock the resources it lists, a system lock everything.
pub open spec fn covers(m: LockMetadata, resource: Seq<char>) -> bool {
    match m.granularity {
        LockGranularity::ObjectLevel => match m.object_id {
            Some(o) => o@ == resource,
            None => false,
        },
        LockGranularity::ResourceLevel => exists|i: int| 0 <= i < m.resource_ids@.len() && (#[trigger] m.resource_ids@[i])@ == resource,
        LockGranularity::SystemLevel => true,
    }
}

/// Registered locks and the conflict counts per lock.
pub struct SmartLockDetector {
    pub locks: Vec<(String, LockMetadata)>,
    pub conflict_stats: Vec<(String, LockConflictStats)>,
}

/// The lock a resource name suggests: read, write or spin locks by name,
/// a mutex otherwise.
pub open spec fn lock_type_for(resource: Seq<char>) -> LockType {
    if crate::text::seq_contains(resource, "read"@) {
        LockType::RwLockRead
    } else if crate::text::seq_contains(resource, "write"@) {
        LockType::RwLockWrite
    } else if crate::text::seq_contains(resource, "spin"@) {
        LockType::SpinLock
    } else {
        LockType::Mutex
    }
}

/// Whether the registered lock `id` covers the resource; an unknown lock covers nothing.
pub open spec fn lock_covers(locks: Seq<(String, LockMetadata)>, id: Seq<char>, resource: Seq<char>) -> bool {
    let k = entry_index(locks, id, 0);
    0 <= k < locks.len() && covers(locks[k].1, resource)
}

impl SmartLockDetector {
    /// A detector with no locks.
    pub fn new() -> (d: Self)
        ensures
            d.locks@.len() == 0,
            d.conflict_stats@.len() == 0,
    {
        SmartLockDetector { locks: Vec::new(), conflict_stats: Vec::new() }
    }

    /// Registers a lock, replacing one registered under the same id.
    pub fn register_lock(&mut self, lock_id: String, metadata: LockMetadata)
        ensures
            ({
                let k = entry_index(final(self).locks@, lock_id@, 0);
                0 <= k < final(self).locks@.len() && final(self).locks@[k].1 == metadata
            }),
            final(self).conflict_stats@ == old(self).conflict_stats@,
    {
        let ghost l0 = self.locks@;
        let ghost id = lock_id@;
        let ghost md = metadata;
        match entry_position(&self.locks, lock_id.as_str()) {
            Some(k) => {
                self.locks.set(k, (lock_id, metadata));
                proof {
                    lemma_entry_index_same_prefix(l0, self.locks@, id, 0, k as int);
                }
            },
            None => {
                self.locks.push((lock_id, metadata));
                proof {
                    lemma_entry_index_pushed(l0, self.locks@, id, 0);
                }
            },
        }
    }

    /// The kind of lock a resource name suggests.
    pub fn identify_lock_type(&self, resource: &str) -> (t: Option<LockType>)
        ensures
            t == Some(lock_type_for(resource@)),
    {
        proof {
            reveal_strlit("read");
            reveal_strlit("write");
            reveal_strlit("spin");
        }
        if crate::text::contains(resource, "read") {
            Some(LockType::RwLockRead)
        } else if crate::text::contains(resource, "write") {
            Some(LockType::RwLockWrite)
        } else if crate::text::contains(resource, "spin") {
            Some(LockType::SpinLock)
        } else {
            Some(LockType::Mutex)
        }
    }

    /// Whether the registered lock covers the resource.
    pub fn verify_lock_coverage(&self, lock_id: &str, operation_resource: &str) -> (b: bool)
        ensures
            b == lock_covers(self.locks@, lock_id@, operation_resource@),
    {
        match entry_position(&self.locks, lock_id) {
            None => false,
            Some(k) => {
                let m = &self.locks[k].1;
                match m.granularity {
                    LockGranularity::ObjectLevel => match &m.object_id {
                        Some(o) => str_eq(o.as_str(), operation_resource),
                        None => false,
                    },
                    LockGranularity::ResourceLevel => {
                        let mut i: usize = 0;
                        proof {
                            lemma_entry_index(self.locks@, lock_id@, 0);
                        }
                        while i < m.resource_ids.len()
                            invariant
                                i <= m.resource_ids@.len(),
                                m.granularity == LockGranularity::ResourceLevel,
                                k < self.locks@.len(),
                                entry_index(self.locks@, lock_id@, 0) == k as int,
                                *m == self.locks@[k as int].1,
                                forall|j: int| 0 <= j < i ==> (#[trigger] m.resource_ids@[j])@ != operation_resource@,
                            decreases m.resource_ids@.len() - i,
                        {
                            if str_eq(m.resource_ids[i].as_str(), operation_resource) {
                                assert((m.resource_ids@[i as int])@ == operation_resource@);
                                return true;
                            }
                            i = i + 1;
                        }
                        false
                    },
                    LockGranularity::SystemLevel => true,
                }
            },
        }
    }

    /// Checks the lock against the resource and counts the check (and the
    /// conflict, when the lock covers it) under the lock's id.
    pub fn detect_conflict(&mut self, lock_id: &str, operation_resource: &str) -> (b: bool)
        requires
            forall|i: int|
                0 <= i < old(self).conflict_stats@.len() ==> (#[trigger] old(self).conflict_stats@[i]).1.total_checks
                    < u64::MAX && old(self).conflict_stats@[i].1.conflicts_detected < u64::MAX,
        ensures
            b == lock_covers(old(self).locks@, lock_id@, operation_resource@),
            final(self).locks@ == old(self).locks@,
            ({
                let o = old(self).conflict_stats@;
                let k = entry_index(o, lock_id@, 0);
                let before = if 0 <= k < o.len() { o[k].1 } else { LockConflictStats { total_checks: 0, conflicts_detected: 0, false_positives: 0 } };
                let f = final(self).conflict_stats@;
                let j = entry_index(f, lock_id@, 0);
                &&& 0 <= j < f.len()
                &&& f[j].1 == (LockConflictStats {
                    total_checks: (before.total_checks + 1) as u64,
                    conflicts_detected: if b { (before.conflicts_detected + 1) as u64 } else { before.conflicts_detected },
                    false_positives: before.false_positives,
                })
            }),
    {
        let has = self.verify_lock_coverage(lock_id, operation_resource);
        let ghost s0 = self.conflict_stats@;
        proof {
            lemma_entry_index(s0, lock_id@, 0);
        }
        match entry_position(&self.conflict_stats, lock_id) {
            Some(k) => {
                let mut e = self.conflict_stats[k].1;
                e.total_checks = e.total_checks + 1;
                if has {
                    e.conflicts_detected = e.conflicts_detected + 1;
                }
                let name = self.conflict_stats[k].0.clone();
                self.conflict_stats.set(k, (name, e));
                proof {
                    lemma_entry_index_same_prefix(s0, self.conflict_stats@, lock_id@, 0, k as int);
                }
            },
            None => {
                let e = LockConflictStats { total_checks: 1, conflicts_detected: if has { 1 } else { 0 }, false_positives: 0 };
                self.conflict_stats.push((owned(lock_id), e));
                proof {
                    lemma_entry_index_pushed(s0, self.conflict_stats@, lock_id@, 0);
                }
            },
        }
        has
    }

    /// Counts a false positive for a lock already checked.
    pub fn record_false_positive(&mut self, lock_id: &str)
        requires
            forall|i: int|
                0 <= i < old(self).conflict_stats@.len() ==> (#[trigger] old(self).conflict_stats@[i]).1.false_positives
                    < u64::MAX,
        ensures
            final(self).locks@ == old(self).locks@,
            ({
                let o = old(self).conflict_stats@;
                let k = entry_index(o, lock_id@, 0);
                if 0 <= k < o.len() {
                    final(self).conflict_stats@ == o.update(
                        k,
                        (o[k].0, LockConflictStats { false_positives: (o[k].1.false_positives + 1) as u64, ..o[k].1 }),
                    )
                } else {
                    final(self).conflict_stats@ == o
                }
            }),
    {
        match entry_position(&self.conflict_stats, lock_id) {
            Some(k) => {
                let (name, mut e) = self.conflict_stats.remove(k);
                e.false_positives = e.false_positives + 1;
                self.conflict_stats.insert(k, (name, e));
            },
            None => {},
        }
    }

    /// False positives per check for a lock, in thousandths; 0 for a lock never checked.
    pub fn get_false_positive_rate_per_mille(&self, lock_id: &str) -> (r: u128)
        ensures
            ({
                let o = self.conflict_stats@;
                let k = entry_index(o, lock_id@, 0);
                r == (if 0 <= k < o.len() && o[k].1.total_checks > 0 {
                    (o[k].1.false_positives * 1000) / (o[k].1.total_checks as int)
                } else {
                    0
                })
            }),
    {
        match entry_position(&self.conflict_stats, lock_id) {
            Some(k) => {
                let e = self.conflict_stats[k].1;
                if e.total_checks > 0 {
                    e.false_positives as u128 * 1000 / e.total_checks as u128
                } else {
                    0
                }
            },
            None => 0,
        }
    }
}

proof fn lemma_entry_index_same_prefix<V>(a: Seq<(String, V)>, b: Seq<(String, V)>, id: Seq<char>, from: int, k: int)
    requires
        0 <= from <= k < a.len(),
        a.len() == b.len(),
        entry_index(a, id, from) == k,
        b[k].0@ == id,
        forall|x: int| 0 <= x < k ==> b[x].0@ == a[x].0@,
    ensures
        entry_index(b, id, from) == k,
    decreases k - from,
{
    if from < k {
        lemma_entry_index(a, id, from + 1);
        lemma_entry_index_same_prefix(a, b, id, from + 1, k);
    }
}

proof fn lemma_entry_index_pushed<V>(a: Seq<(String, V)>, b: Seq<(String, V)>, id: Seq<char>, from: int)
    requires
        0 <= from <= a.len(),
        entry_index(a, id, from) == -1,
        b.len() == a.len() + 1,
        b[a.len() as int].0@ == id,
        forall|x: int| 0 <= x < a.len() ==> b[x].0@ == a[x].0@,
    ensures
        entry_index(b, id, from) == a.len(),
    decreases a.len() - from,
{
    if from < a.len() {
        lemma_entry_index_pushed(a, b, id, from + 1);
    }
}

} // verus!

verus! {

/// How strictly a transaction is isolated.
#[derive(Debug, Clone, Copy, PartialEq, Eq, Structural)]
pub enum IsolationLevel {
    ReadCommitted,
    RepeatableRead,
    Serializable,
}

/// The kind of resource an operation touches.
pub enum ResourceType {
    Memory,
    Disk,
    Network,
    Database,
    Cache,
    Custom(String),
}

/// Where an operation runs: nesting, isolation, contention, the resource it
/// touches and how long it has taken before (microseconds).
pub struct ExecutionContext {
    pub is_batch_nested: bool,
    pub nested_depth: u8,
    pub isolation_level: Option<IsolationLevel>,
    pub concurrent_access_count: u32,
    pub resource_type: ResourceType,
    pub historical_avg_time_us: Option<u64>,
}

/// How long the scanner's caches keep each kind of entry (seconds), and how
/// many entries they hold at most.
pub struct ScannerCacheConfig {
    pub path_cache_ttl_secs: u64,
    pub lock_cache_ttl_secs: u64,
    pub rule_cache_ttl_secs: u64,
    pub ml_cache_ttl_secs: u64,
    pub max_entries: usize,
}

impl Default for ScannerCacheConfig {
    /// Paths and rules kept an hour, locks and predictions half an hour, at
    /// most 100 000 entries.
    fn default() -> (c: Self)
        ensures
            c.path_cache_ttl_secs == 3600,
            c.lock_cache_ttl_secs == 1800,
            c.rule_cache_ttl_secs == 3600,
            c.ml_cache_ttl_secs == 1800,
            c.max_entries == 100_000,
    {
        ScannerCacheConfig {
            path_cache_ttl_secs: 3600,
            lock_cache_ttl_secs: 1800,
            rule_cache_ttl_secs: 3600,
            ml_cache_ttl_secs: 1800,
            max_entries: 100_000,
        }
    }
}

} // verus!
