//! Tail-latency helpers: aligned allocation and access counting, spinning lock
//! acquisition with contention counters, and branch statistics with a
//! table lookup in place of a branch.

use vstd::prelude::*;
use crate::clock::{spin_hint, unix_now_micros};

verus! {

/// A counter after adding `d`, wrapping like the atomic counter it models.
pub open spec fn wrapping_plus(x: u64, d: u64) -> u64 {
    if x + d > u64::MAX { (x + d - u64::MAX - 1) as u64 } else { (x + d) as u64 }
}

fn wrap_add(x: u64, d: u64) -> (r: u64)
    ensures
        r == wrapping_plus(x, d),
{
    if x > u64::MAX - d { d - (u64::MAX - x) - 1 } else { x + d }
}

/// `size` rounded up to a multiple of `alignment`.
pub open spec fn aligned_size(size: int, alignment: int) -> int {
    ((size + alignment - 1) / alignment) * alignment
}

/// Rounds allocations up to the alignment, reads ahead by the prefetch
/// distance, and counts accesses and cache misses.
pub struct MemoryAccessOptimizer {
    pub prefetch_distance: usize,
    pub alignment: usize,
    pub cache_miss_count: u64,
    pub access_count: u64,
}

impl MemoryAccessOptimizer {
    pub fn new(prefetch_distance: usize, alignment: usize) -> (m: Self)
        ensures
            m.prefetch_distance == prefetch_distance,
            m.alignment == alignment,
            m.cache_miss_count == 0,
            m.access_count == 0,
    {
        MemoryAccessOptimizer { prefetch_distance, alignment, cache_miss_count: 0, access_count: 0 }
    }

    /// A vector of default values (each what `T::default` gives) whose length
    /// is `size` rounded up to a multiple of the alignment.
    pub fn aligned_allocate<T: Default + Clone>(&self, size: usize) -> (v: Vec<T>)
        requires
            self.alignment > 0,
            size + self.alignment <= usize::MAX,
        ensures
            v@.len() == aligned_size(size as int, self.alignment as int),
            forall|i: int| 0 <= i < v@.len() ==> call_ensures(T::default, (), #[trigger] v@[i]),
    {
        let total = size + self.alignment - 1;
        let a = self.alignment;
        let blocks = total / a;
        proof {
            assert(blocks * a <= total) by (nonlinear_arith)
                requires
                    blocks == total / a,
                    a > 0,
            ;
        }
        let aligned = blocks * a;
        let mut v: Vec<T> = Vec::new();
        let mut i: usize = 0;
        while i < aligned
            invariant
                i <= aligned,
                v@.len() == i,
                forall|j: int| 0 <= j < v@.len() ==> call_ensures(T::default, (), #[trigger] v@[j]),
            decreases aligned - i,
        {
            v.push(T::default());
            i = i + 1;
        }
        v
    }

    /// Touches the element `prefetch_distance` places after `index`, when there
    /// is one, so that it is in cache by the time it is needed.
    pub fn prefetch<T>(&self, data: &[T], index: usize)
        requires
            index + self.prefetch_distance <= usize::MAX,
    {
        if index + self.prefetch_distance < data.len() {
            let _ = &data[index + self.prefetch_distance];
        }
    }

    /// Counts a cache miss.
    pub fn record_cache_miss(&mut self)
        ensures
            final(self).cache_miss_count == wrapping_plus(old(self).cache_miss_count, 1),
            final(self).access_count == old(self).access_count,
            final(self).prefetch_distance == old(self).prefetch_distance,
            final(self).alignment == old(self).alignment,
    {
        self.cache_miss_count = wrap_add(self.cache_miss_count, 1);
    }

    /// Counts a memory access.
    pub fn record_access(&mut self)
        ensures
            final(self).access_count == wrapping_plus(old(self).access_count, 1),
            final(self).cache_miss_count == old(self).cache_miss_count,
            final(self).prefetch_distance == old(self).prefetch_distance,
            final(self).alignment == old(self).alignment,
    {
        self.access_count = wrap_add(self.access_count, 1);
    }
}

/// Spins on a lock a bounded number of times and counts successes, waits,
/// the time spent waiting (microseconds) and the attempts made.
pub struct LockContentionOptimizer {
    pub lock_success_count: u64,
    pub lock_wait_count: u64,
    pub total_wait_time_us: u64,
    pub spin_limit: usize,
    pub lock_attempt_count: u64,
}

impl LockContentionOptimizer {
    pub fn new(spin_limit: usize) -> (l: Self)
        ensures
            l.lock_success_count == 0,
            l.lock_wait_count == 0,
            l.total_wait_time_us == 0,
            l.spin_limit == spin_limit,
            l.lock_attempt_count == 0,
    {
        LockContentionOptimizer {
            lock_success_count: 0,
            lock_wait_count: 0,
            total_wait_time_us: 0,
            spin_limit,
            lock_attempt_count: 0,
        }
    }

    /// Calls `try_lock` up to `spin_limit` times, stopping at the first call
    /// that gives a value, and returns that value. A success is counted with
    /// the time it took; giving up after `spin_limit` empty attempts is
    /// counted as a wait. Every call of `try_lock` counts as an attempt.
    pub fn try_acquire_lock<F: Fn() -> Option<R>, R>(&mut self, try_lock: F) -> (r: Option<R>)
        requires
            try_lock.requires(()),
        ensures
            r matches Some(x) ==> try_lock.ensures((), Some(x)),
            r is Some ==> final(self).lock_success_count == wrapping_plus(old(self).lock_success_count, 1),
            r is Some ==> final(self).lock_wait_count == old(self).lock_wait_count,
            r is None ==> final(self).lock_wait_count == wrapping_plus(old(self).lock_wait_count, 1),
            r is None ==> final(self).lock_success_count == old(self).lock_success_count,
            r is None ==> final(self).total_wait_time_us == old(self).total_wait_time_us,
            r is None && old(self).spin_limit > 0 ==> try_lock.ensures((), None),
            r is None ==> final(self).lock_attempt_count == wrapping_plus(old(self).lock_attempt_count, old(self).spin_limit as u64),
            r is Some ==> exists|tries: u64| 1 <= tries <= old(self).spin_limit && final(self).lock_attempt_count
                == #[trigger] wrapping_plus(old(self).lock_attempt_count, tries),
            final(self).spin_limit == old(self).spin_limit,
    {
        let start = unix_now_micros();
        let mut i: usize = 0;
        while i < self.spin_limit
            invariant
                try_lock.requires(()),
                *self == *old(self),
                i <= self.spin_limit,
                i > 0 ==> try_lock.ensures((), None),
            decreases self.spin_limit - i,
        {
            let attempt = try_lock();
            let tries = (i as u64) + 1;
            match attempt {
                Some(result) => {
                    self.lock_attempt_count = wrap_add(self.lock_attempt_count, tries);
                    self.lock_success_count = wrap_add(self.lock_success_count, 1);
                    let now = unix_now_micros();
                    let wait_time = if now <= start { 0 } else { now - start };
                    self.total_wait_time_us = wrap_add(self.total_wait_time_us, wait_time);
                    return Some(result);
                },
                None => {},
            }
            spin_hint();
            i = i + 1;
        }
        self.lock_wait_count = wrap_add(self.lock_wait_count, 1);
        self.lock_attempt_count = wrap_add(self.lock_attempt_count, self.spin_limit as u64);
        None
    }

    /// Counts a success that waited `wait_time_us`.
    pub fn record_lock_success(&mut self, wait_time_us: u64)
        ensures
            final(self).lock_success_count == wrapping_plus(old(self).lock_success_count, 1),
            final(self).total_wait_time_us == wrapping_plus(old(self).total_wait_time_us, wait_time_us),
            final(self).lock_wait_count == old(self).lock_wait_count,
            final(self).spin_limit == old(self).spin_limit,
    {
        self.lock_success_count = wrap_add(self.lock_success_count, 1);
        self.total_wait_time_us = wrap_add(self.total_wait_time_us, wait_time_us);
    }

    /// Counts a wait.
    pub fn record_lock_wait(&mut self)
        ensures
            final(self).lock_wait_count == wrapping_plus(old(self).lock_wait_count, 1),
            final(self).lock_success_count == old(self).lock_success_count,
            final(self).total_wait_time_us == old(self).total_wait_time_us,
            final(self).spin_limit == old(self).spin_limit,
    {
        self.lock_wait_count = wrap_add(self.lock_wait_count, 1);
    }
}

/// Counts branches and mispredictions; hot branches are resolved by a table lookup.
pub struct BranchPredictionOptimizer {
    pub mispredict_count: u64,
    pub total_branches: u64,
    pub hot_branch_threshold: u64,
}

/// The entry a selector's index picks: indices past the end pick the last entry.
pub open spec fn clamp_index(i: usize, len: nat) -> int {
    if i < len { i as int } else { len - 1 }
}

impl BranchPredictionOptimizer {
    pub fn new(hot_branch_threshold: u64) -> (b: Self)
        ensures
            b.mispredict_count == 0,
            b.total_branches == 0,
            b.hot_branch_threshold == hot_branch_threshold,
    {
        BranchPredictionOptimizer { mispredict_count: 0, total_branches: 0, hot_branch_threshold }
    }

    /// Counts one branch, and a misprediction when the guess was wrong.
    pub fn record_branch(&mut self, predicted: bool, actual: bool)
        ensures
            final(self).total_branches == wrapping_plus(old(self).total_branches, 1),
            final(self).mispredict_count == (if predicted != actual {
                wrapping_plus(old(self).mispredict_count, 1)
            } else {
                old(self).mispredict_count
            }),
            final(self).hot_branch_threshold == old(self).hot_branch_threshold,
    {
        self.total_branches = wrap_add(self.total_branches, 1);
        if predicted != actual {
            self.mispredict_count = wrap_add(self.mispredict_count, 1);
        }
    }

    /// The value at the index the selector gives, the last value when the
    /// index is past the end.
    pub fn optimize_hot_branch<'a, T, F: Fn() -> usize>(&self, branch_id: u64, values: &'a [T], selector: F) -> (r: &'a T)
        requires
            values@.len() > 0,
            selector.requires(()),
        ensures
            exists|i: usize| selector.ensures((), i) && *r == values@[clamp_index(i, values@.len())],
    {
        let index = selector();
        let last = values.len() - 1;
        let k = if index < last { index } else { last };
        assert(clamp_index(index, values@.len()) == k as int);
        assert(selector.ensures((), index) && values@[k as int] == values@[clamp_index(index, values@.len())]);
        &values[k]
    }
}


/// `num / den` in thousandths, rounded down; zero when there is no denominator.
pub open spec fn per_mille(num: u64, den: u64) -> int {
    if den == 0 {
        0
    } else {
        (num * 1000) / (den as int)
    }
}

fn ratio_per_mille(num: u64, den: u64) -> (r: u128)
    ensures
        r == per_mille(num, den),
{
    if den == 0 {
        0
    } else {
        (num as u128) * 1000 / (den as u128)
    }
}

impl MemoryAccessOptimizer {
    /// Cache misses per thousand accesses.
    pub fn get_cache_miss_rate_per_mille(&self) -> (r: u128)
        ensures
            r == per_mille(self.cache_miss_count, self.access_count),
    {
        ratio_per_mille(self.cache_miss_count, self.access_count)
    }
}

/// Lock counters: successes, waits, and time spent waiting (microseconds).
#[derive(Debug, Clone, Copy, PartialEq, Eq, Structural)]
pub struct LockContentionStats {
    pub success_count: u64,
    pub wait_count: u64,
    pub total_wait_time_us: u64,
}

impl LockContentionOptimizer {
    pub fn get_contention_stats(&self) -> (s: LockContentionStats)
        ensures
            s == (LockContentionStats {
                success_count: self.lock_success_count,
                wait_count: self.lock_wait_count,
                total_wait_time_us: self.total_wait_time_us,
            }),
    {
        LockContentionStats {
            success_count: self.lock_success_count,
            wait_count: self.lock_wait_count,
            total_wait_time_us: self.total_wait_time_us,
        }
    }
}

/// Branch counters.
#[derive(Debug, Clone, Copy, PartialEq, Eq, Structural)]
pub struct BranchStats {
    pub total_branches: u64,
    pub mispredict_count: u64,
}

impl BranchPredictionOptimizer {
    pub fn get_branch_stats(&self) -> (s: BranchStats)
        ensures
            s == (BranchStats { total_branches: self.total_branches, mispredict_count: self.mispredict_count }),
    {
        BranchStats { total_branches: self.total_branches, mispredict_count: self.mispredict_count }
    }

    /// Mispredictions per thousand branches.
    pub fn get_mispredict_rate_per_mille(&self) -> (r: u128)
        ensures
            r == per_mille(self.mispredict_count, self.total_branches),
    {
        ratio_per_mille(self.mispredict_count, self.total_branches)
    }
}

/// One path of the hotspot report.
#[derive(Debug)]
pub struct HotspotPathInfo {
    pub path_id: usize,
    pub name: String,
    pub call_count: u64,
    pub total_duration_us: u64,
}

/// Counts calls and time per named path; when sampling, only every
/// `sample_every`-th call is counted.
pub struct HotspotAnalyzer {
    pub call_counts: Vec<u64>,
    pub total_durations_us: Vec<u64>,
    pub path_names: Vec<String>,
    pub sample_counter: u64,
    pub sample_every: u64,
}

/// `a` comes before `b` in a hotspot report: more total time, or as much
/// and an earlier path.
pub open spec fn ranks_before(a: HotspotPathInfo, b: HotspotPathInfo) -> bool {
    a.total_duration_us > b.total_duration_us || (a.total_duration_us == b.total_duration_us && a.path_id
        < b.path_id)
}

/// `r` is the report of the analyzer's counters: one entry for each path
/// called at least once, with its counters, in rank order.
pub open spec fn is_hotspot_report(h: HotspotAnalyzer, r: Seq<HotspotPathInfo>) -> bool {
    &&& forall|i: int|
        0 <= i < r.len() ==> {
            let e = #[trigger] r[i];
            &&& e.path_id < h.path_names@.len()
            &&& h.call_counts@[e.path_id as int] > 0
            &&& e.call_count == h.call_counts@[e.path_id as int]
            &&& e.total_duration_us == h.total_durations_us@[e.path_id as int]
            &&& e.name@ == h.path_names@[e.path_id as int]@
        }
    &&& forall|p: int|
        0 <= p < h.path_names@.len() && h.call_counts@[p] > 0 ==> exists|i: int|
            0 <= i < r.len() && (#[trigger] r[i]).path_id == p
    &&& forall|i: int, j: int| 0 <= i < j < r.len() ==> ranks_before(#[trigger] r[i], #[trigger] r[j])
}

impl HotspotAnalyzer {
    pub open spec fn wf(&self) -> bool {
        &&& self.call_counts@.len() == self.path_names@.len()
        &&& self.total_durations_us@.len() == self.path_names@.len()
    }

    /// An analyzer of the named paths, counting every `sample_every`-th call
    /// (every call when it is 0 or 1).
    pub fn new(path_names: Vec<String>, sample_every: u64) -> (h: Self)
        ensures
            h.wf(),
            h.path_names@ == path_names@,
            h.sample_every == sample_every,
            h.sample_counter == 0,
            forall|i: int| 0 <= i < h.path_names@.len() ==> #[trigger] h.call_counts@[i] == 0 && h.total_durations_us@[i] == 0,
    {
        let n = path_names.len();
        let mut calls: Vec<u64> = Vec::new();
        let mut totals: Vec<u64> = Vec::new();
        let mut i: usize = 0;
        while i < n
            invariant
                i <= n,
                n == path_names@.len(),
                calls@.len() == i,
                totals@.len() == i,
                forall|j: int| 0 <= j < i ==> #[trigger] calls@[j] == 0 && totals@[j] == 0,
            decreases n - i,
        {
            calls.push(0);
            totals.push(0);
            i = i + 1;
        }
        HotspotAnalyzer { call_counts: calls, total_durations_us: totals, path_names, sample_counter: 0, sample_every }
    }

    /// Counts a call of path `path_id` that took `duration_us`, unless the
    /// sampling skips it or there is no such path.
    pub fn record_path(&mut self, path_id: usize, duration_us: u64)
        requires
            old(self).wf(),
        ensures
            final(self).wf(),
            final(self).path_names == old(self).path_names,
            final(self).sample_every == old(self).sample_every,
            final(self).sample_counter == (if old(self).sample_every > 1 {
                wrapping_plus(old(self).sample_counter, 1)
            } else {
                old(self).sample_counter
            }),
            ({
                let counted = (old(self).sample_every <= 1 || old(self).sample_counter % old(self).sample_every == 0)
                    && path_id < old(self).path_names@.len();
                &&& counted ==> final(self).call_counts@ == old(self).call_counts@.update(
                    path_id as int,
                    wrapping_plus(old(self).call_counts@[path_id as int], 1),
                ) && final(self).total_durations_us@ == old(self).total_durations_us@.update(
                    path_id as int,
                    wrapping_plus(old(self).total_durations_us@[path_id as int], duration_us),
                )
                &&& !counted ==> final(self).call_counts == old(self).call_counts
                    && final(self).total_durations_us == old(self).total_durations_us
            }),
    {
        if self.sample_every > 1 {
            let sample = self.sample_counter;
            self.sample_counter = wrap_add(self.sample_counter, 1);
            if sample % self.sample_every != 0 {
                return;
            }
        }
        if path_id < self.call_counts.len() {
            let c = wrap_add(self.call_counts[path_id], 1);
            self.call_counts.set(path_id, c);
            let t = wrap_add(self.total_durations_us[path_id], duration_us);
            self.total_durations_us.set(path_id, t);
        }
    }

    /// The paths called at least once, most total time first (ties in path order).
    pub fn get_hotspot_report(&self) -> (r: Vec<HotspotPathInfo>)
        requires
            self.wf(),
        ensures
            is_hotspot_report(*self, r@),
    {
        let mut r: Vec<HotspotPathInfo> = Vec::new();
        let mut p: usize = 0;
        while p < self.path_names.len()
            invariant
                self.wf(),
                p <= self.path_names@.len(),
                forall|i: int|
                    0 <= i < r@.len() ==> {
                        let e = #[trigger] r@[i];
                        &&& e.path_id < p
                        &&& self.call_counts@[e.path_id as int] > 0
                        &&& e.call_count == self.call_counts@[e.path_id as int]
                        &&& e.total_duration_us == self.total_durations_us@[e.path_id as int]
                        &&& e.name@ == self.path_names@[e.path_id as int]@
                    },
                forall|q: int|
                    0 <= q < p && self.call_counts@[q] > 0 ==> exists|i: int|
                        0 <= i < r@.len() && (#[trigger] r@[i]).path_id == q,
                forall|i: int, j: int| 0 <= i < j < r@.len() ==> ranks_before(#[trigger] r@[i], #[trigger] r@[j]),
            decreases self.path_names@.len() - p,
        {
            let calls = self.call_counts[p];
            if calls > 0 {
                let t = self.total_durations_us[p];
                let mut k: usize = 0;
                while k < r.len() && r[k].total_duration_us >= t
                    invariant
                        k <= r@.len(),
                        forall|i: int| 0 <= i < k ==> (#[trigger] r@[i]).total_duration_us >= t,
                    decreases r@.len() - k,
                {
                    k = k + 1;
                }
                let info = HotspotPathInfo {
                    path_id: p,
                    name: self.path_names[p].clone(),
                    call_count: calls,
                    total_duration_us: t,
                };
                let ghost old_r = r@;
                r.insert(k, info);
                proof {
                    assert forall|i: int| 0 <= i < r@.len() implies {
                        let e = #[trigger] r@[i];
                        &&& e.path_id < p + 1
                        &&& self.call_counts@[e.path_id as int] > 0
                        &&& e.call_count == self.call_counts@[e.path_id as int]
                        &&& e.total_duration_us == self.total_durations_us@[e.path_id as int]
                        &&& e.name@ == self.path_names@[e.path_id as int]@
                    } by {
                        if i < k {
                            assert(r@[i] == old_r[i]);
                        } else if i > k {
                            assert(r@[i] == old_r[i - 1]);
                        }
                    }
                    assert forall|q: int| 0 <= q < p + 1 && self.call_counts@[q] > 0 implies exists|i: int|
                        0 <= i < r@.len() && (#[trigger] r@[i]).path_id == q by {
                        if q == p {
                            assert(r@[k as int].path_id == q);
                        } else {
                            let i0 = choose|i: int| 0 <= i < old_r.len() && (#[trigger] old_r[i]).path_id == q;
                            if i0 < k {
                                assert(r@[i0] == old_r[i0]);
                            } else {
                                assert(r@[i0 + 1] == old_r[i0]);
                            }
                        }
                    }
                    if k < old_r.len() {
                        assert(old_r[k as int].total_duration_us < t);
                    }
                    assert forall|i: int, j: int| 0 <= i < j < r@.len() implies ranks_before(
                        #[trigger] r@[i],
                        #[trigger] r@[j],
                    ) by {
                        if j < k {
                            assert(r@[i] == old_r[i] && r@[j] == old_r[j]);
                        } else if j == k {
                            assert(r@[i] == old_r[i]);
                        } else if i == k {
                            assert(r@[j] == old_r[j - 1]);
                            assert(ranks_before(old_r[k as int], old_r[j - 1]) || j - 1 == k);
                        } else if i < k {
                            assert(r@[i] == old_r[i] && r@[j] == old_r[j - 1]);
                        } else {
                            assert(r@[i] == old_r[i - 1] && r@[j] == old_r[j - 1]);
                        }
                    }
                }
            }
            p = p + 1;
        }
        r
    }

    /// The first `n` entries of the report.
    pub fn get_top_hotspots(&self, n: usize) -> (r: Vec<HotspotPathInfo>)
        requires
            self.wf(),
        ensures
            exists|full: Seq<HotspotPathInfo>|
                is_hotspot_report(*self, full) && r@ == full.subrange(0, if n < full.len() { n as int } else { full.len() as int }),
    {
        let mut full = self.get_hotspot_report();
        let ghost fv = full@;
        if n < full.len() {
            full.truncate(n);
        }
        assert(full@ == fv.subrange(0, if n < fv.len() { n as int } else { fv.len() as int }));
        full
    }
}

/// Which optimizations run; hotspot analysis counts every
/// `hotspot_sample_every`-th call.
#[derive(Debug, Clone, Copy, PartialEq, Eq, Structural)]
pub struct P99ConsolidationConfig {
    pub enable_hotspot_analysis: bool,
    pub enable_memory_optimization: bool,
    pub enable_lock_optimization: bool,
    pub enable_branch_optimization: bool,
    pub hotspot_sample_every: u64,
    pub memory_alignment: usize,
}

impl Default for P99ConsolidationConfig {
    fn default() -> (c: Self)
        ensures
            c == (P99ConsolidationConfig {
                enable_hotspot_analysis: true,
                enable_memory_optimization: true,
                enable_lock_optimization: true,
                enable_branch_optimization: false,
                hotspot_sample_every: 10,
                memory_alignment: 64,
            }),
    {
        P99ConsolidationConfig {
            enable_hotspot_analysis: true,
            enable_memory_optimization: true,
            enable_lock_optimization: true,
            enable_branch_optimization: false,
            hotspot_sample_every: 10,
            memory_alignment: 64,
        }
    }
}

/// The tail latency before and after, and the gain in milliseconds and in
/// hundredths of a percent of the latency before (rounded down).
#[derive(Debug, Clone, Copy, PartialEq, Eq, Structural)]
pub struct OptimizationEffect {
    pub before_p99_ms: u64,
    pub after_p99_ms: u64,
    pub improvement_ms: u64,
    pub improvement_hundredths_percent: u64,
}

/// Memory statistics.
#[derive(Debug, Clone, Copy, PartialEq, Eq, Structural)]
pub struct MemoryStats {
    pub cache_miss_per_mille: u128,
    pub alignment: usize,
    pub prefetch_distance: usize,
}

/// The paths whose time the consolidation tracks.
pub open spec fn tracked_paths() -> Seq<Seq<char>> {
    seq!["instruction_execute"@, "verification_check"@, "cache_lookup"@, "lock_acquire"@, "memory_allocate"@]
}

/// Tail-latency consolidation: the enabled optimizers and the latency before and after.
pub struct P99ConsolidationOptimizer {
    pub config: P99ConsolidationConfig,
    pub hotspot_analyzer: Option<HotspotAnalyzer>,
    pub memory_optimizer: Option<MemoryAccessOptimizer>,
    pub lock_optimizer: Option<LockContentionOptimizer>,
    pub branch_optimizer: Option<BranchPredictionOptimizer>,
    pub before_p99_ms: u64,
    pub after_p99_ms: u64,
}

impl P99ConsolidationOptimizer {
    pub open spec fn wf(&self) -> bool {
        self.hotspot_analyzer matches Some(h) ==> h.wf()
    }

    pub fn new(config: P99ConsolidationConfig) -> (o: Self)
        ensures
            o.wf(),
            o.config == config,
            o.hotspot_analyzer is Some <==> config.enable_hotspot_analysis,
            o.hotspot_analyzer matches Some(h) ==> h.path_names@.map_values(|s: String| s@) == tracked_paths()
                && h.sample_every == config.hotspot_sample_every,
            o.memory_optimizer is Some <==> config.enable_memory_optimization,
            o.memory_optimizer matches Some(m) ==> m.prefetch_distance == 8 && m.alignment == config.memory_alignment
                && m.cache_miss_count == 0 && m.access_count == 0,
            o.lock_optimizer is Some <==> config.enable_lock_optimization,
            o.lock_optimizer matches Some(l) ==> l.spin_limit == 100 && l.lock_success_count == 0 && l.lock_wait_count
                == 0 && l.total_wait_time_us == 0,
            o.branch_optimizer is Some <==> config.enable_branch_optimization,
            o.branch_optimizer matches Some(b) ==> b.hot_branch_threshold == 1000 && b.total_branches == 0
                && b.mispredict_count == 0,
            o.before_p99_ms == 0,
            o.after_p99_ms == 0,
    {
        let hotspot_analyzer = if config.enable_hotspot_analysis {
            let mut names: Vec<String> = Vec::new();
            names.push("instruction_execute".to_string());
            names.push("verification_check".to_string());
            names.push("cache_lookup".to_string());
            names.push("lock_acquire".to_string());
            names.push("memory_allocate".to_string());
            assert(names@.map_values(|s: String| s@) =~= tracked_paths());
            Some(HotspotAnalyzer::new(names, config.hotspot_sample_every))
        } else {
            None
        };
        let memory_optimizer = if config.enable_memory_optimization {
            Some(MemoryAccessOptimizer::new(8, config.memory_alignment))
        } else {
            None
        };
        let lock_optimizer = if config.enable_lock_optimization {
            Some(LockContentionOptimizer::new(100))
        } else {
            None
        };
        let branch_optimizer = if config.enable_branch_optimization {
            Some(BranchPredictionOptimizer::new(1000))
        } else {
            None
        };
        P99ConsolidationOptimizer {
            config,
            hotspot_analyzer,
            memory_optimizer,
            lock_optimizer,
            branch_optimizer,
            before_p99_ms: 0,
            after_p99_ms: 0,
        }
    }

    pub fn record_before_p99(&mut self, p99_ms: u64)
        ensures
            *final(self) == (P99ConsolidationOptimizer { before_p99_ms: p99_ms, ..*old(self) }),
    {
        self.before_p99_ms = p99_ms;
    }

    pub fn record_after_p99(&mut self, p99_ms: u64)
        ensures
            *final(self) == (P99ConsolidationOptimizer { after_p99_ms: p99_ms, ..*old(self) }),
    {
        self.after_p99_ms = p99_ms;
    }

    /// The gain from the latency before to the latency after (none when it got worse).
    pub fn get_optimization_effect(&self) -> (e: OptimizationEffect)
        ensures
            e.before_p99_ms == self.before_p99_ms,
            e.after_p99_ms == self.after_p99_ms,
            e.improvement_ms == (if self.before_p99_ms > self.after_p99_ms {
                self.before_p99_ms - self.after_p99_ms
            } else {
                0
            }),
            e.improvement_hundredths_percent == (if self.before_p99_ms > 0 {
                e.improvement_ms * 10000 / (self.before_p99_ms as int)
            } else {
                0
            }),
    {
        let before = self.before_p99_ms;
        let after = self.after_p99_ms;
        let improvement_ms = if before > after { before - after } else { 0 };
        let hundredths = if before > 0 {
            ((improvement_ms as u128) * 10000 / (before as u128)) as u64
        } else {
            0
        };
        proof {
            if before > 0 {
                assert(improvement_ms * 10000 / (before as int) <= 10000) by (nonlinear_arith)
                    requires
                        improvement_ms <= before,
                        before > 0,
                ;
            }
        }
        OptimizationEffect { before_p99_ms: before, after_p99_ms: after, improvement_ms, improvement_hundredths_percent: hundredths }
    }

    /// The top five hotspots, when hotspot analysis runs.
    pub fn get_hotspot_report(&self) -> (r: Option<Vec<HotspotPathInfo>>)
        requires
            self.wf(),
        ensures
            r is Some <==> self.hotspot_analyzer is Some,
            r matches Some(v) ==> exists|full: Seq<HotspotPathInfo>|
                is_hotspot_report(self.hotspot_analyzer->0, full) && v@ == full.subrange(
                    0,
                    if 5 < full.len() { 5 } else { full.len() as int },
                ),
    {
        match &self.hotspot_analyzer {
            Some(a) => Some(a.get_top_hotspots(5)),
            None => None,
        }
    }

    pub fn get_memory_stats(&self) -> (r: Option<MemoryStats>)
        ensures
            r is Some <==> self.memory_optimizer is Some,
            r matches Some(s) ==> s.cache_miss_per_mille == per_mille(
                self.memory_optimizer->0.cache_miss_count,
                self.memory_optimizer->0.access_count,
            ) && s.alignment == self.memory_optimizer->0.alignment && s.prefetch_distance
                == self.memory_optimizer->0.prefetch_distance,
    {
        match &self.memory_optimizer {
            Some(m) => Some(
                MemoryStats {
                    cache_miss_per_mille: m.get_cache_miss_rate_per_mille(),
                    alignment: m.alignment,
                    prefetch_distance: m.prefetch_distance,
                },
            ),
            None => None,
        }
    }

    pub fn get_lock_stats(&self) -> (r: Option<LockContentionStats>)
        ensures
            r is Some <==> self.lock_optimizer is Some,
            r matches Some(s) ==> s.success_count == self.lock_optimizer->0.lock_success_count && s.wait_count
                == self.lock_optimizer->0.lock_wait_count && s.total_wait_time_us
                == self.lock_optimizer->0.total_wait_time_us,
    {
        match &self.lock_optimizer {
            Some(l) => Some(l.get_contention_stats()),
            None => None,
        }
    }

    pub fn get_branch_stats(&self) -> (r: Option<BranchStats>)
        ensures
            r is Some <==> self.branch_optimizer is Some,
            r matches Some(s) ==> s.total_branches == self.branch_optimizer->0.total_branches && s.mispredict_count
                == self.branch_optimizer->0.mispredict_count,
    {
        match &self.branch_optimizer {
            Some(b) => Some(b.get_branch_stats()),
            None => None,
        }
    }
}

} // verus!
