//! Classifies execution paths as deterministic or as non-deterministic by
//! cause (timing, concurrency, external calls, resource contention), keeps
//! false-positive statistics, and widens its timing window when they run high.

use vstd::prelude::*;
use crate::text::{cat, decimal, decimal_string, owned, str_eq, substring};
use crate::security::threat_detection_impl::lookup;

verus! {

/// Settings: the lock-detection sensitivity and the false-positive target
/// in thousandths, and the timing window in milliseconds.
#[derive(Debug, Clone, Copy, PartialEq, Eq, Structural)]
pub struct ScannerOptimizerConfig {
    pub lock_detection_sensitivity_per_mille: u64,
    pub time_window_ms: u64,
    pub false_positive_target_per_mille: u64,
    pub adaptive_optimization: bool,
}

impl Default for ScannerOptimizerConfig {
    /// Sensitivity 0.7, a 50 ms window, a 2% false-positive target, adaptive.
    fn default() -> (c: Self)
        ensures
            c == (ScannerOptimizerConfig {
                lock_detection_sensitivity_per_mille: 700,
                time_window_ms: 50,
                false_positive_target_per_mille: 20,
                adaptive_optimization: true,
            }),
    {
        ScannerOptimizerConfig {
            lock_detection_sensitivity_per_mille: 700,
            time_window_ms: 50,
            false_positive_target_per_mille: 20,
            adaptive_optimization: true,
        }
    }
}

/// What makes a path deterministic or not.
#[derive(Debug, Clone, Copy, PartialEq, Eq, Structural)]
pub enum PathType {
    Deterministic,
    NonDeterministicConcurrency,
    NonDeterministicTiming,
    NonDeterministicExternal,
    NonDeterministicResource,
}

/// A kind of lock.
#[derive(Debug, Clone, Copy, PartialEq, Eq, Structural)]
pub enum LockType {
    Mutex,
    RwLock,
    SpinLock,
    LockFree,
}

/// How much a lock covers.
#[derive(Debug, Clone, Copy, PartialEq, Eq, Structural)]
pub enum LockGranularity {
    Coarse,
    Medium,
    Fine,
}

/// The lock held over a path and the resources it protects.
pub struct LockInfo {
    pub lock_id: String,
    pub lock_type: LockType,
    pub granularity: LockGranularity,
    pub protected_resources: Vec<String>,
}

/// A kind of operation.
#[derive(Debug, Clone, Copy, PartialEq, Eq, Structural)]
pub enum OperationType {
    Read,
    Write,
    ExternalCall,
    Other,
}

/// One operation on a path, at `timestamp` milliseconds.
pub struct Operation {
    pub id: String,
    pub operation_type: OperationType,
    pub resource: String,
    pub timestamp: u64,
    pub is_shared: bool,
    pub lock_id: Option<String>,
}

/// A path through the program: its operations in order and its lock.
pub struct ExecutionPath {
    pub id: String,
    pub operations: Vec<Operation>,
    pub lock_info: Option<LockInfo>,
}

/// The verdict on a path; confidence and false-positive risk in thousandths.
pub struct ScanResult {
    pub path_id: String,
    pub path_type: PathType,
    pub is_deterministic: bool,
    pub confidence_per_mille: u64,
    pub false_positive_risk_per_mille: u64,
    pub optimization_suggestions: Vec<String>,
}

/// Counters of the scanner; rates in thousandths.
pub struct ScannerOptimizerStats {
    pub total_detections: u64,
    pub true_positives: u64,
    pub false_positives: u64,
    pub false_positive_rate_per_mille: u64,
    pub cache_size: usize,
    pub target_false_positive_rate_per_mille: u64,
}

/// The position of the first ':' at or after `i`, or -1.
pub open spec fn first_colon(r: Seq<char>, i: int) -> int
    decreases r.len() - i,
{
    if i < 0 || i >= r.len() {
        -1
    } else if r[i] == ':' {
        i
    } else {
        first_colon(r, i + 1)
    }
}

/// The part of a resource name before its first ':' (all of it if none).
pub open spec fn resource_type(r: Seq<char>) -> Seq<char> {
    let k = first_colon(r, 0);
    if k < 0 {
        r
    } else {
        r.subrange(0, k)
    }
}

pub open spec fn op_resources(ops: Seq<Operation>) -> Seq<Seq<char>> {
    ops.map_values(|o: Operation| o.resource@)
}

/// The lock covers the path: a fine lock protects a resource the path
/// uses, a medium one a resource of a type the path uses, a coarse one all.
pub open spec fn lock_protects(l: LockInfo, ops: Seq<Operation>) -> bool {
    match l.granularity {
        LockGranularity::Fine => exists|a: int, b: int|
            0 <= a < l.protected_resources@.len() && 0 <= b < ops.len() && #[trigger] ops[b].resource@
                == #[trigger] l.protected_resources@[a]@,
        LockGranularity::Medium => exists|a: int, b: int|
            0 <= a < l.protected_resources@.len() && 0 <= b < ops.len() && resource_type(#[trigger] ops[b].resource@)
                == resource_type(#[trigger] l.protected_resources@[a]@),
        LockGranularity::Coarse => true,
    }
}

/// Some operation follows the one before it within the window.
pub open spec fn timing_dependency(ops: Seq<Operation>, window: u64) -> bool {
    exists|i: int| 0 <= i && i + 1 < ops.len() && #[trigger] ops[i].timestamp + window >= ops[i + 1].timestamp
}

/// The path from first to last operation fits in the window.
pub open spec fn within_window(ops: Seq<Operation>, window: u64) -> bool {
    ops.len() >= 2 && ops.last().timestamp - ops[0].timestamp <= window
}

pub open spec fn concurrency_race(ops: Seq<Operation>) -> bool {
    exists|i: int| 0 <= i < ops.len() && (#[trigger] ops[i]).is_shared && ops[i].lock_id is None
}

pub open spec fn external_dependency(ops: Seq<Operation>) -> bool {
    exists|i: int| 0 <= i < ops.len() && (#[trigger] ops[i]).operation_type == OperationType::ExternalCall
}

pub open spec fn resource_contention(ops: Seq<Operation>) -> bool {
    exists|i: int, j: int| 0 <= i < j < ops.len() && #[trigger] ops[i].resource@ == #[trigger] ops[j].resource@
}

/// The kind of a path: protected by its lock, else by timing (a dependency
/// whose whole span exceeds the window counts as deterministic), then
/// concurrency, external calls and contention, else deterministic.
pub open spec fn classify(path: ExecutionPath, window: u64) -> PathType {
    let ops = path.operations@;
    if path.lock_info matches Some(l) && lock_protects(l, ops) {
        PathType::Deterministic
    } else if timing_dependency(ops, window) {
        if !within_window(ops, window) {
            PathType::Deterministic
        } else {
            PathType::NonDeterministicTiming
        }
    } else if concurrency_race(ops) {
        PathType::NonDeterministicConcurrency
    } else if external_dependency(ops) {
        PathType::NonDeterministicExternal
    } else if resource_contention(ops) {
        PathType::NonDeterministicResource
    } else {
        PathType::Deterministic
    }
}

/// How sure the verdict is, in thousandths.
pub open spec fn confidence(t: PathType, path: ExecutionPath, window: u64) -> u64 {
    match t {
        PathType::Deterministic => 990,
        PathType::NonDeterministicConcurrency => if path.lock_info is Some { 800 } else { 950 },
        PathType::NonDeterministicTiming => {
            let ops = path.operations@;
            if ops.last().timestamp - ops[0].timestamp < window / 2 { 900 } else { 700 }
        },
        PathType::NonDeterministicExternal => 850,
        PathType::NonDeterministicResource => 800,
    }
}

/// How likely the verdict is a false positive, in thousandths.
pub open spec fn false_positive_risk(t: PathType) -> u64 {
    match t {
        PathType::Deterministic => 0,
        PathType::NonDeterministicConcurrency => 150,
        PathType::NonDeterministicTiming => 250,
        PathType::NonDeterministicExternal => 100,
        PathType::NonDeterministicResource => 200,
    }
}

/// What to do about a path of this kind.
pub open spec fn suggestions(t: PathType, window: u64) -> Seq<Seq<char>> {
    match t {
        PathType::NonDeterministicConcurrency => seq![
            "Consider adding lock protection for shared resource access"@,
            "Use atomic operations if applicable"@,
        ],
        PathType::NonDeterministicTiming => seq![
            "Increase time window from "@ + decimal(window as nat) + "ms to "@ + decimal((window * 2) as nat) + "ms"@,
            "Add explicit synchronization if ordering is required"@,
        ],
        PathType::NonDeterministicExternal => seq![
            "Add retry logic for external calls"@,
            "Implement circuit breaker pattern"@,
        ],
        PathType::NonDeterministicResource => seq![
            "Use resource pooling to reduce contention"@,
            "Consider using read-write locks"@,
        ],
        PathType::Deterministic => Seq::empty(),
    }
}

pub open spec fn texts(v: Seq<String>) -> Seq<Seq<char>> {
    v.map_values(|s: String| s@)
}

/// A scan is well defined: timestamps do not go back over a timed path.
pub open spec fn scannable(path: ExecutionPath, window: u64) -> bool {
    timing_dependency(path.operations@, window) ==> path.operations@[0].timestamp <= path.operations@.last().timestamp
}

} // verus!

verus! {

/// The part of a resource name before its first ':'.
pub fn resource_type_of(r: &str) -> (t: String)
    ensures
        t@ == resource_type(r@),
{
    let n = r.unicode_len();
    let mut i: usize = 0;
    while i < n
        invariant
            n == r@.len(),
            i <= n,
            first_colon(r@, 0) == first_colon(r@, i as int),
        decreases n - i,
    {
        if r.get_char(i) == ':' {
            return substring(r, 0, i);
        }
        i = i + 1;
    }
    assert(r@.subrange(0, n as int) =~= r@);
    substring(r, 0, n)
}

fn is_lock_protected(l: &LockInfo, ops: &Vec<Operation>) -> (b: bool)
    ensures
        b == lock_protects(*l, ops@),
{
    match l.granularity {
        LockGranularity::Coarse => true,
        LockGranularity::Fine => {
            let mut a: usize = 0;
            while a < l.protected_resources.len()
                invariant
                    a <= l.protected_resources@.len(),
                    l.granularity == LockGranularity::Fine,
                    forall|x: int, y: int|
                        0 <= x < a && 0 <= y < ops@.len() ==> #[trigger] ops@[y].resource@
                            != #[trigger] l.protected_resources@[x]@,
                decreases l.protected_resources@.len() - a,
            {
                let mut b: usize = 0;
                while b < ops.len()
                    invariant
                        a < l.protected_resources@.len(),
                        l.granularity == LockGranularity::Fine,
                        b <= ops@.len(),
                        forall|y: int| 0 <= y < b ==> #[trigger] ops@[y].resource@ != l.protected_resources@[a as int]@,
                    decreases ops@.len() - b,
                {
                    if str_eq(ops[b].resource.as_str(), l.protected_resources[a].as_str()) {
                        return true;
                    }
                    b = b + 1;
                }
                a = a + 1;
            }
            false
        },
        LockGranularity::Medium => {
            let mut a: usize = 0;
            while a < l.protected_resources.len()
                invariant
                    a <= l.protected_resources@.len(),
                    l.granularity == LockGranularity::Medium,
                    forall|x: int, y: int|
                        0 <= x < a && 0 <= y < ops@.len() ==> resource_type(#[trigger] ops@[y].resource@)
                            != resource_type(#[trigger] l.protected_resources@[x]@),
                decreases l.protected_resources@.len() - a,
            {
                let rt = resource_type_of(l.protected_resources[a].as_str());
                let mut b: usize = 0;
                while b < ops.len()
                    invariant
                        a < l.protected_resources@.len(),
                        l.granularity == LockGranularity::Medium,
                        b <= ops@.len(),
                        rt@ == resource_type(l.protected_resources@[a as int]@),
                        forall|y: int|
                            0 <= y < b ==> resource_type(#[trigger] ops@[y].resource@) != resource_type(
                                l.protected_resources@[a as int]@,
                            ),
                    decreases ops@.len() - b,
                {
                    let ot = resource_type_of(ops[b].resource.as_str());
                    if str_eq(ot.as_str(), rt.as_str()) {
                        assert(resource_type(ops@[b as int].resource@) == resource_type(l.protected_resources@[a as int]@));
                        return true;
                    }
                    b = b + 1;
                }
                a = a + 1;
            }
            false
        },
    }
}

fn has_timing_dependency(ops: &Vec<Operation>, window: u64) -> (b: bool)
    ensures
        b == timing_dependency(ops@, window),
{
    let mut i: usize = 0;
    while i < ops.len() && ops.len() - i > 1
        invariant
            i <= ops@.len(),
            forall|j: int| 0 <= j < i && j + 1 < ops@.len() ==> !(#[trigger] ops@[j].timestamp + window >= ops@[j + 1].timestamp),
        decreases ops@.len() - i,
    {
        if ops[i].timestamp as u128 + window as u128 >= ops[i + 1].timestamp as u128 {
            return true;
        }
        i = i + 1;
    }
    false
}

fn has_concurrency_race(ops: &Vec<Operation>) -> (b: bool)
    ensures
        b == concurrency_race(ops@),
{
    let mut i: usize = 0;
    while i < ops.len()
        invariant
            i <= ops@.len(),
            forall|j: int| 0 <= j < i ==> !((#[trigger] ops@[j]).is_shared && ops@[j].lock_id is None),
        decreases ops@.len() - i,
    {
        if ops[i].is_shared && ops[i].lock_id.is_none() {
            return true;
        }
        i = i + 1;
    }
    false
}

fn has_external_dependency(ops: &Vec<Operation>) -> (b: bool)
    ensures
        b == external_dependency(ops@),
{
    let mut i: usize = 0;
    while i < ops.len()
        invariant
            i <= ops@.len(),
            forall|j: int| 0 <= j < i ==> (#[trigger] ops@[j]).operation_type != OperationType::ExternalCall,
        decreases ops@.len() - i,
    {
        if ops[i].operation_type == OperationType::ExternalCall {
            return true;
        }
        i = i + 1;
    }
    false
}

fn has_resource_contention(ops: &Vec<Operation>) -> (b: bool)
    ensures
        b == resource_contention(ops@),
{
    let mut j: usize = 0;
    while j < ops.len()
        invariant
            j <= ops@.len(),
            forall|x: int, y: int| 0 <= x < y < j ==> #[trigger] ops@[x].resource@ != #[trigger] ops@[y].resource@,
        decreases ops@.len() - j,
    {
        let mut i: usize = 0;
        while i < j
            invariant
                i <= j < ops@.len(),
                forall|x: int| 0 <= x < i ==> #[trigger] ops@[x].resource@ != ops@[j as int].resource@,
            decreases j - i,
        {
            if str_eq(ops[i].resource.as_str(), ops[j].resource.as_str()) {
                return true;
            }
            i = i + 1;
        }
        j = j + 1;
    }
    false
}

fn suggestion_texts(t: PathType, window: u64) -> (v: Vec<String>)
    requires
        window * 2 <= u64::MAX,
    ensures
        texts(v@) == suggestions(t, window),
{
    let v: Vec<String> = match t {
        PathType::NonDeterministicConcurrency => vec![
            owned("Consider adding lock protection for shared resource access"),
            owned("Use atomic operations if applicable"),
        ],
        PathType::NonDeterministicTiming => {
            let a = cat("Increase time window from ", decimal_string(window).as_str());
            let b = cat(a.as_str(), "ms to ");
            let c = cat(b.as_str(), decimal_string(window * 2).as_str());
            vec![cat(c.as_str(), "ms"), owned("Add explicit synchronization if ordering is required")]
        },
        PathType::NonDeterministicExternal => vec![
            owned("Add retry logic for external calls"),
            owned("Implement circuit breaker pattern"),
        ],
        PathType::NonDeterministicResource => vec![
            owned("Use resource pooling to reduce contention"),
            owned("Consider using read-write locks"),
        ],
        PathType::Deterministic => Vec::new(),
    };
    assert(texts(v@) =~= suggestions(t, window));
    v
}

pub open spec fn cache_view(c: Seq<(String, PathType)>) -> Seq<(Seq<char>, PathType)> {
    c.map_values(|p: (String, PathType)| (p.0@, p.1))
}

/// The scanner with its settings, counters and the kinds of paths seen.
pub struct ScannerOptimizer {
    pub config: ScannerOptimizerConfig,
    pub false_positives: u64,
    pub true_positives: u64,
    pub total_detections: u64,
    pub path_type_cache: Vec<(String, PathType)>,
}

/// The false-positive share of non-deterministic verdicts, in thousandths
/// rounded down; 0 before any.
pub open spec fn fp_rate(fp: u64, tp: u64) -> int {
    if fp + tp == 0 {
        0
    } else {
        (fp * 1000) / (fp + tp)
    }
}

impl ScannerOptimizer {
    /// A scanner with nothing counted or cached.
    pub fn new(config: ScannerOptimizerConfig) -> (s: Self)
        ensures
            s.config == config,
            s.false_positives == 0,
            s.true_positives == 0,
            s.total_detections == 0,
            s.path_type_cache@.len() == 0,
    {
        ScannerOptimizer { config, false_positives: 0, true_positives: 0, total_detections: 0, path_type_cache: Vec::new() }
    }

    /// The kind of a path.
    pub fn analyze_path(&self, path: &ExecutionPath) -> (t: PathType)
        requires
            scannable(*path, self.config.time_window_ms),
        ensures
            t == classify(*path, self.config.time_window_ms),
    {
        let window = self.config.time_window_ms;
        match &path.lock_info {
            Some(l) => {
                if is_lock_protected(l, &path.operations) {
                    return PathType::Deterministic;
                }
            },
            None => {},
        }
        if has_timing_dependency(&path.operations, window) {
            let n = path.operations.len();
            let within = n >= 2 && path.operations[n - 1].timestamp - path.operations[0].timestamp <= window;
            if !within {
                return PathType::Deterministic;
            }
            return PathType::NonDeterministicTiming;
        }
        if has_concurrency_race(&path.operations) {
            return PathType::NonDeterministicConcurrency;
        }
        if has_external_dependency(&path.operations) {
            return PathType::NonDeterministicExternal;
        }
        if has_resource_contention(&path.operations) {
            return PathType::NonDeterministicResource;
        }
        PathType::Deterministic
    }

    fn cached_type(&self, id: &str) -> (r: Option<PathType>)
        ensures
            r == lookup(cache_view(self.path_type_cache@), id@),
    {
        let ghost cv = cache_view(self.path_type_cache@);
        assert(cv.subrange(0, cv.len() as int) =~= cv);
        let mut i: usize = 0;
        while i < self.path_type_cache.len()
            invariant
                i <= self.path_type_cache@.len(),
                cv == cache_view(self.path_type_cache@),
                lookup(cv, id@) == lookup(cv.subrange(i as int, cv.len() as int), id@),
            decreases self.path_type_cache@.len() - i,
        {
            if str_eq(self.path_type_cache[i].0.as_str(), id) {
                assert(cv.subrange(i as int, cv.len() as int)[0] == cv[i as int]);
                return Some(self.path_type_cache[i].1);
            }
            assert(cv.subrange(i as int, cv.len() as int).drop_first() =~= cv.subrange(i + 1, cv.len() as int));
            i = i + 1;
        }
        assert(cv.subrange(i as int, cv.len() as int).len() == 0);
        None
    }

    /// Scans a path: a path id seen before keeps its kind (with confidence
    /// 0.95); otherwise the path is classified and its kind remembered. A
    /// non-deterministic verdict counts as a true positive when its risk is
    /// below the false-positive target, else as a false positive.
    pub fn scan_path(&mut self, path: &ExecutionPath) -> (r: ScanResult)
        requires
            scannable(*path, old(self).config.time_window_ms),
            old(self).config.time_window_ms * 2 <= u64::MAX,
            old(self).total_detections < u64::MAX,
            old(self).true_positives < u64::MAX,
            old(self).false_positives < u64::MAX,
        ensures
            final(self).config == old(self).config,
            final(self).total_detections == old(self).total_detections + 1,
            ({
                let w = old(self).config.time_window_ms;
                let cached = lookup(cache_view(old(self).path_type_cache@), path.id@);
                let t = match cached {
                    Some(c) => c,
                    None => classify(*path, w),
                };
                let risk = false_positive_risk(t);
                let nd = t != PathType::Deterministic;
                &&& r.path_id@ == path.id@
                &&& r.path_type == t
                &&& r.is_deterministic == !nd
                &&& r.confidence_per_mille == (if cached is Some { 950 } else { confidence(t, *path, w) })
                &&& r.false_positive_risk_per_mille == risk
                &&& texts(r.optimization_suggestions@) == suggestions(t, w)
                &&& cache_view(final(self).path_type_cache@) == (if cached is Some {
                    cache_view(old(self).path_type_cache@)
                } else {
                    cache_view(old(self).path_type_cache@).push((path.id@, t))
                })
                &&& final(self).true_positives == old(self).true_positives + (if nd && risk
                    < old(self).config.false_positive_target_per_mille { 1int } else { 0 })
                &&& final(self).false_positives == old(self).false_positives + (if nd && risk
                    >= old(self).config.false_positive_target_per_mille { 1int } else { 0 })
            }),
    {
        self.total_detections = self.total_detections + 1;
        let window = self.config.time_window_ms;
        let (t, from_cache) = match self.cached_type(path.id.as_str()) {
            Some(c) => (c, true),
            None => {
                let t = self.analyze_path(path);
                let ghost before = self.path_type_cache@;
                self.path_type_cache.push((path.id.clone(), t));
                assert(cache_view(self.path_type_cache@) =~= cache_view(before).push((path.id@, t)));
                (t, false)
            },
        };
        let is_det = t == PathType::Deterministic;
        let conf: u64 = if from_cache {
            950
        } else {
            match t {
                PathType::Deterministic => 990,
                PathType::NonDeterministicConcurrency => if path.lock_info.is_some() { 800 } else { 950 },
                PathType::NonDeterministicTiming => {
                    let n = path.operations.len();
                    let span = path.operations[n - 1].timestamp - path.operations[0].timestamp;
                    if span < window / 2 { 900 } else { 700 }
                },
                PathType::NonDeterministicExternal => 850,
                PathType::NonDeterministicResource => 800,
            }
        };
        let risk: u64 = match t {
            PathType::Deterministic => 0,
            PathType::NonDeterministicConcurrency => 150,
            PathType::NonDeterministicTiming => 250,
            PathType::NonDeterministicExternal => 100,
            PathType::NonDeterministicResource => 200,
        };
        let suggestions = suggestion_texts(t, window);
        if !is_det {
            if risk < self.config.false_positive_target_per_mille {
                self.true_positives = self.true_positives + 1;
            } else {
                self.false_positives = self.false_positives + 1;
            }
        }
        ScanResult {
            path_id: path.id.clone(),
            path_type: t,
            is_deterministic: is_det,
            confidence_per_mille: conf,
            false_positive_risk_per_mille: risk,
            optimization_suggestions: suggestions,
        }
    }

    /// The false-positive share of non-deterministic verdicts, in thousandths.
    pub fn get_false_positive_rate_per_mille(&self) -> (r: u64)
        ensures
            r == (if self.total_detections == 0 { 0 } else { fp_rate(self.false_positives, self.true_positives) }),
    {
        if self.total_detections == 0 {
            return 0;
        }
        let nd: u128 = self.false_positives as u128 + self.true_positives as u128;
        if nd == 0 {
            0
        } else {
            let f = self.false_positives as u128;
            let r = f * 1000 / nd;
            assert(r <= 1000) by (nonlinear_arith)
                requires
                    r as int == (f * 1000) as int / (nd as int),
                    f <= nd,
                    nd > 0,
            ;
            r as u64
        }
    }

    /// The counters.
    pub fn get_stats(&self) -> (s: ScannerOptimizerStats)
        ensures
            s.total_detections == self.total_detections,
            s.true_positives == self.true_positives,
            s.false_positives == self.false_positives,
            s.false_positive_rate_per_mille == (if self.total_detections == 0 {
                0
            } else {
                fp_rate(self.false_positives, self.true_positives)
            }),
            s.cache_size == self.path_type_cache@.len(),
            s.target_false_positive_rate_per_mille == self.config.false_positive_target_per_mille,
    {
        ScannerOptimizerStats {
            total_detections: self.total_detections,
            true_positives: self.true_positives,
            false_positives: self.false_positives,
            false_positive_rate_per_mille: self.get_false_positive_rate_per_mille(),
            cache_size: self.path_type_cache.len(),
            target_false_positive_rate_per_mille: self.config.false_positive_target_per_mille,
        }
    }

    /// When adaptive and the false-positive share exceeds the target, widens
    /// the timing window by a fifth and lowers the sensitivity by a tenth
    /// (both rounded down).
    pub fn adaptive_optimize(&mut self)
        ensures
            ({
                let c = old(self).config;
                let fp = old(self).false_positives;
                let tp = old(self).true_positives;
                let over = c.adaptive_optimization && old(self).total_detections > 0 && fp + tp > 0 && fp * 1000
                    > c.false_positive_target_per_mille * (fp + tp);
                final(self).config == (if over {
                    ScannerOptimizerConfig {
                        time_window_ms: if c.time_window_ms * 6 / 5 > u64::MAX { u64::MAX } else { (c.time_window_ms * 6 / 5) as u64 },
                        lock_detection_sensitivity_per_mille: (c.lock_detection_sensitivity_per_mille * 9 / 10) as u64,
                        ..c
                    }
                } else {
                    c
                })
            }),
            final(self).false_positives == old(self).false_positives,
            final(self).true_positives == old(self).true_positives,
            final(self).total_detections == old(self).total_detections,
            final(self).path_type_cache@ == old(self).path_type_cache@,
    {
        if !self.config.adaptive_optimization || self.total_detections == 0 {
            return;
        }
        let fp = self.false_positives as u128;
        let nd: u128 = self.false_positives as u128 + self.true_positives as u128;
        if nd == 0 {
            return;
        }
        let target = self.config.false_positive_target_per_mille;
        if target >= 1000 {
            assert(fp * 1000 <= target * nd) by (nonlinear_arith)
                requires
                    fp <= nd,
                    target >= 1000,
            ;
            return;
        }
        assert(target as u128 * nd < 0x1_0000_0000_0000_0000_0000_0000) by (nonlinear_arith)
            requires
                target < 1000,
                nd <= 2 * 0xffff_ffff_ffff_ffffu128,
        ;
        if fp * 1000 > target as u128 * nd {
            let w = self.config.time_window_ms as u128;
            let grown = w * 6 / 5;
            self.config.time_window_ms = if grown > u64::MAX as u128 { u64::MAX } else { grown as u64 };
            let s = self.config.lock_detection_sensitivity_per_mille as u128;
            let lowered = s * 9 / 10;
            assert(lowered <= s) by (nonlinear_arith)
                requires
                    lowered as int == (s * 9) as int / 10,
            ;
            self.config.lock_detection_sensitivity_per_mille = lowered as u64;
        }
    }

    /// Forgets the kinds of paths seen.
    pub fn clear_cache(&mut self)
        ensures
            final(self).path_type_cache@.len() == 0,
            final(self).config == old(self).config,
            final(self).false_positives == old(self).false_positives,
            final(self).true_positives == old(self).true_positives,
            final(self).total_detections == old(self).total_detections,
    {
        self.path_type_cache = Vec::new();
    }
}

} // verus!
