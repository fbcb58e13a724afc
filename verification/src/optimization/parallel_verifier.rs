//! Batch verification of instructions against their expected SHA-256
//! hashes, chunked for parallel work, with a result cache keyed by
//! instruction id.

use vstd::prelude::*;
use vstd::utf8::encode_utf8;
use crate::bytes::{append_bytes, hex_lower, sha256, sha256_digest, to_hex_lower};
use crate::clock::unix_now_millis;
use crate::batch::now_rfc3339;
use crate::optimization::work_stealing_executor::{wrap_add, wrapping_plus};

verus! {

/// The outcome of verifying one instruction.
pub struct VerifyResult {
    pub instruction_id: String,
    pub verified: bool,
    pub recomputed_hash: String,
    pub timestamp: String,
    pub duration_ms: u64,
}

/// A verification outcome as plain values.
pub struct VerifyResultView {
    pub instruction_id: Seq<char>,
    pub verified: bool,
    pub recomputed_hash: Seq<char>,
    pub timestamp: Seq<char>,
    pub duration_ms: u64,
}

impl View for VerifyResult {
    type V = VerifyResultView;

    open spec fn view(&self) -> VerifyResultView {
        VerifyResultView {
            instruction_id: self.instruction_id@,
            verified: self.verified,
            recomputed_hash: self.recomputed_hash@,
            timestamp: self.timestamp@,
            duration_ms: self.duration_ms,
        }
    }
}

impl VerifyResult {
    /// A copy with the same fields.
    pub fn duplicate(&self) -> (r: VerifyResult)
        ensures
            r@ == self@,
    {
        VerifyResult {
            instruction_id: self.instruction_id.clone(),
            verified: self.verified,
            recomputed_hash: self.recomputed_hash.clone(),
            timestamp: self.timestamp.clone(),
            duration_ms: self.duration_ms,
        }
    }
}

/// A batch of instructions to verify.
pub struct BatchVerifyRequest {
    pub trace_id: String,
    pub batch_id: String,
    pub instructions: Vec<InstructionToVerify>,
    pub parallel: bool,
    pub chunk_size: usize,
}

/// One instruction: its id, its serialized bytes and the hash they should have.
pub struct InstructionToVerify {
    pub id: String,
    pub instruction_bytes: Vec<u8>,
    pub expected_hash: String,
}

/// The answer to a batch: one result per instruction and a hash over them.
pub struct BatchVerifyResponse {
    pub trace_id: String,
    pub batch_id: String,
    pub results: Vec<VerifyResult>,
    pub verify_hash: String,
    pub timestamp: String,
    pub total_duration_ms: u64,
    pub chunk_count: usize,
}

/// The vector instruction set used for hashing.
#[derive(Debug, Clone, Copy, PartialEq, Eq, Structural)]
pub enum SimdAcceleration {
    Avx2,
    Sse42,
    Scalar,
}

/// The level chosen for the CPU features found: AVX2 first, then SSE 4.2;
/// an ARM CPU counts as the AVX2 level.
pub open spec fn detected_level(avx2: bool, sse42: bool, aarch64: bool) -> SimdAcceleration {
    if avx2 {
        SimdAcceleration::Avx2
    } else if sse42 {
        SimdAcceleration::Sse42
    } else if aarch64 {
        SimdAcceleration::Avx2
    } else {
        SimdAcceleration::Scalar
    }
}

impl SimdAcceleration {
    /// The acceleration level for the CPU features the caller detected.
    pub fn detect(has_avx2: bool, has_sse42: bool, is_aarch64: bool) -> (s: SimdAcceleration)
        ensures
            s == detected_level(has_avx2, has_sse42, is_aarch64),
    {
        if has_avx2 {
            SimdAcceleration::Avx2
        } else if has_sse42 {
            SimdAcceleration::Sse42
        } else if is_aarch64 {
            SimdAcceleration::Avx2
        } else {
            SimdAcceleration::Scalar
        }
    }

    /// The estimated speedup: three times with AVX2, twice with SSE 4.2.
    pub fn speedup_factor(&self) -> (f: u64)
        ensures
            f == (match *self {
                SimdAcceleration::Avx2 => 3u64,
                SimdAcceleration::Sse42 => 2u64,
                SimdAcceleration::Scalar => 1u64,
            }),
    {
        match self {
            SimdAcceleration::Avx2 => 3,
            SimdAcceleration::Sse42 => 2,
            SimdAcceleration::Scalar => 1,
        }
    }
}

/// Settings of the verifier.
#[derive(Debug, Clone, Copy, PartialEq, Eq, Structural)]
pub struct ParallelVerifierConfig {
    pub num_workers: usize,
    pub chunk_size: usize,
    pub enable_cache: bool,
    pub simd_acceleration: SimdAcceleration,
    pub max_concurrent_verifications: usize,
}

impl ParallelVerifierConfig {
    /// The standard settings for a machine with `num_workers` CPUs and the
    /// given acceleration: chunks of 10, cache on, 100 concurrent checks.
    pub fn standard(num_workers: usize, simd_acceleration: SimdAcceleration) -> (c: Self)
        ensures
            c == (ParallelVerifierConfig {
                num_workers,
                chunk_size: 10,
                enable_cache: true,
                simd_acceleration,
                max_concurrent_verifications: 100,
            }),
    {
        ParallelVerifierConfig { num_workers, chunk_size: 10, enable_cache: true, simd_acceleration, max_concurrent_verifications: 100 }
    }
}

/// Counters of the verifier.
#[derive(Debug, Clone, Copy, PartialEq, Eq, Structural)]
pub struct VerifierStats {
    pub instructions_verified: u64,
    pub cache_hits: u64,
    pub cache_misses: u64,
    pub simd_accelerated_count: u64,
    pub parallel_verification_count: u64,
    pub sequential_verification_count: u64,
}

/// `num / (num + other)` in thousandths, rounded down; zero when both are zero.
pub open spec fn share_per_mille(num: u64, other: u64) -> int {
    if num + other == 0 {
        0
    } else {
        (num * 1000) / (num + other)
    }
}

/// `num / den` in thousandths, rounded down; zero when `den` is zero.
pub open spec fn ratio_per_mille(num: u64, den: u64) -> int {
    if den == 0 {
        0
    } else {
        (num * 1000) / (den as int)
    }
}

impl VerifierStats {
    /// All counters at zero.
    pub open spec fn new_spec() -> VerifierStats {
        VerifierStats {
            instructions_verified: 0,
            cache_hits: 0,
            cache_misses: 0,
            simd_accelerated_count: 0,
            parallel_verification_count: 0,
            sequential_verification_count: 0,
        }
    }

    /// All counters at zero.
    pub fn new() -> (s: Self)
        ensures
            s == (VerifierStats {
                instructions_verified: 0,
                cache_hits: 0,
                cache_misses: 0,
                simd_accelerated_count: 0,
                parallel_verification_count: 0,
                sequential_verification_count: 0,
            }),
    {
        VerifierStats {
            instructions_verified: 0,
            cache_hits: 0,
            cache_misses: 0,
            simd_accelerated_count: 0,
            parallel_verification_count: 0,
            sequential_verification_count: 0,
        }
    }

    /// The share of lookups answered from the cache, in thousandths.
    pub fn cache_hit_rate_per_mille(&self) -> (r: u128)
        ensures
            r == share_per_mille(self.cache_hits, self.cache_misses),
    {
        let total: u128 = self.cache_hits as u128 + self.cache_misses as u128;
        if total == 0 {
            0
        } else {
            self.cache_hits as u128 * 1000 / total
        }
    }

    /// The share of verified instructions hashed with vector instructions, in thousandths.
    pub fn simd_usage_rate_per_mille(&self) -> (r: u128)
        ensures
            r == ratio_per_mille(self.simd_accelerated_count, self.instructions_verified),
    {
        if self.instructions_verified == 0 {
            0
        } else {
            self.simd_accelerated_count as u128 * 1000 / self.instructions_verified as u128
        }
    }
}

} // verus!

verus! {

/// What a result says apart from when it was made: the instruction id,
/// whether it verified, and the recomputed hash.
pub open spec fn core_of(v: VerifyResultView) -> (Seq<char>, bool, Seq<char>) {
    (v.instruction_id, v.verified, v.recomputed_hash)
}

pub open spec fn views(rs: Seq<VerifyResult>) -> Seq<VerifyResultView> {
    rs.map_values(|r: VerifyResult| r@)
}

pub open spec fn cores(vs: Seq<VerifyResultView>) -> Seq<(Seq<char>, bool, Seq<char>)> {
    vs.map_values(|v: VerifyResultView| core_of(v))
}

/// Lowercase hex of the SHA-256 digest of `bytes`.
pub open spec fn digest_hex(bytes: Seq<u8>) -> Seq<char> {
    hex_lower(sha256_digest(bytes))
}

proof fn lemma_find_from_bounds(c: Seq<(Seq<char>, bool, Seq<char>)>, id: Seq<char>, k: int)
    requires
        k >= 0,
    ensures
        find_from(c, id, k) == -1 || (k <= find_from(c, id, k) < c.len() && c[find_from(c, id, k)].0 == id),
    decreases c.len() - k,
{
    if k < c.len() && c[k].0 != id {
        lemma_find_from_bounds(c, id, k + 1);
    }
}

/// The result of hashing an instruction afresh: verified when the
/// recomputed hash equals the expected one.
pub open spec fn fresh_core(i: InstructionToVerify) -> (Seq<char>, bool, Seq<char>) {
    let h = digest_hex(i.instruction_bytes@);
    (i.id@, h == i.expected_hash@, h)
}

/// The first position at or after `k` whose id is `id`, or -1.
pub open spec fn find_from(c: Seq<(Seq<char>, bool, Seq<char>)>, id: Seq<char>, k: int) -> int
    decreases c.len() - k,
{
    if k < 0 || k >= c.len() {
        -1
    } else if c[k].0 == id {
        k
    } else {
        find_from(c, id, k + 1)
    }
}

/// Verifying one instruction against a cache (if there is one): a cached
/// result for its id is answered as is; otherwise it is hashed afresh and the
/// result joins the cache. The flag tells whether the cache answered.
pub open spec fn step(cache: Option<Seq<(Seq<char>, bool, Seq<char>)>>, i: InstructionToVerify) -> (
    (Seq<char>, bool, Seq<char>),
    Option<Seq<(Seq<char>, bool, Seq<char>)>>,
    bool,
) {
    match cache {
        Some(c) => {
            let k = find_from(c, i.id@, 0);
            if k >= 0 {
                (c[k], cache, true)
            } else {
                (fresh_core(i), Some(c.push(fresh_core(i))), false)
            }
        },
        None => (fresh_core(i), None, false),
    }
}

/// Verifying instructions in order: the results, the cache after, and how
/// many the cache answered.
pub open spec fn run(cache: Option<Seq<(Seq<char>, bool, Seq<char>)>>, ins: Seq<InstructionToVerify>) -> (
    Seq<(Seq<char>, bool, Seq<char>)>,
    Option<Seq<(Seq<char>, bool, Seq<char>)>>,
    nat,
)
    decreases ins.len(),
{
    if ins.len() == 0 {
        (Seq::empty(), cache, 0)
    } else {
        let p = run(cache, ins.drop_last());
        let s = step(p.1, ins.last());
        (p.0.push(s.0), s.1, if s.2 { p.2 + 1 } else { p.2 })
    }
}

/// The bytes hashed for a batch: the recomputed hashes one after another.
pub open spec fn hash_input(cs: Seq<(Seq<char>, bool, Seq<char>)>) -> Seq<u8>
    decreases cs.len(),
{
    if cs.len() == 0 {
        Seq::empty()
    } else {
        hash_input(cs.drop_last()) + encode_utf8(cs.last().2)
    }
}

/// The hash over a batch's results.
pub open spec fn results_hash(cs: Seq<(Seq<char>, bool, Seq<char>)>) -> Seq<char> {
    hex_lower(sha256_digest(hash_input(cs)))
}

/// The cache's results as plain values.
pub open spec fn cache_cores(c: Option<Vec<VerifyResult>>) -> Option<Seq<(Seq<char>, bool, Seq<char>)>> {
    match c {
        Some(v) => Some(cores(views(v@))),
        None => None,
    }
}

/// How many chunks of `size` cover `n` items.
pub open spec fn chunks_for(n: nat, size: nat) -> nat {
    if size == 0 {
        0
    } else if n % size == 0 {
        n / size
    } else {
        n / size + 1
    }
}

/// The hash over results: SHA-256 of their recomputed hashes in order, in lowercase hex.
pub(crate) fn compute_verify_hash(results: &Vec<VerifyResult>) -> (h: String)
    ensures
        h@ == results_hash(cores(views(results@))),
{
    let mut buf: Vec<u8> = Vec::new();
    let mut i: usize = 0;
    while i < results.len()
        invariant
            i <= results@.len(),
            buf@ == hash_input(cores(views(results@.take(i as int)))),
        decreases results@.len() - i,
    {
        append_bytes(&mut buf, results[i].recomputed_hash.as_str().as_bytes());
        proof {
            let cs = cores(views(results@.take(i + 1)));
            assert(cs.drop_last() =~= cores(views(results@.take(i as int))));
            assert(cs.last() == core_of(results@[i as int]@));
        }
        i = i + 1;
    }
    assert(results@.take(results@.len() as int) =~= results@);
    let d = sha256(buf.as_slice());
    to_hex_lower(d.as_slice())
}

fn find_index(c: &Vec<VerifyResult>, id: &String) -> (k: Option<usize>)
    ensures
        match k {
            Some(j) => find_from(cores(views(c@)), id@, 0) == j as int,
            None => find_from(cores(views(c@)), id@, 0) == -1,
        },
{
    let ghost cs = cores(views(c@));
    let mut i: usize = 0;
    while i < c.len()
        invariant
            i <= c@.len(),
            cs == cores(views(c@)),
            find_from(cs, id@, 0) == find_from(cs, id@, i as int),
        decreases c@.len() - i,
    {
        assert(cs[i as int] == core_of(c@[i as int]@));
        if crate::text::str_eq(c[i].instruction_id.as_str(), id.as_str()) {
            return Some(i);
        }
        i = i + 1;
    }
    None
}

/// Verifies instructions in chunks, answering repeated ids from a cache.
pub struct ParallelVerifier {
    pub config: ParallelVerifierConfig,
    pub cache: Option<Vec<VerifyResult>>,
    pub stats: VerifierStats,
}

impl ParallelVerifier {
    /// A verifier with no results yet; it keeps a cache when the settings ask for one.
    pub fn new(config: ParallelVerifierConfig) -> (v: Self)
        ensures
            v.config == config,
            v.stats == VerifierStats::new_spec(),
            cache_cores(v.cache) == (if config.enable_cache { Some(Seq::<(Seq<char>, bool, Seq<char>)>::empty()) } else { None }),
    {
        let cache = if config.enable_cache { Some(Vec::new()) } else { None };
        proof {
            if config.enable_cache {
                assert(cores(views(Seq::<VerifyResult>::empty())) =~= Seq::<(Seq<char>, bool, Seq<char>)>::empty());
            }
        }
        ParallelVerifier { config, cache, stats: VerifierStats::new() }
    }

    fn verify_one(&mut self, ins: &InstructionToVerify) -> (r: (VerifyResult, bool))
        ensures
            final(self).config == old(self).config,
            final(self).stats == old(self).stats,
            ({
                let s = step(cache_cores(old(self).cache), *ins);
                &&& core_of(r.0@) == s.0
                &&& cache_cores(final(self).cache) == s.1
                &&& r.1 == s.2
            }),
    {
        let found = match &self.cache {
            Some(c) => find_index(c, &ins.id),
            None => None,
        };
        match found {
            Some(k) => {
                proof {
                    lemma_find_from_bounds(cache_cores(self.cache)->0, ins.id@, 0);
                }
                let r = match &self.cache {
                    Some(c) => c[k].duplicate(),
                    None => {
                        proof { assert(false); }
                        VerifyResult { instruction_id: String::new(), verified: false, recomputed_hash: String::new(), timestamp: String::new(), duration_ms: 0 }
                    },
                };
                return (r, true);
            },
            None => {},
        }
        let start = unix_now_millis();
        let digest = sha256(ins.instruction_bytes.as_slice());
        let recomputed_hash = to_hex_lower(digest.as_slice());
        let verified = crate::text::str_eq(recomputed_hash.as_str(), ins.expected_hash.as_str());
        let end = unix_now_millis();
        let result = VerifyResult {
            instruction_id: ins.id.clone(),
            verified,
            recomputed_hash,
            timestamp: now_rfc3339(),
            duration_ms: end.saturating_sub(start),
        };
        if self.cache.is_some() {
            let mut c = self.cache.take().unwrap();
            let ghost before = c@;
            c.push(result.duplicate());
            proof {
                assert(views(c@) =~= views(before).push(result@));
                assert(cores(views(c@)) =~= cores(views(before)).push(core_of(result@)));
            }
            self.cache = Some(c);
        }
        (result, false)
    }

    /// Verifies a batch: split into chunks of the configured size when the
    /// request asks for parallel work and has more instructions than one
    /// chunk, else in one run. Every instruction gets a result in order.
    pub fn parallel_verify(&mut self, request: BatchVerifyRequest) -> (r: Result<BatchVerifyResponse, String>)
        requires
            request.parallel && request.instructions@.len() > old(self).config.chunk_size ==> old(self).config.chunk_size > 0,
        ensures
            r is Ok,
            final(self).config == old(self).config,
            r matches Ok(resp) && ({
                let n = request.instructions@.len();
                let out = run(cache_cores(old(self).cache), request.instructions@);
                let par = request.parallel && n > old(self).config.chunk_size;
                let misses = (n - out.2) as u64;
                let st = old(self).stats;
                &&& resp.trace_id@ == request.trace_id@
                &&& resp.batch_id@ == request.batch_id@
                &&& cores(views(resp.results@)) == out.0
                &&& resp.verify_hash@ == results_hash(out.0)
                &&& resp.chunk_count == (if par { chunks_for(n, old(self).config.chunk_size as nat) } else { 0 })
                &&& cache_cores(final(self).cache) == out.1
                &&& final(self).stats == (VerifierStats {
                    instructions_verified: wrapping_plus(st.instructions_verified, n as u64),
                    cache_hits: wrapping_plus(st.cache_hits, out.2 as u64),
                    cache_misses: wrapping_plus(st.cache_misses, misses),
                    simd_accelerated_count: if old(self).config.simd_acceleration != SimdAcceleration::Scalar {
                        wrapping_plus(st.simd_accelerated_count, misses)
                    } else {
                        st.simd_accelerated_count
                    },
                    parallel_verification_count: if par {
                        wrapping_plus(st.parallel_verification_count, 1)
                    } else {
                        st.parallel_verification_count
                    },
                    sequential_verification_count: if par {
                        st.sequential_verification_count
                    } else {
                        wrapping_plus(st.sequential_verification_count, 1)
                    },
                })
            }),
    {
        let start = unix_now_millis();
        let n = request.instructions.len();
        let size = self.config.chunk_size;
        let par = request.parallel && n > size;
        let chunk_count: usize = if par {
            if n % size == 0 {
                n / size
            } else {
                assert(n / size < n) by (nonlinear_arith)
                    requires
                        size >= 1,
                        n % size != 0,
                {
                    if size == 1 {
                        assert(n % 1 == 0);
                    }
                    if n == 0 {
                        assert(0nat % (size as nat) == 0);
                    }
                };
                n / size + 1
            }
        } else {
            0
        };
        let ghost ins = request.instructions@;
        let ghost c0 = cache_cores(old(self).cache);
        let mut results: Vec<VerifyResult> = Vec::new();
        let mut hits: usize = 0;
        let mut i: usize = 0;
        while i < n
            invariant
                i <= n,
                n == ins.len(),
                ins == request.instructions@,
                self.config == old(self).config,
                self.stats == old(self).stats,
                hits <= i,
                ({
                    let out = run(c0, ins.take(i as int));
                    &&& cores(views(results@)) == out.0
                    &&& cache_cores(self.cache) == out.1
                    &&& hits == out.2
                }),
            decreases n - i,
        {
            let (res, hit) = self.verify_one(&request.instructions[i]);
            proof {
                assert(ins.take(i + 1).drop_last() =~= ins.take(i as int));
                assert(ins.take(i + 1).last() == ins[i as int]);
            }
            let ghost before = results@;
            results.push(res);
            proof {
                assert(views(results@) =~= views(before).push(res@));
                assert(cores(views(results@)) =~= cores(views(before)).push(core_of(res@)));
            }
            if hit {
                hits = hits + 1;
            }
            i = i + 1;
        }
        assert(ins.take(n as int) =~= ins);
        let misses: usize = n - hits;
        self.stats.instructions_verified = wrap_add(self.stats.instructions_verified, n as u64);
        self.stats.cache_hits = wrap_add(self.stats.cache_hits, hits as u64);
        self.stats.cache_misses = wrap_add(self.stats.cache_misses, misses as u64);
        if self.config.simd_acceleration != SimdAcceleration::Scalar {
            self.stats.simd_accelerated_count = wrap_add(self.stats.simd_accelerated_count, misses as u64);
        }
        if par {
            self.stats.parallel_verification_count = wrap_add(self.stats.parallel_verification_count, 1);
        } else {
            self.stats.sequential_verification_count = wrap_add(self.stats.sequential_verification_count, 1);
        }
        let verify_hash = compute_verify_hash(&results);
        let end = unix_now_millis();
        Ok(BatchVerifyResponse {
            trace_id: request.trace_id,
            batch_id: request.batch_id,
            results,
            verify_hash,
            timestamp: now_rfc3339(),
            total_duration_ms: end.saturating_sub(start),
            chunk_count,
        })
    }

    /// The counters.
    pub fn stats(&self) -> (s: VerifierStats)
        ensures
            s == self.stats,
    {
        self.stats
    }

    /// Forgets every cached result.
    pub fn clear_cache(&mut self)
        ensures
            final(self).config == old(self).config,
            final(self).stats == old(self).stats,
            cache_cores(final(self).cache) == (match old(self).cache {
                Some(_) => Some(Seq::<(Seq<char>, bool, Seq<char>)>::empty()),
                None => None,
            }),
    {
        if self.cache.is_some() {
            self.cache = Some(Vec::new());
            proof {
                assert(cores(views(Seq::<VerifyResult>::empty())) =~= Seq::<(Seq<char>, bool, Seq<char>)>::empty());
            }
        }
    }

    /// The share of lookups the cache answered, in thousandths.
    pub fn cache_hit_rate_per_mille(&self) -> (r: u128)
        ensures
            r == share_per_mille(self.stats.cache_hits, self.stats.cache_misses),
    {
        self.stats.cache_hit_rate_per_mille()
    }
}

} // verus!
