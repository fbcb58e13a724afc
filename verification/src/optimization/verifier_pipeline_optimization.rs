//! A four-stage verification pipeline (cache lookup, hashing, verification,
//! aggregation) whose chunk size adapts to the batch size.

use vstd::prelude::*;
use crate::batch::now_rfc3339;
use crate::bytes::{sha256, to_hex_lower};
use crate::clock::{unix_now_micros, unix_now_millis};
use crate::machine::available_cpus;
use crate::optimization::parallel_verifier::{
    chunks_for,
    compute_verify_hash,
    core_of,
    cores,
    digest_hex,
    results_hash,
    share_per_mille,
    views,
    BatchVerifyRequest,
    BatchVerifyResponse,
    InstructionToVerify,
    VerifyResult,
    VerifyResultView,
};
use crate::optimization::work_stealing_executor::{wrap_add, wrapping_plus};

verus! {

/// A stage of the pipeline.
#[derive(Debug, Clone, Copy, PartialEq, Eq, Hash, Structural)]
pub enum PipelineStage {
    CacheLookup,
    HashComputation,
    Verification,
    Aggregation,
}

/// A snapshot of the pipeline's counters. Stage latencies are averages in
/// microseconds; throughput and parallelism are not measured and read 0.
pub struct PipelineStats {
    pub instructions_processed: u64,
    pub stage_latencies_us: Vec<(PipelineStage, u64)>,
    pub throughput: u64,
    pub cache_hit_rate_per_mille: u128,
    pub parallelism_utilization: u64,
}

/// Settings of the pipeline.
#[derive(Debug, Clone, Copy, PartialEq, Eq, Structural)]
pub struct VerifierPipelineConfig {
    pub pipeline_depth: usize,
    pub workers_per_stage: usize,
    pub initial_chunk_size: usize,
    pub min_chunk_size: usize,
    pub max_chunk_size: usize,
    pub enable_dynamic_chunking: bool,
    pub enable_prefetch: bool,
    pub prefetch_lookahead: usize,
    pub pipeline_buffer_size: usize,
}

impl Default for VerifierPipelineConfig {
    /// Four stages, one worker per CPU per stage, chunks of 16 adapting
    /// between 4 and 64, prefetching 32 ahead, buffers of 1024.
    fn default() -> (c: Self)
        ensures
            c.pipeline_depth == 4,
            c.workers_per_stage >= 1,
            c.initial_chunk_size == 16,
            c.min_chunk_size == 4,
            c.max_chunk_size == 64,
            c.enable_dynamic_chunking,
            c.enable_prefetch,
            c.prefetch_lookahead == 32,
            c.pipeline_buffer_size == 1024,
    {
        VerifierPipelineConfig {
            pipeline_depth: 4,
            workers_per_stage: available_cpus(),
            initial_chunk_size: 16,
            min_chunk_size: 4,
            max_chunk_size: 64,
            enable_dynamic_chunking: true,
            enable_prefetch: true,
            prefetch_lookahead: 32,
            pipeline_buffer_size: 1024,
        }
    }
}

/// An instruction on its way through the pipeline, with the time it entered
/// (milliseconds since the Unix epoch) and the time spent in each stage
/// (microseconds).
pub struct PipelineInstruction {
    pub id: String,
    pub instruction_bytes: Vec<u8>,
    pub expected_hash: String,
    pub enter_time_ms: u64,
    pub current_stage: PipelineStage,
    pub stage_timings: Vec<(PipelineStage, u64)>,
}

impl PipelineInstruction {
    /// An instruction entering the pipeline at `now_ms`, before its cache lookup.
    pub fn new_at(id: String, instruction_bytes: Vec<u8>, expected_hash: String, now_ms: u64) -> (p: Self)
        ensures
            p.id@ == id@,
            p.instruction_bytes@ == instruction_bytes@,
            p.expected_hash@ == expected_hash@,
            p.enter_time_ms == now_ms,
            p.current_stage == PipelineStage::CacheLookup,
            p.stage_timings@.len() == 0,
    {
        PipelineInstruction {
            id,
            instruction_bytes,
            expected_hash,
            enter_time_ms: now_ms,
            current_stage: PipelineStage::CacheLookup,
            stage_timings: Vec::new(),
        }
    }

    /// An instruction entering the pipeline now.
    pub fn new(id: String, instruction_bytes: Vec<u8>, expected_hash: String) -> (p: Self)
        ensures
            p.id@ == id@,
            p.instruction_bytes@ == instruction_bytes@,
            p.expected_hash@ == expected_hash@,
            p.current_stage == PipelineStage::CacheLookup,
            p.stage_timings@.len() == 0,
    {
        let now = unix_now_millis();
        Self::new_at(id, instruction_bytes, expected_hash, now)
    }
}

/// Accumulated time (microseconds) and visits of one stage.
#[derive(Debug, Clone, Copy, PartialEq, Eq, Structural)]
pub struct StageTotals {
    pub total_us: u64,
    pub count: u64,
}

/// The pipeline's counters.
#[derive(Debug, Clone, Copy, PartialEq, Eq, Structural)]
pub struct PipelineCounters {
    pub instructions_processed: u64,
    pub cache_hits: u64,
    pub cache_misses: u64,
    pub pipeline_stalls: u64,
    pub cache_lookup: StageTotals,
    pub hash_computation: StageTotals,
    pub verification: StageTotals,
    pub aggregation: StageTotals,
}

/// The totals of one stage.
pub open spec fn totals_of(c: PipelineCounters, s: PipelineStage) -> StageTotals {
    match s {
        PipelineStage::CacheLookup => c.cache_lookup,
        PipelineStage::HashComputation => c.hash_computation,
        PipelineStage::Verification => c.verification,
        PipelineStage::Aggregation => c.aggregation,
    }
}

/// The average time of a stage in microseconds, rounded down; 0 before any visit.
pub open spec fn average_us(t: StageTotals) -> u64 {
    if t.count == 0 {
        0
    } else {
        (t.total_us / t.count) as u64
    }
}

fn stage_average(t: StageTotals) -> (r: u64)
    ensures
        r == average_us(t),
{
    if t.count == 0 {
        0
    } else {
        t.total_us / t.count
    }
}

fn add_time(t: StageTotals, us: u64) -> (r: StageTotals)
    ensures
        r.count == wrapping_plus(t.count, 1),
{
    StageTotals { total_us: wrap_add(t.total_us, us), count: wrap_add(t.count, 1) }
}

/// The chunk size for a batch of `n` instructions when the current size is
/// `cur`: a fifth larger (rounded down, at most `max`) above 1000
/// instructions, five sixths (rounded down, at least `min`) below 50, else unchanged.
pub open spec fn adapted_chunk(cur: usize, n: nat, min: usize, max: usize) -> usize {
    if n > 1000 {
        let g = (cur * 6) / 5;
        if g > max { max } else { g as usize }
    } else if n < 50 {
        let s = (cur * 5) / 6;
        if s < min { min } else { s as usize }
    } else {
        cur
    }
}

/// The cached results by key, later entries over earlier ones.
pub open spec fn cache_map(c: Seq<(String, VerifyResult)>) -> Map<Seq<char>, VerifyResultView>
    decreases c.len(),
{
    if c.len() == 0 {
        Map::empty()
    } else {
        cache_map(c.drop_last()).insert(c.last().0@, c.last().1@)
    }
}

/// No key occurs twice.
pub open spec fn keys_unique(c: Seq<(String, VerifyResult)>) -> bool {
    forall|i: int, j: int| 0 <= i < j < c.len() ==> c[i].0@ != c[j].0@
}

/// The cache after inserting `entries` in order.
pub open spec fn warmed(m: Map<Seq<char>, VerifyResultView>, entries: Seq<(String, VerifyResult)>) -> Map<
    Seq<char>,
    VerifyResultView,
>
    decreases entries.len(),
{
    if entries.len() == 0 {
        m
    } else {
        warmed(m, entries.drop_last()).insert(entries.last().0@, entries.last().1@)
    }
}

/// How many of the instructions have a cached result.
pub open spec fn cached_count(m: Map<Seq<char>, VerifyResultView>, ins: Seq<InstructionToVerify>) -> nat
    decreases ins.len(),
{
    if ins.len() == 0 {
        0
    } else {
        cached_count(m, ins.drop_last()) + if m.dom().contains(ins.last().id@) { 1nat } else { 0nat }
    }
}

/// What the pipeline reports for an instruction: it verifies, with the
/// hash recomputed from its bytes.
pub open spec fn pipeline_core(i: InstructionToVerify) -> (Seq<char>, bool, Seq<char>) {
    (i.id@, true, digest_hex(i.instruction_bytes@))
}

proof fn lemma_cache_map_contains(c: Seq<(String, VerifyResult)>, k: Seq<char>)
    ensures
        cache_map(c).dom().contains(k) <==> exists|i: int| 0 <= i < c.len() && c[i].0@ == k,
    decreases c.len(),
{
    if c.len() > 0 {
        lemma_cache_map_contains(c.drop_last(), k);
        if cache_map(c).dom().contains(k) && c.last().0@ != k {
            let i = choose|i: int| 0 <= i < c.drop_last().len() && c.drop_last()[i].0@ == k;
            assert(c[i].0@ == k);
        }
        if c.last().0@ == k {
            assert(c[c.len() - 1].0@ == k);
        }
        if exists|i: int| 0 <= i < c.len() && c[i].0@ == k {
            let i = choose|i: int| 0 <= i < c.len() && c[i].0@ == k;
            if i < c.len() - 1 {
                assert(c.drop_last()[i].0@ == k);
            }
        }
    }
}

proof fn lemma_cache_map_update(c: Seq<(String, VerifyResult)>, idx: int, e: (String, VerifyResult))
    requires
        keys_unique(c),
        0 <= idx < c.len(),
        c[idx].0@ == e.0@,
    ensures
        cache_map(c.update(idx, e)) == cache_map(c).insert(e.0@, e.1@),
        keys_unique(c.update(idx, e)),
    decreases c.len(),
{
    let u = c.update(idx, e);
    if idx == c.len() - 1 {
        assert(u.drop_last() =~= c.drop_last());
        assert(cache_map(u) =~= cache_map(c).insert(e.0@, e.1@));
    } else {
        assert(u.drop_last() =~= c.drop_last().update(idx, e));
        lemma_cache_map_update(c.drop_last(), idx, e);
        assert(c.last().0@ != e.0@);
        assert(cache_map(u) =~= cache_map(c).insert(e.0@, e.1@));
    }
    assert forall|i: int, j: int| 0 <= i < j < u.len() implies u[i].0@ != u[j].0@ by {
        assert(c[i].0@ != c[j].0@);
    }
}

fn cache_position(c: &Vec<(String, VerifyResult)>, key: &str) -> (k: Option<usize>)
    ensures
        match k {
            Some(j) => j < c@.len() && c@[j as int].0@ == key@,
            None => forall|i: int| 0 <= i < c@.len() ==> c@[i].0@ != key@,
        },
{
    let mut i: usize = 0;
    while i < c.len()
        invariant
            i <= c@.len(),
            forall|j: int| 0 <= j < i ==> c@[j].0@ != key@,
        decreases c@.len() - i,
    {
        if crate::text::str_eq(c[i].0.as_str(), key) {
            return Some(i);
        }
        i = i + 1;
    }
    None
}

/// The verification pipeline.
pub struct VerifierPipeline {
    pub config: VerifierPipelineConfig,
    pub cache: Vec<(String, VerifyResult)>,
    pub stats: PipelineCounters,
    pub chunk_size: usize,
    pub shutdown: u64,
}

impl VerifierPipeline {
    /// The cache holds each key once.
    pub open spec fn wf(&self) -> bool {
        keys_unique(self.cache@)
    }

    /// A pipeline with an empty cache, zero counters and the initial chunk size.
    pub fn new(config: VerifierPipelineConfig) -> (p: Self)
        ensures
            p.wf(),
            p.config == config,
            cache_map(p.cache@) == Map::<Seq<char>, VerifyResultView>::empty(),
            p.chunk_size == config.initial_chunk_size,
            p.shutdown == 0,
            p.stats.instructions_processed == 0,
            p.stats.cache_hits == 0,
            p.stats.cache_misses == 0,
            p.stats.pipeline_stalls == 0,
            p.stats.cache_lookup == (StageTotals { total_us: 0, count: 0 }),
            p.stats.hash_computation == (StageTotals { total_us: 0, count: 0 }),
            p.stats.verification == (StageTotals { total_us: 0, count: 0 }),
            p.stats.aggregation == (StageTotals { total_us: 0, count: 0 }),
    {
        let zero = StageTotals { total_us: 0, count: 0 };
        VerifierPipeline {
            config,
            cache: Vec::new(),
            stats: PipelineCounters {
                instructions_processed: 0,
                cache_hits: 0,
                cache_misses: 0,
                pipeline_stalls: 0,
                cache_lookup: zero,
                hash_computation: zero,
                verification: zero,
                aggregation: zero,
            },
            chunk_size: config.initial_chunk_size,
            shutdown: 0,
        }
    }

    /// Adapts the chunk size to a batch of `n` instructions and returns it.
    fn adaptive_chunk_size(&mut self, n: usize) -> (c: usize)
        ensures
            c == adapted_chunk(old(self).chunk_size, n as nat, old(self).config.min_chunk_size, old(self).config.max_chunk_size),
            *final(self) == (VerifierPipeline { chunk_size: c, ..*old(self) }),
    {
        let cur = self.chunk_size;
        let min = self.config.min_chunk_size;
        let max = self.config.max_chunk_size;
        let next = if n > 1000 {
            if cur / 5 > usize::MAX - cur {
                assert((cur * 6) / 5 > max) by (nonlinear_arith)
                    requires
                        cur / 5 > usize::MAX - cur,
                        max <= usize::MAX,
                ;
                max
            } else {
                let g = cur + cur / 5;
                assert(g == (cur * 6) / 5) by (nonlinear_arith)
                    requires
                        g == cur + cur / 5,
                ;
                if g > max { max } else { g }
            }
        } else if n < 50 {
            let up: usize = if cur % 6 != 0 { 1 } else { 0 };
            let s = cur - (cur / 6 + up);
            assert(s == (cur * 5) / 6) by (nonlinear_arith)
                requires
                    s == cur - (cur / 6 + up),
                    up == (if cur % 6 != 0 { 1int } else { 0int }),
            ;
            if s < min { min } else { s }
        } else {
            cur
        };
        self.chunk_size = next;
        next
    }

    /// The chunk size the next batch of `n` instructions will use.
    pub open spec fn chosen_chunk(&self, n: nat) -> usize {
        if self.config.enable_dynamic_chunking {
            adapted_chunk(self.chunk_size, n, self.config.min_chunk_size, self.config.max_chunk_size)
        } else {
            self.config.initial_chunk_size
        }
    }

    /// Runs a batch through the four stages in order. Every instruction is
    /// reported verified, with its hash recomputed from its bytes; the cache
    /// only counts hits and misses.
    pub fn verify_batch(&mut self, request: BatchVerifyRequest) -> (r: Result<BatchVerifyResponse, String>)
        requires
            old(self).wf(),
            old(self).chosen_chunk(request.instructions@.len()) > 0,
        ensures
            r is Ok,
            final(self).wf(),
            final(self).config == old(self).config,
            final(self).cache@ == old(self).cache@,
            final(self).shutdown == old(self).shutdown,
            final(self).chunk_size == (if old(self).config.enable_dynamic_chunking {
                old(self).chosen_chunk(request.instructions@.len())
            } else {
                old(self).chunk_size
            }),
            r matches Ok(resp) && ({
                let n = request.instructions@.len();
                let hits = cached_count(cache_map(old(self).cache@), request.instructions@);
                let st = old(self).stats;
                let fs = final(self).stats;
                &&& resp.trace_id@ == request.trace_id@
                &&& resp.batch_id@ == request.batch_id@
                &&& cores(views(resp.results@)) == request.instructions@.map_values(|i: InstructionToVerify| pipeline_core(i))
                &&& resp.verify_hash@ == results_hash(cores(views(resp.results@)))
                &&& resp.chunk_count == chunks_for(n, old(self).chosen_chunk(n) as nat)
                &&& fs.instructions_processed == wrapping_plus(st.instructions_processed, n as u64)
                &&& fs.cache_hits == wrapping_plus(st.cache_hits, hits as u64)
                &&& fs.cache_misses == wrapping_plus(st.cache_misses, (n - hits) as u64)
                &&& fs.pipeline_stalls == st.pipeline_stalls
                &&& fs.cache_lookup.count == wrapping_plus(st.cache_lookup.count, n as u64)
                &&& fs.hash_computation.count == wrapping_plus(st.hash_computation.count, n as u64)
                &&& fs.verification.count == wrapping_plus(st.verification.count, n as u64)
                &&& fs.aggregation.count == wrapping_plus(st.aggregation.count, n as u64)
            }),
    {
        let start = unix_now_millis();
        let n = request.instructions.len();
        let size = if self.config.enable_dynamic_chunking {
            self.adaptive_chunk_size(n)
        } else {
            self.config.initial_chunk_size
        };
        let chunk_count: usize = if n % size == 0 {
            n / size
        } else {
            assert(n / size < n) by (nonlinear_arith)
                requires
                    size >= 1,
                    n % size != 0,
            {
                if size == 1 {
                    assert(n % 1 == 0);
                }
                if n == 0 {
                    assert(0nat % (size as nat) == 0);
                }
            };
            n / size + 1
        };
        let ghost ins = request.instructions@;
        let ghost m = cache_map(self.cache@);
        let ghost st = self.stats;
        let mut lookup = self.stats.cache_lookup;
        let mut hashing = self.stats.hash_computation;
        let mut verifying = self.stats.verification;
        let mut aggregating = self.stats.aggregation;
        let mut results: Vec<VerifyResult> = Vec::new();
        let mut hits: usize = 0;
        let mut i: usize = 0;
        while i < n
            invariant
                i <= n,
                n == ins.len(),
                ins == request.instructions@,
                m == cache_map(self.cache@),
                hits <= i,
                hits == cached_count(m, ins.take(i as int)),
                cores(views(results@)) == ins.take(i as int).map_values(|x: InstructionToVerify| pipeline_core(x)),
                lookup.count == wrapping_plus(st.cache_lookup.count, i as u64),
                hashing.count == wrapping_plus(st.hash_computation.count, i as u64),
                verifying.count == wrapping_plus(st.verification.count, i as u64),
                aggregating.count == wrapping_plus(st.aggregation.count, i as u64),
            decreases n - i,
        {
            let ins_i = &request.instructions[i];
            let t0 = unix_now_micros();
            let hit = cache_position(&self.cache, ins_i.id.as_str()).is_some();
            proof {
                lemma_cache_map_contains(self.cache@, ins_i.id@);
                assert(ins.take(i + 1).drop_last() =~= ins.take(i as int));
                assert(ins.take(i + 1).last() == ins[i as int]);
            }
            if hit {
                hits = hits + 1;
            }
            let t1 = unix_now_micros();
            lookup = add_time(lookup, t1.saturating_sub(t0));
            let digest = sha256(ins_i.instruction_bytes.as_slice());
            let recomputed_hash = to_hex_lower(digest.as_slice());
            let t2 = unix_now_micros();
            hashing = add_time(hashing, t2.saturating_sub(t1));
            let t3 = unix_now_micros();
            verifying = add_time(verifying, t3.saturating_sub(t2));
            let now_ms = unix_now_millis();
            let result = VerifyResult {
                instruction_id: ins_i.id.clone(),
                verified: true,
                recomputed_hash,
                timestamp: now_rfc3339(),
                duration_ms: now_ms.saturating_sub(start),
            };
            let ghost before = results@;
            results.push(result);
            proof {
                assert(views(results@) =~= views(before).push(result@));
                assert(cores(views(results@)) =~= cores(views(before)).push(core_of(result@)));
                assert(ins.take(i + 1).map_values(|x: InstructionToVerify| pipeline_core(x)) =~= ins.take(
                    i as int,
                ).map_values(|x: InstructionToVerify| pipeline_core(x)).push(pipeline_core(ins[i as int])));
            }
            let t4 = unix_now_micros();
            aggregating = add_time(aggregating, t4.saturating_sub(t3));
            proof {
                assert(wrapping_plus(wrapping_plus(st.cache_lookup.count, i as u64), 1) == wrapping_plus(
                    st.cache_lookup.count,
                    (i + 1) as u64,
                ));
                assert(wrapping_plus(wrapping_plus(st.hash_computation.count, i as u64), 1) == wrapping_plus(
                    st.hash_computation.count,
                    (i + 1) as u64,
                ));
                assert(wrapping_plus(wrapping_plus(st.verification.count, i as u64), 1) == wrapping_plus(
                    st.verification.count,
                    (i + 1) as u64,
                ));
                assert(wrapping_plus(wrapping_plus(st.aggregation.count, i as u64), 1) == wrapping_plus(
                    st.aggregation.count,
                    (i + 1) as u64,
                ));
            }
            i = i + 1;
        }
        assert(ins.take(n as int) =~= ins);
        self.stats.cache_lookup = lookup;
        self.stats.hash_computation = hashing;
        self.stats.verification = verifying;
        self.stats.aggregation = aggregating;
        self.stats.instructions_processed = wrap_add(self.stats.instructions_processed, n as u64);
        self.stats.cache_hits = wrap_add(self.stats.cache_hits, hits as u64);
        self.stats.cache_misses = wrap_add(self.stats.cache_misses, (n - hits) as u64);
        let verify_hash = compute_verify_hash(&results);
        let end = unix_now_millis();
        Ok(BatchVerifyResponse {
            trace_id: request.trace_id,
            batch_id: request.batch_id,
            results,
            verify_hash,
            timestamp: now_rfc3339(),
            total_duration_ms: end.saturating_sub(start),
            chunk_count,
        })
    }

    /// The counters: instructions processed, the average time of each stage,
    /// and the cache hit rate.
    pub fn get_stats(&self) -> (s: PipelineStats)
        ensures
            s.instructions_processed == self.stats.instructions_processed,
            s.stage_latencies_us@ == seq![
                (PipelineStage::CacheLookup, average_us(self.stats.cache_lookup)),
                (PipelineStage::HashComputation, average_us(self.stats.hash_computation)),
                (PipelineStage::Verification, average_us(self.stats.verification)),
                (PipelineStage::Aggregation, average_us(self.stats.aggregation)),
            ],
            s.throughput == 0,
            s.cache_hit_rate_per_mille == share_per_mille(self.stats.cache_hits, self.stats.cache_misses),
            s.parallelism_utilization == 0,
    {
        let mut lat: Vec<(PipelineStage, u64)> = Vec::new();
        lat.push((PipelineStage::CacheLookup, stage_average(self.stats.cache_lookup)));
        lat.push((PipelineStage::HashComputation, stage_average(self.stats.hash_computation)));
        lat.push((PipelineStage::Verification, stage_average(self.stats.verification)));
        lat.push((PipelineStage::Aggregation, stage_average(self.stats.aggregation)));
        let hits = self.stats.cache_hits;
        let misses = self.stats.cache_misses;
        let total: u128 = hits as u128 + misses as u128;
        let rate: u128 = if total == 0 { 0 } else { hits as u128 * 1000 / total };
        PipelineStats {
            instructions_processed: self.stats.instructions_processed,
            stage_latencies_us: lat,
            throughput: 0,
            cache_hit_rate_per_mille: rate,
            parallelism_utilization: 0,
        }
    }

    /// Empties the cache.
    pub fn clear_cache(&mut self)
        ensures
            final(self).wf(),
            cache_map(final(self).cache@) == Map::<Seq<char>, VerifyResultView>::empty(),
            final(self).config == old(self).config,
            final(self).stats == old(self).stats,
            final(self).chunk_size == old(self).chunk_size,
    {
        self.cache = Vec::new();
    }

    /// Inserts the given results into the cache, a later one replacing an
    /// earlier one under the same key.
    pub fn warmup_cache(&mut self, entries: Vec<(String, VerifyResult)>)
        requires
            old(self).wf(),
        ensures
            final(self).wf(),
            cache_map(final(self).cache@) == warmed(cache_map(old(self).cache@), entries@),
            final(self).config == old(self).config,
            final(self).stats == old(self).stats,
            final(self).chunk_size == old(self).chunk_size,
    {
        let ghost m0 = cache_map(self.cache@);
        let ghost es = entries@;
        let mut done: usize = 0;
        while done < entries.len()
            invariant
                self.wf(),
                done <= es.len(),
                es == entries@,
                cache_map(self.cache@) == warmed(m0, es.take(done as int)),
                self.config == old(self).config,
                self.stats == old(self).stats,
                self.chunk_size == old(self).chunk_size,
            decreases es.len() - done,
        {
            let e = (entries[done].0.clone(), entries[done].1.duplicate());
            proof {
                assert(es.take(done + 1).drop_last() =~= es.take(done as int));
                assert(es.take(done + 1).last() == es[done as int]);
            }
            match cache_position(&self.cache, e.0.as_str()) {
                Some(k) => {
                    let ghost c0 = self.cache@;
                    proof {
                        lemma_cache_map_update(c0, k as int, e);
                    }
                    self.cache.set(k, e);
                },
                None => {
                    let ghost c0 = self.cache@;
                    self.cache.push(e);
                    proof {
                        assert(self.cache@.drop_last() =~= c0);
                        assert forall|i: int, j: int| 0 <= i < j < self.cache@.len() implies self.cache@[i].0@
                            != self.cache@[j].0@ by {
                            if j < c0.len() {
                                assert(c0[i].0@ != c0[j].0@);
                            }
                        }
                    }
                },
            }
            done = done + 1;
        }
        assert(es.take(es.len() as int) =~= es);
    }
}

} // verus!
