use rust_workflow_engine::optimization::parallel_verifier::{
    BatchVerifyRequest, InstructionToVerify, ParallelVerifier, ParallelVerifierConfig, SimdAcceleration, VerifierStats,
    VerifyResult,
};
use rust_workflow_engine::optimization::verifier_pipeline_optimization::{
    PipelineInstruction, PipelineStage, VerifierPipeline, VerifierPipelineConfig,
};
use sha2::{Digest, Sha256};

fn hex(bytes: &[u8]) -> String {
    format!("{:x}", Sha256::digest(bytes))
}

fn instruction(id: &str, data: &str, expected: &str) -> InstructionToVerify {
    InstructionToVerify { id: id.to_string(), instruction_bytes: data.as_bytes().to_vec(), expected_hash: expected.to_string() }
}

fn request(instructions: Vec<InstructionToVerify>, parallel: bool) -> BatchVerifyRequest {
    BatchVerifyRequest { trace_id: "trace_1".to_string(), batch_id: "batch_1".to_string(), instructions, parallel, chunk_size: 10 }
}

fn batch_hash(results: &[VerifyResult]) -> String {
    let mut h = Sha256::new();
    for r in results {
        h.update(r.recomputed_hash.as_bytes());
    }
    format!("{:x}", h.finalize())
}

#[test]
fn simd_levels_follow_detected_features() {
    assert_eq!(SimdAcceleration::detect(true, true, false), SimdAcceleration::Avx2);
    assert_eq!(SimdAcceleration::detect(false, true, false), SimdAcceleration::Sse42);
    assert_eq!(SimdAcceleration::detect(false, false, true), SimdAcceleration::Avx2);
    assert_eq!(SimdAcceleration::detect(false, false, false), SimdAcceleration::Scalar);
    assert_eq!(SimdAcceleration::Avx2.speedup_factor(), 3);
    assert_eq!(SimdAcceleration::Sse42.speedup_factor(), 2);
    assert_eq!(SimdAcceleration::Scalar.speedup_factor(), 1);
}

#[test]
fn verifier_checks_hashes_and_caches_results() {
    let config = ParallelVerifierConfig::standard(4, SimdAcceleration::Avx2);
    let mut v = ParallelVerifier::new(config);
    let good = hex(b"data_0");
    let instrs = vec![
        instruction("i0", "data_0", &good),
        instruction("i1", "data_1", "not-the-hash"),
        instruction("i0", "changed bytes", "whatever"),
    ];
    let resp = v.parallel_verify(request(instrs, false)).unwrap();
    assert_eq!(resp.trace_id, "trace_1");
    assert_eq!(resp.batch_id, "batch_1");
    assert_eq!(resp.results.len(), 3);
    assert!(resp.results[0].verified);
    assert_eq!(resp.results[0].recomputed_hash, good);
    assert!(!resp.results[1].verified);
    assert_eq!(resp.results[1].recomputed_hash, hex(b"data_1"));
    // the repeated id is answered from the cache, not rehashed
    assert!(resp.results[2].verified);
    assert_eq!(resp.results[2].recomputed_hash, good);
    assert_eq!(resp.chunk_count, 0);
    assert_eq!(resp.verify_hash, batch_hash(&resp.results));
    let s = v.stats();
    assert_eq!(s.instructions_verified, 3);
    assert_eq!(s.cache_hits, 1);
    assert_eq!(s.cache_misses, 2);
    assert_eq!(s.simd_accelerated_count, 2);
    assert_eq!(s.sequential_verification_count, 1);
    assert_eq!(s.parallel_verification_count, 0);
    assert_eq!(v.cache_hit_rate_per_mille(), 333);
    assert_eq!(s.simd_usage_rate_per_mille(), 666);
}

#[test]
fn parallel_batches_are_chunked() {
    let config = ParallelVerifierConfig::standard(2, SimdAcceleration::Scalar);
    let mut v = ParallelVerifier::new(config);
    let instrs: Vec<InstructionToVerify> =
        (0..25).map(|i| instruction(&format!("instr_{}", i), &format!("data_{}", i), &format!("hash_{}", i))).collect();
    let resp = v.parallel_verify(request(instrs, true)).unwrap();
    assert_eq!(resp.results.len(), 25);
    assert_eq!(resp.chunk_count, 3);
    for (i, r) in resp.results.iter().enumerate() {
        assert_eq!(r.instruction_id, format!("instr_{}", i));
        assert_eq!(r.recomputed_hash, hex(format!("data_{}", i).as_bytes()));
        assert!(!r.verified);
    }
    let s = v.stats();
    assert_eq!(s.parallel_verification_count, 1);
    assert_eq!(s.simd_accelerated_count, 0);
    v.clear_cache();
    let again = v.parallel_verify(request(vec![instruction("instr_0", "data_0", "x")], true)).unwrap();
    assert_eq!(again.chunk_count, 0);
    assert_eq!(v.stats().cache_hits, 0);
    assert_eq!(v.stats().cache_misses, 26);
}

#[test]
fn verifier_without_cache_rehashes() {
    let mut config = ParallelVerifierConfig::standard(1, SimdAcceleration::Sse42);
    config.enable_cache = false;
    let mut v = ParallelVerifier::new(config);
    let instrs = vec![instruction("a", "one", "x"), instruction("a", "two", "y")];
    let resp = v.parallel_verify(request(instrs, false)).unwrap();
    assert_eq!(resp.results[0].recomputed_hash, hex(b"one"));
    assert_eq!(resp.results[1].recomputed_hash, hex(b"two"));
    assert_eq!(v.stats().cache_hits, 0);
    assert_eq!(VerifierStats::new().cache_hit_rate_per_mille(), 0);
}

#[test]
fn test_pipeline_basic() {
    let config = VerifierPipelineConfig::default();
    let mut pipeline = VerifierPipeline::new(config);
    let instructions: Vec<InstructionToVerify> =
        (0..50).map(|i| instruction(&format!("instr_{}", i), &format!("data_{}", i), &format!("hash_{}", i))).collect();
    let response = pipeline.verify_batch(request(instructions, true)).unwrap();
    assert_eq!(response.results.len(), 50);
    let stats = pipeline.get_stats();
    assert_eq!(stats.instructions_processed, 50);
}

#[test]
fn pipeline_reports_every_instruction_verified() {
    let mut pipeline = VerifierPipeline::new(VerifierPipelineConfig::default());
    let resp = pipeline.verify_batch(request(vec![instruction("x", "abc", "nope")], false)).unwrap();
    assert!(resp.results[0].verified);
    assert_eq!(resp.results[0].recomputed_hash, hex(b"abc"));
    assert_eq!(resp.verify_hash, batch_hash(&resp.results));
    // one instruction is a small batch: the chunk shrinks from 16 to 13
    assert_eq!(pipeline.chunk_size, 13);
    assert_eq!(resp.chunk_count, 1);
    let stats = pipeline.get_stats();
    assert_eq!(stats.stage_latencies_us.len(), 4);
    assert_eq!(stats.stage_latencies_us[0].0, PipelineStage::CacheLookup);
    assert_eq!(stats.stage_latencies_us[3].0, PipelineStage::Aggregation);
    assert_eq!(stats.cache_hit_rate_per_mille, 0);
}

#[test]
fn pipeline_chunk_size_adapts_to_batch_size() {
    let mut pipeline = VerifierPipeline::new(VerifierPipelineConfig::default());
    let big: Vec<InstructionToVerify> = (0..1001).map(|i| instruction(&format!("i{}", i), "d", "h")).collect();
    let resp = pipeline.verify_batch(request(big, true)).unwrap();
    assert_eq!(pipeline.chunk_size, 19);
    assert_eq!(resp.chunk_count, 53);
    let mid: Vec<InstructionToVerify> = (0..100).map(|i| instruction(&format!("i{}", i), "d", "h")).collect();
    pipeline.verify_batch(request(mid, true)).unwrap();
    assert_eq!(pipeline.chunk_size, 19);
    for _ in 0..20 {
        pipeline.verify_batch(request(vec![instruction("s", "d", "h")], true)).unwrap();
    }
    assert_eq!(pipeline.chunk_size, 4);
}

#[test]
fn pipeline_warmup_counts_cache_hits() {
    let mut pipeline = VerifierPipeline::new(VerifierPipelineConfig::default());
    let cached = |id: &str| VerifyResult {
        instruction_id: id.to_string(),
        verified: true,
        recomputed_hash: "h".to_string(),
        timestamp: "t".to_string(),
        duration_ms: 0,
    };
    pipeline.warmup_cache(vec![("a".to_string(), cached("a")), ("b".to_string(), cached("b")), ("a".to_string(), cached("a"))]);
    assert_eq!(pipeline.cache.len(), 2);
    let instrs: Vec<InstructionToVerify> =
        ["a", "b", "c", "d"].iter().map(|id| instruction(id, "bytes", "h")).collect();
    pipeline.verify_batch(request(instrs, true)).unwrap();
    assert_eq!(pipeline.stats.cache_hits, 2);
    assert_eq!(pipeline.stats.cache_misses, 2);
    assert_eq!(pipeline.get_stats().cache_hit_rate_per_mille, 500);
    pipeline.clear_cache();
    assert_eq!(pipeline.cache.len(), 0);
}

#[test]
fn pipeline_instruction_starts_at_cache_lookup() {
    let p = PipelineInstruction::new_at("id".to_string(), vec![1, 2], "h".to_string(), 42);
    assert_eq!(p.enter_time_ms, 42);
    assert_eq!(p.current_stage, PipelineStage::CacheLookup);
    assert!(p.stage_timings.is_empty());
    let q = PipelineInstruction::new("id".to_string(), vec![], "h".to_string());
    assert_eq!(q.current_stage, PipelineStage::CacheLookup);
}
