//! Performance and robustness building blocks.

pub mod boundary_fixes_batch2;
pub mod validation_cache;
pub mod throughput_optimization;
pub mod lockfree_cache;
pub mod work_stealing_executor;
pub mod p99_consolidation_optimization;
pub mod object_pool;
pub mod parallel_verifier;
pub mod verifier_pipeline_optimization;
pub mod async_pool;
pub mod incremental_replay;
pub mod performance_optimization;
