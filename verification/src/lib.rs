//! Verified core of a multi-role workflow engine: role state machines,
//! batch instruction validation, caches, throttling primitives, gate
//! checks and authorization decisions.

pub mod text;
pub mod json;
pub mod schema;
pub mod bytes;
pub mod model;
pub mod error;
pub mod engine;
pub mod blackboard_agent;
pub mod orchestration;
pub mod deliverables;
pub mod executor;
pub mod gates;
pub mod gate_report;
pub mod contract;
pub mod batch;
pub mod batch_run;
pub mod clock;
pub mod machine;
pub mod optimization;
pub mod security;
pub mod metrics;
pub mod workflow_plan;
pub mod run;
pub mod scanner;
pub mod scanner_optimizer;
