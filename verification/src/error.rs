//! Errors of the workflow engine.

use vstd::prelude::*;

verus! {

/// Why an engine operation was refused.
#[derive(Debug)]
pub enum EngineError {
    UnknownRole(String),
    InvalidTransition { role: String, from: String, to: String },
    SchemaValidationFailed { artifact_name: String, reason: String },
    GateFailed(String),
    RollbackUnavailable(String),
    ExecutorInvoke(String),
    ArtifactParse(String),
    Io(String),
    Serde(String),
}

} // verus!
