//! Authorization and security gates.

pub mod rbac;
pub mod security_gates_week3_impl;
pub mod oidc;
pub mod threat_detection_impl;
pub mod opa_policy_engine;
pub mod audit_log;
pub mod oidc_provider_impl;
