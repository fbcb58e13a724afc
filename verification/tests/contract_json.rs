use rust_workflow_engine::contract::{DeterministicContract, EnvFingerprint, ExecutionResult, ExecutionStatus};
use rust_workflow_engine::json::{Json, JsonNumber};
use std::collections::hash_map::DefaultHasher;
use std::hash::{Hash, Hasher};

fn sample() -> Json {
    Json::Object(vec![
        ("a".to_string(), Json::Array(vec![Json::Number(JsonNumber::PosInt(1)), Json::Null, Json::Bool(true)])),
        ("b\"q".to_string(), Json::Str("line\nnext\t\u{1}é\\".to_string())),
        ("c".to_string(), Json::Number(JsonNumber::NegInt(-5))),
        ("d".to_string(), Json::Number(JsonNumber::Float("2.5".to_string()))),
        ("e".to_string(), Json::Object(vec![])),
    ])
}

fn serde_value(j: &Json) -> serde_json::Value {
    match j {
        Json::Null => serde_json::Value::Null,
        Json::Bool(b) => serde_json::Value::Bool(*b),
        Json::Number(JsonNumber::PosInt(u)) => serde_json::Value::from(*u),
        Json::Number(JsonNumber::NegInt(i)) => serde_json::Value::from(*i),
        Json::Number(JsonNumber::Float(t)) => serde_json::from_str(t).unwrap(),
        Json::Str(s) => serde_json::Value::String(s.clone()),
        Json::Array(v) => serde_json::Value::Array(v.iter().map(serde_value).collect()),
        Json::Object(m) => serde_json::Value::Object(m.iter().map(|(k, x)| (k.clone(), serde_value(x))).collect()),
    }
}

fn serde_text(j: &Json) -> String {
    serde_json::to_string(&serde_value(j)).unwrap()
}

fn std_hash(parts: &[&str]) -> String {
    let mut h = DefaultHasher::new();
    for p in parts {
        p.hash(&mut h);
    }
    h.finish().to_string()
}

#[test]
fn contract_hash_matches_std_hashing() {
    let c = DeterministicContract::new("prog".to_string(), sample(), "root".to_string(), EnvFingerprint::strict());
    let text = serde_text(&sample());
    assert_eq!(c.hash(), std_hash(&["v1.0", "prog", &text, "root"]));
    let c2 = DeterministicContract::new("prog2".to_string(), sample(), "root".to_string(), EnvFingerprint::strict());
    assert_ne!(c.hash(), c2.hash());
}

#[test]
fn success_result_hashes_its_diff() {
    let r = ExecutionResult::success(sample(), "t".to_string(), "r".to_string(), 7);
    assert_eq!(r.status, ExecutionStatus::Success);
    assert_eq!(r.state_diff_hash, std_hash(&[&serde_text(&sample())]));
    assert_eq!(r.gas_used, 7);
    assert!(r.error_message.is_none());
}

#[test]
fn strict_fingerprint_has_no_implicit_nondeterminism() {
    assert!(!EnvFingerprint::strict().has_implicit_nondeterminism());
    let mut fp = EnvFingerprint::strict();
    fp.timestamp_policy = rust_workflow_engine::contract::TimestampPolicy::Fixed { timestamp_ms: 5 };
    assert!(fp.has_implicit_nondeterminism());
    let mut fp = EnvFingerprint::strict();
    fp.random_policy = rust_workflow_engine::contract::RandomPolicy::Seeded { seed: 1 };
    assert!(fp.has_implicit_nondeterminism());
}
