//! The determinism contract: same program, input, state root and environment
//! fingerprint must give the same result; execution yields a state diff that
//! is verified before it is committed.

use vstd::prelude::*;
use crate::text::{owned, decimal, decimal_string};
use crate::json::{Json, JsonView, json_view};
use crate::schema::{json_to_string, serialized_json_text};
use std::collections::hash_map::DefaultHasher;
use std::hash::Hasher;
use vstd::utf8::encode_utf8;
use vstd::std_specs::hash::DefaultHasherAdditionalSpecFns;

verus! {

/// How a program may read time.
pub enum TimestampPolicy {
    Forbidden,
    Fixed { timestamp_ms: u64 },
    Injected { source: String },
}

/// How a program may draw random numbers.
pub enum RandomPolicy {
    Forbidden,
    Seeded { seed: u64 },
    Injected { source: String },
}

/// A declared external dependency.
pub struct ExternalDep {
    pub dep_type: String,
    pub identifier: String,
    pub expected_hash: Option<String>,
    pub read_only: bool,
}

/// Everything outside the program that may influence its result.
pub struct EnvFingerprint {
    pub timestamp_policy: TimestampPolicy,
    pub random_policy: RandomPolicy,
    pub external_deps: Vec<ExternalDep>,
    pub env_vars_hash: String,
    pub model_config_hash: Option<String>,
}

impl EnvFingerprint {
    /// The strict fingerprint: no time, no randomness, no dependencies.
    pub fn strict() -> (f: Self)
        ensures
            f.timestamp_policy is Forbidden,
            f.random_policy is Forbidden,
            f.external_deps@.len() == 0,
            f.env_vars_hash@ == "empty"@,
            f.model_config_hash is None,
    {
        EnvFingerprint {
            timestamp_policy: TimestampPolicy::Forbidden,
            random_policy: RandomPolicy::Forbidden,
            external_deps: Vec::new(),
            env_vars_hash: owned("empty"),
            model_config_hash: None,
        }
    }

    /// Whether a source of nondeterminism is left open: true unless both the
    /// time policy and the randomness policy are `Forbidden`, so the strict
    /// fingerprint has none.
    pub fn has_implicit_nondeterminism(&self) -> (b: bool)
        ensures
            b == !(self.timestamp_policy is Forbidden && self.random_policy is Forbidden),
    {
        let ts_forbidden = match self.timestamp_policy {
            TimestampPolicy::Forbidden => true,
            _ => false,
        };
        let rnd_forbidden = match self.random_policy {
            RandomPolicy::Forbidden => true,
            _ => false,
        };
        !(ts_forbidden && rnd_forbidden)
    }
}

/// A contract: what runs, on what, from which state, in which environment.
pub struct DeterministicContract {
    pub contract_version: String,
    pub program: String,
    pub input: Json,
    pub state_root: String,
    pub env_fingerprint: EnvFingerprint,
}

impl DeterministicContract {
    /// A contract of version `v1.0`.
    pub fn new(program: String, input: Json, state_root: String, env_fingerprint: EnvFingerprint) -> (c: Self)
        ensures
            c.contract_version@ == "v1.0"@,
            c.program == program,
            c.input == input,
            c.state_root == state_root,
            c.env_fingerprint == env_fingerprint,
    {
        DeterministicContract { contract_version: owned("v1.0"), program, input, state_root, env_fingerprint }
    }
}

/// How an execution ended.
#[derive(Debug, Clone, Copy, PartialEq, Eq, Structural)]
pub enum ExecutionStatus {
    Success,
    Revert,
    Failure,
}

/// The result of an execution: a state diff, not yet committed.
pub struct ExecutionResult {
    pub status: ExecutionStatus,
    pub state_diff: Json,
    pub trace_hash: String,
    pub result_hash: String,
    pub state_diff_hash: String,
    pub gas_used: u64,
    pub error_code: u32,
    pub error_message: Option<String>,
}

/// The hash of strings written one after another into a `DefaultHasher`
/// as `str::hash` writes them: each string's UTF-8 bytes, then the byte 0xff.
pub open spec fn strings_hash(parts: Seq<Seq<char>>) -> u64 {
    DefaultHasher::spec_finish(hash_writes(parts))
}

/// The writes that hashing `parts` makes.
pub open spec fn hash_writes(parts: Seq<Seq<char>>) -> Seq<Seq<u8>>
    decreases parts.len(),
{
    if parts.len() == 0 {
        seq![]
    } else {
        hash_writes(parts.drop_last()) + seq![encode_utf8(parts.last()), seq![0xffu8]]
    }
}

proof fn lemma_hash_writes_push(parts: Seq<Seq<char>>, x: Seq<char>)
    ensures
        hash_writes(parts.push(x)) == hash_writes(parts) + seq![encode_utf8(x), seq![0xffu8]],
        hash_writes(Seq::<Seq<char>>::empty()) == Seq::<Seq<u8>>::empty(),
{
    assert(parts.push(x).drop_last() =~= parts);
    assert(parts.push(x).last() == x);
}

fn write_str(h: &mut DefaultHasher, s: &str)
    ensures
        final(h)@ == old(h)@ + seq![encode_utf8(s@), seq![0xffu8]],
{
    h.write(s.as_bytes());
    let sep: Vec<u8> = vec![0xffu8];
    assert(sep@ =~= seq![0xffu8]);
    h.write(sep.as_slice());
    assert(h@ =~= old(h)@ + seq![encode_utf8(s@), seq![0xffu8]]);
}

/// The decimal text of the hash of the JSON text serde_json writes for `v`.
pub open spec fn value_hash(v: JsonView) -> Seq<char> {
    decimal(strings_hash(seq![serialized_json_text(v)]) as nat)
}

impl DeterministicContract {
    /// The contract's hash, for tracing: the version, the program, the
    /// input's JSON text and the state root, hashed in turn.
    pub fn hash(&self) -> (h: String)
        ensures
            h@ == decimal(
                strings_hash(
                    seq![self.contract_version@, self.program@, serialized_json_text(json_view(self.input)), self.state_root@],
                ) as nat,
            ),
    {
        let mut hasher = DefaultHasher::new();
        write_str(&mut hasher, self.contract_version.as_str());
        write_str(&mut hasher, self.program.as_str());
        let input = json_to_string(&self.input);
        write_str(&mut hasher, input.as_str());
        write_str(&mut hasher, self.state_root.as_str());
        proof {
            let e = Seq::<Seq<char>>::empty();
            lemma_hash_writes_push(e, self.contract_version@);
            lemma_hash_writes_push(e.push(self.contract_version@), self.program@);
            lemma_hash_writes_push(e.push(self.contract_version@).push(self.program@), input@);
            lemma_hash_writes_push(e.push(self.contract_version@).push(self.program@).push(input@), self.state_root@);
            assert(e.push(self.contract_version@).push(self.program@).push(input@).push(self.state_root@) =~= seq![
                self.contract_version@,
                self.program@,
                input@,
                self.state_root@,
            ]);
        }
        decimal_string(hasher.finish())
    }
}

impl ExecutionResult {
    /// The hash of a state diff: its JSON text, hashed.
    fn compute_hash(value: &Json) -> (h: String)
        ensures
            h@ == value_hash(json_view(*value)),
    {
        let mut hasher = DefaultHasher::new();
        let text = json_to_string(value);
        write_str(&mut hasher, text.as_str());
        proof {
            let e = Seq::<Seq<char>>::empty();
            lemma_hash_writes_push(e, text@);
            assert(e.push(text@) =~= seq![text@]);
        }
        decimal_string(hasher.finish())
    }

    /// A successful execution: its diff with the diff's hash, the trace and
    /// result hashes, the gas used, no error.
    pub fn success(state_diff: Json, trace_hash: String, result_hash: String, gas_used: u64) -> (r: Self)
        ensures
            r.status == ExecutionStatus::Success,
            r.state_diff == state_diff,
            r.trace_hash == trace_hash,
            r.result_hash == result_hash,
            r.state_diff_hash@ == value_hash(json_view(state_diff)),
            r.gas_used == gas_used,
            r.error_code == 0,
            r.error_message is None,
    {
        let state_diff_hash = Self::compute_hash(&state_diff);
        ExecutionResult {
            status: ExecutionStatus::Success,
            state_diff,
            trace_hash,
            result_hash,
            state_diff_hash,
            gas_used,
            error_code: 0,
            error_message: None,
        }
    }

    /// A failed execution: no diff, no hashes, the error code and message.
    pub fn failure(error_code: u32, error_message: String, gas_used: u64) -> (r: Self)
        ensures
            r.status == ExecutionStatus::Failure,
            r.state_diff == Json::Null,
            r.trace_hash@.len() == 0,
            r.result_hash@.len() == 0,
            r.state_diff_hash@.len() == 0,
            r.gas_used == gas_used,
            r.error_code == error_code,
            r.error_message == Some(error_message),
    {
        ExecutionResult {
            status: ExecutionStatus::Failure,
            state_diff: Json::Null,
            trace_hash: String::new(),
            result_hash: String::new(),
            state_diff_hash: String::new(),
            gas_used,
            error_code,
            error_message: Some(error_message),
        }
    }
}

/// The outcome of replaying an execution independently.
pub struct VerifyResult {
    pub verified: bool,
    pub recomputed_result_hash: String,
    pub mismatch_reason: Option<String>,
    pub gas_used: u64,
    pub verified_at: u64,
}

impl VerifyResult {
    pub fn passed(recomputed_result_hash: String, gas_used: u64) -> (r: Self)
        ensures
            r.verified,
            r.recomputed_result_hash == recomputed_result_hash,
            r.mismatch_reason is None,
            r.gas_used == gas_used,
            r.verified_at == 0,
    {
        VerifyResult { verified: true, recomputed_result_hash, mismatch_reason: None, gas_used, verified_at: 0 }
    }

    pub fn failed(mismatch_reason: String, recomputed_result_hash: String) -> (r: Self)
        ensures
            !r.verified,
            r.recomputed_result_hash == recomputed_result_hash,
            r.mismatch_reason == Some(mismatch_reason),
            r.gas_used == 0,
            r.verified_at == 0,
    {
        VerifyResult {
            verified: false,
            recomputed_result_hash,
            mismatch_reason: Some(mismatch_reason),
            gas_used: 0,
            verified_at: 0,
        }
    }
}

/// A dependency that lacks a type or an identifier.
pub open spec fn dep_is_incomplete(d: ExternalDep) -> bool {
    d.dep_type@.len() == 0 || d.identifier@.len() == 0
}

/// The complaint about the first incomplete dependency, if any.
pub open spec fn first_bad_dep(deps: Seq<ExternalDep>) -> Option<Seq<char>>
    decreases deps.len(),
{
    if deps.len() == 0 {
        None
    } else if dep_is_incomplete(deps[0]) {
        if deps[0].dep_type@.len() == 0 {
            Some("external dep dep_type is required"@)
        } else {
            Some("external dep identifier is required"@)
        }
    } else {
        first_bad_dep(deps.drop_first())
    }
}

/// Checks contracts, fingerprints and results for required fields.
pub struct ContractValidator;

impl ContractValidator {
    pub fn validate_contract(contract: &DeterministicContract) -> (r: Result<(), String>)
        ensures
            r is Ok <==> (contract.contract_version@.len() > 0 && contract.program@.len() > 0
                && contract.state_root@.len() > 0),
            contract.contract_version@.len() == 0 ==> (r matches Err(m) && m@ == "contract_version is required"@),
            contract.contract_version@.len() > 0 && contract.program@.len() == 0 ==> (r matches Err(m) && m@
                == "program is required"@),
            contract.contract_version@.len() > 0 && contract.program@.len() > 0 && contract.state_root@.len() == 0
                ==> (r matches Err(m) && m@ == "state_root is required"@),
    {
        if contract.contract_version.as_str().is_empty() {
            return Err(owned("contract_version is required"));
        }
        if contract.program.as_str().is_empty() {
            return Err(owned("program is required"));
        }
        if contract.state_root.as_str().is_empty() {
            return Err(owned("state_root is required"));
        }
        Ok(())
    }

    /// Every declared dependency needs a type and an identifier; the first that
    /// lacks one is reported.
    pub fn validate_fingerprint(fingerprint: &EnvFingerprint) -> (r: Result<(), String>)
        ensures
            match first_bad_dep(fingerprint.external_deps@) {
                None => r is Ok,
                Some(m) => (r matches Err(e) && e@ == m),
            },
    {
        let deps = &fingerprint.external_deps;
        let mut i: usize = 0;
        assert(deps@.subrange(0, deps@.len() as int) =~= deps@);
        while i < deps.len()
            invariant
                i <= deps@.len(),
                deps@ == fingerprint.external_deps@,
                first_bad_dep(deps@) == first_bad_dep(deps@.subrange(i as int, deps@.len() as int)),
            decreases deps@.len() - i,
        {
            let d = &deps[i];
            let ghost rest = deps@.subrange(i as int, deps@.len() as int);
            assert(rest[0] == deps@[i as int]);
            if d.dep_type.as_str().is_empty() {
                return Err(owned("external dep dep_type is required"));
            }
            if d.identifier.as_str().is_empty() {
                return Err(owned("external dep identifier is required"));
            }
            assert(rest.drop_first() =~= deps@.subrange(i as int + 1, deps@.len() as int));
            i = i + 1;
        }
        assert(deps@.subrange(i as int, deps@.len() as int).len() == 0);
        Ok(())
    }

    /// A success needs both hashes; a failure needs a message.
    pub fn validate_result(result: &ExecutionResult) -> (r: Result<(), String>)
        ensures
            result.status == ExecutionStatus::Success ==> (if result.trace_hash@.len() == 0 {
                (r matches Err(m) && m@ == "trace_hash is required for success"@)
            } else if result.result_hash@.len() == 0 {
                (r matches Err(m) && m@ == "result_hash is required for success"@)
            } else {
                r is Ok
            }),
            result.status == ExecutionStatus::Failure ==> (if result.error_message is None {
                (r matches Err(m) && m@ == "error_message is required for failure"@)
            } else {
                r is Ok
            }),
            result.status == ExecutionStatus::Revert ==> r is Ok,
    {
        match result.status {
            ExecutionStatus::Success => {
                if result.trace_hash.as_str().is_empty() {
                    return Err(owned("trace_hash is required for success"));
                }
                if result.result_hash.as_str().is_empty() {
                    return Err(owned("result_hash is required for success"));
                }
            },
            ExecutionStatus::Failure => {
                if result.error_message.is_none() {
                    return Err(owned("error_message is required for failure"));
                }
            },
            _ => {},
        }
        Ok(())
    }
}

} // verus!
