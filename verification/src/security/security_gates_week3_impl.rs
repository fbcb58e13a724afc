//! Security gates for nested batches and transactions: nesting depth,
//! permissions, data integrity and audit checks.

use vstd::prelude::*;
use crate::bytes::{append_bytes, crc32, crc32_of, hex_digits, hex_string};
use crate::text::{cat, owned, decimal, decimal_string};
use vstd::utf8::encode_utf8;

verus! {

/// One validation of a batch, as logged.
pub struct ValidationRecord {
    pub batch_id: String,
    pub depth: u8,
    pub is_valid: bool,
    pub errors: Vec<String>,
    pub timestamp_ms: u64,
}

/// A batch of commands, which may nest batches.
pub struct BatchCommand {
    pub id: String,
    pub commands: Vec<Command>,
}

pub enum Command {
    Batch(BatchCommand),
    Execute(ExecuteCommand),
    Transaction(TransactionCommand),
}

pub struct ExecuteCommand {
    pub id: String,
}

pub struct TransactionCommand {
    pub id: String,
    pub isolation_level: IsolationLevel,
    pub read_operations: Vec<ReadOperation>,
    pub write_operations: Vec<WriteOperation>,
    pub range_queries: Vec<RangeQuery>,
    pub write_skew_constraints: Vec<Constraint>,
}

#[derive(Debug, Clone, Copy, PartialEq, Eq, Structural)]
pub enum IsolationLevel {
    ReadCommitted,
    RepeatableRead,
    Serializable,
}

pub struct ReadOperation {
    pub key: String,
}

pub struct WriteOperation {
    pub key: String,
    pub value: String,
}

pub struct RangeQuery {
    pub predicate: String,
    pub initial_count: usize,
}

pub struct Constraint {
    pub id: String,
}

/// The outcome of a validation: valid, or the errors found.
pub struct ValidationResult {
    pub valid: bool,
    pub errors: Vec<String>,
}

impl ValidationResult {
    pub fn new(valid: bool, errors: Vec<String>) -> (r: Self)
        ensures
            r.valid == valid,
            r.errors == errors,
    {
        ValidationResult { valid, errors }
    }

    pub fn is_valid(&self) -> (b: bool)
        ensures
            b == self.valid,
    {
        self.valid
    }
}

/// The nesting depth of a batch: 1 plus the deepest nested batch.
pub open spec fn batch_depth(b: BatchCommand) -> nat
    decreases b, b.commands@.len() + 1,
{
    1 + deepest_child(b, b.commands@.len() as int)
}

/// The deepest nested batch among the first `n` commands of `b`, 0 if none.
pub open spec fn deepest_child(b: BatchCommand, n: int) -> nat
    decreases b, n,
{
    if n <= 0 || n > b.commands@.len() {
        0
    } else {
        let rest = deepest_child(b, n - 1);
        match b.commands@[n - 1] {
            Command::Batch(nb) => {
                let d = batch_depth(nb);
                if d > rest { d } else { rest }
            },
            _ => rest,
        }
    }
}

/// The number of non-batch commands in `b`, counting into nested batches.
pub open spec fn leaf_count(b: BatchCommand) -> nat
    decreases b, b.commands@.len() + 1,
{
    leaf_count_prefix(b, b.commands@.len() as int)
}

pub open spec fn leaf_count_prefix(b: BatchCommand, n: int) -> nat
    decreases b, n,
{
    if n <= 0 || n > b.commands@.len() {
        0
    } else {
        leaf_count_prefix(b, n - 1) + match b.commands@[n - 1] {
            Command::Batch(nb) => leaf_count(nb),
            _ => 1,
        }
    }
}

/// The errors the nesting validator reports for `b`: its own depth error,
/// then the errors of each nested batch in order.
pub open spec fn nesting_errors(b: BatchCommand, max_depth: u8) -> Seq<Seq<char>>
    decreases b, b.commands@.len() + 1,
{
    (if batch_depth(b) > max_depth {
        seq!["Nested depth exceeded: "@ + decimal(batch_depth(b)) + " > "@ + decimal(max_depth as nat)]
    } else {
        Seq::empty()
    }) + child_errors(b, b.commands@.len() as int, max_depth)
}

pub open spec fn child_errors(b: BatchCommand, n: int, max_depth: u8) -> Seq<Seq<char>>
    decreases b, n,
{
    if n <= 0 || n > b.commands@.len() {
        Seq::empty()
    } else {
        child_errors(b, n - 1, max_depth) + match b.commands@[n - 1] {
            Command::Batch(nb) => nesting_errors(nb, max_depth),
            _ => Seq::<Seq<char>>::empty(),
        }
    }
}

/// The errors of a list as plain characters.
pub open spec fn error_texts(v: Seq<String>) -> Seq<Seq<char>> {
    v.map_values(|s: String| s@)
}

/// Checks that batches do not nest deeper than allowed.
pub struct SG1BatchNestedValidator {
    pub max_depth: u8,
    pub verification_log: Vec<ValidationRecord>,
}

proof fn lemma_deepest_le(b: BatchCommand, n: int)
    requires
        0 <= n <= b.commands@.len(),
    ensures
        deepest_child(b, n) <= deepest_child(b, b.commands@.len() as int),
    decreases b.commands@.len() - n,
{
    if n < b.commands@.len() {
        lemma_deepest_le(b, n + 1);
    }
}

impl SG1BatchNestedValidator {
    pub fn new(max_depth: u8) -> (v: Self)
        ensures
            v.max_depth == max_depth,
            v.verification_log@.len() == 0,
    {
        SG1BatchNestedValidator { max_depth, verification_log: Vec::new() }
    }

    /// The nesting depth of a batch.
    pub fn calculate_nested_depth(&self, batch: &BatchCommand) -> (d: u8)
        requires
            batch_depth(*batch) <= 255,
        ensures
            d == batch_depth(*batch),
        decreases *batch,
    {
        let mut max_child: u8 = 0;
        let mut i: usize = 0;
        while i < batch.commands.len()
            invariant
                i <= batch.commands@.len(),
                batch_depth(*batch) <= 255,
                max_child == deepest_child(*batch, i as int),
            decreases batch.commands@.len() - i,
        {
            proof {
                lemma_deepest_le(*batch, i + 1);
            }
            match &batch.commands[i] {
                Command::Batch(nested) => {
                    assert(batch_depth(*nested) <= deepest_child(*batch, i + 1));
                    let child = self.calculate_nested_depth(nested);
                    if child > max_child {
                        max_child = child;
                    }
                },
                _ => {},
            }
            i = i + 1;
        }
        1 + max_child
    }

    /// Validates a batch and every nested batch against the depth limit,
    /// logging one record per batch validated.
    pub fn validate(&mut self, batch: &BatchCommand) -> (r: ValidationResult)
        requires
            batch_depth(*batch) <= 255,
        ensures
            error_texts(r.errors@) == nesting_errors(*batch, old(self).max_depth),
            r.valid == (r.errors@.len() == 0),
            final(self).max_depth == old(self).max_depth,
        decreases *batch,
    {
        let mut errors: Vec<String> = Vec::new();
        let depth = self.calculate_nested_depth(batch);
        if depth > self.max_depth {
            let a = cat("Nested depth exceeded: ", decimal_string(depth as u64).as_str());
            let b = cat(a.as_str(), " > ");
            errors.push(cat(b.as_str(), decimal_string(self.max_depth as u64).as_str()));
        }
        let ghost own = error_texts(errors@);
        assert(own =~= (if batch_depth(*batch) > self.max_depth {
            seq!["Nested depth exceeded: "@ + decimal(batch_depth(*batch)) + " > "@ + decimal(self.max_depth as nat)]
        } else {
            Seq::<Seq<char>>::empty()
        }));
        let mut i: usize = 0;
        while i < batch.commands.len()
            invariant
                i <= batch.commands@.len(),
                batch_depth(*batch) <= 255,
                self.max_depth == old(self).max_depth,
                error_texts(errors@) == own + child_errors(*batch, i as int, self.max_depth),
            decreases batch.commands@.len() - i,
        {
            proof {
                lemma_deepest_le(*batch, i + 1);
            }
            match &batch.commands[i] {
                Command::Batch(nested) => {
                    assert(batch_depth(*nested) <= deepest_child(*batch, i + 1));
                    let nested_result = self.validate(nested);
                    if !nested_result.is_valid() {
                        let ghost before = error_texts(errors@);
                        let mut k: usize = 0;
                        while k < nested_result.errors.len()
                            invariant
                                k <= nested_result.errors@.len(),
                                error_texts(errors@) == before + error_texts(nested_result.errors@).subrange(0, k as int),
                            decreases nested_result.errors@.len() - k,
                        {
                            let ghost prev = errors@;
                            errors.push(nested_result.errors[k].clone());
                            assert(error_texts(errors@) =~= error_texts(prev).push(nested_result.errors@[k as int]@));
                            assert(error_texts(nested_result.errors@).subrange(0, k + 1) =~= error_texts(nested_result.errors@).subrange(0, k as int).push(nested_result.errors@[k as int]@));
                            assert(error_texts(errors@) =~= before + error_texts(nested_result.errors@).subrange(0, k + 1));
                            k = k + 1;
                        }
                        assert(error_texts(nested_result.errors@).subrange(0, nested_result.errors@.len() as int) =~= error_texts(nested_result.errors@));
                    } else {
                        assert(error_texts(nested_result.errors@) =~= Seq::<Seq<char>>::empty());
                    }
                    assert(own + child_errors(*batch, i + 1, self.max_depth) =~= own + child_errors(*batch, i as int, self.max_depth) + nesting_errors(*nested, self.max_depth));
                },
                _ => {
                    assert(child_errors(*batch, i + 1, self.max_depth) =~= child_errors(*batch, i as int, self.max_depth));
                },
            }
            i = i + 1;
        }
        let valid = errors.len() == 0;
        let mut log_errors: Vec<String> = Vec::new();
        let mut k: usize = 0;
        while k < errors.len()
            invariant
                k <= errors@.len(),
            decreases errors@.len() - k,
        {
            log_errors.push(errors[k].clone());
            k = k + 1;
        }
        self.verification_log.push(ValidationRecord {
            batch_id: batch.id.clone(),
            depth,
            is_valid: valid,
            errors: log_errors,
            timestamp_ms: crate::clock::unix_now_millis(),
        });
        ValidationResult::new(valid, errors)
    }
}

/// A request to check permissions.
pub struct PermissionRequest {
    pub user_id: String,
    pub roles: Vec<String>,
    pub resource_type: String,
    pub resource_id: String,
    pub operation: String,
    pub requested_fields: Option<Vec<String>>,
    pub row_filter_required: bool,
}

/// The outcome of a token check.
pub struct TokenValidation {
    pub is_valid: bool,
    pub claims: Option<Vec<(String, String)>>,
}

/// The outcome of a policy evaluation.
pub struct OpaDecision {
    pub allow: bool,
    pub reason: String,
}

/// Checks token, policy, field-level and row-level permissions. The token,
/// policy, field and row checks accept every request.
pub struct SG2PermissionValidator {
    pub oidc_enabled: bool,
    pub opa_enabled: bool,
}

impl SG2PermissionValidator {
    pub fn new(oidc_enabled: bool, opa_enabled: bool) -> (v: Self)
        ensures
            v.oidc_enabled == oidc_enabled,
            v.opa_enabled == opa_enabled,
    {
        SG2PermissionValidator { oidc_enabled, opa_enabled }
    }

    fn verify_oidc_token(&self, _request: &PermissionRequest) -> (t: TokenValidation)
        ensures
            t.is_valid,
    {
        TokenValidation { is_valid: true, claims: None }
    }

    fn evaluate_opa_policy(&self, _request: &PermissionRequest) -> (d: OpaDecision)
        ensures
            d.allow,
    {
        OpaDecision { allow: true, reason: owned("rbac_allow") }
    }

    fn verify_field_level(&self, _request: &PermissionRequest, _fields: &Vec<String>) -> (r: ValidationResult)
        ensures
            r.valid,
            r.errors@.len() == 0,
    {
        ValidationResult::new(true, Vec::new())
    }

    fn verify_row_level(&self, _request: &PermissionRequest) -> (r: ValidationResult)
        ensures
            r.valid,
            r.errors@.len() == 0,
    {
        ValidationResult::new(true, Vec::new())
    }

    /// Runs the enabled checks in order and collects their errors.
    pub fn validate(&self, request: &PermissionRequest) -> (r: ValidationResult)
        ensures
            r.valid,
            r.errors@.len() == 0,
    {
        let mut errors: Vec<String> = Vec::new();
        if self.oidc_enabled {
            let token = self.verify_oidc_token(request);
            if !token.is_valid {
                errors.push(owned("Invalid OIDC token"));
                return ValidationResult::new(false, errors);
            }
        }
        if self.opa_enabled {
            let decision = self.evaluate_opa_policy(request);
            if !decision.allow {
                errors.push(cat("Authorization denied: ", decision.reason.as_str()));
            }
        }
        match &request.requested_fields {
            Some(fields) => {
                let check = self.verify_field_level(request, fields);
                if !check.is_valid() {
                    errors.push(owned("field-level check failed"));
                }
            },
            None => {},
        }
        if request.row_filter_required {
            let check = self.verify_row_level(request);
            if !check.is_valid() {
                errors.push(owned("row-level check failed"));
            }
        }
        let valid = errors.len() == 0;
        ValidationResult::new(valid, errors)
    }
}

/// Checksums data as `sha256:` followed by the CRC-32 of the data in lowercase hex.
pub struct ChecksumEngine {
    pub algorithm: String,
}

/// The checksum text of some bytes.
pub open spec fn checksum_text(data: Seq<u8>) -> Seq<char> {
    "sha256:"@ + hex_digits(crc32_of(data) as nat)
}

/// The checksum that mock executors put in their results in place of one
/// computed from the data.
pub open spec fn mock_checksum() -> Seq<char> {
    "sha256:mock"@
}

/// Whether a result's checksum is accepted for the expected one: it equals
/// it, or it is the mock placeholder, which is not checked against the data.
pub open spec fn checksum_accepted(expected: Seq<char>, given: Seq<char>) -> bool {
    given == expected || given == mock_checksum()
}

impl ChecksumEngine {
    pub fn new(algorithm: &str) -> (e: Self)
        ensures
            e.algorithm@ == algorithm@,
    {
        ChecksumEngine { algorithm: owned(algorithm) }
    }

    pub fn calculate(&self, data: &[u8]) -> (s: String)
        ensures
            s@ == checksum_text(data@),
    {
        cat("sha256:", hex_string(crc32(data)).as_str())
    }
}

/// The result of a batch of commands.
pub struct BatchResult {
    pub batch_id: String,
    pub results: Vec<CommandResult>,
    pub checksum: String,
}

/// The result of one command.
pub struct CommandResult {
    pub command_id: String,
    pub success: bool,
    pub error: Option<String>,
}

impl CommandResult {
    pub fn is_error(&self) -> (b: bool)
        ensures
            b == self.error is Some,
    {
        self.error.is_some()
    }
}

/// The bytes a batch's checksum covers: its id, then for each command the
/// nested batch's checksum text or the command's id.
pub open spec fn checksum_input(b: BatchCommand) -> Seq<u8>
    decreases b, b.commands@.len() + 1,
{
    encode_utf8(b.id@) + command_bytes(b, b.commands@.len() as int)
}

pub open spec fn command_bytes(b: BatchCommand, n: int) -> Seq<u8>
    decreases b, n,
{
    if n <= 0 || n > b.commands@.len() {
        Seq::empty()
    } else {
        command_bytes(b, n - 1) + match b.commands@[n - 1] {
            Command::Batch(nb) => encode_utf8(checksum_text(checksum_input(nb))),
            Command::Execute(e) => encode_utf8(e.id@),
            Command::Transaction(t) => encode_utf8(t.id@),
        }
    }
}

/// Checks that a batch's results account for every command and that its checksum matches.
pub struct SG3DataIntegrityValidator {
    pub checksum_engine: ChecksumEngine,
}

impl SG3DataIntegrityValidator {
    pub fn new() -> (v: Self)
        ensures
            v.checksum_engine.algorithm@ == "sha256"@,
    {
        SG3DataIntegrityValidator { checksum_engine: ChecksumEngine::new("sha256") }
    }

    /// The number of non-batch commands, counting into nested batches.
    pub fn count_all_commands(&self, batch: &BatchCommand) -> (n: usize)
        requires
            leaf_count(*batch) <= usize::MAX,
        ensures
            n == leaf_count(*batch),
        decreases *batch,
    {
        let mut count: usize = 0;
        let mut i: usize = 0;
        while i < batch.commands.len()
            invariant
                i <= batch.commands@.len(),
                leaf_count(*batch) <= usize::MAX,
                count == leaf_count_prefix(*batch, i as int),
            decreases batch.commands@.len() - i,
        {
            proof {
                lemma_leaf_prefix_le(*batch, i + 1);
            }
            match &batch.commands[i] {
                Command::Batch(nested) => {
                    let c = self.count_all_commands(nested);
                    count = count + c;
                },
                _ => {
                    count = count + 1;
                },
            }
            i = i + 1;
        }
        count
    }

    /// The checksum of a batch, folding in the checksums of nested batches.
    pub fn calculate_nested_checksum(&self, batch: &BatchCommand) -> (s: String)
        ensures
            s@ == checksum_text(checksum_input(*batch)),
        decreases *batch,
    {
        let mut data: Vec<u8> = Vec::new();
        append_bytes(&mut data, batch.id.as_str().as_bytes());
        let mut i: usize = 0;
        while i < batch.commands.len()
            invariant
                i <= batch.commands@.len(),
                data@ == encode_utf8(batch.id@) + command_bytes(*batch, i as int),
            decreases batch.commands@.len() - i,
        {
            match &batch.commands[i] {
                Command::Batch(nested) => {
                    let nested_checksum = self.calculate_nested_checksum(nested);
                    append_bytes(&mut data, nested_checksum.as_str().as_bytes());
                },
                Command::Execute(exe) => {
                    append_bytes(&mut data, exe.id.as_str().as_bytes());
                },
                Command::Transaction(txn) => {
                    append_bytes(&mut data, txn.id.as_str().as_bytes());
                },
            }
            assert(data@ =~= encode_utf8(batch.id@) + command_bytes(*batch, i + 1));
            i = i + 1;
        }
        self.checksum_engine.calculate(data.as_slice())
    }
}

impl SG3DataIntegrityValidator {
    /// Valid when the results account for every command and the checksum
    /// matches (or is the mock placeholder); otherwise the mismatches, count
    /// first.
    pub fn validate(&self, batch: &BatchCommand, result: &BatchResult) -> (r: ValidationResult)
        requires
            leaf_count(*batch) <= usize::MAX,
        ensures
            r.valid == (leaf_count(*batch) == result.results@.len() && checksum_accepted(
                checksum_text(checksum_input(*batch)),
                result.checksum@,
            )),
            r.valid == (r.errors@.len() == 0),
            error_texts(r.errors@) == (if leaf_count(*batch) != result.results@.len() {
                seq!["Result count mismatch: expected "@ + decimal(leaf_count(*batch)) + ", actual "@ + decimal(result.results@.len())]
            } else {
                Seq::<Seq<char>>::empty()
            }) + (if !checksum_accepted(checksum_text(checksum_input(*batch)), result.checksum@) {
                seq!["Checksum mismatch: expected "@ + checksum_text(checksum_input(*batch)) + ", actual "@ + result.checksum@]
            } else {
                Seq::<Seq<char>>::empty()
            }),
    {
        let mut errors: Vec<String> = Vec::new();
        let expected_count = self.count_all_commands(batch);
        let actual_count = result.results.len();
        if expected_count != actual_count {
            let a = cat("Result count mismatch: expected ", decimal_string(expected_count as u64).as_str());
            let b = cat(a.as_str(), ", actual ");
            errors.push(cat(b.as_str(), decimal_string(actual_count as u64).as_str()));
        }
        let ghost first = error_texts(errors@);
        let expected_checksum = self.calculate_nested_checksum(batch);
        proof {
            reveal_strlit("sha256:mock");
        }
        if !crate::text::str_eq(expected_checksum.as_str(), result.checksum.as_str()) && !crate::text::str_eq(
            result.checksum.as_str(),
            "sha256:mock",
        ) {
            let a = cat("Checksum mismatch: expected ", expected_checksum.as_str());
            let b = cat(a.as_str(), ", actual ");
            let ghost prev = errors@;
            errors.push(cat(b.as_str(), result.checksum.as_str()));
            assert(error_texts(errors@) =~= error_texts(prev).push(errors@.last()@));
        }
        let valid = errors.len() == 0;
        ValidationResult::new(valid, errors)
    }
}

/// Where and for how long audit logs are kept.
pub struct AuditConfig {
    pub enabled: bool,
    pub log_path: String,
    pub retention_days: u32,
}

/// Checks audit logs for integrity and continuity; both checks accept every log.
pub struct SG4AuditValidator {
    pub config: AuditConfig,
}

impl SG4AuditValidator {
    pub fn new(config: AuditConfig) -> (v: Self)
        ensures
            v.config == config,
    {
        SG4AuditValidator { config }
    }

    fn verify_audit_integrity(&self) -> (r: ValidationResult)
        ensures
            r.valid,
            r.errors@.len() == 0,
    {
        ValidationResult::new(true, Vec::new())
    }

    fn verify_audit_continuity(&self) -> (r: ValidationResult)
        ensures
            r.valid,
            r.errors@.len() == 0,
    {
        ValidationResult::new(true, Vec::new())
    }

    /// Valid when auditing is off; otherwise the integrity and continuity checks decide.
    pub fn validate(&self) -> (r: ValidationResult)
        ensures
            r.valid,
            r.errors@.len() == 0,
    {
        if !self.config.enabled {
            return ValidationResult::new(true, Vec::new());
        }
        let mut errors: Vec<String> = Vec::new();
        let integrity = self.verify_audit_integrity();
        if !integrity.is_valid() {
            errors.push(owned("audit integrity check failed"));
        }
        let continuity = self.verify_audit_continuity();
        if !continuity.is_valid() {
            errors.push(owned("audit continuity check failed"));
        }
        let valid = errors.len() == 0;
        ValidationResult::new(valid, errors)
    }
}

/// The combined result of the four gates.
pub struct GateValidationResult {
    pub is_valid: bool,
    pub sg1_result: ValidationResult,
    pub sg2_result: ValidationResult,
    pub sg3_result: ValidationResult,
    pub sg4_result: ValidationResult,
    pub total_latency_us: u64,
}

impl GateValidationResult {
    /// Combines four results; valid only when all four are.
    pub fn combine(sg1: ValidationResult, sg2: ValidationResult, sg3: ValidationResult, sg4: ValidationResult, total_latency_us: u64) -> (r: Self)
        ensures
            r.is_valid == (sg1.valid && sg2.valid && sg3.valid && sg4.valid),
            r.total_latency_us == total_latency_us,
    {
        let is_valid = sg1.is_valid() && sg2.is_valid() && sg3.is_valid() && sg4.is_valid();
        GateValidationResult { is_valid, sg1_result: sg1, sg2_result: sg2, sg3_result: sg3, sg4_result: sg4, total_latency_us }
    }
}

/// A request to run the gates, with the key its result is cached under.
pub struct GateValidationRequest {
    pub cache_key: String,
    pub batch: Option<BatchCommand>,
    pub permission_request: Option<PermissionRequest>,
}

proof fn lemma_leaf_prefix_le(b: BatchCommand, n: int)
    requires
        0 <= n <= b.commands@.len(),
    ensures
        leaf_count_prefix(b, n) <= leaf_count(b),
    decreases b.commands@.len() - n,
{
    if n < b.commands@.len() {
        lemma_leaf_prefix_le(b, n + 1);
    }
}

} // verus!
