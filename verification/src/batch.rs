//! Batches of instructions that may nest other batches: validation,
//! counting, status and the hash chain that makes them auditable.

use vstd::prelude::*;
use crate::bytes::{append_bytes, sha256, sha256_digest, hex_lower, to_hex_lower, u32_ne_bytes, usize_ne_bytes};
use crate::error::EngineError;
use crate::text::owned;
use vstd::string::StringSliceAdditionalSpecFns;
use vstd::utf8::encode_utf8;
use crate::json::{Json, JsonView, json_view};
use crate::schema::{json_to_vec, serialized_json};

verus! {

/// The state of a finished batch.
#[derive(Debug, Clone, Copy, PartialEq, Eq, Structural)]
pub enum BatchStatus {
    Success,
    Failed,
    PartialFailure,
}

impl BatchStatus {
    /// The label a batch status is displayed with.
    pub fn label(&self) -> (s: &'static str)
        ensures
            s@ == match *self {
                BatchStatus::Success => "SUCCESS"@,
                BatchStatus::Failed => "FAILED"@,
                BatchStatus::PartialFailure => "PARTIAL_FAILURE"@,
            },
    {
        match self {
            BatchStatus::Success => "SUCCESS",
            BatchStatus::Failed => "FAILED",
            BatchStatus::PartialFailure => "PARTIAL_FAILURE",
        }
    }
}

/// Where a batch sits in a nesting.
pub struct NestingLevel {
    pub depth: u32,
    pub parent_batch_id: Option<String>,
    pub batch_id: String,
}

/// The kind of a simple instruction.
#[derive(Debug, Clone, Copy, PartialEq, Eq, Structural)]
pub enum InstructionType {
    Read,
    Write,
}

/// One simple instruction; the payload is JSON text.
pub struct ExecuteRequest {
    pub trace_id: String,
    pub execution_id: String,
    pub instruction_type: InstructionType,
    pub payload: String,
    pub timestamp: String,
}

/// A batch nested in another batch.
pub struct NestedBatchInstruction {
    pub nested_batch_id: String,
    pub trace_id: String,
    pub depth: u32,
    pub atomic: bool,
    pub instructions: Vec<BatchInstruction>,
}

/// An instruction of a batch: simple, or a nested batch.
pub enum BatchInstruction {
    Simple(ExecuteRequest),
    Nested(NestedBatchInstruction),
}

impl BatchInstruction {
    pub fn trace_id(&self) -> (t: &str)
        ensures
            t@ == match self {
                BatchInstruction::Simple(r) => r.trace_id@,
                BatchInstruction::Nested(n) => n.trace_id@,
            },
    {
        match self {
            BatchInstruction::Simple(req) => req.trace_id.as_str(),
            BatchInstruction::Nested(nested) => nested.trace_id.as_str(),
        }
    }

    pub fn depth(&self) -> (d: u32)
        ensures
            d == match self {
                BatchInstruction::Simple(_) => 0,
                BatchInstruction::Nested(n) => n.depth,
            },
    {
        match self {
            BatchInstruction::Simple(_) => 0,
            BatchInstruction::Nested(nested) => nested.depth,
        }
    }
}

/// Why a batch request is refused.
#[derive(Debug, PartialEq, Eq)]
pub enum BatchValidationError {
    InvalidTraceId,
    InvalidBatchId,
    EmptyInstructions,
    MaxDepthExceeded(u32, u32),
    DuplicateBatchId(String),
    ParentBatchNotFound(String),
}

/// Why a batch failed.
#[derive(Debug)]
pub enum BatchError {
    Validation(BatchValidationError),
    AtomicFailure(EngineError),
    RollbackFailed(EngineError),
    NestedExecutionFailed(String),
    HashVerificationFailed { expected: String, actual: String },
}

/// A request to execute a batch.
pub struct BatchExecuteRequest {
    pub trace_id: String,
    pub batch_id: String,
    pub instructions: Vec<BatchInstruction>,
    pub atomic: bool,
    pub max_depth: u32,
    pub timestamp: String,
    pub parent_batch_id: Option<String>,
    pub current_depth: u32,
}

/// The current UTC time in RFC 3339 form: `SystemTime::now()` read as a
/// duration since the Unix epoch (zero when the clock reads before it), made a
/// chrono `DateTime<Utc>` by `DateTime::from_timestamp` and written by
/// `to_rfc3339`; empty when chrono cannot represent the time. Nothing is
/// promised of the text, which depends on the clock.
#[verifier::external_body]
pub(crate) fn now_rfc3339() -> String {
    let d = std::time::SystemTime::now().duration_since(std::time::UNIX_EPOCH).unwrap_or_default();
    let secs = i64::try_from(d.as_secs()).unwrap_or(i64::MAX);
    chrono::DateTime::from_timestamp(secs, d.subsec_nanos()).map(|t| t.to_rfc3339()).unwrap_or_default()
}

/// The current UTC time in whole seconds since the Unix epoch, from
/// `SystemTime::now()`: zero when the clock reads before the epoch, `i64::MAX`
/// beyond what an `i64` holds. Nothing is promised of the value, which depends
/// on the clock.
#[verifier::external_body]
pub(crate) fn now_timestamp_secs() -> i64 {
    let d = std::time::SystemTime::now().duration_since(std::time::UNIX_EPOCH).unwrap_or_default();
    i64::try_from(d.as_secs()).unwrap_or(i64::MAX)
}

/// The first nested instruction whose depth reaches `max_depth`, if any.
pub open spec fn first_too_deep(instrs: Seq<BatchInstruction>, max_depth: u32) -> Option<u32>
    decreases instrs.len(),
{
    if instrs.len() == 0 {
        None
    } else {
        match instrs[0] {
            BatchInstruction::Nested(n) => if n.depth >= max_depth {
                Some(n.depth)
            } else {
                first_too_deep(instrs.drop_first(), max_depth)
            },
            _ => first_too_deep(instrs.drop_first(), max_depth),
        }
    }
}

/// What `validate` answers for a request.
pub open spec fn validation_outcome(r: BatchExecuteRequest) -> Result<(), BatchValidationError> {
    if r.trace_id@.len() == 0 {
        Err(BatchValidationError::InvalidTraceId)
    } else if r.batch_id@.len() == 0 {
        Err(BatchValidationError::InvalidBatchId)
    } else if r.instructions@.len() == 0 {
        Err(BatchValidationError::EmptyInstructions)
    } else if r.current_depth >= r.max_depth {
        Err(BatchValidationError::MaxDepthExceeded(r.current_depth, r.max_depth))
    } else {
        match first_too_deep(r.instructions@, r.max_depth) {
            Some(d) => Err(BatchValidationError::MaxDepthExceeded(d, r.max_depth)),
            None => Ok(()),
        }
    }
}

/// The number of simple instructions in a nested batch, counting into the
/// batches it nests in turn.
pub open spec fn nested_leaves(n: NestedBatchInstruction) -> nat
    decreases n, n.instructions@.len() + 1,
{
    nested_leaves_prefix(n, n.instructions@.len() as int)
}

/// The simple instructions among the first `k` entries of a nested batch,
/// nesting expanded.
pub open spec fn nested_leaves_prefix(n: NestedBatchInstruction, k: int) -> nat
    decreases n, k,
{
    if k <= 0 || k > n.instructions@.len() {
        0
    } else {
        nested_leaves_prefix(n, k - 1) + match n.instructions@[k - 1] {
            BatchInstruction::Simple(_) => 1,
            BatchInstruction::Nested(m) => nested_leaves(m),
        }
    }
}

/// How many simple instructions an entry stands for: one for a simple
/// instruction, every simple instruction inside a nested batch at any depth.
pub open spec fn entry_count(i: BatchInstruction) -> nat {
    match i {
        BatchInstruction::Simple(_) => 1,
        BatchInstruction::Nested(n) => nested_leaves(n),
    }
}

/// The flattened count of a list of entries.
pub open spec fn instruction_count(instrs: Seq<BatchInstruction>) -> nat
    decreases instrs.len(),
{
    if instrs.len() == 0 {
        0
    } else {
        instruction_count(instrs.drop_last()) + entry_count(instrs.last())
    }
}

proof fn lemma_nested_prefix_le(n: NestedBatchInstruction, k: int)
    requires
        0 <= k <= n.instructions@.len(),
    ensures
        nested_leaves_prefix(n, k) <= nested_leaves(n),
    decreases n.instructions@.len() - k,
{
    if k < n.instructions@.len() {
        lemma_nested_prefix_le(n, k + 1);
    }
}

proof fn lemma_first_too_deep_step(instrs: Seq<BatchInstruction>, i: int, max_depth: u32)
    requires
        0 <= i < instrs.len(),
        !(instrs[i] matches BatchInstruction::Nested(n) && n.depth >= max_depth),
    ensures
        first_too_deep(instrs.subrange(i, instrs.len() as int), max_depth) == first_too_deep(
            instrs.subrange(i + 1, instrs.len() as int),
            max_depth,
        ),
{
    let s = instrs.subrange(i, instrs.len() as int);
    assert(s[0] == instrs[i]);
    assert(s.drop_first() =~= instrs.subrange(i + 1, instrs.len() as int));
}

impl BatchExecuteRequest {
    /// A top-level batch request: depth 0, no parent, at most 10 levels.
    pub fn new(trace_id: String, batch_id: String, instructions: Vec<BatchInstruction>, atomic: bool) -> (r: Self)
        ensures
            r.trace_id == trace_id,
            r.batch_id == batch_id,
            r.instructions == instructions,
            r.atomic == atomic,
            r.max_depth == 10,
            r.parent_batch_id is None,
            r.current_depth == 0,
    {
        BatchExecuteRequest {
            trace_id,
            batch_id,
            instructions,
            atomic,
            max_depth: 10,
            timestamp: now_rfc3339(),
            parent_batch_id: None,
            current_depth: 0,
        }
    }

    /// A request for a nested batch at `current_depth` under `parent_batch_id`.
    pub fn new_nested(
        trace_id: String,
        batch_id: String,
        parent_batch_id: String,
        instructions: Vec<BatchInstruction>,
        atomic: bool,
        current_depth: u32,
    ) -> (r: Self)
        ensures
            r.trace_id == trace_id,
            r.batch_id == batch_id,
            r.instructions == instructions,
            r.atomic == atomic,
            r.max_depth == 10,
            r.parent_batch_id == Some(parent_batch_id),
            r.current_depth == current_depth,
    {
        BatchExecuteRequest {
            trace_id,
            batch_id,
            instructions,
            atomic,
            max_depth: 10,
            timestamp: now_rfc3339(),
            parent_batch_id: Some(parent_batch_id),
            current_depth,
        }
    }

    /// Checks the ids, that there is work to do, and the depth limit of the
    /// request and of each directly nested batch.
    pub fn validate(&self) -> (r: Result<(), BatchValidationError>)
        ensures
            r == validation_outcome(*self),
    {
        if self.trace_id.as_str().is_empty() {
            return Err(BatchValidationError::InvalidTraceId);
        }
        if self.batch_id.as_str().is_empty() {
            return Err(BatchValidationError::InvalidBatchId);
        }
        if self.instructions.len() == 0 {
            return Err(BatchValidationError::EmptyInstructions);
        }
        if self.current_depth >= self.max_depth {
            return Err(BatchValidationError::MaxDepthExceeded(self.current_depth, self.max_depth));
        }
        let ghost all = self.instructions@;
        let mut i: usize = 0;
        assert(all.subrange(0, all.len() as int) =~= all);
        while i < self.instructions.len()
            invariant
                all == self.instructions@,
                self.trace_id@.len() > 0,
                self.batch_id@.len() > 0,
                all.len() > 0,
                self.current_depth < self.max_depth,
                i <= all.len(),
                first_too_deep(all, self.max_depth) == first_too_deep(
                    all.subrange(i as int, all.len() as int),
                    self.max_depth,
                ),
            decreases all.len() - i,
        {
            match &self.instructions[i] {
                BatchInstruction::Nested(nested) => {
                    if nested.depth >= self.max_depth {
                        let ghost s = all.subrange(i as int, all.len() as int);
                        assert(s[0] == all[i as int]);
                        return Err(BatchValidationError::MaxDepthExceeded(nested.depth, self.max_depth));
                    }
                },
                BatchInstruction::Simple(_) => {},
            }
            proof {
                lemma_first_too_deep_step(all, i as int, self.max_depth);
            }
            i = i + 1;
        }
        assert(all.subrange(all.len() as int, all.len() as int).len() == 0);
        Ok(())
    }

    /// The number of simple instructions, nesting fully expanded.
    pub fn total_instruction_count(&self) -> (n: usize)
        requires
            instruction_count(self.instructions@) <= usize::MAX,
        ensures
            n == instruction_count(self.instructions@),
    {
        self.count_instructions_recursive(&self.instructions)
    }

    fn count_instructions_recursive(&self, instructions: &Vec<BatchInstruction>) -> (n: usize)
        requires
            instruction_count(instructions@) <= usize::MAX,
        ensures
            n == instruction_count(instructions@),
    {
        let mut count: usize = 0;
        let mut i: usize = 0;
        while i < instructions.len()
            invariant
                i <= instructions@.len(),
                instruction_count(instructions@) <= usize::MAX,
                count == instruction_count(instructions@.subrange(0, i as int)),
            decreases instructions@.len() - i,
        {
            proof {
                lemma_count_prefix_le(instructions@, i + 1);
                assert(instructions@.subrange(0, i + 1).drop_last() =~= instructions@.subrange(0, i as int));
            }
            match &instructions[i] {
                BatchInstruction::Simple(_) => {
                    count = count + 1;
                },
                BatchInstruction::Nested(nested) => {
                    let c = count_nested(nested);
                    count = count + c;
                },
            }
            i = i + 1;
        }
        assert(instructions@.subrange(0, instructions@.len() as int) =~= instructions@);
        count
    }
}

/// The simple instructions of a nested batch, at any depth.
fn count_nested(n: &NestedBatchInstruction) -> (c: usize)
    requires
        nested_leaves(*n) <= usize::MAX,
    ensures
        c == nested_leaves(*n),
    decreases *n,
{
    let mut count: usize = 0;
    let mut i: usize = 0;
    while i < n.instructions.len()
        invariant
            i <= n.instructions@.len(),
            nested_leaves(*n) <= usize::MAX,
            count == nested_leaves_prefix(*n, i as int),
        decreases n.instructions@.len() - i,
    {
        proof {
            lemma_nested_prefix_le(*n, i + 1);
        }
        match &n.instructions[i] {
            BatchInstruction::Simple(_) => {
                count = count + 1;
            },
            BatchInstruction::Nested(m) => {
                let c = count_nested(m);
                count = count + c;
            },
        }
        i = i + 1;
    }
    count
}

proof fn lemma_count_prefix_le(s: Seq<BatchInstruction>, k: int)
    requires
        0 <= k <= s.len(),
    ensures
        instruction_count(s.subrange(0, k)) <= instruction_count(s),
    decreases s.len() - k,
{
    if k < s.len() {
        lemma_count_prefix_le(s, k + 1);
        assert(s.subrange(0, k + 1).drop_last() =~= s.subrange(0, k));
    } else {
        assert(s.subrange(0, k) =~= s);
    }
}

/// The result of one executed instruction.
pub struct ExecutionResult {
    pub execution_id: String,
    pub success: bool,
    pub output: String,
}

impl ExecutionResult {
    pub fn is_success(&self) -> (b: bool)
        ensures
            b == self.success,
    {
        self.success
    }
}

/// Some result of the list succeeded.
pub open spec fn any_success(results: Seq<ExecutionResult>) -> bool {
    exists|i: int| 0 <= i < results.len() && results[i].success
}

/// The status of a batch: success without failure; otherwise failed when
/// atomic, partial when some instruction still succeeded, failed when none did.
pub open spec fn batch_status(results: Seq<ExecutionResult>, has_failure: bool, atomic: bool) -> BatchStatus {
    if !has_failure {
        BatchStatus::Success
    } else if atomic {
        BatchStatus::Failed
    } else if any_success(results) {
        BatchStatus::PartialFailure
    } else {
        BatchStatus::Failed
    }
}

/// A batch with no failure succeeds; a failed batch is partial exactly when
/// it is not atomic and some instruction still succeeded, and failed
/// otherwise: in particular it is never partial with no successful result.
pub proof fn law_batch_status(results: Seq<ExecutionResult>, has_failure: bool, atomic: bool)
    ensures
        !has_failure ==> batch_status(results, has_failure, atomic) == BatchStatus::Success,
        batch_status(results, has_failure, atomic) == BatchStatus::PartialFailure <==> (has_failure && !atomic
            && exists|i: int| 0 <= i < results.len() && #[trigger] results[i].success),
        has_failure && (atomic || forall|i: int| 0 <= i < results.len() ==> !#[trigger] results[i].success)
            ==> batch_status(results, has_failure, atomic) == BatchStatus::Failed,
{
}

/// Runs batches, nesting at most `max_depth` levels.
pub struct BatchExecutor {
    pub max_depth: u32,
}

impl BatchExecutor {
    pub fn new() -> (e: Self)
        ensures
            e.max_depth == 10,
    {
        BatchExecutor { max_depth: 10 }
    }

    pub fn with_max_depth(max_depth: u32) -> (e: Self)
        ensures
            e.max_depth == max_depth,
    {
        BatchExecutor { max_depth }
    }

    pub fn determine_batch_status(&self, results: &Vec<ExecutionResult>, has_failure: bool, atomic: bool) -> (s: BatchStatus)
        ensures
            s == batch_status(results@, has_failure, atomic),
    {
        if !has_failure {
            BatchStatus::Success
        } else if atomic {
            BatchStatus::Failed
        } else {
            let mut i: usize = 0;
            while i < results.len()
                invariant
                    has_failure,
                    !atomic,
                    i <= results@.len(),
                    forall|j: int| 0 <= j < i ==> !results@[j].success,
                decreases results@.len() - i,
            {
                if results[i].is_success() {
                    assert(results@[i as int].success);
                    return BatchStatus::PartialFailure;
                }
                i = i + 1;
            }
            BatchStatus::Failed
        }
    }

    /// Whether a nested batch at `depth` may run under this executor.
    pub fn check_nested_depth(&self, depth: u32) -> (r: Result<(), BatchError>)
        ensures
            r is Ok <==> depth < self.max_depth,
            r is Err ==> (r matches Err(BatchError::Validation(BatchValidationError::MaxDepthExceeded(d, m)))
                && d == depth && m == self.max_depth),
    {
        if depth >= self.max_depth {
            return Err(BatchError::Validation(BatchValidationError::MaxDepthExceeded(depth, self.max_depth)));
        }
        Ok(())
    }

    /// The order in which executed instructions are undone: last first.
    pub fn rollback_order(&self, executed: usize) -> (order: Vec<usize>)
        ensures
            order@.len() == executed,
            forall|k: int| 0 <= k < executed ==> order@[k] == executed - 1 - k,
    {
        let mut order: Vec<usize> = Vec::new();
        let mut k: usize = executed;
        while k > 0
            invariant
                k <= executed,
                order@.len() == executed - k,
                forall|j: int| 0 <= j < executed - k ==> order@[j] == executed - 1 - j,
            decreases k,
        {
            k = k - 1;
            order.push(k);
        }
        order
    }
}

/// A SHA-256 digest in lowercase hex: 64 hex digits.
pub open spec fn is_hex_digest(s: Seq<char>) -> bool {
    s.len() == 64 && forall|i: int| 0 <= i < s.len() ==> is_ascii_hexdigit(#[trigger] s[i])
}

pub open spec fn is_ascii_hexdigit(c: char) -> bool {
    ('0' <= c <= '9') || ('a' <= c <= 'f') || ('A' <= c <= 'F')
}

/// Links a batch's hash to its parent and children, for audits.
pub struct BatchHashChain {
    pub depth: u32,
    pub hash: String,
    pub parent_hash: Option<String>,
    pub child_hashes: Vec<String>,
}

impl BatchHashChain {
    /// The chain is intact when it has a hash of its own and names a hash
    /// for every child; the hash texts themselves are whatever the batches
    /// carry.
    pub fn verify_chain(&self) -> (b: bool)
        ensures
            b == chain_intact(*self),
    {
        if self.hash.as_str().is_empty() {
            return false;
        }
        let mut i: usize = 0;
        while i < self.child_hashes.len()
            invariant
                i <= self.child_hashes@.len(),
                self.hash@.len() > 0,
                forall|j: int| 0 <= j < i ==> (#[trigger] self.child_hashes@[j])@.len() > 0,
            decreases self.child_hashes@.len() - i,
        {
            if self.child_hashes[i].as_str().is_empty() {
                return false;
            }
            i = i + 1;
        }
        true
    }
}

/// A chain's own hash is present and no child hash is empty.
pub open spec fn chain_intact(c: BatchHashChain) -> bool {
    &&& c.hash@.len() > 0
    &&& forall|j: int| 0 <= j < c.child_hashes@.len() ==> (#[trigger] c.child_hashes@[j])@.len() > 0
}

/// What a nested batch produced: its id and depth, its status, its results,
/// its hash and the batches nested in it.
pub struct NestedBatchResult {
    pub batch_id: String,
    pub depth: u32,
    pub status: BatchStatus,
    pub results: Vec<ExecutionResult>,
    pub batch_hash: String,
    pub nested_results: Vec<NestedBatchResult>,
}

/// What a batch produced.
pub struct BatchExecuteResult {
    pub trace_id: String,
    pub batch_id: String,
    pub status: BatchStatus,
    pub results: Vec<ExecutionResult>,
    pub nested_results: Vec<NestedBatchResult>,
    pub batch_hash: String,
    pub timestamp: String,
    pub total_instructions: usize,
    pub max_depth_reached: u32,
}

impl BatchExecuteResult {
    /// A result with `status`, stamped now, with no nested results and depth 0;
    /// the instruction count is the number of results.
    fn with_status(trace_id: String, batch_id: String, results: Vec<ExecutionResult>, batch_hash: String, status: BatchStatus) -> (r: Self)
        ensures
            r.trace_id == trace_id,
            r.batch_id == batch_id,
            r.status == status,
            r.results == results,
            r.nested_results@.len() == 0,
            r.batch_hash == batch_hash,
            r.total_instructions == results@.len(),
            r.max_depth_reached == 0,
    {
        let n = results.len();
        BatchExecuteResult {
            trace_id,
            batch_id,
            status,
            results,
            nested_results: Vec::new(),
            batch_hash,
            timestamp: now_rfc3339(),
            total_instructions: n,
            max_depth_reached: 0,
        }
    }

    /// A successful batch.
    pub fn success(trace_id: String, batch_id: String, results: Vec<ExecutionResult>, batch_hash: String) -> (r: Self)
        ensures
            r.trace_id == trace_id,
            r.batch_id == batch_id,
            r.status == BatchStatus::Success,
            r.results == results,
            r.nested_results@.len() == 0,
            r.batch_hash == batch_hash,
            r.total_instructions == results@.len(),
            r.max_depth_reached == 0,
    {
        Self::with_status(trace_id, batch_id, results, batch_hash, BatchStatus::Success)
    }

    /// A failed batch.
    pub fn failed(trace_id: String, batch_id: String, results: Vec<ExecutionResult>, batch_hash: String) -> (r: Self)
        ensures
            r.trace_id == trace_id,
            r.batch_id == batch_id,
            r.status == BatchStatus::Failed,
            r.results == results,
            r.nested_results@.len() == 0,
            r.batch_hash == batch_hash,
            r.total_instructions == results@.len(),
            r.max_depth_reached == 0,
    {
        Self::with_status(trace_id, batch_id, results, batch_hash, BatchStatus::Failed)
    }

    /// A batch in which some instructions failed and others succeeded.
    pub fn partial_failure(trace_id: String, batch_id: String, results: Vec<ExecutionResult>, batch_hash: String) -> (r:
        Self)
        ensures
            r.trace_id == trace_id,
            r.batch_id == batch_id,
            r.status == BatchStatus::PartialFailure,
            r.results == results,
            r.nested_results@.len() == 0,
            r.batch_hash == batch_hash,
            r.total_instructions == results@.len(),
            r.max_depth_reached == 0,
    {
        Self::with_status(trace_id, batch_id, results, batch_hash, BatchStatus::PartialFailure)
    }
}

fn nested_hashes(nested: &Vec<NestedBatchResult>) -> (hs: Vec<String>)
    ensures
        hs@.len() == nested@.len(),
        forall|i: int| 0 <= i < nested@.len() ==> (#[trigger] hs@[i])@ == nested@[i].batch_hash@,
{
    let mut hs: Vec<String> = Vec::new();
    let mut i: usize = 0;
    while i < nested.len()
        invariant
            i <= nested@.len(),
            hs@.len() == i,
            forall|j: int| 0 <= j < i ==> (#[trigger] hs@[j])@ == nested@[j].batch_hash@,
        decreases nested@.len() - i,
    {
        hs.push(nested[i].batch_hash.clone());
        i = i + 1;
    }
    hs
}

impl BatchHashChain {
    /// The chain of a top-level batch: depth 0, no parent, its nested batches' hashes.
    pub fn from_batch_result(result: &BatchExecuteResult) -> (c: Self)
        ensures
            c.depth == 0,
            c.hash == result.batch_hash,
            c.parent_hash is None,
            c.child_hashes@.len() == result.nested_results@.len(),
            forall|i: int|
                0 <= i < c.child_hashes@.len() ==> (#[trigger] c.child_hashes@[i])@ == result.nested_results@[i].batch_hash@,
    {
        BatchHashChain {
            depth: 0,
            hash: result.batch_hash.clone(),
            parent_hash: None,
            child_hashes: nested_hashes(&result.nested_results),
        }
    }

    /// The chain of a nested batch under `parent_hash`.
    pub fn from_nested_result(nested_result: &NestedBatchResult, parent_hash: Option<String>) -> (c: Self)
        ensures
            c.depth == nested_result.depth,
            c.hash == nested_result.batch_hash,
            c.parent_hash == parent_hash,
            c.child_hashes@.len() == nested_result.nested_results@.len(),
            forall|i: int|
                0 <= i < c.child_hashes@.len() ==> (#[trigger] c.child_hashes@[i])@
                    == nested_result.nested_results@[i].batch_hash@,
    {
        BatchHashChain {
            depth: nested_result.depth,
            hash: nested_result.batch_hash.clone(),
            parent_hash,
            child_hashes: nested_hashes(&nested_result.nested_results),
        }
    }
}

/// The hash that links a nested batch to its parent: SHA-256 over the parent
/// hash, the nested batch id, the nested hash and the depth in machine byte order.
pub fn compute_nested_batch_hash(parent_hash: &str, nested_batch_id: &str, nested_hash: &str, depth: u32) -> (h: String)
    ensures
        exists|d: Seq<u8>|
            d.len() == 4 && h@ == hex_lower(
                sha256_digest(parent_hash.spec_bytes() + nested_batch_id.spec_bytes() + nested_hash.spec_bytes() + d),
            ),
        is_hex_digest(h@),
{
    let mut data: Vec<u8> = Vec::new();
    append_bytes(&mut data, parent_hash.as_bytes());
    append_bytes(&mut data, nested_batch_id.as_bytes());
    append_bytes(&mut data, nested_hash.as_bytes());
    let d = u32_ne_bytes(depth);
    append_bytes(&mut data, d.as_slice());
    let digest = sha256(data.as_slice());
    let h = to_hex_lower(digest.as_slice());
    proof {
        lemma_hex_is_digest(digest@);
    }
    h
}

pub proof fn lemma_hex_is_digest(b: Seq<u8>)
    requires
        b.len() == 32,
    ensures
        is_hex_digest(hex_lower(b)),
{
    lemma_hex_chars(b);
}

proof fn lemma_hex_chars(b: Seq<u8>)
    ensures
        hex_lower(b).len() == 2 * b.len(),
        forall|i: int| 0 <= i < hex_lower(b).len() ==> is_ascii_hexdigit(#[trigger] hex_lower(b)[i]),
    decreases b.len(),
{
    if b.len() > 0 {
        lemma_hex_chars(b.drop_last());
        let hi = (b.last() / 16) as nat;
        let lo = (b.last() % 16) as nat;
        assert(is_ascii_hexdigit(crate::bytes::hex_char(hi)));
        assert(is_ascii_hexdigit(crate::bytes::hex_char(lo)));
    }
}

/// Chains per-instruction hashes: each step hashes the previous 32-byte state,
/// the index in machine byte order and the instruction's hash text; the chain
/// starts from 32 zero bytes and is printed in lowercase hex.
pub fn chain_instruction_hashes(instruction_hashes: &Vec<String>) -> (h: String)
    ensures
        h@.len() == 64,
        instruction_hashes@.len() == 0 ==> h@ == hex_lower(Seq::new(32, |i: int| 0u8)),
{
    let mut current: Vec<u8> = Vec::new();
    let mut k: usize = 0;
    while k < 32
        invariant
            k <= 32,
            current@ == Seq::new(k as nat, |i: int| 0u8),
        decreases 32 - k,
    {
        current.push(0u8);
        assert(current@ =~= Seq::new((k + 1) as nat, |i: int| 0u8));
        k = k + 1;
    }
    let mut i: usize = 0;
    while i < instruction_hashes.len()
        invariant
            i <= instruction_hashes@.len(),
            current@.len() == 32,
            i == 0 ==> current@ == Seq::new(32, |i: int| 0u8),
        decreases instruction_hashes@.len() - i,
    {
        let mut data: Vec<u8> = Vec::new();
        append_bytes(&mut data, current.as_slice());
        let idx = usize_ne_bytes(i);
        append_bytes(&mut data, idx.as_slice());
        append_bytes(&mut data, instruction_hashes[i].as_str().as_bytes());
        current = sha256(data.as_slice());
        i = i + 1;
    }
    to_hex_lower(current.as_slice())
}


/// A simple instruction as a JSON object, the value whose serde_json bytes are hashed.
pub open spec fn request_json(r: ExecuteRequest) -> JsonView {
    JsonView::Object(
        seq![
            ("trace_id"@, JsonView::Str(r.trace_id@)),
            ("execution_id"@, JsonView::Str(r.execution_id@)),
            ("instruction_type"@, JsonView::Str(match r.instruction_type {
                InstructionType::Read => "Read"@,
                InstructionType::Write => "Write"@,
            })),
            ("payload"@, JsonView::Str(r.payload@)),
            ("timestamp"@, JsonView::Str(r.timestamp@)),
        ],
    )
}

/// A result as a JSON object, the value whose serde_json bytes are hashed.
pub open spec fn result_json(r: ExecutionResult) -> JsonView {
    JsonView::Object(
        seq![
            ("execution_id"@, JsonView::Str(r.execution_id@)),
            ("success"@, JsonView::Bool(r.success)),
            ("output"@, JsonView::Str(r.output@)),
        ],
    )
}

fn request_json_value(r: &ExecuteRequest) -> (j: Json)
    ensures
        json_view(j) == request_json(*r),
{
    let kind = match r.instruction_type {
        InstructionType::Read => owned("Read"),
        InstructionType::Write => owned("Write"),
    };
    let v1 = Json::Str(owned(r.trace_id.as_str()));
    let v2 = Json::Str(owned(r.execution_id.as_str()));
    let v3 = Json::Str(kind);
    let v4 = Json::Str(owned(r.payload.as_str()));
    let v5 = Json::Str(owned(r.timestamp.as_str()));
    assert(json_view(v1) == JsonView::Str(r.trace_id@));
    assert(json_view(v2) == JsonView::Str(r.execution_id@));
    assert(json_view(v3) == JsonView::Str(kind@));
    assert(json_view(v4) == JsonView::Str(r.payload@));
    assert(json_view(v5) == JsonView::Str(r.timestamp@));
    let mut m: Vec<(String, Json)> = Vec::new();
    m.push((owned("trace_id"), v1));
    m.push((owned("execution_id"), v2));
    m.push((owned("instruction_type"), v3));
    m.push((owned("payload"), v4));
    m.push((owned("timestamp"), v5));
    let j = Json::Object(m);
    proof {
        reveal_strlit("trace_id");
        reveal_strlit("execution_id");
        reveal_strlit("instruction_type");
        reveal_strlit("payload");
        reveal_strlit("timestamp");
        reveal_strlit("Read");
        reveal_strlit("Write");
        assert(json_view(j)->Object_0 =~= request_json(*r)->Object_0);
    }
    j
}

fn result_json_value(r: &ExecutionResult) -> (j: Json)
    ensures
        json_view(j) == result_json(*r),
{
    let v1 = Json::Str(owned(r.execution_id.as_str()));
    let v2 = Json::Bool(r.success);
    let v3 = Json::Str(owned(r.output.as_str()));
    assert(json_view(v1) == JsonView::Str(r.execution_id@));
    assert(json_view(v2) == JsonView::Bool(r.success));
    assert(json_view(v3) == JsonView::Str(r.output@));
    let mut m: Vec<(String, Json)> = Vec::new();
    m.push((owned("execution_id"), v1));
    m.push((owned("success"), v2));
    m.push((owned("output"), v3));
    let j = Json::Object(m);
    proof {
        reveal_strlit("execution_id");
        reveal_strlit("success");
        reveal_strlit("output");
        assert(json_view(j)->Object_0 =~= result_json(*r)->Object_0);
    }
    j
}

/// The hash of a simple instruction: SHA-256 of its serde_json bytes, in lowercase hex.
pub open spec fn simple_hash(r: ExecuteRequest) -> Seq<char> {
    hex_lower(sha256_digest(serialized_json(request_json(r))))
}

fn request_hash(r: &ExecuteRequest) -> (h: String)
    ensures
        h@ == simple_hash(*r),
        is_hex_digest(h@),
{
    let bytes = json_to_vec(&request_json_value(r));
    let digest = sha256(bytes.as_slice());
    proof {
        lemma_hex_is_digest(digest@);
    }
    to_hex_lower(digest.as_slice())
}

fn nested_hash(n: &NestedBatchInstruction) -> (h: String)
    ensures
        is_hex_digest(h@),
    decreases *n,
{
    let mut data: Vec<u8> = Vec::new();
    append_bytes(&mut data, n.nested_batch_id.as_str().as_bytes());
    append_bytes(&mut data, n.trace_id.as_str().as_bytes());
    let d = u32_ne_bytes(n.depth);
    append_bytes(&mut data, d.as_slice());
    let mut i: usize = 0;
    while i < n.instructions.len()
        invariant
            i <= n.instructions@.len(),
        decreases n.instructions@.len() - i,
    {
        let sub = match &n.instructions[i] {
            BatchInstruction::Simple(r) => request_hash(r),
            BatchInstruction::Nested(m) => nested_hash(m),
        };
        append_bytes(&mut data, sub.as_str().as_bytes());
        i = i + 1;
    }
    let digest = sha256(data.as_slice());
    proof {
        lemma_hex_is_digest(digest@);
    }
    to_hex_lower(digest.as_slice())
}

/// The hash of an instruction: for a simple one, SHA-256 of its serde_json bytes;
/// for a nested batch, SHA-256 over its id, trace id, depth in machine byte
/// order and the hashes of its instructions in turn. Lowercase hex.
pub fn compute_instruction_hash(instruction: &BatchInstruction) -> (h: String)
    ensures
        is_hex_digest(h@),
        *instruction matches BatchInstruction::Simple(r) ==> h@ == simple_hash(r),
{
    match instruction {
        BatchInstruction::Simple(r) => request_hash(r),
        BatchInstruction::Nested(n) => nested_hash(n),
    }
}

/// The hashes of a list of instructions, chained in order.
pub fn compute_instructions_hash(instructions: &Vec<BatchInstruction>) -> (h: String)
    ensures
        h@.len() == 64,
        instructions@.len() == 0 ==> h@ == hex_lower(Seq::new(32, |i: int| 0u8)),
{
    let mut hashes: Vec<String> = Vec::new();
    let mut i: usize = 0;
    while i < instructions.len()
        invariant
            i <= instructions@.len(),
            hashes@.len() == i,
        decreases instructions@.len() - i,
    {
        hashes.push(compute_instruction_hash(&instructions[i]));
        i = i + 1;
    }
    chain_instruction_hashes(&hashes)
}

/// The hash of a list of results: SHA-256 over each result's index in
/// machine byte order followed by its serde_json bytes. Lowercase hex.
pub fn compute_results_hash(results: &Vec<ExecutionResult>) -> (h: String)
    ensures
        is_hex_digest(h@),
        results@.len() == 0 ==> h@ == hex_lower(sha256_digest(Seq::empty())),
{
    let mut data: Vec<u8> = Vec::new();
    let mut i: usize = 0;
    while i < results.len()
        invariant
            i <= results@.len(),
            i == 0 ==> data@ == Seq::<u8>::empty(),
        decreases results@.len() - i,
    {
        let idx = usize_ne_bytes(i);
        append_bytes(&mut data, idx.as_slice());
        let bytes = json_to_vec(&result_json_value(&results[i]));
        append_bytes(&mut data, bytes.as_slice());
        i = i + 1;
    }
    let digest = sha256(data.as_slice());
    proof {
        lemma_hex_is_digest(digest@);
    }
    to_hex_lower(digest.as_slice())
}

/// The hash of a batch: SHA-256 over the text of its instructions' chained
/// hash followed by the text of its results' hash. Lowercase hex.
pub fn compute_batch_hash(instructions: &Vec<BatchInstruction>, results: &Vec<ExecutionResult>) -> (h: String)
    ensures
        is_hex_digest(h@),
        exists|ih: Seq<char>, rh: Seq<char>|
            ih.len() == 64 && is_hex_digest(rh) && h@ == #[trigger] hex_lower(sha256_digest(encode_utf8(ih) + encode_utf8(rh))),
{
    let ih = compute_instructions_hash(instructions);
    let rh = compute_results_hash(results);
    let mut data: Vec<u8> = Vec::new();
    append_bytes(&mut data, ih.as_str().as_bytes());
    append_bytes(&mut data, rh.as_str().as_bytes());
    let digest = sha256(data.as_slice());
    proof {
        lemma_hex_is_digest(digest@);
    }
    let h = to_hex_lower(digest.as_slice());
    assert(h@ == hex_lower(sha256_digest(encode_utf8(ih@) + encode_utf8(rh@))));
    h
}

/// Checks a batch against the hash it was recorded with: `Ok(true)` when the
/// hash computed now is `expected_hash`, otherwise an error naming both.
pub fn verify_batch_hash(instructions: &Vec<BatchInstruction>, results: &Vec<ExecutionResult>, expected_hash: &str) -> (r:
    Result<bool, BatchError>)
    ensures
        r is Ok ==> r == Ok::<bool, BatchError>(true),
        r matches Err(BatchError::HashVerificationFailed { expected, actual }) ==> expected@ == expected_hash@
            && actual@ != expected_hash@ && is_hex_digest(actual@),
        r is Err ==> r->Err_0 is HashVerificationFailed,
        !is_hex_digest(expected_hash@) ==> r is Err,
{
    let computed = compute_batch_hash(instructions, results);
    if crate::text::str_eq(computed.as_str(), expected_hash) {
        Ok(true)
    } else {
        Err(BatchError::HashVerificationFailed { expected: owned(expected_hash), actual: computed })
    }
}


/// Every level of a nested result, itself and all nested in it, carries a
/// hash of 64 lowercase-or-uppercase hex digits.
pub open spec fn levels_hex(n: NestedBatchResult) -> bool
    decreases n, n.nested_results@.len() + 1,
{
    is_hex_digest(n.batch_hash@) && children_hex(n, n.nested_results@.len() as int)
}

/// The first `k` results nested in `n` satisfy `levels_hex`.
pub open spec fn children_hex(n: NestedBatchResult, k: int) -> bool
    decreases n, k,
{
    if k <= 0 || k > n.nested_results@.len() {
        true
    } else {
        children_hex(n, k - 1) && levels_hex(n.nested_results@[k - 1])
    }
}

/// Some level of `n` carries the hash `h`.
pub open spec fn has_level_hash(n: NestedBatchResult, h: Seq<char>) -> bool
    decreases n, n.nested_results@.len() + 1,
{
    n.batch_hash@ == h || children_have_hash(n, n.nested_results@.len() as int, h)
}

/// Some level of the first `k` results nested in `n` carries the hash `h`.
pub open spec fn children_have_hash(n: NestedBatchResult, k: int, h: Seq<char>) -> bool
    decreases n, k,
{
    if k <= 0 || k > n.nested_results@.len() {
        false
    } else {
        children_have_hash(n, k - 1, h) || has_level_hash(n.nested_results@[k - 1], h)
    }
}

proof fn lemma_children_have_hash(n: NestedBatchResult, j: int, k: int, h: Seq<char>)
    requires
        0 <= j < k <= n.nested_results@.len(),
        has_level_hash(n.nested_results@[j], h),
    ensures
        children_have_hash(n, k, h),
    decreases k,
{
    if j < k - 1 {
        lemma_children_have_hash(n, j, k - 1, h);
    }
}

/// The hash of a nested result: SHA-256 over its batch id, its depth in
/// machine byte order, the text of its results' hash and the texts of the
/// hashes of the results nested in it, in order. Lowercase hex.
pub fn compute_batch_hash_for_nested(nested_result: &NestedBatchResult) -> (h: String)
    ensures
        is_hex_digest(h@),
    decreases *nested_result,
{
    let mut data: Vec<u8> = Vec::new();
    append_bytes(&mut data, nested_result.batch_id.as_str().as_bytes());
    let d = u32_ne_bytes(nested_result.depth);
    append_bytes(&mut data, d.as_slice());
    let rh = compute_results_hash(&nested_result.results);
    append_bytes(&mut data, rh.as_str().as_bytes());
    let mut i: usize = 0;
    while i < nested_result.nested_results.len()
        invariant
            i <= nested_result.nested_results@.len(),
        decreases nested_result.nested_results@.len() - i,
    {
        let ch = compute_batch_hash_for_nested(&nested_result.nested_results[i]);
        append_bytes(&mut data, ch.as_str().as_bytes());
        i = i + 1;
    }
    let digest = sha256(data.as_slice());
    proof {
        lemma_hex_is_digest(digest@);
    }
    to_hex_lower(digest.as_slice())
}

/// Checks every level of a nested result, itself first and then each nested
/// result in order, against the hash recomputed from its contents: `Ok(true)`
/// when all agree; otherwise the first level that does not, with its recorded
/// and its recomputed hash. A level whose recorded hash is not a hex digest
/// never agrees.
pub fn verify_nested_batch_hash(nested_result: &NestedBatchResult, parent_hash: &str) -> (r: Result<bool, BatchError>)
    ensures
        r is Ok ==> r == Ok::<bool, BatchError>(true) && levels_hex(*nested_result),
        r is Err ==> (r matches Err(BatchError::HashVerificationFailed { expected, actual }) && is_hex_digest(actual@)
            && actual@ != expected@ && has_level_hash(*nested_result, expected@)),
        !is_hex_digest(nested_result.batch_hash@) ==> (r matches Err(BatchError::HashVerificationFailed { expected, actual })
            && expected@ == nested_result.batch_hash@),
    decreases *nested_result,
{
    let computed = compute_batch_hash_for_nested(nested_result);
    if !crate::text::str_eq(computed.as_str(), nested_result.batch_hash.as_str()) {
        return Err(BatchError::HashVerificationFailed { expected: owned(nested_result.batch_hash.as_str()), actual: computed });
    }
    let mut i: usize = 0;
    while i < nested_result.nested_results.len()
        invariant
            i <= nested_result.nested_results@.len(),
            is_hex_digest(nested_result.batch_hash@),
            children_hex(*nested_result, i as int),
        decreases nested_result.nested_results@.len() - i,
    {
        match verify_nested_batch_hash(&nested_result.nested_results[i], nested_result.batch_hash.as_str()) {
            Ok(_) => {},
            Err(e) => {
                proof {
                    lemma_children_have_hash(
                        *nested_result,
                        i as int,
                        nested_result.nested_results@.len() as int,
                        e->HashVerificationFailed_expected@,
                    );
                }
                return Err(e);
            },
        }
        i = i + 1;
    }
    Ok(true)
}

} // verus!
