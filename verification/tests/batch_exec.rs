use rust_workflow_engine::batch::{
    compute_batch_hash, compute_instruction_hash, compute_instructions_hash, verify_batch_hash, BatchError,
    BatchExecuteRequest, BatchExecuteResult, BatchExecutor, BatchHashChain, BatchInstruction, BatchStatus,
    BatchValidationError, ExecuteRequest, ExecutionResult, InstructionType, NestedBatchInstruction, NestedBatchResult,
};
use rust_workflow_engine::batch_run::{batch_start, BatchAction, BatchEvent};
use rust_workflow_engine::error::EngineError;

fn create_test_execute_request(execution_id: &str) -> ExecuteRequest {
    ExecuteRequest {
        trace_id: "trace_1".to_string(),
        execution_id: execution_id.to_string(),
        instruction_type: InstructionType::Read,
        payload: "{}".to_string(),
        timestamp: "2024-01-01T00:00:00+00:00".to_string(),
    }
}

fn ok_result(id: &str) -> ExecutionResult {
    ExecutionResult { execution_id: id.to_string(), success: true, output: "done".to_string() }
}

fn nested(id: &str, depth: u32, atomic: bool, instructions: Vec<BatchInstruction>) -> BatchInstruction {
    BatchInstruction::Nested(NestedBatchInstruction {
        nested_batch_id: id.to_string(),
        trace_id: "trace_1".to_string(),
        depth,
        atomic,
        instructions,
    })
}

#[test]
fn test_batch_execute_request_creation() {
    let instructions = vec![BatchInstruction::Simple(create_test_execute_request("exec_1"))];
    let request = BatchExecuteRequest::new("trace_1".to_string(), "batch_1".to_string(), instructions, true);
    assert_eq!(request.trace_id, "trace_1");
    assert_eq!(request.batch_id, "batch_1");
    assert_eq!(request.instructions.len(), 1);
    assert!(request.atomic);
    assert_eq!(request.current_depth, 0);
    assert!(request.parent_batch_id.is_none());
}

#[test]
fn test_nested_batch_instruction() {
    let nested_instructions = vec![
        BatchInstruction::Simple(create_test_execute_request("exec_1")),
        BatchInstruction::Simple(create_test_execute_request("exec_2")),
    ];
    let nested = NestedBatchInstruction {
        nested_batch_id: "nested_batch_1".to_string(),
        trace_id: "trace_1".to_string(),
        depth: 1,
        atomic: true,
        instructions: nested_instructions,
    };
    assert_eq!(nested.nested_batch_id, "nested_batch_1");
    assert_eq!(nested.depth, 1);
    assert_eq!(nested.instructions.len(), 2);
}

#[test]
fn test_batch_validation() {
    let request = BatchExecuteRequest::new(
        "trace_1".to_string(),
        "batch_1".to_string(),
        vec![BatchInstruction::Simple(create_test_execute_request("exec_1"))],
        true,
    );
    assert!(request.validate().is_ok());

    let request = BatchExecuteRequest::new("trace_1".to_string(), "batch_1".to_string(), vec![], true);
    assert!(request.validate().is_err());

    let request = BatchExecuteRequest::new(
        "".to_string(),
        "batch_1".to_string(),
        vec![BatchInstruction::Simple(create_test_execute_request("exec_1"))],
        true,
    );
    assert!(request.validate().is_err());
}

#[test]
fn test_nested_batch_request() {
    let nested_request = BatchExecuteRequest::new_nested(
        "trace_1".to_string(),
        "nested_batch_1".to_string(),
        "parent_batch_1".to_string(),
        vec![BatchInstruction::Simple(create_test_execute_request("exec_1"))],
        true,
        1,
    );
    assert_eq!(nested_request.current_depth, 1);
    assert_eq!(nested_request.parent_batch_id, Some("parent_batch_1".to_string()));
    assert!(nested_request.validate().is_ok());
}

#[test]
fn total_instruction_count_expands_every_level() {
    let inner = nested(
        "n2",
        2,
        true,
        vec![
            BatchInstruction::Simple(create_test_execute_request("a")),
            BatchInstruction::Simple(create_test_execute_request("b")),
        ],
    );
    let outer = nested("n1", 1, true, vec![BatchInstruction::Simple(create_test_execute_request("c")), inner]);
    let req = BatchExecuteRequest::new(
        "t".to_string(),
        "b".to_string(),
        vec![BatchInstruction::Simple(create_test_execute_request("d")), outer],
        true,
    );
    assert_eq!(req.total_instruction_count(), 4);
}

#[test]
fn test_hash_chain_building() {
    let result = BatchExecuteResult::success("trace_1".to_string(), "batch_1".to_string(), vec![], "test_hash".to_string());
    let chain = BatchHashChain::from_batch_result(&result);
    assert!(chain.verify_chain());
    assert_eq!(chain.depth, 0);
    assert!(chain.parent_hash.is_none());
}

#[test]
fn chain_without_hash_is_not_intact() {
    let chain = BatchHashChain { depth: 0, hash: String::new(), parent_hash: None, child_hashes: vec![] };
    assert!(!chain.verify_chain());
    let chain = BatchHashChain { depth: 1, hash: "h".to_string(), parent_hash: None, child_hashes: vec![String::new()] };
    assert!(!chain.verify_chain());
}

#[test]
fn test_instruction_hash() {
    let instruction = BatchInstruction::Simple(create_test_execute_request("exec_1"));
    let hash1 = compute_instruction_hash(&instruction);
    let hash2 = compute_instruction_hash(&instruction);
    assert_eq!(hash1, hash2);
    assert_eq!(hash1.len(), 64);
}

#[test]
fn test_instructions_hash_chain() {
    let a = BatchInstruction::Simple(create_test_execute_request("exec_1"));
    let mut w = create_test_execute_request("exec_2");
    w.instruction_type = InstructionType::Write;
    let b = BatchInstruction::Simple(w);
    let hash = compute_instructions_hash(&vec![a, b]);
    assert_eq!(hash.len(), 64);
    let a = BatchInstruction::Simple(create_test_execute_request("exec_1"));
    let mut w = create_test_execute_request("exec_2");
    w.instruction_type = InstructionType::Write;
    let b = BatchInstruction::Simple(w);
    let reversed_hash = compute_instructions_hash(&vec![b, a]);
    assert_ne!(hash, reversed_hash);
}

#[test]
fn test_nested_instruction_hash() {
    let n = nested("nested_1", 1, true, vec![BatchInstruction::Simple(create_test_execute_request("exec_1"))]);
    let hash = compute_instruction_hash(&n);
    assert_eq!(hash.len(), 64);
}

#[test]
fn test_batch_hash_verification() {
    let instructions = vec![BatchInstruction::Simple(create_test_execute_request("exec_1"))];
    let results = vec![ExecutionResult { execution_id: "exec_1".to_string(), success: true, output: "{\"result\":\"success\"}".to_string() }];
    let hash = compute_batch_hash(&instructions, &results);
    assert!(verify_batch_hash(&instructions, &results, &hash).is_ok());
    let tampered = vec![ExecutionResult { execution_id: "exec_1".to_string(), success: true, output: "{\"result\":\"tampered\"}".to_string() }];
    match verify_batch_hash(&instructions, &tampered, &hash) {
        Err(BatchError::HashVerificationFailed { expected, actual }) => {
            assert_eq!(expected, hash);
            assert_ne!(actual, hash);
        }
        other => panic!("unexpected {:?}", other),
    }
}

fn simple_req(atomic: bool, ids: &[&str]) -> BatchExecuteRequest {
    BatchExecuteRequest::new(
        "t".to_string(),
        "b".to_string(),
        ids.iter().map(|i| BatchInstruction::Simple(create_test_execute_request(i))).collect(),
        atomic,
    )
}

#[test]
fn atomic_failure_undoes_results_last_first() {
    let ex = BatchExecutor::new();
    let req = simple_req(true, &["a", "b", "c"]);
    let mut run = batch_start(&req).unwrap();
    assert_eq!(ex.batch_step(&req, &mut run, BatchEvent::Proceed).unwrap(), BatchAction::Execute(0));
    assert_eq!(ex.batch_step(&req, &mut run, BatchEvent::Executed(Ok(ok_result("a")))).unwrap(), BatchAction::Continue);
    assert_eq!(ex.batch_step(&req, &mut run, BatchEvent::Proceed).unwrap(), BatchAction::Execute(1));
    assert_eq!(ex.batch_step(&req, &mut run, BatchEvent::Executed(Ok(ok_result("b")))).unwrap(), BatchAction::Continue);
    assert_eq!(ex.batch_step(&req, &mut run, BatchEvent::Proceed).unwrap(), BatchAction::Execute(2));
    let r = ex.batch_step(&req, &mut run, BatchEvent::Executed(Err(EngineError::ExecutorInvoke("boom".to_string()))));
    assert_eq!(r.unwrap(), BatchAction::Rollback(1));
    assert_eq!(ex.batch_step(&req, &mut run, BatchEvent::RolledBack(Ok(()))).unwrap(), BatchAction::Rollback(0));
    match ex.batch_step(&req, &mut run, BatchEvent::RolledBack(Ok(()))) {
        Err(BatchError::AtomicFailure(EngineError::ExecutorInvoke(m))) => assert_eq!(m, "boom"),
        other => panic!("unexpected {:?}", other),
    }
    assert_eq!(ex.batch_step(&req, &mut run, BatchEvent::Proceed).unwrap(), BatchAction::Done);
}

#[test]
fn failed_rollback_ends_the_batch() {
    let ex = BatchExecutor::new();
    let req = simple_req(true, &["a", "b"]);
    let mut run = batch_start(&req).unwrap();
    ex.batch_step(&req, &mut run, BatchEvent::Proceed).unwrap();
    ex.batch_step(&req, &mut run, BatchEvent::Executed(Ok(ok_result("a")))).unwrap();
    ex.batch_step(&req, &mut run, BatchEvent::Proceed).unwrap();
    let r = ex.batch_step(&req, &mut run, BatchEvent::Executed(Err(EngineError::Io("x".to_string()))));
    assert_eq!(r.unwrap(), BatchAction::Rollback(0));
    match ex.batch_step(&req, &mut run, BatchEvent::RolledBack(Err(EngineError::Io("undo".to_string())))) {
        Err(BatchError::RollbackFailed(EngineError::Io(m))) => assert_eq!(m, "undo"),
        other => panic!("unexpected {:?}", other),
    }
}

#[test]
fn non_atomic_failure_is_noted_and_the_batch_goes_on() {
    let ex = BatchExecutor::new();
    let req = simple_req(false, &["a", "b"]);
    let mut run = batch_start(&req).unwrap();
    ex.batch_step(&req, &mut run, BatchEvent::Proceed).unwrap();
    ex.batch_step(&req, &mut run, BatchEvent::Executed(Err(EngineError::Io("x".to_string())))).unwrap();
    assert!(run.has_failure);
    assert_eq!(ex.batch_step(&req, &mut run, BatchEvent::Proceed).unwrap(), BatchAction::Execute(1));
    ex.batch_step(&req, &mut run, BatchEvent::Executed(Ok(ok_result("b")))).unwrap();
    assert_eq!(ex.batch_step(&req, &mut run, BatchEvent::Proceed).unwrap(), BatchAction::Done);
    assert_eq!(run.results.len(), 2);
    assert!(!run.results[0].success);
    assert_eq!(run.results[0].execution_id, "a");
    let out = ex.batch_finish(&req, run, "h".to_string());
    assert_eq!(out.status, BatchStatus::PartialFailure);
    assert_eq!(out.total_instructions, 2);
}

#[test]
fn nested_batch_at_the_depth_limit_is_refused() {
    let ex = BatchExecutor::with_max_depth(2);
    let req = BatchExecuteRequest::new(
        "t".to_string(),
        "b".to_string(),
        vec![nested("deep", 3, true, vec![BatchInstruction::Simple(create_test_execute_request("x"))])],
        true,
    );
    let mut run = batch_start(&req).unwrap();
    match ex.batch_step(&req, &mut run, BatchEvent::Proceed) {
        Err(BatchError::Validation(BatchValidationError::MaxDepthExceeded(3, 2))) => {}
        other => panic!("unexpected {:?}", other),
    }
}

#[test]
fn nested_results_are_merged() {
    let ex = BatchExecutor::new();
    let req = BatchExecuteRequest::new(
        "t".to_string(),
        "b".to_string(),
        vec![nested("n", 1, true, vec![BatchInstruction::Simple(create_test_execute_request("x"))])],
        true,
    );
    let mut run = batch_start(&req).unwrap();
    assert_eq!(ex.batch_step(&req, &mut run, BatchEvent::Proceed).unwrap(), BatchAction::Descend(0));
    let nr = NestedBatchResult {
        batch_id: "n".to_string(),
        depth: 1,
        status: BatchStatus::Success,
        results: vec![ok_result("x")],
        batch_hash: "nh".to_string(),
        nested_results: vec![],
    };
    assert_eq!(ex.batch_step(&req, &mut run, BatchEvent::NestedDone(Ok(nr))).unwrap(), BatchAction::Continue);
    assert_eq!(ex.batch_step(&req, &mut run, BatchEvent::Proceed).unwrap(), BatchAction::Done);
    let out = ex.batch_finish(&req, run, "h".to_string());
    assert_eq!(out.status, BatchStatus::Success);
    assert_eq!(out.results.len(), 1);
    assert_eq!(out.nested_results.len(), 1);
    assert_eq!(out.max_depth_reached, 1);
}

#[test]
fn atomic_batch_with_failed_nested_batch_fails() {
    let ex = BatchExecutor::new();
    let req = BatchExecuteRequest::new(
        "t".to_string(),
        "b".to_string(),
        vec![nested("n", 1, true, vec![BatchInstruction::Simple(create_test_execute_request("x"))])],
        true,
    );
    let mut run = batch_start(&req).unwrap();
    ex.batch_step(&req, &mut run, BatchEvent::Proceed).unwrap();
    let nr = NestedBatchResult {
        batch_id: "n".to_string(),
        depth: 1,
        status: BatchStatus::Failed,
        results: vec![],
        batch_hash: "nh".to_string(),
        nested_results: vec![],
    };
    match ex.batch_step(&req, &mut run, BatchEvent::NestedDone(Ok(nr))) {
        Err(BatchError::NestedExecutionFailed(m)) => assert_eq!(m, "Nested batch n failed"),
        other => panic!("unexpected {:?}", other),
    }
}

#[test]
fn invalid_request_does_not_start() {
    let req = simple_req(true, &[]);
    match batch_start(&req) {
        Err(BatchError::Validation(BatchValidationError::EmptyInstructions)) => {}
        other => panic!("unexpected {:?}", other.err()),
    }
}

fn nested_result(id: &str, depth: u32, children: Vec<NestedBatchResult>) -> NestedBatchResult {
    let mut n = NestedBatchResult {
        batch_id: id.to_string(),
        depth,
        status: BatchStatus::Success,
        results: vec![ok_result(id)],
        batch_hash: String::new(),
        nested_results: children,
    };
    n.batch_hash = rust_workflow_engine::batch::compute_batch_hash_for_nested(&n);
    n
}

#[test]
fn nested_hashes_verify_level_by_level() {
    let child = nested_result("child", 2, vec![]);
    let parent = nested_result("parent", 1, vec![child]);
    assert_eq!(rust_workflow_engine::batch::verify_nested_batch_hash(&parent, "root").unwrap(), true);
    let mut tampered = parent;
    tampered.nested_results[0].results[0].output = "changed".to_string();
    match rust_workflow_engine::batch::verify_nested_batch_hash(&tampered, "root") {
        Err(BatchError::HashVerificationFailed { expected, actual }) => {
            assert_eq!(expected, tampered.batch_hash);
            assert_ne!(actual, expected);
        }
        other => panic!("unexpected {:?}", other),
    }
}

#[test]
fn nested_hash_that_is_not_a_digest_fails_at_once() {
    let mut n = nested_result("x", 1, vec![]);
    n.batch_hash = "test_hash".to_string();
    match rust_workflow_engine::batch::verify_nested_batch_hash(&n, "") {
        Err(BatchError::HashVerificationFailed { expected, .. }) => assert_eq!(expected, "test_hash"),
        other => panic!("unexpected {:?}", other),
    }
}
