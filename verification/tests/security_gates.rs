use rust_workflow_engine::security::security_gates_week3_impl::{
    BatchCommand, BatchResult, Command, CommandResult, ExecuteCommand, SG3DataIntegrityValidator,
};

fn two_command_batch() -> BatchCommand {
    BatchCommand {
        id: "batch_1".to_string(),
        commands: vec![
            Command::Execute(ExecuteCommand { id: "exec_1".to_string() }),
            Command::Execute(ExecuteCommand { id: "exec_2".to_string() }),
        ],
    }
}

fn results(checksum: &str) -> BatchResult {
    BatchResult {
        batch_id: "batch_1".to_string(),
        results: vec![
            CommandResult { command_id: "exec_1".to_string(), success: true, error: None },
            CommandResult { command_id: "exec_2".to_string(), success: true, error: None },
        ],
        checksum: checksum.to_string(),
    }
}

#[test]
fn test_sg3_data_integrity_validator() {
    let validator = SG3DataIntegrityValidator::new();
    let batch = two_command_batch();
    let result = results("sha256:mock");
    let validation_result = validator.validate(&batch, &result);
    assert!(validation_result.is_valid());
}

#[test]
fn sg3_checks_a_real_checksum_against_the_data() {
    let validator = SG3DataIntegrityValidator::new();
    let batch = two_command_batch();
    let expected = validator.calculate_nested_checksum(&batch);
    assert!(validator.validate(&batch, &results(&expected)).is_valid());
    let wrong = validator.validate(&batch, &results("sha256:0"));
    assert!(!wrong.is_valid());
    assert_eq!(wrong.errors.len(), 1);
    assert_eq!(wrong.errors[0], format!("Checksum mismatch: expected {}, actual sha256:0", expected));
}

#[test]
fn sg3_counts_results() {
    let validator = SG3DataIntegrityValidator::new();
    let batch = two_command_batch();
    let mut r = results("sha256:mock");
    r.results.pop();
    let v = validator.validate(&batch, &r);
    assert!(!v.is_valid());
    assert_eq!(v.errors[0], "Result count mismatch: expected 2, actual 1");
}

#[test]
fn checksum_is_the_standard_crc32() {
    let e = rust_workflow_engine::security::security_gates_week3_impl::ChecksumEngine::new("sha256");
    assert_eq!(e.calculate(b"123456789"), "sha256:cbf43926");
}
