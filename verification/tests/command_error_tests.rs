use rcw::host_tasks::error_code_for_command_error;
use rcw::protocol::ErrorCode;

fn code_for(message: &str) -> ErrorCode {
    error_code_for_command_error(&vec![message.to_owned()])
}

#[test]
fn platform_unsupported_errors_use_unsupported_command_code() {
    assert!(matches!(
        code_for("mouse input is only supported on Windows host builds"),
        ErrorCode::UnsupportedCommand
    ));
}

#[test]
fn generic_execution_errors_use_command_failed_code() {
    assert!(matches!(code_for("process exited with status 1"), ErrorCode::CommandFailed));
}

#[test]
fn timeout_errors_use_request_timeout_code() {
    assert!(matches!(code_for("command timed out"), ErrorCode::RequestTimeout));
}

#[test]
fn cancellation_errors_use_cancelled_code() {
    assert!(matches!(code_for("command cancelled"), ErrorCode::Cancelled));
}

#[test]
fn commands_platform_unsupported_errors_use_unsupported_command_code() {
    assert!(matches!(
        code_for("mouse input is only supported on Windows host builds"),
        ErrorCode::UnsupportedCommand
    ));
}

#[test]
fn commands_generic_execution_errors_use_command_failed_code() {
    assert!(matches!(code_for("process exited with status 1"), ErrorCode::CommandFailed));
}

#[test]
fn commands_timeout_errors_use_request_timeout_code() {
    assert!(matches!(code_for("command timed out"), ErrorCode::RequestTimeout));
}

#[test]
fn commands_cancellation_errors_use_cancelled_code() {
    assert!(matches!(code_for("command cancelled"), ErrorCode::Cancelled));
}

#[test]
fn timeout_outranks_cancellation_anywhere_in_the_cause_chain() {
    let causes = vec!["command cancelled".to_owned(), "inner: command timed out".to_owned()];
    assert_eq!(error_code_for_command_error(&causes), ErrorCode::RequestTimeout);
}

#[test]
fn empty_cause_chain_is_a_command_failure() {
    assert_eq!(error_code_for_command_error(&Vec::new()), ErrorCode::CommandFailed);
}
