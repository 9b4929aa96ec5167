use wpass::invoke::{
    classify_termination, extract_args, interpret_observation, parse_return_code, test_args,
    ProcessTermination, ToolInvocationResult, ToolObservation,
};
use wpass::ExtractionError;

#[test]
fn exit_code_zero_is_success() {
    assert_eq!(
        classify_termination(&ProcessTermination::Exited(0)),
        ToolInvocationResult::Success
    );
}

#[test]
fn exit_code_two_is_recoverable() {
    assert_eq!(
        classify_termination(&ProcessTermination::Exited(2)),
        ToolInvocationResult::RecoverableFailure
    );
}

#[test]
fn every_other_termination_is_unknown() {
    assert_eq!(
        classify_termination(&ProcessTermination::Exited(1)),
        ToolInvocationResult::UnknownExitCode
    );
    assert_eq!(
        classify_termination(&ProcessTermination::Exited(-9)),
        ToolInvocationResult::UnknownExitCode
    );
    assert_eq!(
        classify_termination(&ProcessTermination::Exited(255)),
        ToolInvocationResult::UnknownExitCode
    );
    assert_eq!(
        classify_termination(&ProcessTermination::Signaled),
        ToolInvocationResult::UnknownExitCode
    );
    assert_eq!(
        classify_termination(&ProcessTermination::SpawnFailure),
        ToolInvocationResult::UnknownExitCode
    );
}

#[test]
fn only_success_parses_as_true() {
    assert!(parse_return_code(ToolInvocationResult::Success));
    assert!(!parse_return_code(ToolInvocationResult::RecoverableFailure));
    assert!(!parse_return_code(ToolInvocationResult::FatalError));
    assert!(!parse_return_code(ToolInvocationResult::UnknownExitCode));
}

#[test]
fn test_arguments_are_exact() {
    let args = test_args("hunter2", "a.7z.001");
    assert_eq!(args, vec!["t", "-phunter2", "a.7z.001"]);
}

#[test]
fn extract_arguments_include_overwrite_flag() {
    let args = extract_args("hunter2", "a.7z.001", "out/dir");
    assert_eq!(args, vec!["x", "-y", "-phunter2", "a.7z.001", "-oout/dir"]);
}

#[test]
fn gbk_output_is_decoded() {
    // "ni hao" in the GBK code page; decoding must translate, not echo bytes
    let obs = ToolObservation {
        termination: ProcessTermination::Exited(0),
        stdout: vec![0xC4, 0xE3, 0xBA, 0xC3],
        stderr: Vec::new(),
    };
    let report = interpret_observation(&obs).unwrap();
    assert_eq!(report.result, ToolInvocationResult::Success);
    assert_eq!(report.stdout_text, "\u{4f60}\u{597d}");
    assert_eq!(report.stderr_text, "");
}

#[test]
fn utf8_byte_order_mark_selects_utf8() {
    let obs = ToolObservation {
        termination: ProcessTermination::Exited(2),
        stdout: vec![0xEF, 0xBB, 0xBF, b'o', b'k'],
        stderr: Vec::new(),
    };
    let report = interpret_observation(&obs).unwrap();
    assert_eq!(report.result, ToolInvocationResult::RecoverableFailure);
    assert_eq!(report.stdout_text, "ok");
}

#[test]
fn undecodable_output_is_a_tool_invocation_error() {
    let obs = ToolObservation {
        termination: ProcessTermination::Exited(0),
        stdout: vec![0xFF, 0xFF],
        stderr: Vec::new(),
    };
    assert_eq!(
        interpret_observation(&obs),
        Err(ExtractionError::ToolInvocationError)
    );
}

#[test]
fn empty_streams_decode_to_empty_text() {
    let obs = ToolObservation {
        termination: ProcessTermination::SpawnFailure,
        stdout: Vec::new(),
        stderr: Vec::new(),
    };
    let report = interpret_observation(&obs).unwrap();
    assert_eq!(report.result, ToolInvocationResult::UnknownExitCode);
    assert_eq!(report.stdout_text, "");
    assert_eq!(report.stderr_text, "");
}
