use wpass::extract::{Extraction, ExtractionPhase, WPassInstance};
use wpass::invoke::ToolInvocationResult;
use wpass::volumes::FileEntry;
use wpass::{ExtractionError, WPass};

fn dict(words: &[&str]) -> Vec<String> {
    words.iter().map(|w| w.to_string()).collect()
}

fn archive_listing() -> Vec<FileEntry> {
    vec![
        FileEntry { path: "arch.7z".to_string(), is_file: true },
        FileEntry { path: "notes.txt".to_string(), is_file: true },
    ]
}

/// Drives one full run: each candidate's trial answers `true` exactly when
/// it equals `correct`, and the final extraction reports `extract_result`.
fn drive(
    words: &[&str],
    correct: &str,
    extract_result: ToolInvocationResult,
) -> Result<Vec<String>, ExtractionError> {
    let instance = WPassInstance::new(dict(words), "7za".to_string());
    let mut plan = instance.try_extract("arch.7z", "out");
    assert_eq!(plan.phase(), ExtractionPhase::Resolving);
    assert_eq!(plan.directory_to_list(), "");
    let listing = archive_listing();
    plan.supply_listing(Some(&listing));
    let mut i = 0;
    while plan.phase() == ExtractionPhase::Searching {
        let args = plan.trial_command(i);
        assert_eq!(args[0], "t");
        assert_eq!(args[2], "arch.7z");
        let is_match = args[1] == format!("-p{}", correct);
        plan.record_trial(i, is_match);
        i += 1;
    }
    if plan.phase() == ExtractionPhase::Extracting {
        plan.record_extraction(Ok(extract_result));
    }
    assert_eq!(plan.phase(), ExtractionPhase::Finished);
    plan.into_outcome()
}

#[test]
fn end_to_end_success_with_correct_password_present() {
    let instance = WPassInstance::new(dict(&["aaa", "hunter2", "bbb"]), "7za".to_string());
    let mut plan = instance.try_extract("arch.7z", "out");
    let listing = archive_listing();
    plan.supply_listing(Some(&listing));
    assert_eq!(plan.phase(), ExtractionPhase::Searching);
    assert_eq!(plan.candidate_count(), 3);
    assert_eq!(plan.trial_command(0), vec!["t", "-paaa", "arch.7z"]);
    plan.record_trial(0, false);
    plan.record_trial(1, true);
    assert_eq!(plan.phase(), ExtractionPhase::Extracting);
    assert_eq!(plan.winning_password(), "hunter2");
    assert_eq!(
        plan.extract_command(),
        vec!["x", "-y", "-phunter2", "arch.7z", "-oout"]
    );
    plan.record_extraction(Ok(ToolInvocationResult::Success));
    assert_eq!(plan.into_outcome(), Ok(vec!["arch.7z".to_string()]));
}

#[test]
fn no_correct_password_reports_password_not_found() {
    let outcome = drive(&["aaa", "bbb"], "hunter2", ToolInvocationResult::Success);
    assert_eq!(outcome, Err(ExtractionError::PasswordNotFound));
}

#[test]
fn rerunning_a_successful_extraction_succeeds_again() {
    // overwrite semantics: the plan is driven twice with the same answers
    let first = drive(&["aaa", "hunter2", "bbb"], "hunter2", ToolInvocationResult::Success);
    let second = drive(&["aaa", "hunter2", "bbb"], "hunter2", ToolInvocationResult::Success);
    assert_eq!(first, Ok(vec!["arch.7z".to_string()]));
    assert_eq!(second, first);
}

#[test]
fn correct_password_at_any_position_wins() {
    for words in [["hunter2", "x", "y"], ["x", "hunter2", "y"], ["x", "y", "hunter2"]] {
        let outcome = drive(&words, "hunter2", ToolInvocationResult::Success);
        assert_eq!(outcome, Ok(vec!["arch.7z".to_string()]));
    }
}

#[test]
fn empty_dictionary_reports_password_not_found() {
    let instance = WPassInstance::new(Vec::new(), "7za".to_string());
    let mut plan = Extraction::new(&instance, "arch.7z", "out");
    let listing = archive_listing();
    plan.supply_listing(Some(&listing));
    assert_eq!(plan.phase(), ExtractionPhase::Finished);
    assert_eq!(plan.into_outcome(), Err(ExtractionError::PasswordNotFound));
}

#[test]
fn failed_extraction_with_valid_password_is_extraction_failed() {
    let outcome = drive(
        &["aaa", "hunter2"],
        "hunter2",
        ToolInvocationResult::RecoverableFailure,
    );
    assert_eq!(outcome, Err(ExtractionError::ExtractionFailed));
}

#[test]
fn unknown_exit_during_extraction_is_a_tool_invocation_error() {
    let outcome = drive(
        &["hunter2"],
        "hunter2",
        ToolInvocationResult::UnknownExitCode,
    );
    assert_eq!(outcome, Err(ExtractionError::ToolInvocationError));
}

#[test]
fn interpretation_error_during_extraction_propagates() {
    let instance = WPassInstance::new(dict(&["hunter2"]), "7za".to_string());
    let mut plan = instance.try_extract("arch.7z", "out");
    let listing = archive_listing();
    plan.supply_listing(Some(&listing));
    plan.record_trial(0, true);
    plan.record_extraction(Err(ExtractionError::ToolInvocationError));
    assert_eq!(plan.into_outcome(), Err(ExtractionError::ToolInvocationError));
}

#[test]
fn multi_volume_run_consumes_every_volume() {
    let instance = WPassInstance::new(dict(&["hunter2"]), "7za".to_string());
    let mut plan = instance.try_extract("a.7z.001", "out");
    let listing = vec![
        FileEntry { path: "a.7z.002".to_string(), is_file: true },
        FileEntry { path: "a.7z.001".to_string(), is_file: true },
        FileEntry { path: "b.txt".to_string(), is_file: true },
    ];
    plan.supply_listing(Some(&listing));
    // only the first volume is fed to the tool
    assert_eq!(plan.trial_command(0), vec!["t", "-phunter2", "a.7z.001"]);
    plan.record_trial(0, true);
    plan.record_extraction(Ok(ToolInvocationResult::Success));
    assert_eq!(
        plan.into_outcome(),
        Ok(vec!["a.7z.001".to_string(), "a.7z.002".to_string()])
    );
}

#[test]
fn error_descriptions_are_distinct() {
    let all = [
        ExtractionError::IoError,
        ExtractionError::PasswordNotFound,
        ExtractionError::ExtractionFailed,
        ExtractionError::ToolInvocationError,
    ];
    for (i, a) in all.iter().enumerate() {
        for (j, b) in all.iter().enumerate() {
            assert_eq!(i == j, a.describe() == b.describe());
        }
    }
    assert_eq!(
        ExtractionError::PasswordNotFound.describe(),
        "cannot find correct password"
    );
}
