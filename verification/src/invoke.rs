//! The external-tool invocation protocol: the argument vectors handed to the
//! archiving tool, the classification of how its process ended, and the
//! decoding of its captured output from the tool's legacy double-byte code
//! page. Spawning the process itself is the caller's work; this module
//! interprets everything about a run once it is observed.

use vstd::prelude::*;
use vstd::string::StringExecFns;
use crate::text::seq_views;
use crate::ExtractionError;

verus! {

/// How one invocation of the external tool is classified.
///
/// Exit-code classification produces `Success` (exit code 0),
/// `RecoverableFailure` (exit code 2: a wrong password under the test
/// operation, a failed extraction under the extract operation) or
/// `UnknownExitCode` (anything else, a process killed by a signal, or one
/// that could not be spawned at all). `FatalError` is never produced by the
/// classification; it stands for a run the caller itself already knows to be
/// beyond retry, and it counts as a failure wherever a result is consumed.
#[derive(Clone, Copy, Debug, PartialEq, Eq, Structural)]
pub enum ToolInvocationResult {
    Success,
    RecoverableFailure,
    FatalError,
    UnknownExitCode,
}

/// Every way the spawned process can end: a normal exit with a code, a
/// termination by signal (no code), or a spawn that failed outright.
#[derive(Clone, Copy, Debug, PartialEq, Eq, Structural)]
pub enum ProcessTermination {
    Exited(i32),
    Signaled,
    SpawnFailure,
}

/// The classification of a process termination.
pub open spec fn spec_classify(t: ProcessTermination) -> ToolInvocationResult {
    match t {
        ProcessTermination::Exited(code) => if code == 0 {
            ToolInvocationResult::Success
        } else if code == 2 {
            ToolInvocationResult::RecoverableFailure
        } else {
            ToolInvocationResult::UnknownExitCode
        },
        ProcessTermination::Signaled => ToolInvocationResult::UnknownExitCode,
        ProcessTermination::SpawnFailure => ToolInvocationResult::UnknownExitCode,
    }
}

/// Classifies how the tool's process ended.
pub fn classify_termination(t: &ProcessTermination) -> (r: ToolInvocationResult)
    ensures
        r == spec_classify(*t),
{
    match t {
        ProcessTermination::Exited(code) => {
            if *code == 0 {
                ToolInvocationResult::Success
            } else if *code == 2 {
                ToolInvocationResult::RecoverableFailure
            } else {
                ToolInvocationResult::UnknownExitCode
            }
        },
        ProcessTermination::Signaled => ToolInvocationResult::UnknownExitCode,
        ProcessTermination::SpawnFailure => ToolInvocationResult::UnknownExitCode,
    }
}

/// Exit-code classification is exhaustive and total: every possible process
/// termination maps to exactly one result. `Success` stands exactly for a
/// normal exit with code 0, `RecoverableFailure` exactly for a normal exit
/// with code 2, and everything else is `UnknownExitCode`; `FatalError` is
/// never produced.
pub proof fn lemma_classification_total(t: ProcessTermination)
    ensures
        spec_classify(t) == ToolInvocationResult::Success <==> t == ProcessTermination::Exited(
            0i32,
        ),
        spec_classify(t) == ToolInvocationResult::RecoverableFailure <==> t
            == ProcessTermination::Exited(2i32),
        spec_classify(t) != ToolInvocationResult::FatalError,
        spec_classify(t) == ToolInvocationResult::UnknownExitCode <==> (t
            != ProcessTermination::Exited(0i32) && t != ProcessTermination::Exited(2i32)),
{
}

/// Whether a classified invocation counts as a success.
pub fn parse_return_code(code: ToolInvocationResult) -> (r: bool)
    ensures
        r == (code == ToolInvocationResult::Success),
{
    match code {
        ToolInvocationResult::Success => true,
        _ => false,
    }
}

/// The argument vector of the tool's archive-integrity-test operation:
/// `["t", "-p<password>", <target>]`. It writes no output files.
pub open spec fn spec_test_args(password: Seq<char>, target: Seq<char>) -> Seq<Seq<char>> {
    seq!["t"@, "-p"@ + password, target]
}

/// Builds the test argument vector.
pub fn test_args(password: &str, target: &str) -> (r: Vec<String>)
    ensures
        seq_views(r@) == spec_test_args(password@, target@),
{
    let mut r: Vec<String> = Vec::new();
    r.push(String::from_str("t"));
    let mut p = String::from_str("-p");
    p.append(password);
    r.push(p);
    r.push(target.to_owned());
    proof {
        assert(seq_views(r@) =~= spec_test_args(password@, target@));
    }
    r
}

/// The argument vector of the tool's extraction operation:
/// `["x", "-y", "-p<password>", <target>, "-o<output>"]`; `-y` answers every
/// overwrite prompt with yes, so re-running into the same directory
/// overwrites rather than asks.
pub open spec fn spec_extract_args(
    password: Seq<char>,
    target: Seq<char>,
    output: Seq<char>,
) -> Seq<Seq<char>> {
    seq!["x"@, "-y"@, "-p"@ + password, target, "-o"@ + output]
}

/// Builds the extraction argument vector.
pub fn extract_args(password: &str, target: &str, output: &str) -> (r: Vec<String>)
    ensures
        seq_views(r@) == spec_extract_args(password@, target@, output@),
{
    let mut r: Vec<String> = Vec::new();
    r.push(String::from_str("x"));
    r.push(String::from_str("-y"));
    let mut p = String::from_str("-p");
    p.append(password);
    r.push(p);
    r.push(target.to_owned());
    let mut o = String::from_str("-o");
    o.append(output);
    r.push(o);
    proof {
        assert(seq_views(r@) =~= spec_extract_args(password@, target@, output@));
    }
    r
}

/// What strict decoding of tool output yields for given bytes: the decoded
/// characters, or nothing when the bytes are not valid under the selected
/// encoding. A function of the bytes alone.
pub uninterp spec fn gbk_decoding(bytes: Seq<u8>) -> Option<Seq<char>>;

/// Relies on encoding::decode with strict trapping and the GBK fallback
/// encoding: a deterministic function of the input bytes (a leading byte
/// order mark selects the matching UTF decoding, anything else decodes as
/// GBK), which returns the decoded text or an error rather than replacing
/// ill-formed input; empty input decodes to empty text.
#[verifier::external_body]
fn decode_tool_text(bytes: &Vec<u8>) -> (r: Option<String>)
    ensures
        r is Some <==> gbk_decoding(bytes@) is Some,
        r is Some ==> Some(r->0@) == gbk_decoding(bytes@),
        bytes@.len() == 0 ==> r is Some && (r->0)@.len() == 0,
{
    match encoding::decode(bytes, encoding::DecoderTrap::Strict, encoding::all::GBK).0 {
        Ok(text) => Some(text),
        Err(_) => None,
    }
}

/// Everything the caller observed of one tool run: how the process ended
/// and the raw bytes it wrote to its two output streams.
pub struct ToolObservation {
    pub termination: ProcessTermination,
    pub stdout: Vec<u8>,
    pub stderr: Vec<u8>,
}

/// One tool run, interpreted: the classified result and the decoded output
/// text.
#[derive(Debug, PartialEq, Eq)]
pub struct ToolReport {
    pub result: ToolInvocationResult,
    pub stdout_text: String,
    pub stderr_text: String,
}

/// Interprets an observed tool run: decodes both output streams strictly
/// from the tool's code page and classifies the termination. Fails with
/// `ToolInvocationError` exactly when one of the streams cannot be decoded.
pub fn interpret_observation(obs: &ToolObservation) -> (r: Result<ToolReport, ExtractionError>)
    ensures
        r is Ok <==> (gbk_decoding(obs.stdout@) is Some && gbk_decoding(obs.stderr@) is Some),
        r matches Ok(rep) ==> rep.result == spec_classify(obs.termination) && Some(
            rep.stdout_text@,
        ) == gbk_decoding(obs.stdout@) && Some(rep.stderr_text@) == gbk_decoding(obs.stderr@),
        r matches Err(e) ==> e == ExtractionError::ToolInvocationError,
{
    let stdout_text = match decode_tool_text(&obs.stdout) {
        Option::Some(s) => s,
        Option::None => {
            return Result::Err(ExtractionError::ToolInvocationError);
        },
    };
    let stderr_text = match decode_tool_text(&obs.stderr) {
        Option::Some(s) => s,
        Option::None => {
            return Result::Err(ExtractionError::ToolInvocationError);
        },
    };
    Result::Ok(
        ToolReport {
            result: classify_termination(&obs.termination),
            stdout_text,
            stderr_text,
        },
    )
}

/// Whether one password trial counts as a match for the search: only an
/// interpreted run whose classification is `Success`. Every failure — a
/// wrong password, an unknown exit code, a spawn or decode error — is a
/// non-match, never an abort of the search.
pub fn trial_is_match(outcome: &Result<ToolReport, ExtractionError>) -> (r: bool)
    ensures
        r == (outcome matches Ok(rep) && rep.result == ToolInvocationResult::Success),
{
    match outcome {
        Result::Ok(rep) => parse_return_code(rep.result),
        Result::Err(_) => false,
    }
}

} // verus!
