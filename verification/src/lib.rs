//! Brute-force extraction of password-protected (possibly multi-volume)
//! archives through an external archiving tool.
//!
//! The library holds the logic of the system: parsing a password dictionary,
//! resolving the volumes of a multi-part archive, building the argument
//! vectors for the external tool, classifying its exit status, decoding its
//! output text, and driving the password search and the final extraction as a
//! step-by-step plan. Running processes and touching the filesystem is left
//! to the caller, which feeds the observed results back into the plan.

pub mod cli;
pub mod extract;
pub mod hack;
pub mod invoke;
pub mod password;
pub mod paths;
pub mod search;
pub mod text;
pub mod volumes;

pub use extract::WPassInstance;
pub use password::get_password;

use vstd::prelude::*;

verus! {

/// The failures an extraction run can end in.
///
/// `PasswordNotFound` and `ExtractionFailed` are kept distinct on purpose: an
/// operator must be able to tell "no password in the list worked" from "a
/// password worked but the extraction itself broke".
#[derive(Clone, Copy, Debug, PartialEq, Eq, Structural)]
pub enum ExtractionError {
    /// An input file could not be read or written.
    IoError,
    /// Every candidate password was tried and none validated.
    PasswordNotFound,
    /// A password validated, but the real extraction did not succeed.
    ExtractionFailed,
    /// The external tool could not be spawned, exited with an unclassified
    /// code, or produced output that could not be decoded strictly.
    ToolInvocationError,
}

/// An extractor: something that can begin an extraction run for an archive
/// path and an output directory, over a fixed candidate dictionary and
/// external tool.
pub trait WPass {
    /// The candidate passwords this extractor tries, in order.
    spec fn dict_views(&self) -> Seq<Seq<char>>;

    /// The path of the external archiving tool it invokes.
    spec fn exe_view(&self) -> Seq<char>;

    /// Begins extracting `target` into `output`: the returned plan resolves
    /// the volume set, searches the dictionary for a validating password,
    /// and extracts with it; the caller performs each outside step the plan
    /// asks for and feeds the observation back.
    fn try_extract(&self, target: &str, output: &str) -> (e: extract::Extraction)
        ensures
            e.wf(),
            e.phase == extract::ExtractionPhase::Resolving,
            text::seq_views(e.dict@) == self.dict_views(),
            e.exe@ == self.exe_view(),
            e.target@ == target@,
            e.output@ == output@,
    ;
}

impl ExtractionError {
    /// A short human-readable description of the failure.
    pub fn describe(&self) -> (r: &'static str)
        ensures
            r@ == self.spec_describe(),
    {
        match self {
            ExtractionError::IoError => "cannot read or write a file",
            ExtractionError::PasswordNotFound => "cannot find correct password",
            ExtractionError::ExtractionFailed => "cannot extract with correct password",
            ExtractionError::ToolInvocationError => "unknown return code from the archiving tool",
        }
    }

    /// What `describe` returns for each variant.
    pub open spec fn spec_describe(self) -> Seq<char> {
        match self {
            ExtractionError::IoError => "cannot read or write a file"@,
            ExtractionError::PasswordNotFound => "cannot find correct password"@,
            ExtractionError::ExtractionFailed => "cannot extract with correct password"@,
            ExtractionError::ToolInvocationError => "unknown return code from the archiving tool"@,
        }
    }
}

} // verus!
