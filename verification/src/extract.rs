//! The extraction orchestrator. `Extraction` is the step-by-step plan of one
//! `try_extract` run: resolve the volume set from a directory listing, try
//! the candidate passwords (in any order, concurrently if the caller likes)
//! against the first volume, and, once one validates, extract with it. The
//! caller performs each outside step — listing the directory, spawning the
//! tool — and feeds the observed result back; every decision in between is
//! made here.

use vstd::prelude::*;
use crate::invoke::{extract_args, spec_extract_args, spec_test_args, test_args,
    ToolInvocationResult};
use crate::paths::{parent_dir, spec_parent};
use crate::search::PasswordSearch;
use crate::text::seq_views;
use crate::volumes::{find_all_volumes, volumes_resolution, FileEntry};
use crate::ExtractionError;

verus! {

/// One configured extractor: the candidate passwords and the path of the
/// external archiving tool.
pub struct WPassInstance {
    /// Possible passwords, in dictionary order.
    pub password_dict: Vec<String>,
    /// Path of the external archiving tool.
    pub executable_path: String,
}

impl WPassInstance {
    /// A new extractor over this dictionary and tool.
    pub fn new(password_dict: Vec<String>, executable_path: String) -> (s: Self)
        ensures
            s.password_dict == password_dict,
            s.executable_path == executable_path,
    {
        WPassInstance { password_dict, executable_path }
    }
}

/// Where an extraction plan stands.
#[derive(Clone, Copy, Debug, PartialEq, Eq, Structural)]
pub enum ExtractionPhase {
    /// Waiting for the listing of the target's directory.
    Resolving,
    /// Trying candidate passwords against the first volume.
    Searching,
    /// A password validated; waiting for the real extraction's result.
    Extracting,
    /// Decided: the outcome is set.
    Finished,
}

/// The state of one extraction run.
pub struct Extraction {
    /// The candidate passwords.
    pub dict: Vec<String>,
    /// The external tool's path.
    pub exe: String,
    /// The archive path the run was asked to extract.
    pub target: String,
    /// The directory extracted files go to.
    pub output: String,
    /// The resolved volume set; its first element is the entry volume.
    pub volumes: Vec<String>,
    /// The password search over `dict`.
    pub search: PasswordSearch,
    /// Where the plan stands.
    pub phase: ExtractionPhase,
    /// The decision, once the plan is finished: success, or the classified
    /// failure.
    pub outcome: Option<Result<(), ExtractionError>>,
}

impl Extraction {
    /// The plan's invariant, phase by phase: the volume set is never empty
    /// once resolved, the search tracks exactly the dictionary, extraction
    /// is reached only through a matching trial, and a finished plan's
    /// outcome tells the truth — `PasswordNotFound` only after every trial
    /// failed, and every other outcome only with a validated password.
    pub open spec fn wf(self) -> bool {
        match self.phase {
            ExtractionPhase::Resolving => self.outcome is None,
            ExtractionPhase::Searching => {
                &&& self.volumes@.len() >= 1
                &&& self.search.wf()
                &&& self.search.n() == self.dict@.len()
                &&& self.search.spec_winner() is None
                &&& self.outcome is None
            },
            ExtractionPhase::Extracting => {
                &&& self.volumes@.len() >= 1
                &&& self.search.wf()
                &&& self.search.n() == self.dict@.len()
                &&& self.search.spec_winner() matches Some(w) && (w as int) < self.dict@.len()
                    && self.search.outcome_of(w as int) == Some(true)
                &&& self.outcome is None
            },
            ExtractionPhase::Finished => {
                &&& self.search.wf()
                &&& self.outcome matches Some(o) && o != Err::<(), ExtractionError>(ExtractionError::IoError) && (o
                    == Err::<(), ExtractionError>(ExtractionError::PasswordNotFound)
                    ==> self.search.spec_all_failed()) && (o != Err::<(), ExtractionError>(
                    ExtractionError::PasswordNotFound,
                ) ==> (self.search.spec_winner() matches Some(w) && (w as int)
                    < self.dict@.len() && self.search.outcome_of(w as int) == Some(true))) && (o
                    == Ok::<(), ExtractionError>(())
                    ==> self.volumes@.len() >= 1)
            },
        }
    }

    /// A fresh plan for extracting `target` into `output` with this
    /// extractor's dictionary and tool.
    pub fn new(instance: &WPassInstance, target: &str, output: &str) -> (e: Extraction)
        ensures
            e.wf(),
            e.phase == ExtractionPhase::Resolving,
            e.dict@ == instance.password_dict@,
            e.exe@ == instance.executable_path@,
            e.target@ == target@,
            e.output@ == output@,
    {
        let dict = instance.password_dict.clone();
        proof {
            assert forall|i: int| 0 <= i < dict@.len() implies dict@[i]
                == instance.password_dict@[i] by {
                assert(vstd::pervasive::cloned::<String>(
                    instance.password_dict@[i],
                    dict@[i],
                ));
            }
            assert(dict@ =~= instance.password_dict@);
        }
        Extraction {
            dict,
            exe: instance.executable_path.clone(),
            target: target.to_owned(),
            output: output.to_owned(),
            volumes: Vec::new(),
            search: PasswordSearch::new(0),
            phase: ExtractionPhase::Resolving,
            outcome: Option::None,
        }
    }

    /// The directory whose listing volume resolution needs: the target's
    /// parent.
    pub fn directory_to_list(&self) -> (r: String)
        ensures
            r@ == spec_parent(self.target@),
    {
        parent_dir(self.target.as_str())
    }

    /// Supplies the listing of the target's directory (or `None` when it
    /// could not be listed; resolution then falls back to the target alone
    /// and never fails). Resolves the volume set and opens the search — or
    /// finishes at once with `PasswordNotFound` when the dictionary is
    /// empty.
    pub fn supply_listing(&mut self, listing: Option<&Vec<FileEntry>>)
        requires
            old(self).wf(),
            old(self).phase == ExtractionPhase::Resolving,
        ensures
            final(self).wf(),
            final(self).dict == old(self).dict,
            final(self).exe == old(self).exe,
            final(self).target == old(self).target,
            final(self).output == old(self).output,
            final(self).volumes@.len() >= 1,
            listing is None ==> seq_views(final(self).volumes@) == seq![old(self).target@],
            listing matches Some(entries) ==> volumes_resolution(
                old(self).target@,
                entries@,
                seq_views(final(self).volumes@),
            ),
            old(self).dict@.len() == 0 ==> final(self).phase == ExtractionPhase::Finished
                && final(self).outcome == Some(Err::<(), ExtractionError>(ExtractionError::PasswordNotFound)),
            old(self).dict@.len() > 0 ==> final(self).phase == ExtractionPhase::Searching
                && final(self).search.n() == old(self).dict@.len() && (forall|k: int|
                0 <= k < old(self).dict@.len() ==> final(self).search.outcome_of(k) is None),
    {
        self.volumes = find_all_volumes(self.target.as_str(), listing);
        self.search = PasswordSearch::new(self.dict.len());
        if self.dict.len() == 0 {
            self.phase = ExtractionPhase::Finished;
            self.outcome = Option::Some(Result::Err(ExtractionError::PasswordNotFound));
        } else {
            self.phase = ExtractionPhase::Searching;
        }
    }

    /// The external tool's path, for the caller's spawns.
    pub fn executable(&self) -> (r: String)
        ensures
            r@ == self.exe@,
    {
        self.exe.clone()
    }

    /// Where the plan stands.
    pub fn phase(&self) -> (r: ExtractionPhase)
        ensures
            r == self.phase,
    {
        self.phase
    }

    /// How many candidate passwords the search is over.
    pub fn candidate_count(&self) -> (r: usize)
        ensures
            r == self.dict@.len(),
    {
        self.dict.len()
    }

    /// Whether trial `i` has reported yet.
    pub fn is_trial_recorded(&self, i: usize) -> (r: bool)
        requires
            self.wf(),
            self.phase == ExtractionPhase::Searching || self.phase == ExtractionPhase::Extracting,
            i < self.dict@.len(),
        ensures
            r == (self.search.outcome_of(i as int) is Some),
    {
        self.search.is_recorded(i)
    }

    /// The argument vector that tests candidate `i` against the entry
    /// volume: the tool's integrity-test operation, which writes nothing.
    pub fn trial_command(&self, i: usize) -> (r: Vec<String>)
        requires
            self.wf(),
            self.phase == ExtractionPhase::Searching,
            i < self.dict@.len(),
        ensures
            seq_views(r@) == spec_test_args(
                seq_views(self.dict@)[i as int],
                seq_views(self.volumes@)[0],
            ),
    {
        test_args(self.dict[i].as_str(), self.volumes[0].as_str())
    }

    /// Records what the trial of candidate `i` reported. A match ends the
    /// search at once — first match wins — and moves the plan to
    /// extraction; when the last candidate fails without any match, the
    /// plan finishes with `PasswordNotFound`.
    pub fn record_trial(&mut self, i: usize, is_match: bool)
        requires
            old(self).wf(),
            old(self).phase == ExtractionPhase::Searching,
            i < old(self).dict@.len(),
            old(self).search.outcome_of(i as int) is None,
        ensures
            final(self).wf(),
            final(self).dict == old(self).dict,
            final(self).exe == old(self).exe,
            final(self).target == old(self).target,
            final(self).output == old(self).output,
            final(self).volumes == old(self).volumes,
            final(self).search.n() == old(self).search.n(),
            final(self).search.outcome_of(i as int) == Some(is_match),
            forall|k: int|
                0 <= k < old(self).search.n() && k != i ==> final(self).search.outcome_of(k)
                    == old(self).search.outcome_of(k),
            is_match ==> final(self).phase == ExtractionPhase::Extracting && final(self).search.spec_winner() == Some(i),
            !is_match ==> final(self).search.spec_winner() is None && (final(self).search.spec_all_failed() ==> final(self).phase == ExtractionPhase::Finished && final(self).outcome == Some(Err::<(), ExtractionError>(ExtractionError::PasswordNotFound))) && (!final(self).search.spec_all_failed() ==> final(self).phase == ExtractionPhase::Searching && final(self).outcome is None),
    {
        if is_match {
            self.search.record_success(i);
            self.phase = ExtractionPhase::Extracting;
        } else {
            self.search.record_failure(i);
            if self.search.all_failed() {
                self.phase = ExtractionPhase::Finished;
                self.outcome = Option::Some(Result::Err(ExtractionError::PasswordNotFound));
            }
        }
    }

    /// The password that validated.
    pub fn winning_password(&self) -> (r: String)
        requires
            self.wf(),
            self.phase == ExtractionPhase::Extracting,
        ensures
            r@ == seq_views(self.dict@)[self.search.spec_winner()->0 as int],
    {
        let w = self.search.winner().unwrap();
        self.dict[w].clone()
    }

    /// The argument vector of the real extraction: the tool's extract
    /// operation with the validated password, the entry volume, the output
    /// directory, and `-y` so overwrites are answered yes.
    pub fn extract_command(&self) -> (r: Vec<String>)
        requires
            self.wf(),
            self.phase == ExtractionPhase::Extracting,
        ensures
            seq_views(r@) == spec_extract_args(
                seq_views(self.dict@)[self.search.spec_winner()->0 as int],
                seq_views(self.volumes@)[0],
                self.output@,
            ),
    {
        let w = self.search.winner().unwrap();
        extract_args(self.dict[w].as_str(), self.volumes[0].as_str(), self.output.as_str())
    }

    /// Records what the real extraction reported, and finishes the plan:
    /// `Success` succeeds; exit code 2 (and a fatal report) is
    /// `ExtractionFailed` — a password validated but the extraction itself
    /// broke, which is deliberately distinct from `PasswordNotFound`; an
    /// unclassified exit, spawn failure, or any interpretation error is
    /// `ToolInvocationError`.
    pub fn record_extraction(&mut self, result: Result<ToolInvocationResult, ExtractionError>)
        requires
            old(self).wf(),
            old(self).phase == ExtractionPhase::Extracting,
        ensures
            final(self).wf(),
            final(self).dict == old(self).dict,
            final(self).exe == old(self).exe,
            final(self).target == old(self).target,
            final(self).output == old(self).output,
            final(self).volumes == old(self).volumes,
            final(self).search == old(self).search,
            final(self).phase == ExtractionPhase::Finished,
            result == Ok::<ToolInvocationResult, ExtractionError>(ToolInvocationResult::Success) ==> final(self).outcome == Some(
                Ok::<(), ExtractionError>(()),
            ),
            (result == Ok::<ToolInvocationResult, ExtractionError>(ToolInvocationResult::RecoverableFailure) || result == Ok::<ToolInvocationResult, ExtractionError>(
                ToolInvocationResult::FatalError,
            )) ==> final(self).outcome == Some(Err::<(), ExtractionError>(ExtractionError::ExtractionFailed)),
            result == Ok::<ToolInvocationResult, ExtractionError>(ToolInvocationResult::UnknownExitCode) ==> final(self).outcome == Some(
                Err::<(), ExtractionError>(ExtractionError::ToolInvocationError),
            ),
            result is Err ==> final(self).outcome == Some(
                Err::<(), ExtractionError>(ExtractionError::ToolInvocationError),
            ),
    {
        let decided: Result<(), ExtractionError> = match result {
            Result::Ok(ToolInvocationResult::Success) => Result::Ok(()),
            Result::Ok(ToolInvocationResult::RecoverableFailure) => Result::Err(
                ExtractionError::ExtractionFailed,
            ),
            Result::Ok(ToolInvocationResult::FatalError) => Result::Err(
                ExtractionError::ExtractionFailed,
            ),
            Result::Ok(ToolInvocationResult::UnknownExitCode) => Result::Err(
                ExtractionError::ToolInvocationError,
            ),
            Result::Err(_) => Result::Err(ExtractionError::ToolInvocationError),
        };
        self.outcome = Option::Some(decided);
        self.phase = ExtractionPhase::Finished;
    }

    /// The finished plan's outcome: on success the full volume set, the
    /// files the run consumed; otherwise the classified failure.
    pub fn into_outcome(self) -> (r: Result<Vec<String>, ExtractionError>)
        requires
            self.wf(),
            self.phase == ExtractionPhase::Finished,
        ensures
            self.outcome == Some(Ok::<(), ExtractionError>(())) ==> (r matches Ok(v) && v
                == self.volumes && v@.len() >= 1),
            self.outcome matches Some(Err(e)) ==> r == Err::<Vec<String>, _>(e),
    {
        match self.outcome {
            Option::Some(Result::Ok(())) => Result::Ok(self.volumes),
            Option::Some(Result::Err(e)) => Result::Err(e),
            Option::None => vstd::pervasive::unreached(),
        }
    }

    /// A finished plan that reports `PasswordNotFound` got there only by
    /// exhaustion: every candidate's trial was recorded and none matched,
    /// no winner was ever chosen, and (because extraction is reachable only
    /// through a winner) no extraction was requested — the output directory
    /// was never touched.
    pub proof fn lemma_not_found_means_exhausted(self)
        requires
            self.wf(),
            self.phase == ExtractionPhase::Finished,
            self.outcome == Some(Err::<(), ExtractionError>(ExtractionError::PasswordNotFound)),
        ensures
            self.search.spec_all_failed(),
            self.search.spec_winner() is None,
    {
        self.search.lemma_exhausted_without_match();
    }

    /// A plan that reached extraction holds a winning candidate whose own
    /// trial reported a match: whatever order trials completed in, the
    /// password handed to the real extraction is one the tool itself
    /// validated.
    pub proof fn lemma_extracting_has_validated_winner(self)
        requires
            self.wf(),
            self.phase == ExtractionPhase::Extracting,
        ensures
            self.search.spec_winner() is Some,
            (self.search.spec_winner()->0 as int) < self.dict@.len(),
            self.search.outcome_of(self.search.spec_winner()->0 as int) == Some(true),
    {
    }
}

impl crate::WPass for WPassInstance {
    /// The dictionary's candidate views, in order.
    open spec fn dict_views(&self) -> Seq<Seq<char>> {
        seq_views(self.password_dict@)
    }

    /// The configured tool path.
    open spec fn exe_view(&self) -> Seq<char> {
        self.executable_path@
    }

    /// Begins an extraction run: a fresh plan over this extractor's
    /// dictionary and tool.
    fn try_extract(&self, target: &str, output: &str) -> (e: Extraction) {
        Extraction::new(self, target, output)
    }
}

} // verus!
