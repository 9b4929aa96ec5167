//! The password search engine's coordination state. Trials run in any
//! order and any interleaving; each candidate's result is recorded at most
//! once, the winning slot is written at most once (first match wins), and
//! the search is decided either by a winner or by exhausting every
//! candidate without one.

use vstd::prelude::*;

verus! {

/// The record of one search over a candidate list: which trials have
/// reported, and the winner once one reported success.
pub struct PasswordSearch {
    /// What each trial reported so far: nothing, a match, or a non-match.
    pub outcomes: Vec<Option<bool>>,
    /// The winning candidate, once a trial reported a match.
    pub winner: Option<usize>,
}

impl PasswordSearch {
    /// How many candidates the search is over.
    pub open spec fn n(self) -> nat {
        self.outcomes@.len()
    }

    /// What trial `i` reported: nothing yet, `Some(true)` for a match, or
    /// `Some(false)` for a non-match.
    pub open spec fn outcome_of(self, i: int) -> Option<bool> {
        self.outcomes@[i]
    }

    /// The winning candidate, once a trial reported a match.
    pub open spec fn spec_winner(self) -> Option<usize> {
        self.winner
    }

    /// The search's invariant: a winner is a candidate whose own trial
    /// reported a match, and while there is no winner, no trial has
    /// reported one.
    pub open spec fn wf(self) -> bool {
        match self.winner {
            Option::Some(w) => w < self.outcomes@.len() && self.outcomes@[w as int] == Some(true),
            Option::None => forall|k: int|
                0 <= k < self.outcomes@.len() ==> self.outcomes@[k] != Some(true),
        }
    }

    /// Every candidate was tried and none matched.
    pub open spec fn spec_all_failed(self) -> bool {
        forall|k: int| 0 <= k < self.outcomes@.len() ==> self.outcomes@[k] == Some(false)
    }

    /// A fresh search over `n` candidates: nothing reported, no winner.
    pub fn new(n: usize) -> (s: Self)
        ensures
            s.wf(),
            s.n() == n,
            s.spec_winner() is None,
            forall|k: int| 0 <= k < n ==> s.outcome_of(k) is None,
    {
        let mut outcomes: Vec<Option<bool>> = Vec::new();
        let mut i: usize = 0;
        while i < n
            invariant
                0 <= i <= n,
                outcomes@.len() == i,
                forall|k: int| 0 <= k < i ==> outcomes@[k] is None,
            decreases n - i,
        {
            outcomes.push(Option::None);
            i += 1;
        }
        PasswordSearch { outcomes, winner: Option::None }
    }

    /// Records that trial `i` reported a match. The first such report sets
    /// the winner; a winner already chosen is kept, so the winning slot is
    /// written exactly once however many candidates validate.
    pub fn record_success(&mut self, i: usize)
        requires
            old(self).wf(),
            i < old(self).n(),
            old(self).outcome_of(i as int) is None,
        ensures
            final(self).wf(),
            final(self).n() == old(self).n(),
            forall|k: int|
                0 <= k < old(self).n() && k != i ==> final(self).outcome_of(k) == old(
                    self,
                ).outcome_of(k),
            final(self).outcome_of(i as int) == Some(true),
            old(self).spec_winner() is None ==> final(self).spec_winner() == Some(i),
            old(self).spec_winner() is Some ==> final(self).spec_winner() == old(
                self,
            ).spec_winner(),
    {
        self.outcomes.set(i, Option::Some(true));
        if self.winner.is_none() {
            self.winner = Option::Some(i);
        }
    }

    /// Records that trial `i` reported a non-match (a wrong password, or a
    /// trial that errored and is counted as a non-match). The winner is
    /// untouched.
    pub fn record_failure(&mut self, i: usize)
        requires
            old(self).wf(),
            i < old(self).n(),
            old(self).outcome_of(i as int) is None,
        ensures
            final(self).wf(),
            final(self).n() == old(self).n(),
            forall|k: int|
                0 <= k < old(self).n() && k != i ==> final(self).outcome_of(k) == old(
                    self,
                ).outcome_of(k),
            final(self).outcome_of(i as int) == Some(false),
            final(self).spec_winner() == old(self).spec_winner(),
    {
        self.outcomes.set(i, Option::Some(false));
    }

    /// The number of candidates.
    pub fn candidate_count(&self) -> (r: usize)
        ensures
            r == self.n(),
    {
        self.outcomes.len()
    }

    /// Whether trial `i` has reported yet.
    pub fn is_recorded(&self, i: usize) -> (r: bool)
        requires
            i < self.n(),
        ensures
            r == (self.outcome_of(i as int) is Some),
    {
        self.outcomes[i].is_some()
    }

    /// The winner so far, if any trial has reported a match.
    pub fn winner(&self) -> (r: Option<usize>)
        ensures
            r == self.spec_winner(),
    {
        self.winner
    }

    /// Whether every candidate was tried and none matched.
    pub fn all_failed(&self) -> (r: bool)
        ensures
            r == self.spec_all_failed(),
    {
        let n = self.outcomes.len();
        let mut i: usize = 0;
        while i < n
            invariant
                0 <= i <= n,
                n == self.outcomes@.len(),
                forall|k: int| 0 <= k < i ==> self.outcomes@[k] == Some(false),
            decreases n - i,
        {
            let failed = match self.outcomes[i] {
                Option::Some(b) => !b,
                Option::None => false,
            };
            if !failed {
                return false;
            }
            i += 1;
        }
        true
    }

    /// When any candidate's trial reported a match — wherever it stood in
    /// the list, and whatever order the reports arrived in — the search has
    /// a winner, and the winner's own trial reported a match.
    pub proof fn lemma_match_implies_winner(self, i: int)
        requires
            self.wf(),
            0 <= i < self.n(),
            self.outcome_of(i) == Some(true),
        ensures
            self.spec_winner() is Some,
            (self.spec_winner()->0 as int) < self.n(),
            self.outcome_of(self.spec_winner()->0 as int) == Some(true),
    {
    }

    /// When every candidate was tried and none matched, the search has no
    /// winner: exhaustion is the only way to end without one.
    pub proof fn lemma_exhausted_without_match(self)
        requires
            self.wf(),
            self.spec_all_failed(),
        ensures
            self.spec_winner() is None,
    {
    }
}

} // verus!
