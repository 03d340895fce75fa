use std::collections::HashMap;
use std::collections::HashSet;
use vstd::prelude::*;
use crate::types::{CommitVote, Period, ScoreCommitVote};

verus! {

broadcast use vstd::std_specs::hash::group_hash_axioms;

/// The whole state of one game instance.
pub struct Pallet {
    pub period: Option<Period>,
    pub evidence_start: u64,
    pub staking_start: u64,
    pub commit_start: u64,
    pub vote_start: u64,
    /// Number of successful (non-duplicate) draws.
    pub draws_in_round: u64,
    /// The weight each staker holds in the sortition source.
    pub stakes: HashMap<u64, u64>,
    /// Drawn jurors with their stake at draw time, strictly ordered by account.
    pub drawn_jurors: Vec<(u64, u64)>,
    pub unstaked_jurors: HashSet<u64>,
    pub commits: HashMap<u64, CommitVote>,
    /// `(no, yes)` counts of revealed binary votes.
    pub decision_count: (u64, u64),
    pub score_commits: HashMap<u64, ScoreCommitVote>,
    /// Revealed scores, each multiplied by 1000.
    pub revealed_scores: Vec<i64>,
    /// The trimmed mean of the revealed scores, once settlement computed it.
    pub incentive_mean: Option<i64>,
    pub paid_jurors: HashSet<u64>,
}

/// Accounts strictly increase along the sequence (so none repeats).
pub open spec fn sorted_by_account(s: Seq<(u64, u64)>) -> bool {
    forall|i: int, j: int| 0 <= i < j < s.len() ==> s[i].0 < s[j].0
}

/// Some entry of `s` belongs to account `a`.
pub open spec fn has_account(s: Seq<(u64, u64)>, a: u64) -> bool {
    exists|i: int| 0 <= i < s.len() && s[i].0 == a
}

impl Pallet {
    /// The state invariant: drawn jurors are kept ordered by account.
    pub open spec fn wf(&self) -> bool {
        sorted_by_account(self.drawn_jurors@)
    }

    pub open spec fn is_drawn(&self, a: u64) -> bool {
        has_account(self.drawn_jurors@, a)
    }

    /// A game instance for which nothing has happened yet.
    pub fn new() -> (g: Pallet)
        ensures
            g.wf(),
            g.period.is_none(),
            g.draws_in_round == 0,
            g.stakes@ == Map::<u64, u64>::empty(),
            g.drawn_jurors@.len() == 0,
            g.unstaked_jurors@ == Set::<u64>::empty(),
            g.commits@ == Map::<u64, CommitVote>::empty(),
            g.decision_count == (0u64, 0u64),
            g.score_commits@ == Map::<u64, ScoreCommitVote>::empty(),
            g.revealed_scores@.len() == 0,
            g.incentive_mean.is_none(),
            g.paid_jurors@ == Set::<u64>::empty(),
    {
        Pallet {
            period: None,
            evidence_start: 0,
            staking_start: 0,
            commit_start: 0,
            vote_start: 0,
            draws_in_round: 0,
            stakes: HashMap::new(),
            drawn_jurors: Vec::new(),
            unstaked_jurors: HashSet::new(),
            commits: HashMap::new(),
            decision_count: (0, 0),
            score_commits: HashMap::new(),
            revealed_scores: Vec::new(),
            incentive_mean: None,
            paid_jurors: HashSet::new(),
        }
    }

    /// Index of `who` among the drawn jurors, if drawn.
    pub fn find_drawn(&self, who: u64) -> (r: Option<usize>)
        ensures
            match r {
                Some(i) => i < self.drawn_jurors@.len() && self.drawn_jurors@[i as int].0 == who,
                None => !self.is_drawn(who),
            },
    {
        let mut i: usize = 0;
        while i < self.drawn_jurors.len()
            invariant
                i <= self.drawn_jurors@.len(),
                forall|k: int| 0 <= k < i ==> self.drawn_jurors@[k].0 != who,
            decreases self.drawn_jurors@.len() - i,
        {
            if self.drawn_jurors[i].0 == who {
                return Some(i);
            }
            i = i + 1;
        }
        None
    }

    /// Whether `who` was drawn as a juror.
    pub fn selected_as_juror_helper(&self, who: u64) -> (r: bool)
        ensures
            r == self.is_drawn(who),
    {
        self.find_drawn(who).is_some()
    }
}

} // verus!
