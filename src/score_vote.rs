use vstd::prelude::*;
use crate::encoding::{signed_decimal, vote_message_i64};
use crate::game::Pallet;
use crate::hashing::{digest_eq, keccak_256, keccak_256_of};
use crate::jurors::period_gate;
use crate::types::{GameError, Period, ScoreCommitVote, VoteStatus};

verus! {

broadcast use vstd::std_specs::hash::group_hash_axioms;

/// What a reveal of score `choice` with digest `hash` does: `r` is its
/// result, `g1` the state after it, `g0` the state before.
pub open spec fn reveal_score_post(
    g0: Pallet,
    g1: Pallet,
    who: u64,
    choice: i64,
    hash: Seq<u8>,
    r: Result<(), GameError>,
) -> bool {
    match period_gate(g0.period, Period::Vote) {
        Some(e) => r == Err::<(), GameError>(e) && g1 == g0,
        None => if !g0.score_commits@.contains_key(who) {
            r == Err::<(), GameError>(GameError::CommitDoesNotExist) && g1 == g0
        } else if g0.score_commits@[who].status != VoteStatus::Committed {
            r == Err::<(), GameError>(GameError::VoteStatusNotCommitted) && g1 == g0
        } else if hash != g0.score_commits@[who].commit@ {
            r == Err::<(), GameError>(GameError::CommitDoesNotMatch) && g1 == g0
        } else if choice * 1000 < i64::MIN || choice * 1000 > i64::MAX {
            r == Err::<(), GameError>(GameError::ArithmeticOverflow) && g1 == g0
        } else {
            &&& r is Ok
            &&& g1.score_commits@ == g0.score_commits@.insert(
                who,
                ScoreCommitVote {
                    commit: g0.score_commits@[who].commit,
                    status: VoteStatus::Revealed,
                    revealed_vote: Some(choice),
                },
            )
            &&& g1.revealed_scores@ == g0.revealed_scores@.push((choice * 1000) as i64)
            &&& g1 == (Pallet {
                score_commits: g1.score_commits,
                revealed_scores: g1.revealed_scores,
                ..g0
            })
        },
    }
}

impl Pallet {
    /// Stores the score commitment of a drawn juror during `Commit`; a later
    /// commitment before the reveal replaces an earlier one.
    pub fn commit_vote_for_score_helper(&mut self, who: u64, vote_commit: [u8; 32]) -> (r: Result<(), GameError>)
        ensures
            match period_gate(old(self).period, Period::Commit) {
                Some(e) => r == Err::<(), GameError>(e) && *final(self) == *old(self),
                None => if !old(self).is_drawn(who) {
                    r == Err::<(), GameError>(GameError::JurorDoesNotExist) && *final(self)
                        == *old(self)
                } else {
                    &&& r is Ok
                    &&& final(self).score_commits@ == old(self).score_commits@.insert(
                        who,
                        ScoreCommitVote {
                            commit: vote_commit,
                            status: VoteStatus::Committed,
                            revealed_vote: None,
                        },
                    )
                    &&& *final(self) == (Pallet {
                        score_commits: final(self).score_commits,
                        ..*old(self)
                    })
                },
            },
    {
        self.check_period(Period::Commit)?;
        if self.find_drawn(who).is_none() {
            return Err(GameError::JurorDoesNotExist);
        }
        let record = ScoreCommitVote {
            commit: vote_commit,
            status: VoteStatus::Committed,
            revealed_vote: None,
        };
        self.score_commits.insert(who, record);
        Ok(())
    }

    /// Reveals a score whose message digest is `hash`; on a match the score,
    /// multiplied by 1000, joins the revealed sample.
    pub fn reveal_score_with_hash(&mut self, who: u64, choice: i64, hash: &[u8; 32]) -> (r: Result<(), GameError>)
        ensures
            reveal_score_post(*old(self), *final(self), who, choice, hash@, r),
    {
        self.check_period(Period::Vote)?;
        let record: ScoreCommitVote = match self.score_commits.get(&who) {
            Some(c) => *c,
            None => {
                return Err(GameError::CommitDoesNotExist);
            },
        };
        if record.status != VoteStatus::Committed {
            return Err(GameError::VoteStatusNotCommitted);
        }
        if !digest_eq(hash, &record.commit) {
            return Err(GameError::CommitDoesNotMatch);
        }
        let scaled: i64 = match choice.checked_mul(1000) {
            Some(v) => v,
            None => {
                return Err(GameError::ArithmeticOverflow);
            },
        };
        self.revealed_scores.push(scaled);
        let updated = ScoreCommitVote {
            commit: record.commit,
            status: VoteStatus::Revealed,
            revealed_vote: Some(choice),
        };
        self.score_commits.insert(who, updated);
        Ok(())
    }

    /// Reveals a score: the digest of the signed decimal text of `choice`
    /// followed by `salt` must equal the stored commitment.
    pub fn reveal_vote_score_helper(&mut self, who: u64, choice: i64, salt: &Vec<u8>) -> (r: Result<(), GameError>)
        ensures
            reveal_score_post(
                *old(self),
                *final(self),
                who,
                choice,
                keccak_256_of(signed_decimal(choice as int) + salt@),
                r,
            ),
    {
        let message = vote_message_i64(choice, salt);
        let hash = keccak_256(&message);
        self.reveal_score_with_hash(who, choice, &hash)
    }
}

} // verus!
