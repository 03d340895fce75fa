use vstd::prelude::*;
use crate::encoding::{decimal_digits, vote_message_u128};
use crate::game::Pallet;
use crate::hashing::{digest_eq, keccak_256, keccak_256_of};
use crate::jurors::period_gate;
use crate::types::{CommitVote, GameError, Period, RevealedVote, VoteStatus};

verus! {

broadcast use vstd::std_specs::hash::group_hash_axioms;

/// What a reveal of `choice` with digest `hash` does: `r` is its result,
/// `g1` the state after it, `g0` the state before.
pub open spec fn reveal_two_choice_post(
    g0: Pallet,
    g1: Pallet,
    who: u64,
    choice: u128,
    hash: Seq<u8>,
    r: Result<(), GameError>,
) -> bool {
    match period_gate(g0.period, Period::Vote) {
        Some(e) => r == Err::<(), GameError>(e) && g1 == g0,
        None => if !g0.commits@.contains_key(who) {
            r == Err::<(), GameError>(GameError::CommitDoesNotExist) && g1 == g0
        } else if g0.commits@[who].status != VoteStatus::Committed {
            r == Err::<(), GameError>(GameError::VoteStatusNotCommitted) && g1 == g0
        } else if hash != g0.commits@[who].commit@ {
            r == Err::<(), GameError>(GameError::CommitDoesNotMatch) && g1 == g0
        } else if choice > 1 {
            r == Err::<(), GameError>(GameError::NotValidChoice) && g1 == g0
        } else if (choice == 1 && g0.decision_count.1 == u64::MAX) || (choice == 0
            && g0.decision_count.0 == u64::MAX) {
            r == Err::<(), GameError>(GameError::ArithmeticOverflow) && g1 == g0
        } else {
            let vote = if choice == 1 { RevealedVote::Yes } else { RevealedVote::No };
            let count = if choice == 1 {
                (g0.decision_count.0, (g0.decision_count.1 + 1) as u64)
            } else {
                ((g0.decision_count.0 + 1) as u64, g0.decision_count.1)
            };
            &&& r is Ok
            &&& g1.commits@ == g0.commits@.insert(
                who,
                CommitVote {
                    commit: g0.commits@[who].commit,
                    status: VoteStatus::Revealed,
                    revealed_vote: Some(vote),
                },
            )
            &&& g1 == (Pallet { commits: g1.commits, decision_count: count, ..g0 })
        },
    }
}

impl Pallet {
    /// Stores the commitment of a drawn juror during `Commit`. A juror may
    /// commit again before revealing; the later commitment replaces the
    /// earlier one.
    pub fn commit_vote_helper(&mut self, who: u64, vote_commit: [u8; 32]) -> (r: Result<(), GameError>)
        ensures
            match period_gate(old(self).period, Period::Commit) {
                Some(e) => r == Err::<(), GameError>(e) && *final(self) == *old(self),
                None => if !old(self).is_drawn(who) {
                    r == Err::<(), GameError>(GameError::JurorDoesNotExist) && *final(self)
                        == *old(self)
                } else {
                    &&& r is Ok
                    &&& final(self).commits@ == old(self).commits@.insert(
                        who,
                        CommitVote {
                            commit: vote_commit,
                            status: VoteStatus::Committed,
                            revealed_vote: None,
                        },
                    )
                    &&& *final(self) == (Pallet { commits: final(self).commits, ..*old(self) })
                },
            },
    {
        self.check_period(Period::Commit)?;
        if self.find_drawn(who).is_none() {
            return Err(GameError::JurorDoesNotExist);
        }
        let record = CommitVote {
            commit: vote_commit,
            status: VoteStatus::Committed,
            revealed_vote: None,
        };
        self.commits.insert(who, record);
        Ok(())
    }

    /// Reveals a binary vote whose message digest is `hash`; the vote counts
    /// only if `hash` equals the stored commitment.
    pub fn reveal_two_choice_with_hash(&mut self, who: u64, choice: u128, hash: &[u8; 32]) -> (r: Result<(), GameError>)
        ensures
            reveal_two_choice_post(*old(self), *final(self), who, choice, hash@, r),
    {
        self.check_period(Period::Vote)?;
        let record: CommitVote = match self.commits.get(&who) {
            Some(c) => *c,
            None => {
                return Err(GameError::CommitDoesNotExist);
            },
        };
        if record.status != VoteStatus::Committed {
            return Err(GameError::VoteStatusNotCommitted);
        }
        if !digest_eq(hash, &record.commit) {
            return Err(GameError::CommitDoesNotMatch);
        }
        let vote = if choice == 1 {
            if self.decision_count.1 == u64::MAX {
                return Err(GameError::ArithmeticOverflow);
            }
            self.decision_count.1 = self.decision_count.1 + 1;
            RevealedVote::Yes
        } else if choice == 0 {
            if self.decision_count.0 == u64::MAX {
                return Err(GameError::ArithmeticOverflow);
            }
            self.decision_count.0 = self.decision_count.0 + 1;
            RevealedVote::No
        } else {
            return Err(GameError::NotValidChoice);
        };
        let updated = CommitVote {
            commit: record.commit,
            status: VoteStatus::Revealed,
            revealed_vote: Some(vote),
        };
        self.commits.insert(who, updated);
        Ok(())
    }

    /// Reveals a binary vote: the digest of the decimal text of `choice`
    /// followed by `salt` must equal the stored commitment.
    pub fn reveal_vote_two_choice_helper(&mut self, who: u64, choice: u128, salt: &Vec<u8>) -> (r: Result<(), GameError>)
        ensures
            reveal_two_choice_post(
                *old(self),
                *final(self),
                who,
                choice,
                keccak_256_of(decimal_digits(choice as nat) + salt@),
                r,
            ),
    {
        let message = vote_message_u128(choice, salt);
        let hash = keccak_256(&message);
        self.reveal_two_choice_with_hash(who, choice, &hash)
    }
}

} // verus!
