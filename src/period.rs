use vstd::prelude::*;
use crate::game::Pallet;
use crate::types::{period_step, GameConfig, GameError, Period};

verus! {

/// Blocks left until `start + length`, zero once passed, capped at `u32::MAX`.
pub open spec fn blocks_left_spec(start: u64, length: u64, now: u64) -> u32 {
    let left = start + length - now;
    if left <= 0 {
        0u32
    } else if left > u32::MAX {
        u32::MAX
    } else {
        left as u32
    }
}

fn blocks_left(start: u64, length: u64, now: u64) -> (r: u32)
    ensures
        r == blocks_left_spec(start, length, now),
{
    let end: u128 = start as u128 + length as u128;
    if end <= now as u128 {
        0
    } else {
        let left: u128 = end - now as u128;
        if left > u32::MAX as u128 {
            u32::MAX
        } else {
            left as u32
        }
    }
}

impl Pallet {
    /// Opens the evidence period; an instance only ever does so once.
    pub fn set_to_evidence_period(&mut self, now: u64) -> (r: Result<(), GameError>)
        ensures
            period_step(old(self).period, final(self).period),
            old(self).period is Some ==> r == Err::<(), GameError>(GameError::PeriodAlreadyExists)
                && *final(self) == *old(self),
            old(self).period is None ==> r is Ok && *final(self) == (Pallet {
                period: Some(Period::Evidence),
                evidence_start: now,
                ..*old(self)
            }),
    {
        match self.period {
            Some(_) => Err(GameError::PeriodAlreadyExists),
            None => {
                self.period = Some(Period::Evidence);
                self.evidence_start = now;
                Ok(())
            },
        }
    }

    /// Moves `Evidence` to `Staking` once the short block length has passed
    /// since evidence opened. In any other period nothing happens.
    pub fn set_to_staking_period(&mut self, cfg: &GameConfig, now: u64) -> (r: Result<(), GameError>)
        ensures
            period_step(old(self).period, final(self).period),
            old(self).period != Some(Period::Evidence) ==> r is Ok && *final(self) == *old(self),
            old(self).period == Some(Period::Evidence) && now < old(self).evidence_start
                + cfg.min_short_block_length ==> r == Err::<(), GameError>(
                GameError::EvidencePeriodNotOver,
            ) && *final(self) == *old(self),
            old(self).period == Some(Period::Evidence) && now >= old(self).evidence_start
                + cfg.min_short_block_length ==> r is Ok && *final(self) == (Pallet {
                period: Some(Period::Staking),
                staking_start: now,
                ..*old(self)
            }),
    {
        if self.period == Some(Period::Evidence) {
            if (now as u128) < self.evidence_start as u128 + cfg.min_short_block_length as u128 {
                return Err(GameError::EvidencePeriodNotOver);
            }
            self.period = Some(Period::Staking);
            self.staking_start = now;
        }
        Ok(())
    }

    /// Advances the period by one step when the condition of the current
    /// period holds; fails with that period's error otherwise.
    pub fn change_period(&mut self, cfg: &GameConfig, now: u64) -> (r: Result<(), GameError>)
        ensures
            period_step(old(self).period, final(self).period),
            match old(self).period {
                None => r == Err::<(), GameError>(GameError::PeriodDoesNotExist) && *final(self)
                    == *old(self),
                Some(Period::Staking) => if now >= old(self).staking_start
                    + cfg.min_long_block_length {
                    r is Ok && *final(self) == (Pallet { period: Some(Period::Drawing), ..*old(self) })
                } else {
                    r == Err::<(), GameError>(GameError::StakingPeriodNotOver) && *final(self)
                        == *old(self)
                },
                Some(Period::Drawing) => if old(self).draws_in_round >= cfg.max_draws {
                    r is Ok && *final(self) == (Pallet {
                        period: Some(Period::Commit),
                        commit_start: now,
                        ..*old(self)
                    })
                } else {
                    r == Err::<(), GameError>(GameError::MaxJurorNotDrawn) && *final(self)
                        == *old(self)
                },
                Some(Period::Commit) => if now >= old(self).commit_start
                    + cfg.min_long_block_length {
                    r is Ok && *final(self) == (Pallet {
                        period: Some(Period::Vote),
                        vote_start: now,
                        ..*old(self)
                    })
                } else {
                    r == Err::<(), GameError>(GameError::CommitPeriodNotOver) && *final(self)
                        == *old(self)
                },
                Some(Period::Vote) => if now >= old(self).vote_start + cfg.min_long_block_length {
                    r is Ok && *final(self) == (Pallet { period: Some(Period::Execution), ..*old(self) })
                } else {
                    r == Err::<(), GameError>(GameError::VotePeriodNotOver) && *final(self)
                        == *old(self)
                },
                Some(_) => r is Ok && *final(self) == *old(self),
            },
    {
        match self.period {
            None => Err(GameError::PeriodDoesNotExist),
            Some(Period::Staking) => {
                if (now as u128) >= cfg.min_long_block_length as u128 + self.staking_start as u128 {
                    self.period = Some(Period::Drawing);
                    Ok(())
                } else {
                    Err(GameError::StakingPeriodNotOver)
                }
            },
            Some(Period::Drawing) => {
                if self.draws_in_round >= cfg.max_draws {
                    self.commit_start = now;
                    self.period = Some(Period::Commit);
                    Ok(())
                } else {
                    Err(GameError::MaxJurorNotDrawn)
                }
            },
            Some(Period::Commit) => {
                if (now as u128) >= cfg.min_long_block_length as u128 + self.commit_start as u128 {
                    self.vote_start = now;
                    self.period = Some(Period::Vote);
                    Ok(())
                } else {
                    Err(GameError::CommitPeriodNotOver)
                }
            },
            Some(Period::Vote) => {
                if (now as u128) >= cfg.min_long_block_length as u128 + self.vote_start as u128 {
                    self.period = Some(Period::Execution);
                    Ok(())
                } else {
                    Err(GameError::VotePeriodNotOver)
                }
            },
            Some(_) => Ok(()),
        }
    }

    /// Blocks left in the evidence period.
    pub fn get_evidence_period_end_block_helper(&self, cfg: &GameConfig, now: u64) -> (r: Option<u32>)
        ensures
            r == Some(blocks_left_spec(self.evidence_start, cfg.min_short_block_length, now)),
    {
        Some(blocks_left(self.evidence_start, cfg.min_short_block_length, now))
    }

    /// Blocks left in the staking period.
    pub fn get_staking_period_end_block_helper(&self, cfg: &GameConfig, now: u64) -> (r: Option<u32>)
        ensures
            r == Some(blocks_left_spec(self.staking_start, cfg.min_long_block_length, now)),
    {
        Some(blocks_left(self.staking_start, cfg.min_long_block_length, now))
    }

    /// `(max_draws, draws so far, whether the quota is reached)`.
    pub fn get_drawing_period_end_helper(&self, cfg: &GameConfig) -> (r: (u64, u64, bool))
        ensures
            r == (cfg.max_draws, self.draws_in_round, self.draws_in_round >= cfg.max_draws),
    {
        (cfg.max_draws, self.draws_in_round, self.draws_in_round >= cfg.max_draws)
    }

    /// Blocks left in the commit period.
    pub fn get_commit_period_end_block_helper(&self, cfg: &GameConfig, now: u64) -> (r: Option<u32>)
        ensures
            r == Some(blocks_left_spec(self.commit_start, cfg.min_long_block_length, now)),
    {
        Some(blocks_left(self.commit_start, cfg.min_long_block_length, now))
    }

    /// Blocks left in the vote period.
    pub fn get_vote_period_end_block_helper(&self, cfg: &GameConfig, now: u64) -> (r: Option<u32>)
        ensures
            r == Some(blocks_left_spec(self.vote_start, cfg.min_long_block_length, now)),
    {
        Some(blocks_left(self.vote_start, cfg.min_long_block_length, now))
    }
}

} // verus!
