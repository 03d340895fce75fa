use vstd::prelude::*;
use crate::game::Pallet;
use crate::jurors::period_gate;
use crate::stats::{count_within, incentives_range_spec, score_consensus, trimmed};
use crate::types::{
    GameConfig, GameError, Period, RangePoint, RevealedVote, WinningDecision,
};

verus! {

broadcast use vstd::std_specs::hash::group_hash_axioms;

/// The side with more revealed votes wins; equal counts are a draw.
pub open spec fn winning_decision_spec(count: (u64, u64)) -> WinningDecision {
    if count.1 > count.0 {
        WinningDecision::WinnerYes
    } else if count.0 > count.1 {
        WinningDecision::WinnerNo
    } else {
        WinningDecision::Draw
    }
}

/// Each winner's share of the winning side's pool, rounded down; zero on a draw.
pub open spec fn winning_incentives_spec(count: (u64, u64), pools: (u64, u64)) -> u64 {
    match winning_decision_spec(count) {
        WinningDecision::WinnerYes => (pools.1 / count.1) as u64,
        WinningDecision::WinnerNo => (pools.0 / count.0) as u64,
        WinningDecision::Draw => 0,
    }
}

/// Three quarters of a stake, rounded down: what a losing juror gets back.
pub open spec fn loser_amount(stake: u64) -> int {
    (stake * 3) / 4
}

/// What a juror who voted `vote` is owed under `decision`.
pub open spec fn binary_payout_amount(
    decision: WinningDecision,
    vote: RevealedVote,
    stake: u64,
    share: u64,
) -> int {
    match decision {
        WinningDecision::WinnerYes => if vote == RevealedVote::Yes {
            stake + share
        } else {
            loser_amount(stake)
        },
        WinningDecision::WinnerNo => if vote == RevealedVote::No {
            stake + share
        } else {
            loser_amount(stake)
        },
        WinningDecision::Draw => stake as int,
    }
}

/// The stake recorded for `who` when drawn.
pub open spec fn drawn_stake(g: Pallet, who: u64) -> u64 {
    let i = choose|i: int| 0 <= i < g.drawn_jurors@.len() && g.drawn_jurors@[i].0 == who;
    g.drawn_jurors@[i].1
}

/// The result of settling `who` in a binary game in state `g`.
pub open spec fn binary_settlement(g: Pallet, cfg: GameConfig, who: u64) -> Result<u64, GameError> {
    match period_gate(g.period, Period::Execution) {
        Some(e) => Err(e),
        None => if !g.commits@.contains_key(who) {
            Err(GameError::CommitDoesNotExist)
        } else {
            match g.commits@[who].revealed_vote {
                None => Err(GameError::VoteNotRevealed),
                Some(vote) => if !g.is_drawn(who) {
                    Err(GameError::StakeDoesNotExist)
                } else if g.paid_jurors@.contains(who) {
                    Err(GameError::AlreadyGotIncentives)
                } else {
                    let amount = binary_payout_amount(
                        winning_decision_spec(g.decision_count),
                        vote,
                        drawn_stake(g, who),
                        winning_incentives_spec(g.decision_count, (cfg.no_pool, cfg.yes_pool)),
                    );
                    if amount > u64::MAX {
                        Err(GameError::ArithmeticOverflow)
                    } else {
                        Ok(amount as u64)
                    }
                },
            }
        },
    }
}

/// The result of settling `who` in a score game in state `g`.
pub open spec fn score_settlement(g: Pallet, cfg: GameConfig, who: u64, range_point: RangePoint) -> Result<u64, GameError> {
    match period_gate(g.period, Period::Execution) {
        Some(e) => Err(e),
        None => if !g.score_commits@.contains_key(who) {
            Err(GameError::CommitDoesNotExist)
        } else {
            match g.score_commits@[who].revealed_vote {
                None => Err(GameError::VoteNotRevealed),
                Some(vote) => if !g.is_drawn(who) {
                    Err(GameError::StakeDoesNotExist)
                } else if g.paid_jurors@.contains(who) {
                    Err(GameError::AlreadyGotIncentives)
                } else {
                    match score_consensus(g.revealed_scores@) {
                        None => Err(GameError::NoConsensusScore),
                        Some(c) => {
                            let delta = incentives_range_spec(range_point);
                            let stake = drawn_stake(g, who);
                            if c - delta <= vote * 1000 <= c + delta {
                                let n = trimmed(g.revealed_scores@, c - delta, c + delta).len();
                                let bonus: int = if n > 0 { (cfg.yes_pool as int) / (n as int) } else { 0 };
                                if stake + bonus > u64::MAX {
                                    Err(GameError::ArithmeticOverflow)
                                } else {
                                    Ok((stake + bonus) as u64)
                                }
                            } else {
                                Ok(loser_amount(stake) as u64)
                            }
                        },
                    }
                },
            }
        },
    }
}



fn loser_share(stake: u64) -> (r: u64)
    ensures
        r == loser_amount(stake),
{
    ((stake as u128) * 3 / 4) as u64
}

impl Pallet {
    /// Records `who` as paid and returns `amount`, unless `who` was paid before.
    fn pay_once(&mut self, who: u64, amount: u64) -> (r: Result<u64, GameError>)
        ensures
            old(self).paid_jurors@.contains(who) ==> r == Err::<u64, GameError>(
                GameError::AlreadyGotIncentives,
            ) && *final(self) == *old(self),
            !old(self).paid_jurors@.contains(who) ==> r == Ok::<u64, GameError>(amount)
                && final(self).paid_jurors@ == old(self).paid_jurors@.insert(who) && *final(self)
                == (Pallet { paid_jurors: final(self).paid_jurors, ..*old(self) }),
    {
        if self.paid_jurors.contains(&who) {
            return Err(GameError::AlreadyGotIncentives);
        }
        self.paid_jurors.insert(who);
        Ok(amount)
    }

    /// Pays back the whole stake after a drawn vote, once per juror.
    pub fn getting_incentives_draw(&mut self, who: u64, stake: u64) -> (r: Result<u64, GameError>)
        ensures
            old(self).paid_jurors@.contains(who) ==> r == Err::<u64, GameError>(
                GameError::AlreadyGotIncentives,
            ) && *final(self) == *old(self),
            !old(self).paid_jurors@.contains(who) ==> r == Ok::<u64, GameError>(stake)
                && final(self).paid_jurors@ == old(self).paid_jurors@.insert(who) && *final(self)
                == (Pallet { paid_jurors: final(self).paid_jurors, ..*old(self) }),
    {
        self.pay_once(who, stake)
    }

    /// Pays a losing juror three quarters of the stake, once per juror.
    pub fn looser_getting_incentives(&mut self, who: u64, stake: u64) -> (r: Result<u64, GameError>)
        ensures
            old(self).paid_jurors@.contains(who) ==> r == Err::<u64, GameError>(
                GameError::AlreadyGotIncentives,
            ) && *final(self) == *old(self),
            !old(self).paid_jurors@.contains(who) ==> r == Ok::<u64, GameError>(
                loser_amount(stake) as u64,
            ) && final(self).paid_jurors@ == old(self).paid_jurors@.insert(who) && *final(self)
                == (Pallet { paid_jurors: final(self).paid_jurors, ..*old(self) }),
    {
        let amount = loser_share(stake);
        self.pay_once(who, amount)
    }

    /// Pays a winning juror the stake plus the winner's share, once per juror.
    pub fn winner_getting_incentives(&mut self, who: u64, winning_incentives: u64, stake: u64) -> (r: Result<u64, GameError>)
        ensures
            old(self).paid_jurors@.contains(who) ==> r == Err::<u64, GameError>(
                GameError::AlreadyGotIncentives,
            ) && *final(self) == *old(self),
            !old(self).paid_jurors@.contains(who) && stake + winning_incentives > u64::MAX ==> r
                == Err::<u64, GameError>(GameError::ArithmeticOverflow) && *final(self)
                == *old(self),
            !old(self).paid_jurors@.contains(who) && stake + winning_incentives <= u64::MAX ==> r
                == Ok::<u64, GameError>((stake + winning_incentives) as u64)
                && final(self).paid_jurors@ == old(self).paid_jurors@.insert(who) && *final(self)
                == (Pallet { paid_jurors: final(self).paid_jurors, ..*old(self) }),
    {
        if self.paid_jurors.contains(&who) {
            return Err(GameError::AlreadyGotIncentives);
        }
        match stake.checked_add(winning_incentives) {
            Some(total) => self.pay_once(who, total),
            None => Err(GameError::ArithmeticOverflow),
        }
    }

    /// Settles a juror of a binary game during `Execution` and returns the
    /// amount the host credits: the stake plus the winners' share to a
    /// winner, three quarters of the stake to a loser, the stake on a draw.
    pub fn get_incentives_two_choice_helper(&mut self, cfg: &GameConfig, who: u64) -> (r: Result<u64, GameError>)
        requires
            old(self).wf(),
        ensures
            r == binary_settlement(*old(self), *cfg, who),
            r is Ok ==> final(self).paid_jurors@ == old(self).paid_jurors@.insert(who)
                && *final(self) == (Pallet { paid_jurors: final(self).paid_jurors, ..*old(self) }),
            r is Err ==> *final(self) == *old(self),
    {
        self.check_period(Period::Execution)?;
        let vote: RevealedVote = match self.commits.get(&who) {
            None => {
                return Err(GameError::CommitDoesNotExist);
            },
            Some(c) => match c.revealed_vote {
                None => {
                    return Err(GameError::VoteNotRevealed);
                },
                Some(v) => v,
            },
        };
        let idx: usize = match self.find_drawn(who) {
            Some(i) => i,
            None => {
                return Err(GameError::StakeDoesNotExist);
            },
        };
        let stake: u64 = self.drawn_jurors[idx].1;
        proof {
            let j = choose|j: int|
                0 <= j < self.drawn_jurors@.len() && self.drawn_jurors@[j].0 == who;
            assert(j == idx as int);
        }
        let (decision, share) = Pallet::get_winning_incentives(
            self.decision_count,
            (cfg.no_pool, cfg.yes_pool),
        );
        match decision {
            WinningDecision::WinnerYes => match vote {
                RevealedVote::Yes => self.winner_getting_incentives(who, share, stake),
                RevealedVote::No => self.looser_getting_incentives(who, stake),
            },
            WinningDecision::WinnerNo => match vote {
                RevealedVote::Yes => self.looser_getting_incentives(who, stake),
                RevealedVote::No => self.winner_getting_incentives(who, share, stake),
            },
            WinningDecision::Draw => self.getting_incentives_draw(who, stake),
        }
    }

    /// Settles a juror of a score game during `Execution` and returns the
    /// amount the host credits. A juror whose score (times 1000) lies within
    /// the band of the game's scale around the consensus score gets the
    /// stake plus an equal share of `yes_pool` among the samples in that
    /// band; any other gets three quarters of the stake. The consensus score
    /// is kept in `incentive_mean`.
    pub fn get_incentives_score_schelling_helper(&mut self, cfg: &GameConfig, who: u64, range_point: RangePoint) -> (r: Result<u64, GameError>)
        requires
            old(self).wf(),
        ensures
            r == score_settlement(*old(self), *cfg, who, range_point),
            r is Ok ==> final(self).paid_jurors@ == old(self).paid_jurors@.insert(who),
            r is Ok ==> final(self).incentive_mean is Some && score_consensus(
                old(self).revealed_scores@,
            ) == Some(final(self).incentive_mean.unwrap() as int),
            r is Ok ==> *final(self) == (Pallet {
                paid_jurors: final(self).paid_jurors,
                incentive_mean: final(self).incentive_mean,
                ..*old(self)
            }),
            r is Err ==> *final(self) == *old(self),
    {
        self.check_period(Period::Execution)?;
        let vote: i64 = match self.score_commits.get(&who) {
            None => {
                return Err(GameError::CommitDoesNotExist);
            },
            Some(c) => match c.revealed_vote {
                None => {
                    return Err(GameError::VoteNotRevealed);
                },
                Some(v) => v,
            },
        };
        let idx: usize = match self.find_drawn(who) {
            Some(i) => i,
            None => {
                return Err(GameError::StakeDoesNotExist);
            },
        };
        let stake: u64 = self.drawn_jurors[idx].1;
        proof {
            let j = choose|j: int|
                0 <= j < self.drawn_jurors@.len() && self.drawn_jurors@[j].0 == who;
            assert(j == idx as int);
        }
        if self.paid_jurors.contains(&who) {
            return Err(GameError::AlreadyGotIncentives);
        }
        let sd_and_mean = Pallet::std_deviation_interger(&self.revealed_scores);
        let consensus: i64 = match Pallet::calculate_new_mean(&self.revealed_scores, sd_and_mean) {
            Some(c) => c,
            None => {
                return Err(GameError::NoConsensusScore);
            },
        };
        let delta: i64 = Pallet::get_incentives_range(range_point);
        let lo: i128 = consensus as i128 - delta as i128;
        let hi: i128 = consensus as i128 + delta as i128;
        let scaled: i128 = vote as i128 * 1000;
        let amount: u64 = if lo <= scaled && scaled <= hi {
            let n: usize = count_within(&self.revealed_scores, lo, hi);
            let bonus: u64 = if n > 0 {
                cfg.yes_pool / (n as u64)
            } else {
                0
            };
            match stake.checked_add(bonus) {
                Some(t) => t,
                None => {
                    return Err(GameError::ArithmeticOverflow);
                },
            }
        } else {
            loser_share(stake)
        };
        self.incentive_mean = Some(consensus);
        self.paid_jurors.insert(who);
        Ok(amount)
    }
}

impl Pallet {
    /// The winning side of a `(no, yes)` tally.
    pub fn get_winning_decision(decision_tuple: (u64, u64)) -> (r: WinningDecision)
        ensures
            r == winning_decision_spec(decision_tuple),
    {
        if decision_tuple.1 > decision_tuple.0 {
            WinningDecision::WinnerYes
        } else if decision_tuple.0 > decision_tuple.1 {
            WinningDecision::WinnerNo
        } else {
            WinningDecision::Draw
        }
    }

    /// The winning side of a `(no, yes)` tally and each winner's share of the
    /// `(no_pool, yes_pool)` pool of that side.
    pub fn get_winning_incentives(decision_tuple: (u64, u64), incentive_tuple: (u64, u64)) -> (r: (WinningDecision, u64))
        ensures
            r == (winning_decision_spec(decision_tuple), winning_incentives_spec(decision_tuple, incentive_tuple)),
    {
        let decision = Pallet::get_winning_decision(decision_tuple);
        match decision {
            WinningDecision::WinnerYes => (decision, incentive_tuple.1 / decision_tuple.1),
            WinningDecision::WinnerNo => (decision, incentive_tuple.0 / decision_tuple.0),
            WinningDecision::Draw => (decision, 0),
        }
    }
}

} // verus!
