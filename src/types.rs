use vstd::prelude::*;

verus! {

/// The weighted sortition tree of one game instance, kept by the host.
pub trait SortitionSource {
    /// The account whose weight range covers `value`; `None` when the tree
    /// holds no weight.
    fn draw_link(&mut self, value: u64) -> Option<u64>;

    /// Sets the weight of `who` in the tree.
    fn set_link(&mut self, who: u64, weight: u64);
}

/// The randomness that drives draws.
pub trait RandomnessSource {
    /// A random value for the draw separated by `nonce`.
    fn random(&mut self, nonce: u64) -> u64;
}

/// The six ordered phases of a game instance.
#[derive(Clone, Copy, Debug, PartialEq, Eq, Structural)]
pub enum Period {
    Evidence,
    Staking,
    Drawing,
    Commit,
    Vote,
    Execution,
}

/// Position of a (possibly absent) period in the forward order; an instance
/// that has no period yet stands before `Evidence`.
pub open spec fn period_rank(p: Option<Period>) -> nat {
    match p {
        None => 0,
        Some(Period::Evidence) => 1,
        Some(Period::Staking) => 2,
        Some(Period::Drawing) => 3,
        Some(Period::Commit) => 4,
        Some(Period::Vote) => 5,
        Some(Period::Execution) => 6,
    }
}

/// A transition of the period is either no change or exactly one step forward.
pub open spec fn period_step(before: Option<Period>, after: Option<Period>) -> bool {
    after == before || period_rank(after) == period_rank(before) + 1
}

#[derive(Clone, Copy, Debug, PartialEq, Eq, Structural)]
pub enum GameError {
    PeriodAlreadyExists,
    PeriodDoesNotExist,
    PeriodDontMatch,
    EvidencePeriodNotOver,
    StakingPeriodNotOver,
    CommitPeriodNotOver,
    VotePeriodNotOver,
    MaxJurorNotDrawn,
    StakeLessThanMin,
    AlreadyStaked,
    JurorDoesNotExist,
    SelectedAsJuror,
    AlreadyUnstaked,
    StakeDoesNotExist,
    CommitDoesNotExist,
    VoteStatusNotCommitted,
    CommitDoesNotMatch,
    NotValidChoice,
    VoteNotRevealed,
    AlreadyGotIncentives,
    MaxDrawExceeded,
    ArithmeticOverflow,
    NoConsensusScore,
    NothingToDraw,
}

/// Parameters of one game type, shared by all of its instances.
#[derive(Clone, Copy, Debug, PartialEq, Eq, Structural)]
pub struct GameConfig {
    pub min_short_block_length: u64,
    pub min_long_block_length: u64,
    pub max_draws: u64,
    pub min_juror_stake: u64,
    /// Incentive pool shared by the winners when `No` wins.
    pub no_pool: u64,
    /// Incentive pool shared by the winners when `Yes` wins.
    pub yes_pool: u64,
}

#[derive(Clone, Copy, Debug, PartialEq, Eq, Structural)]
pub enum VoteStatus {
    Committed,
    Revealed,
}

#[derive(Clone, Copy, Debug, PartialEq, Eq, Structural)]
pub enum RevealedVote {
    Yes,
    No,
}

/// A juror's binary commitment.
#[derive(Clone, Copy, Debug)]
pub struct CommitVote {
    pub commit: [u8; 32],
    pub status: VoteStatus,
    pub revealed_vote: Option<RevealedVote>,
}

/// A juror's score commitment.
#[derive(Clone, Copy, Debug)]
pub struct ScoreCommitVote {
    pub commit: [u8; 32],
    pub status: VoteStatus,
    pub revealed_vote: Option<i64>,
}

#[derive(Clone, Copy, Debug, PartialEq, Eq, Structural)]
pub enum WinningDecision {
    WinnerYes,
    WinnerNo,
    Draw,
}

/// The scale of a score game.
#[derive(Clone, Copy, Debug, PartialEq, Eq, Structural)]
pub enum RangePoint {
    ZeroToTen,
    MinusTenToPlusTen,
    ZeroToFive,
}

} // verus!
