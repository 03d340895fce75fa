use vstd::prelude::*;
use crate::game::{sorted_by_account, Pallet};
use crate::binary_vote::reveal_two_choice_post;
use crate::incentives::{binary_settlement, score_settlement};
use crate::jurors::period_gate;
use crate::score_vote::reveal_score_post;
use crate::stats::{isqrt_spec, mean_spec, score_consensus, std_deviation_defined, trimmed, variance_spec};
use crate::types::{period_rank, period_step, GameConfig, GameError, Period, RangePoint, VoteStatus};

verus! {

broadcast use vstd::std_specs::hash::group_hash_axioms;

/// Along any run in which each transition is a period step (no change or
/// one step forward), the period never goes back and never skips a phase:
/// between two points of the run it advances by at most the number of
/// transitions between them.
pub proof fn lemma_period_only_advances(run: Seq<Option<Period>>)
    requires
        forall|k: int| 0 <= k < run.len() - 1 ==> #[trigger] period_step(run[k], run[k + 1]),
    ensures
        forall|i: int, j: int|
            0 <= i <= j < run.len() ==> period_rank(#[trigger] run[i]) <= period_rank(
                #[trigger] run[j],
            ) && period_rank(run[j]) <= period_rank(run[i]) + (j - i),
    decreases run.len(),
{
    if run.len() > 1 {
        let prefix = run.drop_last();
        assert forall|k: int| 0 <= k < prefix.len() - 1 implies #[trigger] period_step(
            prefix[k],
            prefix[k + 1],
        ) by {
            assert(period_step(run[k], run[k + 1]));
        }
        lemma_period_only_advances(prefix);
        assert forall|i: int, j: int| 0 <= i <= j < run.len() implies period_rank(
            #[trigger] run[i],
        ) <= period_rank(#[trigger] run[j]) && period_rank(run[j]) <= period_rank(run[i]) + (j
            - i) by {
            if j == run.len() - 1 && i < j {
                let k = j - 1;
                assert(period_step(run[k], run[k + 1]));
                assert(k + 1 == j);
                assert(prefix[i] == run[i] && prefix[j - 1] == run[j - 1]);
            } else if i < j {
                assert(prefix[i] == run[i] && prefix[j] == run[j]);
            }
        }
    }
}

/// Drawn jurors kept in account order hold no account twice.
pub proof fn lemma_drawn_jurors_distinct(g: Pallet)
    requires
        g.wf(),
    ensures
        forall|i: int, j: int|
            0 <= i < j < g.drawn_jurors@.len() ==> #[trigger] g.drawn_jurors@[i].0
                != #[trigger] g.drawn_jurors@[j].0,
{
    assert(sorted_by_account(g.drawn_jurors@));
}

/// A binary reveal succeeds only with the digest that was committed, and
/// with any other digest of a pending commitment it fails with
/// `CommitDoesNotMatch`.
pub proof fn lemma_binary_reveal_sound(
    g0: Pallet,
    g1: Pallet,
    who: u64,
    choice: u128,
    hash: Seq<u8>,
    r: Result<(), GameError>,
)
    requires
        reveal_two_choice_post(g0, g1, who, choice, hash, r),
    ensures
        r is Ok ==> g0.commits@.contains_key(who) && hash == g0.commits@[who].commit@,
        period_gate(g0.period, Period::Vote) is None && g0.commits@.contains_key(who)
            && g0.commits@[who].status == VoteStatus::Committed && hash
            != g0.commits@[who].commit@ ==> r == Err::<(), GameError>(
            GameError::CommitDoesNotMatch,
        ),
{
}

/// A score reveal succeeds only with the digest that was committed, and
/// with any other digest of a pending commitment it fails with
/// `CommitDoesNotMatch`.
pub proof fn lemma_score_reveal_sound(
    g0: Pallet,
    g1: Pallet,
    who: u64,
    choice: i64,
    hash: Seq<u8>,
    r: Result<(), GameError>,
)
    requires
        reveal_score_post(g0, g1, who, choice, hash, r),
    ensures
        r is Ok ==> g0.score_commits@.contains_key(who) && hash
            == g0.score_commits@[who].commit@,
        period_gate(g0.period, Period::Vote) is None && g0.score_commits@.contains_key(who)
            && g0.score_commits@[who].status == VoteStatus::Committed && hash
            != g0.score_commits@[who].commit@ ==> r == Err::<(), GameError>(
            GameError::CommitDoesNotMatch,
        ),
{
}

/// Once a juror of a binary game has been settled, settling the same juror
/// again fails with `AlreadyGotIncentives`.
pub proof fn lemma_binary_settlement_once(g0: Pallet, g1: Pallet, cfg: GameConfig, who: u64)
    requires
        binary_settlement(g0, cfg, who) is Ok,
        g1.paid_jurors@ == g0.paid_jurors@.insert(who),
        g1 == (Pallet { paid_jurors: g1.paid_jurors, ..g0 }),
    ensures
        binary_settlement(g1, cfg, who) == Err::<u64, GameError>(GameError::AlreadyGotIncentives),
{
    assert(g1.drawn_jurors@ == g0.drawn_jurors@);
    assert(g1.is_drawn(who) == g0.is_drawn(who));
}

/// Once a juror of a score game has been settled, settling the same juror
/// again fails with `AlreadyGotIncentives`.
pub proof fn lemma_score_settlement_once(
    g0: Pallet,
    g1: Pallet,
    cfg: GameConfig,
    who: u64,
    range_point: RangePoint,
)
    requires
        score_settlement(g0, cfg, who, range_point) is Ok,
        g1.paid_jurors@ == g0.paid_jurors@.insert(who),
        g1 == (Pallet { paid_jurors: g1.paid_jurors, incentive_mean: g1.incentive_mean, ..g0 }),
    ensures
        score_settlement(g1, cfg, who, range_point) == Err::<u64, GameError>(
            GameError::AlreadyGotIncentives,
        ),
{
    assert(g1.drawn_jurors@ == g0.drawn_jurors@);
    assert(g1.is_drawn(who) == g0.is_drawn(who));
}

proof fn lemma_trim_keeps_all(s: Seq<i64>, lo: int, hi: int)
    requires
        forall|i: int| 0 <= i < s.len() ==> lo <= #[trigger] s[i] <= hi,
    ensures
        trimmed(s, lo, hi) == s,
    decreases s.len(),
{
    if s.len() > 0 {
        lemma_trim_keeps_all(s.drop_last(), lo, hi);
        assert(s.drop_last().push(s.last()) =~= s);
    }
}

/// When no sample lies farther than one deviation from the mean, trimming
/// removes nothing and the consensus score is the plain mean.
pub proof fn lemma_consensus_without_outliers(s: Seq<i64>)
    requires
        std_deviation_defined(s),
        forall|i: int|
            0 <= i < s.len() ==> mean_spec(s).unwrap() - isqrt_spec(variance_spec(s))
                <= #[trigger] s[i] <= mean_spec(s).unwrap() + isqrt_spec(variance_spec(s)),
    ensures
        score_consensus(s) == mean_spec(s),
{
    let m = mean_spec(s).unwrap();
    let sd = isqrt_spec(variance_spec(s));
    lemma_trim_keeps_all(s, m - sd, m + sd);
}

} // verus!
