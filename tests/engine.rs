use schelling_game::game::Pallet;
use schelling_game::types::{GameConfig, GameError, Period, RangePoint, RevealedVote, VoteStatus, WinningDecision};

fn config(max_draws: u64, yes_pool: u64) -> GameConfig {
    GameConfig {
        min_short_block_length: 50,
        min_long_block_length: 100,
        max_draws,
        min_juror_stake: 100,
        no_pool: 200,
        yes_pool,
    }
}

fn commit_of(choice: &str, salt: &[u8]) -> [u8; 32] {
    let mut msg = choice.as_bytes().to_vec();
    msg.extend_from_slice(salt);
    sp_io::hashing::keccak_256(&msg)
}

/// A game with the given stakers drawn and the period at `Commit`.
fn drawn_game(cfg: &GameConfig, jurors: &[(u64, u64)]) -> Pallet {
    let mut g = Pallet::new();
    g.set_to_evidence_period(10).unwrap();
    g.set_to_staking_period(cfg, 60).unwrap();
    for (who, stake) in jurors {
        g.apply_jurors_helper(cfg, *who, *stake).unwrap();
    }
    g.change_period(cfg, 160).unwrap();
    for (who, _) in jurors {
        assert_eq!(g.record_draw(cfg, *who), Ok(true));
    }
    g.change_period(cfg, 170).unwrap();
    assert_eq!(g.period, Some(Period::Commit));
    g
}

#[test]
fn evidence_period_opens_once() {
    let mut g = Pallet::new();
    assert_eq!(g.set_to_evidence_period(5), Ok(()));
    assert_eq!(g.period, Some(Period::Evidence));
    assert_eq!(g.evidence_start, 5);
    assert_eq!(g.set_to_evidence_period(6), Err(GameError::PeriodAlreadyExists));
    assert_eq!(g.evidence_start, 5);
}

#[test]
fn periods_advance_in_order_with_gates() {
    let cfg = config(1, 90);
    let mut g = Pallet::new();
    assert_eq!(g.change_period(&cfg, 0), Err(GameError::PeriodDoesNotExist));
    g.set_to_evidence_period(10).unwrap();
    assert_eq!(g.set_to_staking_period(&cfg, 59), Err(GameError::EvidencePeriodNotOver));
    assert_eq!(g.set_to_staking_period(&cfg, 60), Ok(()));
    assert_eq!(g.period, Some(Period::Staking));
    assert_eq!(g.staking_start, 60);
    // No longer in Evidence: nothing happens.
    assert_eq!(g.set_to_staking_period(&cfg, 1000), Ok(()));
    assert_eq!(g.staking_start, 60);
    g.apply_jurors_helper(&cfg, 7, 100).unwrap();
    assert_eq!(g.change_period(&cfg, 159), Err(GameError::StakingPeriodNotOver));
    assert_eq!(g.change_period(&cfg, 160), Ok(()));
    assert_eq!(g.period, Some(Period::Drawing));
    assert_eq!(g.change_period(&cfg, 161), Err(GameError::MaxJurorNotDrawn));
    assert_eq!(g.record_draw(&cfg, 7), Ok(true));
    assert_eq!(g.change_period(&cfg, 200), Ok(()));
    assert_eq!(g.period, Some(Period::Commit));
    assert_eq!(g.commit_start, 200);
    assert_eq!(g.change_period(&cfg, 299), Err(GameError::CommitPeriodNotOver));
    assert_eq!(g.change_period(&cfg, 300), Ok(()));
    assert_eq!(g.period, Some(Period::Vote));
    assert_eq!(g.vote_start, 300);
    assert_eq!(g.change_period(&cfg, 399), Err(GameError::VotePeriodNotOver));
    assert_eq!(g.change_period(&cfg, 400), Ok(()));
    assert_eq!(g.period, Some(Period::Execution));
    assert_eq!(g.change_period(&cfg, 10_000), Ok(()));
    assert_eq!(g.period, Some(Period::Execution));
}

#[test]
fn blocks_left_saturate_at_zero() {
    let cfg = config(1, 90);
    let mut g = Pallet::new();
    g.set_to_evidence_period(10).unwrap();
    assert_eq!(g.get_evidence_period_end_block_helper(&cfg, 20), Some(40));
    assert_eq!(g.get_evidence_period_end_block_helper(&cfg, 60), Some(0));
    assert_eq!(g.get_evidence_period_end_block_helper(&cfg, 500), Some(0));
    g.set_to_staking_period(&cfg, 60).unwrap();
    assert_eq!(g.get_staking_period_end_block_helper(&cfg, 100), Some(60));
    assert_eq!(g.get_commit_period_end_block_helper(&cfg, 30), Some(70));
    assert_eq!(g.get_vote_period_end_block_helper(&cfg, 200), Some(0));
    let big = GameConfig { min_long_block_length: u64::MAX, ..cfg };
    assert_eq!(g.get_staking_period_end_block_helper(&big, 0), Some(u32::MAX));
    assert_eq!(g.get_drawing_period_end_helper(&cfg), (1, 0, false));
}

#[test]
fn apply_jurors_checks_period_stake_and_duplicates() {
    let cfg = config(2, 90);
    let mut g = Pallet::new();
    assert_eq!(g.apply_jurors_helper(&cfg, 1, 100), Err(GameError::PeriodDoesNotExist));
    g.set_to_evidence_period(0).unwrap();
    assert_eq!(g.apply_jurors_helper(&cfg, 1, 100), Err(GameError::PeriodDontMatch));
    g.set_to_staking_period(&cfg, 50).unwrap();
    assert_eq!(g.apply_jurors_helper(&cfg, 1, 99), Err(GameError::StakeLessThanMin));
    assert_eq!(g.apply_jurors_helper(&cfg, 1, 100), Ok(()));
    assert_eq!(g.apply_jurors_helper(&cfg, 1, 300), Err(GameError::AlreadyStaked));
    assert_eq!(g.stakes.get(&1), Some(&100));
}

#[test]
fn draws_respect_quota_and_skip_duplicates() {
    let cfg = config(2, 90);
    let mut g = Pallet::new();
    g.set_to_evidence_period(0).unwrap();
    g.set_to_staking_period(&cfg, 50).unwrap();
    for who in [30u64, 10, 20] {
        g.apply_jurors_helper(&cfg, who, 100 + who).unwrap();
    }
    assert_eq!(g.draw_attempts(&cfg, 5), Err(GameError::PeriodDontMatch));
    g.change_period(&cfg, 150).unwrap();
    assert_eq!(g.draw_attempts(&cfg, 5), Ok(2));
    assert_eq!(g.draw_attempts(&cfg, 1), Ok(1));
    assert_eq!(g.record_draw(&cfg, 99), Err(GameError::StakeDoesNotExist));
    assert_eq!(g.record_draw(&cfg, 30), Ok(true));
    assert_eq!(g.record_draw(&cfg, 30), Ok(false));
    assert_eq!(g.draws_in_round, 1);
    assert_eq!(g.stakes.get(&30), Some(&0));
    assert_eq!(g.record_draw(&cfg, 10), Ok(true));
    assert_eq!(g.drawn_jurors, vec![(10, 110), (30, 130)]);
    assert_eq!(g.draw_attempts(&cfg, 1), Err(GameError::MaxDrawExceeded));
    assert_eq!(g.record_draw(&cfg, 20), Err(GameError::MaxDrawExceeded));
    assert_eq!(g.draws_in_round, 2);
    assert!(g.selected_as_juror_helper(10));
    assert!(!g.selected_as_juror_helper(20));
    assert_eq!(g.get_drawing_period_end_helper(&cfg), (2, 2, true));
}

#[test]
fn unstaking_releases_only_undrawn_stakers_once() {
    let cfg = config(1, 90);
    let mut g = Pallet::new();
    g.set_to_evidence_period(0).unwrap();
    g.set_to_staking_period(&cfg, 50).unwrap();
    g.apply_jurors_helper(&cfg, 1, 100).unwrap();
    g.apply_jurors_helper(&cfg, 2, 250).unwrap();
    g.change_period(&cfg, 150).unwrap();
    assert_eq!(g.unstaking_helper(2), Err(GameError::PeriodDontMatch));
    g.record_draw(&cfg, 1).unwrap();
    g.change_period(&cfg, 151).unwrap();
    assert_eq!(g.unstaking_helper(1), Err(GameError::SelectedAsJuror));
    assert_eq!(g.unstaking_helper(3), Err(GameError::StakeDoesNotExist));
    assert_eq!(g.unstaking_helper(2), Ok(250));
    assert_eq!(g.unstaking_helper(2), Err(GameError::AlreadyUnstaked));
}

#[test]
fn commit_requires_drawn_juror_and_may_be_replaced() {
    let cfg = config(1, 90);
    let mut g = drawn_game(&cfg, &[(5, 100)]);
    assert_eq!(g.commit_vote_helper(6, [1; 32]), Err(GameError::JurorDoesNotExist));
    assert_eq!(g.commit_vote_helper(5, [1; 32]), Ok(()));
    assert_eq!(g.commit_vote_helper(5, [2; 32]), Ok(()));
    let c = g.commits.get(&5).unwrap();
    assert_eq!(c.commit, [2; 32]);
    assert_eq!(c.status, VoteStatus::Committed);
    assert_eq!(c.revealed_vote, None);
}

#[test]
fn reveal_matches_decimal_choice_and_salt() {
    let cfg = config(1, 90);
    let mut g = drawn_game(&cfg, &[(5, 100)]);
    g.commit_vote_helper(5, commit_of("1", b"salt")).unwrap();
    assert_eq!(g.reveal_vote_two_choice_helper(5, 1, &b"salt".to_vec()), Err(GameError::PeriodDontMatch));
    g.change_period(&cfg, 300).unwrap();
    assert_eq!(g.reveal_vote_two_choice_helper(6, 1, &b"salt".to_vec()), Err(GameError::CommitDoesNotExist));
    assert_eq!(g.reveal_vote_two_choice_helper(5, 1, &b"pepper".to_vec()), Err(GameError::CommitDoesNotMatch));
    assert_eq!(g.reveal_vote_two_choice_helper(5, 0, &b"salt".to_vec()), Err(GameError::CommitDoesNotMatch));
    assert_eq!(g.reveal_vote_two_choice_helper(5, 1, &b"salt".to_vec()), Ok(()));
    assert_eq!(g.decision_count, (0, 1));
    let c = g.commits.get(&5).unwrap();
    assert_eq!(c.status, VoteStatus::Revealed);
    assert_eq!(c.revealed_vote, Some(RevealedVote::Yes));
    assert_eq!(g.reveal_vote_two_choice_helper(5, 1, &b"salt".to_vec()), Err(GameError::VoteStatusNotCommitted));
}

#[test]
fn reveal_rejects_choice_outside_two() {
    let cfg = config(1, 90);
    let mut g = drawn_game(&cfg, &[(5, 100)]);
    g.commit_vote_helper(5, commit_of("2", b"s")).unwrap();
    g.change_period(&cfg, 300).unwrap();
    assert_eq!(g.reveal_vote_two_choice_helper(5, 2, &b"s".to_vec()), Err(GameError::NotValidChoice));
    assert_eq!(g.decision_count, (0, 0));
}

#[test]
fn winning_decision_and_share() {
    assert_eq!(Pallet::get_winning_decision((1, 3)), WinningDecision::WinnerYes);
    assert_eq!(Pallet::get_winning_decision((3, 1)), WinningDecision::WinnerNo);
    assert_eq!(Pallet::get_winning_decision((2, 2)), WinningDecision::Draw);
    assert_eq!(Pallet::get_winning_incentives((1, 3), (0, 400)), (WinningDecision::WinnerYes, 133));
    assert_eq!(Pallet::get_winning_incentives((4, 1), (200, 400)), (WinningDecision::WinnerNo, 50));
    assert_eq!(Pallet::get_winning_incentives((2, 2), (200, 400)), (WinningDecision::Draw, 0));
}

/// Runs a binary game with the given `(account, stake, choice)` jurors and
/// returns it in `Execution`.
fn settled_binary_game(cfg: &GameConfig, jurors: &[(u64, u64, u128)]) -> Pallet {
    let pairs: Vec<(u64, u64)> = jurors.iter().map(|(w, s, _)| (*w, *s)).collect();
    let mut g = drawn_game(cfg, &pairs);
    for (who, _, choice) in jurors {
        let salt = format!("salt{}", who).into_bytes();
        g.commit_vote_helper(*who, commit_of(&choice.to_string(), &salt)).unwrap();
    }
    g.change_period(cfg, 300).unwrap();
    for (who, _, choice) in jurors {
        let salt = format!("salt{}", who).into_bytes();
        g.reveal_vote_two_choice_helper(*who, *choice, &salt).unwrap();
    }
    g.change_period(cfg, 400).unwrap();
    g
}

#[test]
fn binary_payoffs_for_winners_and_losers() {
    let cfg = config(4, 400);
    let mut g = settled_binary_game(&cfg, &[(1, 200, 1), (2, 300, 1), (3, 400, 1), (4, 1000, 0)]);
    assert_eq!(g.decision_count, (1, 3));
    assert_eq!(g.get_incentives_two_choice_helper(&cfg, 1), Ok(333));
    assert_eq!(g.get_incentives_two_choice_helper(&cfg, 2), Ok(433));
    assert_eq!(g.get_incentives_two_choice_helper(&cfg, 3), Ok(533));
    assert_eq!(g.get_incentives_two_choice_helper(&cfg, 4), Ok(750));
}

#[test]
fn draw_returns_stake() {
    let cfg = config(2, 400);
    let mut g = settled_binary_game(&cfg, &[(1, 150, 1), (2, 170, 0)]);
    assert_eq!(g.get_incentives_two_choice_helper(&cfg, 1), Ok(150));
    assert_eq!(g.get_incentives_two_choice_helper(&cfg, 2), Ok(170));
}

#[test]
fn settlement_happens_once() {
    let cfg = config(1, 400);
    let mut g = settled_binary_game(&cfg, &[(1, 150, 1)]);
    assert_eq!(g.get_incentives_two_choice_helper(&cfg, 1), Ok(550));
    assert_eq!(g.get_incentives_two_choice_helper(&cfg, 1), Err(GameError::AlreadyGotIncentives));
    assert!(g.paid_jurors.contains(&1));
}

#[test]
fn settlement_errors() {
    let cfg = config(2, 400);
    let mut g = drawn_game(&cfg, &[(1, 150), (2, 150)]);
    assert_eq!(g.get_incentives_two_choice_helper(&cfg, 1), Err(GameError::PeriodDontMatch));
    g.commit_vote_helper(1, commit_of("1", b"x")).unwrap();
    g.change_period(&cfg, 300).unwrap();
    g.change_period(&cfg, 400).unwrap();
    assert_eq!(g.get_incentives_two_choice_helper(&cfg, 2), Err(GameError::CommitDoesNotExist));
    assert_eq!(g.get_incentives_two_choice_helper(&cfg, 1), Err(GameError::VoteNotRevealed));
}

#[test]
fn winner_overflow_is_reported() {
    let mut g = Pallet::new();
    assert_eq!(g.winner_getting_incentives(1, 1, u64::MAX), Err(GameError::ArithmeticOverflow));
    assert_eq!(g.winner_getting_incentives(1, 1, 5), Ok(6));
    assert_eq!(g.looser_getting_incentives(2, u64::MAX), Ok(u64::MAX / 4 * 3 + 2));
    assert_eq!(g.getting_incentives_draw(1, 5), Err(GameError::AlreadyGotIncentives));
}

#[test]
fn end_to_end_three_jurors() {
    let cfg = GameConfig { no_pool: 0, yes_pool: 90, ..config(3, 90) };
    let mut g = Pallet::new();
    g.set_to_evidence_period(1).unwrap();
    g.set_to_staking_period(&cfg, 51).unwrap();
    for who in [11u64, 12, 13] {
        g.apply_jurors_helper(&cfg, who, 100).unwrap();
    }
    g.change_period(&cfg, 151).unwrap();
    assert_eq!(g.draw_attempts(&cfg, 10), Ok(3));
    for who in [12u64, 11, 13] {
        assert_eq!(g.record_draw(&cfg, who), Ok(true));
    }
    g.change_period(&cfg, 152).unwrap();
    let choices = [(11u64, 1u128), (12, 1), (13, 0)];
    for (who, c) in choices {
        g.commit_vote_helper(who, commit_of(&c.to_string(), b"secret")).unwrap();
    }
    g.change_period(&cfg, 252).unwrap();
    assert_eq!(g.period, Some(Period::Vote));
    for (who, c) in choices {
        g.reveal_vote_two_choice_helper(who, c, &b"secret".to_vec()).unwrap();
    }
    g.change_period(&cfg, 352).unwrap();
    assert_eq!(g.period, Some(Period::Execution));
    assert_eq!(g.decision_count, (1, 2));
    assert_eq!(g.get_incentives_two_choice_helper(&cfg, 11), Ok(145));
    assert_eq!(g.get_incentives_two_choice_helper(&cfg, 12), Ok(145));
    assert_eq!(g.get_incentives_two_choice_helper(&cfg, 13), Ok(75));
}

#[test]
fn nonce_counts_up_and_never_wraps() {
    let mut n: u64 = 0;
    assert_eq!(Pallet::get_and_increment_nonce(&mut n), Ok(0));
    assert_eq!(Pallet::get_and_increment_nonce(&mut n), Ok(1));
    assert_eq!(n, 2);
    n = u64::MAX - 1;
    assert_eq!(Pallet::get_and_increment_nonce(&mut n), Ok(u64::MAX - 1));
    assert_eq!(Pallet::get_and_increment_nonce(&mut n), Err(GameError::ArithmeticOverflow));
    assert_eq!(n, u64::MAX);
}

/// A sortition source that answers every draw with a fixed script of
/// accounts and records the weights it is told.
struct ScriptedTree {
    picks: Vec<u64>,
    next: usize,
    zeroed: Vec<u64>,
}

impl schelling_game::types::SortitionSource for ScriptedTree {
    fn draw_link(&mut self, _value: u64) -> Option<u64> {
        let p = self.picks.get(self.next).copied();
        self.next += 1;
        p
    }

    fn set_link(&mut self, who: u64, weight: u64) {
        assert_eq!(weight, 0);
        self.zeroed.push(who);
    }
}

struct CountingRandomness {
    seen: Vec<u64>,
}

impl schelling_game::types::RandomnessSource for CountingRandomness {
    fn random(&mut self, nonce: u64) -> u64 {
        self.seen.push(nonce);
        nonce * 7
    }
}

fn drawing_game(cfg: &GameConfig, stakers: &[u64]) -> Pallet {
    let mut g = Pallet::new();
    g.set_to_evidence_period(0).unwrap();
    g.set_to_staking_period(cfg, 50).unwrap();
    for who in stakers {
        g.apply_jurors_helper(cfg, *who, 100).unwrap();
    }
    g.change_period(cfg, 150).unwrap();
    g
}

#[test]
fn repeated_draws_of_one_slot_count_once() {
    let cfg = config(3, 90);
    let mut g = drawing_game(&cfg, &[1, 2, 3]);
    let mut tree = ScriptedTree { picks: vec![2, 2, 2, 2, 2, 2], next: 0, zeroed: vec![] };
    let mut rng = CountingRandomness { seen: vec![] };
    let mut nonce: u64 = 40;
    assert_eq!(g.draw_jurors_helper(&cfg, 10, &mut nonce, &mut tree, &mut rng), Ok(()));
    // three attempts (the quota left), one juror, three nonces spent
    assert_eq!(g.draws_in_round, 1);
    assert_eq!(g.drawn_jurors, vec![(2, 100)]);
    assert_eq!(rng.seen, vec![40, 41, 42]);
    assert_eq!(nonce, 43);
    assert_eq!(tree.zeroed, vec![2]);
    assert_eq!(g.draw_jurors_helper(&cfg, 2, &mut nonce, &mut tree, &mut rng), Ok(()));
    assert_eq!(g.draws_in_round, 1);
}

#[test]
fn draws_never_pass_the_quota() {
    let cfg = config(2, 90);
    let mut g = drawing_game(&cfg, &[1, 2, 3]);
    let mut tree = ScriptedTree { picks: vec![3, 1, 2, 2], next: 0, zeroed: vec![] };
    let mut rng = CountingRandomness { seen: vec![] };
    let mut nonce: u64 = 0;
    assert_eq!(g.draw_jurors_helper(&cfg, 1, &mut nonce, &mut tree, &mut rng), Ok(()));
    assert_eq!(g.draw_jurors_helper(&cfg, 5, &mut nonce, &mut tree, &mut rng), Ok(()));
    assert_eq!(g.draws_in_round, 2);
    assert_eq!(g.drawn_jurors, vec![(1, 100), (3, 100)]);
    assert_eq!(
        g.draw_jurors_helper(&cfg, 5, &mut nonce, &mut tree, &mut rng),
        Err(GameError::MaxDrawExceeded)
    );
    assert_eq!(g.draws_in_round, 2);
    assert_eq!(nonce, 2);
}

#[test]
fn draw_with_empty_tree_fails() {
    let cfg = config(2, 90);
    let mut g = drawing_game(&cfg, &[1]);
    let mut tree = ScriptedTree { picks: vec![], next: 0, zeroed: vec![] };
    let mut rng = CountingRandomness { seen: vec![] };
    let mut nonce: u64 = 0;
    assert_eq!(
        g.draw_jurors_helper(&cfg, 1, &mut nonce, &mut tree, &mut rng),
        Err(GameError::NothingToDraw)
    );
}

#[test]
fn failed_draw_leaves_game_and_nonce_unchanged() {
    let cfg = config(3, 90);
    let mut g = drawing_game(&cfg, &[1, 2, 3]);
    // second pick is not a staker: the whole call fails
    let mut tree = ScriptedTree { picks: vec![2, 9, 3], next: 0, zeroed: vec![] };
    let mut rng = CountingRandomness { seen: vec![] };
    let mut nonce: u64 = 5;
    assert_eq!(
        g.draw_jurors_helper(&cfg, 3, &mut nonce, &mut tree, &mut rng),
        Err(GameError::StakeDoesNotExist)
    );
    assert_eq!(nonce, 5);
    assert_eq!(g.draws_in_round, 0);
    assert!(g.drawn_jurors.is_empty());
    assert_eq!(g.stakes.get(&2), Some(&100));
    // a tree that runs dry part-way fails the same way
    let mut dry = ScriptedTree { picks: vec![1], next: 0, zeroed: vec![] };
    assert_eq!(
        g.draw_jurors_helper(&cfg, 2, &mut nonce, &mut dry, &mut rng),
        Err(GameError::NothingToDraw)
    );
    assert_eq!(nonce, 5);
    assert!(g.drawn_jurors.is_empty());
}

#[test]
fn draw_fails_before_the_nonce_would_wrap() {
    let cfg = config(3, 90);
    let mut g = drawing_game(&cfg, &[1, 2, 3]);
    let mut tree = ScriptedTree { picks: vec![1, 2, 3], next: 0, zeroed: vec![] };
    let mut rng = CountingRandomness { seen: vec![] };
    let mut nonce: u64 = u64::MAX - 2;
    assert_eq!(
        g.draw_jurors_helper(&cfg, 3, &mut nonce, &mut tree, &mut rng),
        Err(GameError::ArithmeticOverflow)
    );
    assert_eq!(nonce, u64::MAX - 2);
    assert!(rng.seen.is_empty());
    assert_eq!(g.draw_jurors_helper(&cfg, 2, &mut nonce, &mut tree, &mut rng), Ok(()));
    assert_eq!(nonce, u64::MAX);
    assert_eq!(g.drawn_jurors, vec![(1, 100), (2, 100)]);
    assert_eq!(g.stakes.get(&1), Some(&0));
    assert_eq!(g.stakes.get(&3), Some(&100));
}

#[test]
fn zero_iterations_change_nothing() {
    let cfg = config(3, 90);
    let mut g = drawing_game(&cfg, &[1]);
    let mut tree = ScriptedTree { picks: vec![1], next: 0, zeroed: vec![] };
    let mut rng = CountingRandomness { seen: vec![] };
    let mut nonce: u64 = 7;
    assert_eq!(g.draw_jurors_helper(&cfg, 0, &mut nonce, &mut tree, &mut rng), Ok(()));
    assert_eq!(nonce, 7);
    assert_eq!(g.draws_in_round, 0);
    assert!(rng.seen.is_empty());
}
