use vstd::prelude::*;
use crate::game::{has_account, sorted_by_account, Pallet};
use crate::types::{period_rank, GameConfig, GameError, Period, RandomnessSource, SortitionSource};

verus! {

broadcast use vstd::std_specs::hash::group_hash_axioms;

/// The error, if any, of an operation that may only run in period `want`.
pub open spec fn period_gate(cur: Option<Period>, want: Period) -> Option<GameError> {
    match cur {
        None => Some(GameError::PeriodDoesNotExist),
        Some(p) => if p == want {
            None
        } else {
            Some(GameError::PeriodDontMatch)
        },
    }
}

/// Where `who` goes among the sorted drawn jurors: `Ok(i)` if present at `i`,
/// `Err(i)` for the position that keeps the order.
pub open spec fn insert_position_ok(s: Seq<(u64, u64)>, who: u64, i: int) -> bool {
    &&& 0 <= i <= s.len()
    &&& forall|k: int| 0 <= k < i ==> s[k].0 < who
    &&& forall|k: int| i <= k < s.len() ==> s[k].0 > who
}




/// Number of draw attempts a call asking for `iterations` makes when the
/// quota has room: no more than the quota has left.
pub open spec fn attempts_spec(draws_in_round: u64, cfg: GameConfig, iterations: u64) -> int {
    if iterations <= cfg.max_draws - draws_in_round {
        iterations as int
    } else {
        cfg.max_draws - draws_in_round
    }
}

/// `g1` is `g0` after some jurors were newly drawn: earlier entries stay,
/// the count grows by the number of entries added, and each new entry holds
/// the account's weight before the call, which is now zero.
pub open spec fn draws_added(g0: Pallet, g1: Pallet) -> bool {
    &&& g1.wf()
    &&& g1.draws_in_round - g0.draws_in_round == g1.drawn_jurors@.len() - g0.drawn_jurors@.len()
    &&& forall|e: (u64, u64)| #[trigger]
        g0.drawn_jurors@.contains(e) ==> g1.drawn_jurors@.contains(e)
    &&& forall|e: (u64, u64)|
        #![trigger g1.drawn_jurors@.contains(e)]
        g1.drawn_jurors@.contains(e) && !g0.drawn_jurors@.contains(e) ==> {
            &&& !g0.is_drawn(e.0)
            &&& g0.stakes@.contains_key(e.0)
            &&& e.1 == g0.stakes@[e.0]
            &&& g1.stakes@[e.0] == 0
        }
    &&& g1.stakes@.dom() == g0.stakes@.dom()
    &&& forall|a: u64|
        #![trigger g1.stakes@[a]]
        g0.stakes@.contains_key(a) && !(g1.is_drawn(a) && !g0.is_drawn(a)) ==> g1.stakes@[a]
            == g0.stakes@[a]
    &&& g1 == (Pallet {
        draws_in_round: g1.draws_in_round,
        stakes: g1.stakes,
        drawn_jurors: g1.drawn_jurors,
        ..g0
    })
}

proof fn lemma_insert_entry(s: Seq<(u64, u64)>, i: int, x: (u64, u64))
    requires
        0 <= i <= s.len(),
    ensures
        forall|e: (u64, u64)| #[trigger]
            s.insert(i, x).contains(e) <==> s.contains(e) || e == x,
        forall|a: u64| #[trigger]
            has_account(s.insert(i, x), a) <==> has_account(s, a) || a == x.0,
{
    let t = s.insert(i, x);
    assert forall|e: (u64, u64)| #[trigger] t.contains(e) <==> s.contains(e) || e == x by {
        if t.contains(e) {
            let k = choose|k: int| 0 <= k < t.len() && t[k] == e;
            if k < i {
                assert(s[k] == e);
            } else if k > i {
                assert(s[k - 1] == e);
            }
        }
        if s.contains(e) {
            let k = choose|k: int| 0 <= k < s.len() && s[k] == e;
            if k < i {
                assert(t[k] == e);
            } else {
                assert(t[k + 1] == e);
            }
        }
        if e == x {
            assert(t[i] == e);
        }
    }
    assert forall|a: u64| #[trigger] has_account(t, a) <==> has_account(s, a) || a == x.0 by {
        if has_account(t, a) {
            let k = choose|k: int| 0 <= k < t.len() && t[k].0 == a;
            if k < i {
                assert(s[k].0 == a);
            } else if k > i {
                assert(s[k - 1].0 == a);
            }
        }
        if has_account(s, a) {
            let k = choose|k: int| 0 <= k < s.len() && s[k].0 == a;
            if k < i {
                assert(t[k].0 == a);
            } else {
                assert(t[k + 1].0 == a);
            }
        }
        if a == x.0 {
            assert(t[i].0 == a);
        }
    }
}

fn vec_contains(v: &Vec<u64>, x: u64) -> (r: bool)
    ensures
        r == v@.contains(x),
{
    let mut i: usize = 0;
    while i < v.len()
        invariant
            i <= v@.len(),
            forall|k: int| 0 <= k < i ==> v@[k] != x,
        decreases v@.len() - i,
    {
        if v[i] == x {
            return true;
        }
        i = i + 1;
    }
    false
}

impl Pallet {
    /// Hands out the current value of the process-wide draw nonce and
    /// advances it. The counter is never reset: at `u64::MAX` it fails with
    /// `ArithmeticOverflow` and stays as it is.
    pub fn get_and_increment_nonce(nonce: &mut u64) -> (r: Result<u64, GameError>)
        ensures
            *old(nonce) == u64::MAX ==> r == Err::<u64, GameError>(GameError::ArithmeticOverflow)
                && *final(nonce) == *old(nonce),
            *old(nonce) < u64::MAX ==> r == Ok::<u64, GameError>(*old(nonce)) && *final(nonce)
                == *old(nonce) + 1,
    {
        if *nonce == u64::MAX {
            return Err(GameError::ArithmeticOverflow);
        }
        let n = *nonce;
        *nonce = n + 1;
        Ok(n)
    }

    /// Fails unless the current period is `want`.
    pub fn check_period(&self, want: Period) -> (r: Result<(), GameError>)
        ensures
            match period_gate(self.period, want) {
                Some(e) => r == Err::<(), GameError>(e),
                None => r is Ok,
            },
    {
        match self.period {
            None => Err(GameError::PeriodDoesNotExist),
            Some(p) => if p == want {
                Ok(())
            } else {
                Err(GameError::PeriodDontMatch)
            },
        }
    }

    /// Registers `who` as a staker with weight `stake` during `Staking`. On
    /// success the host slashes `stake` from the account.
    pub fn apply_jurors_helper(&mut self, cfg: &GameConfig, who: u64, stake: u64) -> (r: Result<(), GameError>)
        ensures
            match period_gate(old(self).period, Period::Staking) {
                Some(e) => r == Err::<(), GameError>(e) && *final(self) == *old(self),
                None => if stake < cfg.min_juror_stake {
                    r == Err::<(), GameError>(GameError::StakeLessThanMin) && *final(self)
                        == *old(self)
                } else if old(self).stakes@.contains_key(who) && old(self).stakes@[who] > 0 {
                    r == Err::<(), GameError>(GameError::AlreadyStaked) && *final(self)
                        == *old(self)
                } else {
                    r is Ok && final(self).stakes@ == old(self).stakes@.insert(who, stake)
                        && *final(self) == (Pallet { stakes: final(self).stakes, ..*old(self) })
                },
            },
    {
        self.check_period(Period::Staking)?;
        if stake < cfg.min_juror_stake {
            return Err(GameError::StakeLessThanMin);
        }
        match self.stakes.get(&who) {
            Some(w) => if *w > 0 {
                return Err(GameError::AlreadyStaked);
            },
            None => {},
        }
        self.stakes.insert(who, stake);
        Ok(())
    }

    /// How many draw attempts a call asking for `iterations` may make: no
    /// more than the quota has left.
    pub fn draw_attempts(&self, cfg: &GameConfig, iterations: u64) -> (r: Result<u64, GameError>)
        ensures
            match period_gate(self.period, Period::Drawing) {
                Some(e) => r == Err::<u64, GameError>(e),
                None => if self.draws_in_round >= cfg.max_draws {
                    r == Err::<u64, GameError>(GameError::MaxDrawExceeded)
                } else if iterations <= cfg.max_draws - self.draws_in_round {
                    r == Ok::<u64, GameError>(iterations)
                } else {
                    r == Ok::<u64, GameError>((cfg.max_draws - self.draws_in_round) as u64)
                },
            },
    {
        self.check_period(Period::Drawing)?;
        if self.draws_in_round >= cfg.max_draws {
            return Err(GameError::MaxDrawExceeded);
        }
        let room = cfg.max_draws - self.draws_in_round;
        if iterations <= room {
            Ok(iterations)
        } else {
            Ok(room)
        }
    }

    /// Records one draw attempt whose weighted pick was `who`. A juror drawn
    /// before is ignored (`Ok(false)`); a new one is inserted in account
    /// order with its current weight, counted, and its weight zeroed
    /// (`Ok(true)`, after which the host zeroes it in the sortition source).
    pub fn record_draw(&mut self, cfg: &GameConfig, who: u64) -> (r: Result<bool, GameError>)
        requires
            old(self).wf(),
        ensures
            final(self).wf(),
            final(self).period == old(self).period,
            old(self).draws_in_round <= cfg.max_draws ==> final(self).draws_in_round
                <= cfg.max_draws,
            match period_gate(old(self).period, Period::Drawing) {
                Some(e) => r == Err::<bool, GameError>(e) && *final(self) == *old(self),
                None => if old(self).draws_in_round >= cfg.max_draws {
                    r == Err::<bool, GameError>(GameError::MaxDrawExceeded) && *final(self)
                        == *old(self)
                } else if !old(self).stakes@.contains_key(who) {
                    r == Err::<bool, GameError>(GameError::StakeDoesNotExist) && *final(self)
                        == *old(self)
                } else if old(self).is_drawn(who) {
                    r == Ok::<bool, GameError>(false) && *final(self) == *old(self)
                } else {
                    &&& r == Ok::<bool, GameError>(true)
                    &&& final(self).draws_in_round == old(self).draws_in_round + 1
                    &&& final(self).stakes@ == old(self).stakes@.insert(who, 0)
                    &&& exists|i: int|
                        insert_position_ok(old(self).drawn_jurors@, who, i)
                            && final(self).drawn_jurors@ == old(self).drawn_jurors@.insert(
                            i,
                            (who, old(self).stakes@[who]),
                        )
                    &&& *final(self) == (Pallet {
                        draws_in_round: final(self).draws_in_round,
                        stakes: final(self).stakes,
                        drawn_jurors: final(self).drawn_jurors,
                        ..*old(self)
                    })
                },
            },
    {
        self.check_period(Period::Drawing)?;
        if self.draws_in_round >= cfg.max_draws {
            return Err(GameError::MaxDrawExceeded);
        }
        let stake: u64 = match self.stakes.get(&who) {
            Some(w) => *w,
            None => {
                return Err(GameError::StakeDoesNotExist);
            },
        };
        let ghost s = self.drawn_jurors@;
        let mut i: usize = 0;
        while i < self.drawn_jurors.len() && self.drawn_jurors[i].0 < who
            invariant
                i <= s.len(),
                self.drawn_jurors@ == s,
                forall|k: int| 0 <= k < i ==> s[k].0 < who,
            decreases s.len() - i,
        {
            i = i + 1;
        }
        if i < self.drawn_jurors.len() && self.drawn_jurors[i].0 == who {
            return Ok(false);
        }
        assert(!has_account(s, who)) by {
            assert forall|k: int| 0 <= k < s.len() implies s[k].0 != who by {
                if k >= i {
                    assert(s[i as int].0 > who);
                    assert(k == i || s[i as int].0 < s[k].0);
                }
            }
        }
        assert(insert_position_ok(s, who, i as int)) by {
            assert forall|k: int| i <= k < s.len() implies s[k].0 > who by {
                assert(s[i as int].0 > who);
                assert(k == i || s[i as int].0 < s[k].0);
            }
        }
        self.drawn_jurors.insert(i, (who, stake));
        assert(sorted_by_account(self.drawn_jurors@));
        self.draws_in_round = self.draws_in_round + 1;
        self.stakes.insert(who, 0);
        Ok(true)
    }

    /// Draws jurors during `Drawing`: up to `iterations` attempts, no more
    /// than the quota has left, each taking the next nonce. An attempt asks
    /// `randomness` for a value and `sortition` for the account that value
    /// covers. A newly picked account is zeroed in `sortition` at once and
    /// joins the drawn jurors, in account order, with the weight it held; an
    /// account drawn before is passed over, its attempt spent. On any error
    /// the game and the nonce are left as they were; the weights already
    /// zeroed in `sortition` are the host's to restore, from `stakes`.
    pub fn draw_jurors_helper<S: SortitionSource, R: RandomnessSource>(
        &mut self,
        cfg: &GameConfig,
        iterations: u64,
        nonce: &mut u64,
        sortition: &mut S,
        randomness: &mut R,
    ) -> (r: Result<(), GameError>)
        requires
            old(self).wf(),
        ensures
            final(self).wf(),
            r is Err ==> *final(self) == *old(self) && *final(nonce) == *old(nonce),
            match period_gate(old(self).period, Period::Drawing) {
                Some(e) => r == Err::<(), GameError>(e),
                None => if old(self).draws_in_round >= cfg.max_draws {
                    r == Err::<(), GameError>(GameError::MaxDrawExceeded)
                } else if *old(nonce) + attempts_spec(old(self).draws_in_round, *cfg, iterations)
                    > u64::MAX {
                    r == Err::<(), GameError>(GameError::ArithmeticOverflow)
                } else {
                    &&& iterations == 0 ==> r is Ok && *final(self) == *old(self) && *final(nonce)
                        == *old(nonce)
                    &&& r is Ok ==> {
                        &&& *final(nonce) == *old(nonce) + attempts_spec(
                            old(self).draws_in_round,
                            *cfg,
                            iterations,
                        )
                        &&& final(self).draws_in_round <= cfg.max_draws
                        &&& draws_added(*old(self), *final(self))
                    }
                },
            },
    {
        let attempts: u64 = self.draw_attempts(cfg, iterations)?;
        if attempts > u64::MAX - *nonce {
            return Err(GameError::ArithmeticOverflow);
        }
        let saved: u64 = *nonce;
        // First pass: pick the accounts, leaving the game untouched.
        let mut fresh: Vec<u64> = Vec::new();
        let mut k: u64 = 0;
        while k < attempts
            invariant
                *self == *old(self),
                self.wf(),
                self.period == Some(Period::Drawing),
                self.draws_in_round < cfg.max_draws,
                attempts == attempts_spec(self.draws_in_round, *cfg, iterations),
                0 < attempts ==> 0 < iterations,
                saved == *old(nonce),
                saved + attempts <= u64::MAX,
                k <= attempts,
                *nonce == saved + k,
                fresh@.len() <= k,
                forall|i: int, j: int| 0 <= i < j < fresh@.len() ==> fresh@[i] != fresh@[j],
                forall|i: int|
                    0 <= i < fresh@.len() ==> !self.is_drawn(#[trigger] fresh@[i])
                        && self.stakes@.contains_key(fresh@[i]),
            decreases attempts - k,
        {
            let n: u64 = match Pallet::get_and_increment_nonce(nonce) {
                Ok(n) => n,
                Err(e) => {
                    *nonce = saved;
                    return Err(e);
                },
            };
            let value = randomness.random(n);
            let who: u64 = match sortition.draw_link(value) {
                Some(a) => a,
                None => {
                    *nonce = saved;
                    return Err(GameError::NothingToDraw);
                },
            };
            if !self.stakes.contains_key(&who) {
                *nonce = saved;
                return Err(GameError::StakeDoesNotExist);
            }
            if !self.selected_as_juror_helper(who) && !vec_contains(&fresh, who) {
                fresh.push(who);
                sortition.set_link(who, 0);
            }
            k = k + 1;
        }
        // Second pass: record the picks.
        let ghost g0 = *old(self);
        let mut j: usize = 0;
        while j < fresh.len()
            invariant
                g0 == *old(self),
                g0.wf(),
                *nonce == *old(nonce) + attempts,
                attempts == attempts_spec(g0.draws_in_round, *cfg, iterations),
                iterations == 0 ==> fresh@.len() == 0,
                j == 0 ==> *self == g0,
                g0.period == Some(Period::Drawing),
                g0.draws_in_round + attempts <= cfg.max_draws,
                fresh@.len() <= attempts,
                j <= fresh@.len(),
                forall|i: int, l: int| 0 <= i < l < fresh@.len() ==> fresh@[i] != fresh@[l],
                forall|i: int|
                    0 <= i < fresh@.len() ==> !g0.is_drawn(#[trigger] fresh@[i])
                        && g0.stakes@.contains_key(fresh@[i]),
                self.wf(),
                self.draws_in_round == g0.draws_in_round + j,
                self.drawn_jurors@.len() == g0.drawn_jurors@.len() + j,
                forall|e: (u64, u64)| #[trigger]
                    g0.drawn_jurors@.contains(e) ==> self.drawn_jurors@.contains(e),
                forall|e: (u64, u64)| #[trigger]
                    self.drawn_jurors@.contains(e) ==> g0.drawn_jurors@.contains(e) || (
                    fresh@.take(j as int).contains(e.0) && e.1 == g0.stakes@[e.0]),
                forall|a: u64| #[trigger]
                    self.is_drawn(a) <==> g0.is_drawn(a) || fresh@.take(j as int).contains(a),
                self.stakes@.dom() == g0.stakes@.dom(),
                forall|a: u64|
                    #![trigger self.stakes@[a]]
                    g0.stakes@.contains_key(a) ==> self.stakes@[a] == if fresh@.take(
                        j as int,
                    ).contains(a) {
                        0
                    } else {
                        g0.stakes@[a]
                    },
                *self == (Pallet {
                    draws_in_round: self.draws_in_round,
                    stakes: self.stakes,
                    drawn_jurors: self.drawn_jurors,
                    ..g0
                }),
            decreases fresh@.len() - j,
        {
            let who: u64 = fresh[j];
            let ghost before = *self;
            let ghost pre = fresh@.take(j as int);
            let ghost post = fresh@.take(j + 1);
            assert(post =~= pre.push(who));
            assert(!pre.contains(who)) by {
                if pre.contains(who) {
                    let i = choose|i: int| 0 <= i < pre.len() && #[trigger] pre[i] == who;
                    assert(fresh@[i] == fresh@[j as int]);
                }
            }
            assert forall|a: u64| #[trigger] post.contains(a) <==> pre.contains(a) || a == who by {
                if post.contains(a) {
                    let i = choose|i: int| 0 <= i < post.len() && #[trigger] post[i] == a;
                    if i < j {
                        assert(pre[i] == a);
                    }
                }
                if pre.contains(a) {
                    let i = choose|i: int| 0 <= i < pre.len() && #[trigger] pre[i] == a;
                    assert(post[i] == a);
                }
                if a == who {
                    assert(post[j as int] == a);
                }
            }
            assert(!self.is_drawn(who));
            let res = self.record_draw(cfg, who);
            assert(res == Ok::<bool, GameError>(true));
            proof {
                let i = choose|i: int|
                    insert_position_ok(before.drawn_jurors@, who, i)
                        && self.drawn_jurors@ == before.drawn_jurors@.insert(
                        i,
                        (who, before.stakes@[who]),
                    );
                lemma_insert_entry(before.drawn_jurors@, i, (who, before.stakes@[who]));
                assert forall|a: u64| #[trigger]
                    self.is_drawn(a) <==> g0.is_drawn(a) || post.contains(a) by {
                    assert(has_account(self.drawn_jurors@, a) == (has_account(
                        before.drawn_jurors@,
                        a,
                    ) || a == who));
                    assert(before.is_drawn(a) <==> g0.is_drawn(a) || pre.contains(a));
                }
            }
            j = j + 1;
        }
        assert(fresh@.take(fresh@.len() as int) =~= fresh@);
        Ok(())
    }

    /// Releases the stake of an account that staked but was not drawn, once
    /// drawing is over. Returns the amount the host credits back.
    pub fn unstaking_helper(&mut self, who: u64) -> (r: Result<u64, GameError>)
        requires
            old(self).wf(),
        ensures
            final(self).wf(),
            match old(self).period {
                None => r == Err::<u64, GameError>(GameError::PeriodDoesNotExist) && *final(self)
                    == *old(self),
                Some(p) => if period_rank(Some(p)) <= 3 {
                    r == Err::<u64, GameError>(GameError::PeriodDontMatch) && *final(self)
                        == *old(self)
                } else if old(self).is_drawn(who) {
                    r == Err::<u64, GameError>(GameError::SelectedAsJuror) && *final(self)
                        == *old(self)
                } else if !old(self).stakes@.contains_key(who) {
                    r == Err::<u64, GameError>(GameError::StakeDoesNotExist) && *final(self)
                        == *old(self)
                } else if old(self).unstaked_jurors@.contains(who) {
                    r == Err::<u64, GameError>(GameError::AlreadyUnstaked) && *final(self)
                        == *old(self)
                } else {
                    &&& r == Ok::<u64, GameError>(old(self).stakes@[who])
                    &&& final(self).unstaked_jurors@ == old(self).unstaked_jurors@.insert(who)
                    &&& *final(self) == (Pallet {
                        unstaked_jurors: final(self).unstaked_jurors,
                        ..*old(self)
                    })
                },
            },
    {
        match self.period {
            None => {
                return Err(GameError::PeriodDoesNotExist);
            },
            Some(p) => {
                if p == Period::Evidence || p == Period::Staking || p == Period::Drawing {
                    return Err(GameError::PeriodDontMatch);
                }
            },
        }
        if self.find_drawn(who).is_some() {
            return Err(GameError::SelectedAsJuror);
        }
        let stake: u64 = match self.stakes.get(&who) {
            Some(w) => *w,
            None => {
                return Err(GameError::StakeDoesNotExist);
            },
        };
        if self.unstaked_jurors.contains(&who) {
            return Err(GameError::AlreadyUnstaked);
        }
        self.unstaked_jurors.insert(who);
        Ok(stake)
    }
}

impl Pallet {
    /// Saturating conversion of a balance to `u64`.
    pub fn balance_to_u64_saturated(input: u128) -> (r: u64)
        ensures
            r == if input > u64::MAX as u128 { u64::MAX } else { input as u64 },
    {
        if input > u64::MAX as u128 {
            u64::MAX
        } else {
            input as u64
        }
    }

    /// A `u64` amount as a balance.
    pub fn u64_to_balance_saturated(input: u64) -> (r: u128)
        ensures
            r == input as u128,
    {
        input as u128
    }

    /// Saturating conversion of a block number to `u32`.
    pub fn block_number_to_u32_saturated(input: u64) -> (r: u32)
        ensures
            r == if input > u32::MAX as u64 { u32::MAX } else { input as u32 },
    {
        if input > u32::MAX as u64 {
            u32::MAX
        } else {
            input as u32
        }
    }
}

} // verus!
