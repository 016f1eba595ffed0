//! The pool's global state and the accrual of interest into its two indices.
//!
//! Interest is accrued once for each span of rounds between two operations: the
//! borrow index grows by the borrow rate for every round, the rewards reserve by the
//! interest the borrowers owe for the span, and the supply index by that interest
//! per unit of supplied capital.
use vstd::prelude::*;
use crate::error::PoolError;
use crate::fixed_point::bp;
use crate::fixed_point::mul_div;
use crate::wide::mul3_div;
use crate::fixed_point::BP;
use crate::model::PoolParams;
use crate::rate::borrow_rate;
use crate::rate::compute_borrow_rate;
use crate::rate::compute_capital_utilisation;
use crate::rate::compute_deposit_rate;
use crate::rate::deposit_rate;
use crate::rate::utilisation;

verus! {

/// The state one pool shares among all its positions.
#[derive(Clone, Copy, Debug, PartialEq, Eq, Structural)]
pub struct GlobalState {
    /// Capital supplied and not lent out.
    pub total_reserves: u128,
    /// Capital lent out, at the value the open positions carry it.
    pub total_borrowed: u128,
    /// Accumulator of the borrow rate, scaled by `BP`.
    pub borrow_index: u128,
    /// Accumulator of the interest earned per unit supplied, scaled by `BP`.
    pub supply_index: u128,
    /// Interest accrued in favour of the depositors.
    pub rewards_reserve: u128,
    /// The round up to which interest has been accrued.
    pub last_update_round: u64,
}

/// Capital supplied to the pool, lent out or not.
pub open spec fn supplied_capital(s: GlobalState) -> nat {
    (s.total_reserves + s.total_borrowed) as nat
}

/// The borrow rate that holds in a state.
pub open spec fn state_borrow_rate(params: PoolParams, s: GlobalState) -> nat {
    borrow_rate(
        params.r_base as nat,
        params.r_slope1 as nat,
        params.r_slope2 as nat,
        params.u_optimal as nat,
        utilisation(s.total_borrowed as nat, supplied_capital(s)),
    )
}

/// Interest that `borrowed` owes for `delta` rounds at `rate`.
pub open spec fn rewards_increase(rate: nat, borrowed: nat, delta: nat) -> nat {
    ((rate * delta) * borrowed) / bp()
}

/// The supply index after `increase` was earned on `supplied`; unchanged where nothing is supplied.
pub open spec fn grown_supply_index(index: nat, increase: nat, supplied: nat) -> nat {
    if supplied == 0 {
        index
    } else {
        index + (increase * bp()) / supplied
    }
}

/// The borrow index that a state reaches by `round`, given that `round` is not in its past.
pub open spec fn accrued_borrow_index(params: PoolParams, s: GlobalState, round: u64) -> nat {
    (s.borrow_index + state_borrow_rate(params, s) * ((round - s.last_update_round) as nat)) as nat
}

/// The rewards reserve that a state reaches by `round`.
pub open spec fn accrued_rewards_reserve(params: PoolParams, s: GlobalState, round: u64) -> nat {
    s.rewards_reserve as nat + rewards_increase(
        state_borrow_rate(params, s),
        s.total_borrowed as nat,
        (round - s.last_update_round) as nat,
    )
}

/// The supply index that a state reaches by `round`.
pub open spec fn accrued_supply_index(params: PoolParams, s: GlobalState, round: u64) -> nat {
    grown_supply_index(
        s.supply_index as nat,
        rewards_increase(
            state_borrow_rate(params, s),
            s.total_borrowed as nat,
            (round - s.last_update_round) as nat,
        ),
        supplied_capital(s),
    )
}

/// What accruing interest up to `round` makes of a state.
///
/// A round in the past is refused. The round of the last update changes nothing.
/// A later round moves the two indices and the rewards reserve, provided the
/// parameters are valid and every new value fits in 128 bits.
pub open spec fn accrue_result(params: PoolParams, s: GlobalState, round: u64) -> Result<
    GlobalState,
    PoolError,
> {
    if round < s.last_update_round {
        Err(PoolError::InvalidParameter)
    } else if round == s.last_update_round {
        Ok(s)
    } else if params.u_optimal > BP {
        Err(PoolError::InvalidParameter)
    } else if supplied_capital(s) > u128::MAX || accrued_borrow_index(params, s, round) > u128::MAX
        || accrued_rewards_reserve(params, s, round) > u128::MAX || accrued_supply_index(
        params,
        s,
        round,
    ) > u128::MAX {
        Err(PoolError::Overflow)
    } else {
        Ok(
            GlobalState {
                total_reserves: s.total_reserves,
                total_borrowed: s.total_borrowed,
                borrow_index: accrued_borrow_index(params, s, round) as u128,
                supply_index: accrued_supply_index(params, s, round) as u128,
                rewards_reserve: accrued_rewards_reserve(params, s, round) as u128,
                last_update_round: round,
            },
        )
    }
}

/// What a deposit of `amount`, made when the supply index stood at `mint_index`,
/// is worth when the index stands at `redeem_index`.
pub open spec fn deposit_value(amount: nat, mint_index: nat, redeem_index: nat) -> nat {
    if mint_index == 0 {
        0
    } else {
        (amount * redeem_index) / mint_index
    }
}

/// The state after an attempt to accrue interest up to `round`: a refused attempt leaves it as it was.
pub open spec fn accrue_step(params: PoolParams, s: GlobalState, round: u64) -> GlobalState {
    match accrue_result(params, s, round) {
        Ok(t) => t,
        Err(_) => s,
    }
}

/// The state after one attempt to accrue for each round of `rounds`, in order.
pub open spec fn accrue_all(params: PoolParams, s: GlobalState, rounds: Seq<u64>) -> GlobalState
    decreases rounds.len(),
{
    if rounds.len() == 0 {
        s
    } else {
        accrue_step(params, accrue_all(params, s, rounds.drop_last()), rounds.last())
    }
}

/// Accrual never lowers an index, the rewards reserve or the round of the last
/// update, and leaves the capital alone.
pub proof fn lemma_accrue_grows(params: PoolParams, s: GlobalState, round: u64)
    ensures
        accrue_step(params, s, round).borrow_index >= s.borrow_index,
        accrue_step(params, s, round).supply_index >= s.supply_index,
        accrue_step(params, s, round).rewards_reserve >= s.rewards_reserve,
        accrue_step(params, s, round).last_update_round >= s.last_update_round,
        accrue_step(params, s, round).total_reserves == s.total_reserves,
        accrue_step(params, s, round).total_borrowed == s.total_borrowed,
{
    if accrue_result(params, s, round) is Ok && round > s.last_update_round {
        let rate: nat = state_borrow_rate(params, s);
        let delta: nat = (round - s.last_update_round) as nat;
        assert(rate * delta >= 0) by (nonlinear_arith);
    }
}

/// Accruing twice for the same round is accruing once.
pub proof fn lemma_accrue_idempotent(params: PoolParams, s: GlobalState, round: u64)
    ensures
        accrue_result(params, s, round) matches Ok(t) ==> accrue_result(params, t, round) == Ok::<
            GlobalState,
            PoolError,
        >(t),
        accrue_step(params, accrue_step(params, s, round), round) == accrue_step(params, s, round),
{
}

/// Over any sequence of accruals the borrow index never falls: the state reached
/// after `later` attempts has an index no lower than the state after `earlier`.
pub proof fn lemma_borrow_index_monotone(
    params: PoolParams,
    s: GlobalState,
    rounds: Seq<u64>,
    earlier: int,
    later: int,
)
    requires
        0 <= earlier <= later <= rounds.len(),
    ensures
        accrue_all(params, s, rounds.take(earlier)).borrow_index <= accrue_all(
            params,
            s,
            rounds.take(later),
        ).borrow_index,
    decreases later - earlier,
{
    if earlier < later {
        lemma_borrow_index_monotone(params, s, rounds, earlier, later - 1);
        assert(rounds.take(later).drop_last() =~= rounds.take(later - 1));
        lemma_accrue_grows(
            params,
            accrue_all(params, s, rounds.take(later - 1)),
            rounds.take(later).last(),
        );
    }
}

impl GlobalState {
    /// The state of a pool at its creation in `round`: nothing supplied, both indices at one.
    pub fn new(round: u64) -> (s: GlobalState)
        ensures
            s == (GlobalState {
                total_reserves: 0,
                total_borrowed: 0,
                borrow_index: BP as u128,
                supply_index: BP as u128,
                rewards_reserve: 0,
                last_update_round: round,
            }),
    {
        GlobalState {
            total_reserves: 0,
            total_borrowed: 0,
            borrow_index: BP as u128,
            supply_index: BP as u128,
            rewards_reserve: 0,
            last_update_round: round,
        }
    }

    /// Rounds that passed since interest was last accrued.
    ///
    /// Fails with `InvalidParameter` where `current_round` lies before the last update.
    pub fn get_round_diff(&self, current_round: u64) -> (res: Result<u64, PoolError>)
        ensures
            current_round < self.last_update_round ==> res == Err::<u64, PoolError>(
                PoolError::InvalidParameter,
            ),
            current_round >= self.last_update_round ==> res == Ok::<u64, PoolError>(
                (current_round - self.last_update_round) as u64,
            ),
    {
        if current_round < self.last_update_round {
            Err(PoolError::InvalidParameter)
        } else {
            Ok(current_round - self.last_update_round)
        }
    }

    /// Growth of the borrow index since it stood at `initial_borrow_index`.
    ///
    /// Fails with `InvariantViolation` where the index has since fallen.
    pub fn get_borrow_index_diff(&self, initial_borrow_index: u128) -> (res: Result<u128, PoolError>)
        ensures
            self.borrow_index < initial_borrow_index ==> res == Err::<u128, PoolError>(
                PoolError::InvariantViolation,
            ),
            self.borrow_index >= initial_borrow_index ==> res == Ok::<u128, PoolError>(
                (self.borrow_index - initial_borrow_index) as u128,
            ),
    {
        if self.borrow_index < initial_borrow_index {
            Err(PoolError::InvariantViolation)
        } else {
            Ok(self.borrow_index - initial_borrow_index)
        }
    }

    /// Capital supplied to the pool: what is in reserve and what is lent out.
    ///
    /// Fails with `Overflow` where the sum does not fit in 128 bits.
    pub fn get_total_supplied_capital(&self) -> (res: Result<u128, PoolError>)
        ensures
            supplied_capital(*self) > u128::MAX ==> res == Err::<u128, PoolError>(PoolError::Overflow),
            supplied_capital(*self) <= u128::MAX ==> res == Ok::<u128, PoolError>(
                supplied_capital(*self) as u128,
            ),
    {
        match self.total_reserves.checked_add(self.total_borrowed) {
            Some(total) => Ok(total),
            None => Err(PoolError::Overflow),
        }
    }

    /// Share of the supplied capital that is lent out, scaled by `BP`; zero for an empty pool.
    ///
    /// Fails with `Overflow` where the supplied capital does not fit in 128 bits.
    pub fn get_capital_utilisation(&self) -> (res: Result<u128, PoolError>)
        ensures
            supplied_capital(*self) > u128::MAX ==> res == Err::<u128, PoolError>(PoolError::Overflow),
            supplied_capital(*self) <= u128::MAX ==> res == Ok::<u128, PoolError>(
                utilisation(self.total_borrowed as nat, supplied_capital(*self)) as u128,
            ),
            utilisation(self.total_borrowed as nat, supplied_capital(*self)) <= bp(),
    {
        proof {
            crate::rate::lemma_utilisation_bounded(self.total_borrowed as nat, supplied_capital(*self));
        }
        let total: u128 = self.get_total_supplied_capital()?;
        compute_capital_utilisation(self.total_borrowed, total)
    }

    /// The borrow rate that holds in this state.
    ///
    /// Fails with `InvalidParameter` where the optimal utilisation exceeds `BP`, and
    /// with `Overflow` where the supplied capital or the rate does not fit in 128 bits.
    pub fn get_borrow_rate(&self, params: &PoolParams) -> (res: Result<u128, PoolError>)
        ensures
            res == (if supplied_capital(*self) > u128::MAX {
                Err::<u128, PoolError>(PoolError::Overflow)
            } else if params.u_optimal > BP {
                Err::<u128, PoolError>(PoolError::InvalidParameter)
            } else if state_borrow_rate(*params, *self) > u128::MAX {
                Err::<u128, PoolError>(PoolError::Overflow)
            } else {
                Ok::<u128, PoolError>(state_borrow_rate(*params, *self) as u128)
            }),
    {
        let used: u128 = self.get_capital_utilisation()?;
        compute_borrow_rate(params.r_base, params.r_slope1, params.r_slope2, params.u_optimal, used)
    }

    /// The deposit rate that holds in this state.
    ///
    /// Fails as `get_borrow_rate` does, and with `InvalidParameter` where the reserve
    /// factor exceeds `BP`.
    pub fn get_deposit_rate(&self, params: &PoolParams) -> (res: Result<u128, PoolError>)
        ensures
            res == (if supplied_capital(*self) > u128::MAX {
                Err::<u128, PoolError>(PoolError::Overflow)
            } else if params.u_optimal > BP {
                Err::<u128, PoolError>(PoolError::InvalidParameter)
            } else if state_borrow_rate(*params, *self) > u128::MAX {
                Err::<u128, PoolError>(PoolError::Overflow)
            } else if params.reserve_factor > BP {
                Err::<u128, PoolError>(PoolError::InvalidParameter)
            } else {
                Ok::<u128, PoolError>(
                    deposit_rate(
                        utilisation(self.total_borrowed as nat, supplied_capital(*self)),
                        state_borrow_rate(*params, *self),
                        params.reserve_factor as nat,
                    ) as u128,
                )
            }),
    {
        let used: u128 = self.get_capital_utilisation()?;
        let rate: u128 = compute_borrow_rate(
            params.r_base,
            params.r_slope1,
            params.r_slope2,
            params.u_optimal,
            used,
        )?;
        compute_deposit_rate(used, rate, params.reserve_factor)
    }

    /// What a deposit of `amount` is worth now, given the supply index at which it was made.
    ///
    /// Fails with `InvariantViolation` where that index is zero or above the
    /// present one, and with `Overflow` where the value does not fit in 128 bits.
    /// A value that is returned is at least `amount`.
    pub fn get_deposit_value(&self, amount: u128, supply_index_at_mint: u128) -> (res: Result<
        u128,
        PoolError,
    >)
        ensures
            (supply_index_at_mint == 0 || self.supply_index < supply_index_at_mint) ==> res == Err::<
                u128,
                PoolError,
            >(PoolError::InvariantViolation),
            (0 < supply_index_at_mint <= self.supply_index) ==> res == (if deposit_value(
                amount as nat,
                supply_index_at_mint as nat,
                self.supply_index as nat,
            ) <= u128::MAX {
                Ok::<u128, PoolError>(
                    deposit_value(
                        amount as nat,
                        supply_index_at_mint as nat,
                        self.supply_index as nat,
                    ) as u128,
                )
            } else {
                Err::<u128, PoolError>(PoolError::Overflow)
            }),
            res matches Ok(value) ==> value >= amount,
    {
        if supply_index_at_mint == 0 || self.supply_index < supply_index_at_mint {
            return Err(PoolError::InvariantViolation);
        }
        proof {
            crate::position::lemma_owed_covers_principal(
                amount as nat,
                self.supply_index as nat,
                supply_index_at_mint as nat,
            );
        }
        match mul_div(amount, self.supply_index, supply_index_at_mint) {
            Some(value) => Ok(value),
            None => Err(PoolError::Overflow),
        }
    }

    /// Adds the interest of `delta_rounds` rounds at `borrow_rate` to the borrow index.
    ///
    /// Fails with `Overflow`, and changes nothing, where the new index does not fit in 128 bits.
    pub fn update_borrow_index(&mut self, borrow_rate: u128, delta_rounds: u64) -> (res: Result<
        (),
        PoolError,
    >)
        ensures
            old(self).borrow_index + borrow_rate * delta_rounds > u128::MAX ==> res == Err::<
                (),
                PoolError,
            >(PoolError::Overflow) && *final(self) == *old(self),
            old(self).borrow_index + borrow_rate * delta_rounds <= u128::MAX ==> res == Ok::<
                (),
                PoolError,
            >(()) && *final(self) == (GlobalState {
                borrow_index: (old(self).borrow_index + borrow_rate * delta_rounds) as u128,
                ..*old(self)
            }),
    {
        proof {
            assert(borrow_rate * delta_rounds >= 0) by (nonlinear_arith);
        }
        let growth: u128 = match borrow_rate.checked_mul(delta_rounds as u128) {
            Some(g) => g,
            None => {
                return Err(PoolError::Overflow);
            },
        };
        match self.borrow_index.checked_add(growth) {
            Some(index) => {
                self.borrow_index = index;
                Ok(())
            },
            None => Err(PoolError::Overflow),
        }
    }

    /// Adds the interest that the borrowers owe for `delta_rounds` rounds at
    /// `borrow_rate` to the rewards reserve, and returns that interest.
    ///
    /// Fails with `Overflow`, and changes nothing, where the new reserve does not
    /// fit in 128 bits.
    pub fn update_rewards_reserves(&mut self, borrow_rate: u128, delta_rounds: u64) -> (res: Result<
        u128,
        PoolError,
    >)
        ensures
            res is Ok <==> old(self).rewards_reserve + rewards_increase(
                borrow_rate as nat,
                old(self).total_borrowed as nat,
                delta_rounds as nat,
            ) <= u128::MAX,
            res matches Ok(increase) ==> increase == rewards_increase(
                borrow_rate as nat,
                old(self).total_borrowed as nat,
                delta_rounds as nat,
            ) && *final(self) == (GlobalState {
                rewards_reserve: (old(self).rewards_reserve + increase) as u128,
                ..*old(self)
            }),
            res is Err ==> res == Err::<u128, PoolError>(PoolError::Overflow) && *final(self) == *old(self),
    {
        let increase: u128 = match mul3_div(
            borrow_rate,
            delta_rounds as u128,
            self.total_borrowed,
            BP as u128,
        ) {
            Some(i) => i,
            None => {
                return Err(PoolError::Overflow);
            },
        };
        match self.rewards_reserve.checked_add(increase) {
            Some(reserve) => {
                self.rewards_reserve = reserve;
                Ok(increase)
            },
            None => Err(PoolError::Overflow),
        }
    }

    /// Spreads `rewards_increase` over the supplied capital and adds the share of
    /// one unit to the supply index. An empty pool keeps its index.
    ///
    /// Fails with `Overflow`, and changes nothing, where the supplied capital or the
    /// new index does not fit in 128 bits.
    pub fn update_supply_index(&mut self, rewards_increase: u128) -> (res: Result<(), PoolError>)
        ensures
            res is Ok <==> supplied_capital(*old(self)) <= u128::MAX && grown_supply_index(
                old(self).supply_index as nat,
                rewards_increase as nat,
                supplied_capital(*old(self)),
            ) <= u128::MAX,
            res is Ok ==> *final(self) == (GlobalState {
                supply_index: grown_supply_index(
                    old(self).supply_index as nat,
                    rewards_increase as nat,
                    supplied_capital(*old(self)),
                ) as u128,
                ..*old(self)
            }),
            res is Err ==> res == Err::<(), PoolError>(PoolError::Overflow) && *final(self) == *old(self),
    {
        let total: u128 = self.get_total_supplied_capital()?;
        if total != 0 {
            let share: u128 = match mul_div(rewards_increase, BP as u128, total) {
                Some(s) => s,
                None => {
                    return Err(PoolError::Overflow);
                },
            };
            match self.supply_index.checked_add(share) {
                Some(index) => {
                    self.supply_index = index;
                },
                None => {
                    return Err(PoolError::Overflow);
                },
            }
        }
        Ok(())
    }

    /// Records `current_round` as the round up to which interest is accrued.
    pub fn update_index_last_used(&mut self, current_round: u64)
        ensures
            *final(self) == (GlobalState { last_update_round: current_round, ..*old(self) }),
    {
        self.last_update_round = current_round;
    }

    /// Accrues interest up to `current_round`.
    ///
    /// The outcome is `accrue_result`: on success the state becomes the one it names,
    /// on failure the error is the one it names and the state stays as it was.
    pub fn update_interest_indexes(&mut self, params: &PoolParams, current_round: u64) -> (res: Result<
        (),
        PoolError,
    >)
        ensures
            res is Ok ==> accrue_result(*params, *old(self), current_round) == Ok::<
                GlobalState,
                PoolError,
            >(*final(self)),
            res matches Err(e) ==> accrue_result(*params, *old(self), current_round) == Err::<
                GlobalState,
                PoolError,
            >(e) && *final(self) == *old(self),
            *final(self) == accrue_step(*params, *old(self), current_round),
    {
        let delta_rounds: u64 = self.get_round_diff(current_round)?;
        if delta_rounds > 0 {
            if params.u_optimal > BP as u128 {
                return Err(PoolError::InvalidParameter);
            }
            let mut next: GlobalState = *self;
            proof {
                // a rate beyond 128 bits takes the index beyond them
                let rate = state_borrow_rate(*params, *self);
                assert(rate * delta_rounds >= rate) by (nonlinear_arith)
                    requires
                        delta_rounds >= 1,
                        rate >= 0,
                ;
            }
            let rate: u128 = next.get_borrow_rate(params)?;
            next.update_borrow_index(rate, delta_rounds)?;
            let increase: u128 = next.update_rewards_reserves(rate, delta_rounds)?;
            next.update_supply_index(increase)?;
            next.update_index_last_used(current_round);
            *self = next;
        }
        Ok(())
    }
}

} // verus!
