//! One pool: its settings, its global state and its positions, and the five
//! operations that change them.
//!
//! Every operation first accrues interest up to the round it is given, then acts on
//! the accrued state. An operation that is refused leaves the pool as it was,
//! accrual included. What each operation does is stated once, as a function from
//! the pool before to the pool after; the executable operation is proved against it.
use vstd::prelude::*;
use crate::accrual::accrue_result;
use crate::accrual::accrue_step;
use crate::accrual::lemma_accrue_grows;
use crate::accrual::supplied_capital;
use crate::accrual::GlobalState;
use crate::error::PoolError;
use crate::ledger::holds;
use crate::ledger::index_of;
use crate::ledger::lemma_held_has_first;
use crate::ledger::LedgerEntryView;
use crate::ledger::PositionLedger;
use crate::model::copy_bytes;
use crate::model::same_bytes;
use crate::model::DebtPosition;
use crate::model::DebtPositionView;
use crate::model::DepositMetadata;
use crate::model::LiquidateData;
use crate::model::LiquidateDataView;
use crate::model::PoolParams;
use crate::model::RepayPostion;
use crate::model::RepayPostionView;
use crate::position::after_payment;
use crate::position::applied_payment;
use crate::position::collateral_share;
use crate::position::lemma_owed_at_open_index;
use crate::position::lemma_owed_covers_principal;
use crate::position::lemma_payment_reduces_principal;
use crate::position::lemma_share_bounded;
use crate::position::owed_amount;
use crate::position::remaining_principal;
use crate::position::settle_error;
use crate::position::settled;
use crate::solvency::after_liquidation;
use crate::solvency::health_factor;
use crate::solvency::liquidation_error;

verus! {

/// A pool of one asset.
#[derive(Debug)]
pub struct LiquidityPool {
    /// The asset that is supplied to the pool and lent by it.
    pub pool_asset: Vec<u8>,
    /// The address of the contract that routes calls to this pool.
    pub lending_pool: Vec<u8>,
    /// The coefficients of the rate curve.
    pub pool_params: PoolParams,
    /// Positions with a health factor below this may be liquidated.
    pub health_factor_threshold: u32,
    /// Capital, indices and the round of the last accrual.
    pub state: GlobalState,
    /// The positions, open and settled.
    pub debt_positions: PositionLedger,
    /// The number that the next position gets.
    pub debt_nonce: u64,
}

/// `LiquidityPool` over mathematical values.
pub struct PoolView {
    pub pool_asset: Seq<u8>,
    pub lending_pool: Seq<u8>,
    pub pool_params: PoolParams,
    pub health_factor_threshold: u32,
    pub state: GlobalState,
    pub debt_positions: Seq<LedgerEntryView>,
    pub debt_nonce: u64,
}

impl View for LiquidityPool {
    type V = PoolView;

    open spec fn view(&self) -> PoolView {
        PoolView {
            pool_asset: self.pool_asset@,
            lending_pool: self.lending_pool@,
            pool_params: self.pool_params,
            health_factor_threshold: self.health_factor_threshold,
            state: self.state,
            debt_positions: self.debt_positions@,
            debt_nonce: self.debt_nonce,
        }
    }
}

/// What a deposit of `amount` in `round` makes of a pool.
pub open spec fn deposit_result(pool: PoolView, asset: Seq<u8>, amount: u128, round: u64) -> Result<
    (PoolView, DepositMetadata),
    PoolError,
> {
    if asset != pool.pool_asset {
        Err(PoolError::InvalidParameter)
    } else {
        match accrue_result(pool.pool_params, pool.state, round) {
            Err(e) => Err(e),
            Ok(s) => if s.total_reserves + amount > u128::MAX {
                Err(PoolError::Overflow)
            } else {
                Ok(
                    (
                        PoolView {
                            state: GlobalState {
                                total_reserves: (s.total_reserves + amount) as u128,
                                ..s
                            },
                            ..pool
                        },
                        DepositMetadata { timestamp: round },
                    ),
                )
            },
        }
    }
}

/// What a withdrawal of `amount` in `round` makes of a pool.
pub open spec fn withdraw_result(pool: PoolView, amount: u128, round: u64) -> Result<
    PoolView,
    PoolError,
> {
    match accrue_result(pool.pool_params, pool.state, round) {
        Err(e) => Err(e),
        Ok(s) => if amount > s.total_reserves {
            Err(PoolError::InsufficientFunds)
        } else {
            Ok(
                PoolView {
                    state: GlobalState { total_reserves: (s.total_reserves - amount) as u128, ..s },
                    ..pool
                },
            )
        },
    }
}

/// The position that a loan of `principal` opens in a state.
pub open spec fn opened_position(
    principal: u128,
    collateral_amount: u128,
    collateral_identifier: Seq<u8>,
    s: GlobalState,
    round: u64,
) -> DebtPositionView {
    DebtPositionView {
        size: principal as nat,
        health_factor: 0,
        is_liquidated: false,
        timestamp: round as nat,
        borrow_index: s.borrow_index as nat,
        collateral_amount: collateral_amount as nat,
        collateral_identifier,
    }
}

/// What a loan of `principal` against `collateral_amount`, taken in `round` under
/// the identifier `id`, makes of a pool; with the position it opens.
pub open spec fn borrow_result(
    pool: PoolView,
    id: Seq<u8>,
    principal: u128,
    collateral_amount: u128,
    collateral_identifier: Seq<u8>,
    round: u64,
) -> Result<(PoolView, DebtPositionView), PoolError> {
    if principal == 0 {
        Err(PoolError::InvalidParameter)
    } else if collateral_amount == 0 {
        Err(PoolError::InsufficientCollateral)
    } else if holds(pool.debt_positions, id) {
        Err(PoolError::InvalidParameter)
    } else {
        match accrue_result(pool.pool_params, pool.state, round) {
            Err(e) => Err(e),
            Ok(s) => if principal > s.total_reserves {
                Err(PoolError::InsufficientFunds)
            } else if s.total_borrowed + principal > u128::MAX || pool.debt_nonce + 1 > u64::MAX {
                Err(PoolError::Overflow)
            } else {
                Ok(
                    (
                        PoolView {
                            state: GlobalState {
                                total_reserves: (s.total_reserves - principal) as u128,
                                total_borrowed: (s.total_borrowed + principal) as u128,
                                ..s
                            },
                            debt_positions: pool.debt_positions.push(
                                LedgerEntryView {
                                    id,
                                    nonce: pool.debt_nonce as nat,
                                    position: opened_position(
                                        principal,
                                        collateral_amount,
                                        collateral_identifier,
                                        s,
                                        round,
                                    ),
                                },
                            ),
                            debt_nonce: (pool.debt_nonce + 1) as u64,
                            ..pool
                        },
                        opened_position(principal, collateral_amount, collateral_identifier, s, round),
                    ),
                )
            },
        }
    }
}

/// The state after `applied` was paid towards a position and cleared `cleared`
/// of its principal: the payment joins the reserves, and the loans fall by the
/// principal cleared. The rest of the payment is interest and stays in the reserves.
pub open spec fn state_after_payment(s: GlobalState, cleared: nat, applied: nat) -> GlobalState {
    GlobalState {
        total_reserves: (s.total_reserves + applied) as u128,
        total_borrowed: (s.total_borrowed - cleared) as u128,
        ..s
    }
}

/// Why the books cannot take a payment of `applied` towards a position that
/// stands in them with `size`, if they cannot: the loans are less than the
/// position, or the reserves would exceed 128 bits.
pub open spec fn payment_error(s: GlobalState, size: nat, applied: nat) -> Option<PoolError> {
    if s.total_borrowed < size {
        Some(PoolError::InvariantViolation)
    } else if s.total_reserves + applied > u128::MAX {
        Some(PoolError::Overflow)
    } else {
        None
    }
}

/// The principal that a payment clears of a position of `size` that owes `owed`.
pub open spec fn cleared_principal(size: nat, payment: nat, owed: nat) -> nat {
    (size - remaining_principal(size, payment, owed)) as nat
}

/// What a repayment of `amount` in `round` towards the position under `id` makes
/// of a pool; with the record of the repayment.
pub open spec fn repay_result(pool: PoolView, id: Seq<u8>, asset: Seq<u8>, amount: u128, round: u64) -> Result<
    (PoolView, RepayPostionView),
    PoolError,
> {
    let at = index_of(pool.debt_positions, id);
    let entry = pool.debt_positions[at];
    let p = entry.position;
    if !holds(pool.debt_positions, id) {
        Err(PoolError::NotFound)
    } else if asset != pool.pool_asset {
        Err(PoolError::InvalidParameter)
    } else if settled(p) {
        Err(PoolError::AlreadySettled)
    } else if amount == 0 {
        Err(PoolError::InvalidParameter)
    } else {
        match accrue_result(pool.pool_params, pool.state, round) {
            Err(e) => Err(e),
            Ok(s) => {
                let owed = owed_amount(p.size, s.borrow_index as nat, p.borrow_index);
                let applied = applied_payment(amount as nat, owed);
                if settle_error(p, amount as nat, s.borrow_index as nat) is Some {
                    Err(settle_error(p, amount as nat, s.borrow_index as nat)->0)
                } else if payment_error(s, p.size, applied) is Some {
                    Err(payment_error(s, p.size, applied)->0)
                } else {
                    Ok(
                        (
                            PoolView {
                                state: state_after_payment(
                                    s,
                                    cleared_principal(p.size, amount as nat, owed),
                                    applied,
                                ),
                                debt_positions: pool.debt_positions.update(
                                    at,
                                    LedgerEntryView {
                                        position: after_payment(
                                            p,
                                            amount as nat,
                                            owed,
                                            s.borrow_index as nat,
                                        ),
                                        ..entry
                                    },
                                ),
                                ..pool
                            },
                            RepayPostionView {
                                identifier: asset,
                                amount: applied,
                                nonce: entry.nonce,
                                borrow_timestamp: p.timestamp,
                                collateral_identifier: p.collateral_identifier,
                                collateral_amount: collateral_share(p.collateral_amount, applied, owed),
                                collateral_timestamp: p.timestamp,
                            },
                        ),
                    )
                }
            },
        }
    }
}

/// What a liquidation in `round` of the position under `id`, by a repayment of
/// `amount`, makes of a pool; with what the liquidator receives. A price of `None`
/// is a quote that the price feed could not give.
pub open spec fn liquidate_result(
    pool: PoolView,
    id: Seq<u8>,
    asset: Seq<u8>,
    amount: u128,
    collateral_price: Option<u128>,
    debt_price: Option<u128>,
    round: u64,
) -> Result<(PoolView, LiquidateDataView), PoolError> {
    let at = index_of(pool.debt_positions, id);
    let entry = pool.debt_positions[at];
    let p = entry.position;
    if !holds(pool.debt_positions, id) {
        Err(PoolError::NotFound)
    } else if asset != pool.pool_asset {
        Err(PoolError::InvalidParameter)
    } else if settled(p) {
        Err(PoolError::AlreadySettled)
    } else if collateral_price is None || debt_price is None {
        Err(PoolError::PriceUnavailable)
    } else {
        match accrue_result(pool.pool_params, pool.state, round) {
            Err(e) => Err(e),
            Ok(s) => {
                let owed = owed_amount(p.size, s.borrow_index as nat, p.borrow_index);
                let refusal = liquidation_error(
                    p,
                    amount as nat,
                    s.borrow_index as nat,
                    collateral_price->0 as nat,
                    debt_price->0 as nat,
                    pool.health_factor_threshold as nat,
                );
                if refusal is Some {
                    Err(refusal->0)
                } else if payment_error(s, p.size, amount as nat) is Some {
                    Err(payment_error(s, p.size, amount as nat)->0)
                } else {
                    Ok(
                        (
                            PoolView {
                                state: state_after_payment(
                                    s,
                                    cleared_principal(p.size, amount as nat, owed),
                                    amount as nat,
                                ),
                                debt_positions: pool.debt_positions.update(
                                    at,
                                    LedgerEntryView {
                                        position: after_liquidation(
                                            p,
                                            amount as nat,
                                            owed,
                                            s.borrow_index as nat,
                                            health_factor(
                                                p.collateral_amount,
                                                collateral_price->0 as nat,
                                                owed,
                                                debt_price->0 as nat,
                                            ),
                                        ),
                                        ..entry
                                    },
                                ),
                                ..pool
                            },
                            LiquidateDataView {
                                collateral_token: p.collateral_identifier,
                                amount: collateral_share(p.collateral_amount, amount as nat, owed),
                            },
                        ),
                    )
                }
            },
        }
    }
}

/// Takes into the books of a state a payment of `applied` that cleared `cleared`
/// of the principal of a position of `size`.
fn book_payment(s: &mut GlobalState, size: u128, cleared: u128, applied: u128) -> (res: Result<
    (),
    PoolError,
>)
    requires
        cleared <= size,
    ensures
        res matches Err(e) ==> payment_error(*old(s), size as nat, applied as nat) == Some(e)
            && *final(s) == *old(s),
        res is Ok ==> payment_error(*old(s), size as nat, applied as nat) is None && *final(s)
            == state_after_payment(*old(s), cleared as nat, applied as nat),
{
    if s.total_borrowed < size {
        return Err(PoolError::InvariantViolation);
    }
    let reserves: u128 = match s.total_reserves.checked_add(applied) {
        Some(r) => r,
        None => {
            return Err(PoolError::Overflow);
        },
    };
    s.total_reserves = reserves;
    s.total_borrowed = s.total_borrowed - cleared;
    Ok(())
}

/// What a repayment that succeeds does to the capital and to the position: the
/// part of the payment that is taken joins the reserves; the loans do not rise;
/// reserves and loans together grow by the interest in the payment, which is at
/// most the payment; and the position is left with less principal, stated at the
/// accrued index, with the collateral that was not released, owing at most what
/// it owed less the payment.
pub proof fn lemma_repay_moves_capital(
    pool: PoolView,
    id: Seq<u8>,
    asset: Seq<u8>,
    amount: u128,
    round: u64,
)
    requires
        repay_result(pool, id, asset, amount, round) is Ok,
    ensures
        ({
            let after = repay_result(pool, id, asset, amount, round)->Ok_0.0;
            let record = repay_result(pool, id, asset, amount, round)->Ok_0.1;
            let at = index_of(pool.debt_positions, id);
            let before = pool.debt_positions[at].position;
            let left = after.debt_positions[at].position;
            let accrued = accrue_step(pool.pool_params, pool.state, round);
            let owed = owed_amount(before.size, accrued.borrow_index as nat, before.borrow_index);
            &&& 0 <= at < pool.debt_positions.len()
            &&& record.amount == applied_payment(amount as nat, owed)
            &&& record.amount <= amount
            &&& after.state.total_reserves == pool.state.total_reserves + record.amount
            &&& after.state.total_borrowed <= pool.state.total_borrowed
            &&& supplied_capital(pool.state) <= supplied_capital(after.state)
            &&& supplied_capital(after.state) <= supplied_capital(pool.state) + record.amount
            &&& before.size > 0 ==> left.size < before.size
            &&& left.size <= before.size
            &&& left.borrow_index == accrued.borrow_index
            &&& left.collateral_amount == before.collateral_amount - record.collateral_amount
            &&& record.collateral_amount == collateral_share(
                before.collateral_amount,
                record.amount,
                owed,
            )
            &&& owed_amount(left.size, accrued.borrow_index as nat, left.borrow_index) <= owed
                - record.amount
            &&& amount >= owed ==> left.size == 0 && left.collateral_amount == 0
        }),
{
    lemma_held_has_first(pool.debt_positions, id);
    let at = index_of(pool.debt_positions, id);
    let before = pool.debt_positions[at].position;
    let accrued = accrue_step(pool.pool_params, pool.state, round);
    let owed = owed_amount(before.size, accrued.borrow_index as nat, before.borrow_index);
    lemma_accrue_grows(pool.pool_params, pool.state, round);
    lemma_owed_covers_principal(before.size, accrued.borrow_index as nat, before.borrow_index);
    lemma_payment_reduces_principal(before.size, amount as nat, owed);
    lemma_share_bounded(before.collateral_amount, applied_payment(amount as nat, owed), owed);
    lemma_owed_at_open_index(
        remaining_principal(before.size, amount as nat, owed),
        accrued.borrow_index as nat,
    );
}

/// What a liquidation that succeeds does to the capital and to the position: as
/// a repayment of the same amount does, which here is never more than is owed.
pub proof fn lemma_liquidate_moves_capital(
    pool: PoolView,
    id: Seq<u8>,
    asset: Seq<u8>,
    amount: u128,
    collateral_price: Option<u128>,
    debt_price: Option<u128>,
    round: u64,
)
    requires
        liquidate_result(pool, id, asset, amount, collateral_price, debt_price, round) is Ok,
    ensures
        ({
            let done = liquidate_result(
                pool,
                id,
                asset,
                amount,
                collateral_price,
                debt_price,
                round,
            )->Ok_0;
            let after = done.0;
            let at = index_of(pool.debt_positions, id);
            let before = pool.debt_positions[at].position;
            let left = after.debt_positions[at].position;
            let accrued = accrue_step(pool.pool_params, pool.state, round);
            let owed = owed_amount(before.size, accrued.borrow_index as nat, before.borrow_index);
            &&& 0 <= at < pool.debt_positions.len()
            &&& 0 < amount <= owed
            &&& health_factor(
                before.collateral_amount,
                collateral_price->0 as nat,
                owed,
                debt_price->0 as nat,
            ) < pool.health_factor_threshold
            &&& after.state.total_reserves == pool.state.total_reserves + amount
            &&& after.state.total_borrowed <= pool.state.total_borrowed
            &&& supplied_capital(pool.state) <= supplied_capital(after.state)
            &&& supplied_capital(after.state) <= supplied_capital(pool.state) + amount
            &&& before.size > 0 ==> left.size < before.size
            &&& left.borrow_index == accrued.borrow_index
            &&& left.collateral_amount == before.collateral_amount - done.1.amount
            &&& done.1.amount == collateral_share(before.collateral_amount, amount as nat, owed)
            &&& owed_amount(left.size, accrued.borrow_index as nat, left.borrow_index) <= owed
                - amount
            &&& left.is_liquidated == (amount == owed)
        }),
{
    lemma_held_has_first(pool.debt_positions, id);
    let at = index_of(pool.debt_positions, id);
    let before = pool.debt_positions[at].position;
    let accrued = accrue_step(pool.pool_params, pool.state, round);
    let owed = owed_amount(before.size, accrued.borrow_index as nat, before.borrow_index);
    lemma_accrue_grows(pool.pool_params, pool.state, round);
    lemma_owed_covers_principal(before.size, accrued.borrow_index as nat, before.borrow_index);
    lemma_payment_reduces_principal(before.size, amount as nat, owed);
    lemma_share_bounded(before.collateral_amount, amount as nat, owed);
    lemma_owed_at_open_index(
        remaining_principal(before.size, amount as nat, owed),
        accrued.borrow_index as nat,
    );
}

/// The part of a payment of `amount` that the repayment recorded in `record` did
/// not take, and that goes back to the payer.
pub fn repayment_refund(amount: u128, record: &RepayPostion) -> (refund: u128)
    ensures
        refund == (if amount >= record.amount {
            amount - record.amount
        } else {
            0
        }),
{
    if amount >= record.amount {
        amount - record.amount
    } else {
        0
    }
}

impl LiquidityPool {
    /// A pool of `asset` at its creation in `round`: nothing supplied, no positions,
    /// both indices at one, and the first position to be number one.
    ///
    /// Any reserve factor is taken. Fails with `InvalidParameter` where the optimal
    /// utilisation exceeds `BP`.
    pub fn init(
        asset: Vec<u8>,
        lending_pool: Vec<u8>,
        r_base: u128,
        r_slope1: u128,
        r_slope2: u128,
        u_optimal: u128,
        reserve_factor: u128,
        health_factor_threshold: u32,
        round: u64,
    ) -> (res: Result<LiquidityPool, PoolError>)
        ensures
            u_optimal > crate::fixed_point::BP ==> res matches Err(PoolError::InvalidParameter),
            u_optimal <= crate::fixed_point::BP ==> res is Ok && res->Ok_0@ == (PoolView {
                pool_asset: asset@,
                lending_pool: lending_pool@,
                pool_params: PoolParams { r_base, r_slope1, r_slope2, u_optimal, reserve_factor },
                health_factor_threshold,
                state: GlobalState {
                    total_reserves: 0,
                    total_borrowed: 0,
                    borrow_index: crate::fixed_point::BP as u128,
                    supply_index: crate::fixed_point::BP as u128,
                    rewards_reserve: 0,
                    last_update_round: round,
                },
                debt_positions: Seq::<LedgerEntryView>::empty(),
                debt_nonce: 1,
            }),
    {
        let pool_params: PoolParams = PoolParams::new(
            r_base,
            r_slope1,
            r_slope2,
            u_optimal,
            reserve_factor,
        )?;
        Ok(
            LiquidityPool {
                pool_asset: asset,
                lending_pool,
                pool_params,
                health_factor_threshold,
                state: GlobalState::new(round),
                debt_positions: PositionLedger::new(),
                debt_nonce: 1,
            },
        )
    }

    /// Takes `amount` of the pool's asset into the reserves.
    ///
    /// The outcome is `deposit_result`: the pool becomes the one it names and the
    /// receipt is the one it names, or the call fails with the error it names and
    /// changes nothing.
    pub fn deposit_asset(&mut self, asset: &Vec<u8>, amount: u128, round: u64) -> (res: Result<
        DepositMetadata,
        PoolError,
    >)
        ensures
            res matches Ok(receipt) ==> deposit_result(old(self)@, asset@, amount, round) == Ok::<
                (PoolView, DepositMetadata),
                PoolError,
            >((final(self)@, receipt)),
            res matches Err(e) ==> deposit_result(old(self)@, asset@, amount, round) == Err::<
                (PoolView, DepositMetadata),
                PoolError,
            >(e) && final(self)@ == old(self)@,
    {
        if !same_bytes(asset, &self.pool_asset) {
            return Err(PoolError::InvalidParameter);
        }
        let mut next: GlobalState = self.state;
        next.update_interest_indexes(&self.pool_params, round)?;
        next.total_reserves = match next.total_reserves.checked_add(amount) {
            Some(r) => r,
            None => {
                return Err(PoolError::Overflow);
            },
        };
        self.state = next;
        Ok(DepositMetadata { timestamp: round })
    }

    /// Pays `amount` out of the reserves.
    ///
    /// The outcome is `withdraw_result`: the pool becomes the one it names, or the
    /// call fails with the error it names and changes nothing.
    pub fn withdraw(&mut self, amount: u128, round: u64) -> (res: Result<(), PoolError>)
        ensures
            res is Ok ==> withdraw_result(old(self)@, amount, round) == Ok::<PoolView, PoolError>(
                final(self)@,
            ),
            res matches Err(e) ==> withdraw_result(old(self)@, amount, round) == Err::<
                PoolView,
                PoolError,
            >(e) && final(self)@ == old(self)@,
    {
        let mut next: GlobalState = self.state;
        next.update_interest_indexes(&self.pool_params, round)?;
        if amount > next.total_reserves {
            return Err(PoolError::InsufficientFunds);
        }
        next.total_reserves = next.total_reserves - amount;
        self.state = next;
        Ok(())
    }

    /// Lends `principal` out of the reserves against `collateral_amount` and opens
    /// a position for the loan under `position_id`, stated at the accrued borrow index.
    ///
    /// The outcome is `borrow_result`: the pool becomes the one it names and the
    /// position returned is the one it names, or the call fails with the error it
    /// names and changes nothing.
    pub fn borrow(
        &mut self,
        position_id: Vec<u8>,
        principal: u128,
        collateral_amount: u128,
        collateral_identifier: Vec<u8>,
        round: u64,
    ) -> (res: Result<DebtPosition, PoolError>)
        ensures
            res matches Ok(opened) ==> borrow_result(
                old(self)@,
                position_id@,
                principal,
                collateral_amount,
                collateral_identifier@,
                round,
            ) == Ok::<(PoolView, DebtPositionView), PoolError>((final(self)@, opened@)),
            res matches Err(e) ==> borrow_result(
                old(self)@,
                position_id@,
                principal,
                collateral_amount,
                collateral_identifier@,
                round,
            ) == Err::<(PoolView, DebtPositionView), PoolError>(e) && final(self)@ == old(self)@,
    {
        if principal == 0 {
            return Err(PoolError::InvalidParameter);
        }
        if collateral_amount == 0 {
            return Err(PoolError::InsufficientCollateral);
        }
        if self.debt_positions.find(&position_id).is_some() {
            return Err(PoolError::InvalidParameter);
        }
        let mut next: GlobalState = self.state;
        next.update_interest_indexes(&self.pool_params, round)?;
        if principal > next.total_reserves {
            return Err(PoolError::InsufficientFunds);
        }
        let borrowed: u128 = match next.total_borrowed.checked_add(principal) {
            Some(b) => b,
            None => {
                return Err(PoolError::Overflow);
            },
        };
        let following: u64 = match self.debt_nonce.checked_add(1) {
            Some(n) => n,
            None => {
                return Err(PoolError::Overflow);
            },
        };
        next.total_reserves = next.total_reserves - principal;
        next.total_borrowed = borrowed;
        let opened: DebtPosition = DebtPosition::open(
            principal,
            collateral_amount,
            collateral_identifier,
            next.borrow_index,
            round,
        );
        let handed_out: DebtPosition = opened.clone();
        self.debt_positions.insert(position_id, self.debt_nonce, opened)?;
        self.state = next;
        self.debt_nonce = following;
        Ok(handed_out)
    }

    /// Takes `amount` of the pool's asset towards the debt of the position under
    /// `position_id`. A payment of what is owed or more closes the position and
    /// releases all its collateral; a smaller one reduces the principal in the
    /// proportion in which it reduces the debt and releases the payment's share of
    /// the collateral. The payment joins the reserves, the loans fall by the
    /// principal cleared, and the two together grow by the interest in the payment.
    ///
    /// The outcome is `repay_result`: the pool becomes the one it names and the
    /// record returned is the one it names, or the call fails with the error it
    /// names and changes nothing.
    pub fn repay(&mut self, position_id: &Vec<u8>, asset: &Vec<u8>, amount: u128, round: u64) -> (res:
        Result<RepayPostion, PoolError>)
        ensures
            res matches Ok(record) ==> repay_result(
                old(self)@,
                position_id@,
                asset@,
                amount,
                round,
            ) == Ok::<(PoolView, RepayPostionView), PoolError>((final(self)@, record@)),
            res matches Err(e) ==> repay_result(old(self)@, position_id@, asset@, amount, round)
                == Err::<(PoolView, RepayPostionView), PoolError>(e) && final(self)@ == old(self)@,
            res matches Ok(record) ==> {
                &&& record.amount <= amount
                &&& final(self).state.total_reserves == old(self).state.total_reserves
                    + record.amount
                &&& final(self).state.total_borrowed <= old(self).state.total_borrowed
                &&& supplied_capital(old(self).state) <= supplied_capital(final(self).state)
                &&& supplied_capital(final(self).state) <= supplied_capital(old(self).state)
                    + record.amount
            },
    {
        let index: usize = match self.debt_positions.find(position_id) {
            Some(i) => i,
            None => {
                return Err(PoolError::NotFound);
            },
        };
        if !same_bytes(asset, &self.pool_asset) {
            return Err(PoolError::InvalidParameter);
        }
        let (nonce, mut position) = match self.debt_positions.entry(index) {
            Some(entry) => (entry.nonce, entry.position.clone()),
            None => {
                return Err(PoolError::NotFound);
            },
        };
        if position.is_settled() {
            return Err(PoolError::AlreadySettled);
        }
        if amount == 0 {
            return Err(PoolError::InvalidParameter);
        }
        let mut next: GlobalState = self.state;
        next.update_interest_indexes(&self.pool_params, round)?;
        let size: u128 = position.size;
        let done = position.settle(amount, next.borrow_index)?;
        book_payment(&mut next, size, done.principal, done.applied)?;
        let record = RepayPostion {
            identifier: copy_bytes(asset),
            amount: done.applied,
            nonce,
            borrow_timestamp: position.timestamp,
            collateral_identifier: copy_bytes(&position.collateral_identifier),
            collateral_amount: done.released,
            collateral_timestamp: position.timestamp,
        };
        self.debt_positions.update(position_id, position)?;
        self.state = next;
        proof {
            lemma_repay_moves_capital(old(self)@, position_id@, asset@, amount, round);
        }
        Ok(record)
    }

    /// Liquidates the position under `position_id`, in part or in whole, by a
    /// repayment of `amount` of the pool's asset. The two prices are what the
    /// price feed quotes for the collateral and for the pool's asset; `None` where
    /// it has no quote.
    ///
    /// The outcome is `liquidate_result`: the pool becomes the one it names and the
    /// liquidator receives what it names, or the call fails with the error it names
    /// and changes nothing.
    pub fn liquidate(
        &mut self,
        position_id: &Vec<u8>,
        asset: &Vec<u8>,
        amount: u128,
        collateral_price: Option<u128>,
        debt_price: Option<u128>,
        round: u64,
    ) -> (res: Result<LiquidateData, PoolError>)
        ensures
            res matches Ok(paid_out) ==> liquidate_result(
                old(self)@,
                position_id@,
                asset@,
                amount,
                collateral_price,
                debt_price,
                round,
            ) == Ok::<(PoolView, LiquidateDataView), PoolError>((final(self)@, paid_out@)),
            res matches Err(e) ==> liquidate_result(
                old(self)@,
                position_id@,
                asset@,
                amount,
                collateral_price,
                debt_price,
                round,
            ) == Err::<(PoolView, LiquidateDataView), PoolError>(e) && final(self)@ == old(self)@,
            res is Ok ==> {
                &&& final(self).state.total_reserves == old(self).state.total_reserves + amount
                &&& final(self).state.total_borrowed <= old(self).state.total_borrowed
                &&& supplied_capital(old(self).state) <= supplied_capital(final(self).state)
                &&& supplied_capital(final(self).state) <= supplied_capital(old(self).state)
                    + amount
            },
    {
        let index: usize = match self.debt_positions.find(position_id) {
            Some(i) => i,
            None => {
                return Err(PoolError::NotFound);
            },
        };
        if !same_bytes(asset, &self.pool_asset) {
            return Err(PoolError::InvalidParameter);
        }
        let mut position: DebtPosition = match self.debt_positions.entry(index) {
            Some(entry) => entry.position.clone(),
            None => {
                return Err(PoolError::NotFound);
            },
        };
        if position.is_settled() {
            return Err(PoolError::AlreadySettled);
        }
        let (collateral_quote, debt_quote) = match (collateral_price, debt_price) {
            (Some(c), Some(d)) => (c, d),
            _ => {
                return Err(PoolError::PriceUnavailable);
            },
        };
        let mut next: GlobalState = self.state;
        next.update_interest_indexes(&self.pool_params, round)?;
        let size: u128 = position.size;
        let paid_out = position.liquidate(
            amount,
            next.borrow_index,
            collateral_quote,
            debt_quote,
            self.health_factor_threshold,
        )?;
        book_payment(&mut next, size, size - position.size, amount)?;
        self.debt_positions.update(position_id, position)?;
        self.state = next;
        proof {
            lemma_liquidate_moves_capital(
                old(self)@,
                position_id@,
                asset@,
                amount,
                collateral_price,
                debt_price,
                round,
            );
        }
        Ok(paid_out)
    }

    /// Capital in reserve.
    pub fn view_reserve(&self) -> (res: u128)
        ensures
            res == self.state.total_reserves,
    {
        self.state.total_reserves
    }

    /// Capital lent out.
    pub fn view_total_borrow(&self) -> (res: u128)
        ensures
            res == self.state.total_borrowed,
    {
        self.state.total_borrowed
    }

    /// The pool's asset.
    pub fn view_pool_asset(&self) -> (res: Vec<u8>)
        ensures
            res@ == self.pool_asset@,
    {
        copy_bytes(&self.pool_asset)
    }

    /// The address of the contract that routes calls to this pool.
    pub fn view_lending_pool(&self) -> (res: Vec<u8>)
        ensures
            res@ == self.lending_pool@,
    {
        copy_bytes(&self.lending_pool)
    }

    /// The threshold below which a health factor allows liquidation.
    pub fn view_health_factor_threshold(&self) -> (res: u32)
        ensures
            res == self.health_factor_threshold,
    {
        self.health_factor_threshold
    }

    /// Sets the threshold below which a health factor allows liquidation.
    pub fn endpoint_health_factor_threshold(&mut self, health_factor_threshold: u32)
        ensures
            final(self)@ == (PoolView { health_factor_threshold, ..old(self)@ }),
    {
        self.health_factor_threshold = health_factor_threshold;
    }

    /// The identifiers of all positions, in the order in which they were opened.
    pub fn get_positions_ids(&self) -> (res: Vec<Vec<u8>>)
        ensures
            res@.len() == self@.debt_positions.len(),
            forall|i: int|
                0 <= i < self@.debt_positions.len() ==> (#[trigger] res@[i])@
                    == self@.debt_positions[i].id,
    {
        self.debt_positions.ids()
    }

    /// A copy of the position under `position_id`.
    ///
    /// Fails with `NotFound` where there is none.
    pub fn view_debt_position(&self, position_id: &Vec<u8>) -> (res: Result<DebtPosition, PoolError>)
        ensures
            !holds(self@.debt_positions, position_id@) ==> res matches Err(PoolError::NotFound),
            holds(self@.debt_positions, position_id@) ==> res is Ok && res->Ok_0@
                == self@.debt_positions[index_of(self@.debt_positions, position_id@)].position,
    {
        match self.debt_positions.position(position_id) {
            Some(p) => Ok(p),
            None => Err(PoolError::NotFound),
        }
    }

    /// The interest that the position under `position_id` owes at the pool's borrow
    /// index as it stands; zero where there is no such position.
    ///
    /// Fails as `DebtPosition::get_debt_interest` does.
    pub fn get_debt_position_interest(&self, position_id: &Vec<u8>) -> (res: Result<u128, PoolError>)
        ensures
            !holds(self@.debt_positions, position_id@) ==> res == Ok::<u128, PoolError>(0),
            holds(self@.debt_positions, position_id@) ==> {
                let p = self@.debt_positions[index_of(self@.debt_positions, position_id@)].position;
                res == (if p.borrow_index == 0 || self.state.borrow_index < p.borrow_index {
                    Err::<u128, PoolError>(PoolError::InvariantViolation)
                } else if owed_amount(p.size, self.state.borrow_index as nat, p.borrow_index)
                    > u128::MAX {
                    Err::<u128, PoolError>(PoolError::Overflow)
                } else {
                    Ok::<u128, PoolError>(
                        crate::position::accrued_interest(
                            p.size,
                            self.state.borrow_index as nat,
                            p.borrow_index,
                        ) as u128,
                    )
                })
            },
    {
        match self.debt_positions.position(position_id) {
            Some(p) => p.get_debt_interest(self.state.borrow_index),
            None => Ok(0),
        }
    }

    /// The borrow rate as the pool stands. Fails as `GlobalState::get_borrow_rate` does.
    pub fn view_borrow_rate(&self) -> (res: Result<u128, PoolError>)
        ensures
            res == (if supplied_capital(self.state) > u128::MAX {
                Err::<u128, PoolError>(PoolError::Overflow)
            } else if self.pool_params.u_optimal > crate::fixed_point::BP {
                Err::<u128, PoolError>(PoolError::InvalidParameter)
            } else if crate::accrual::state_borrow_rate(self.pool_params, self.state) > u128::MAX {
                Err::<u128, PoolError>(PoolError::Overflow)
            } else {
                Ok::<u128, PoolError>(
                    crate::accrual::state_borrow_rate(self.pool_params, self.state) as u128,
                )
            }),
    {
        self.state.get_borrow_rate(&self.pool_params)
    }

    /// The deposit rate as the pool stands. Fails as `GlobalState::get_deposit_rate` does.
    pub fn view_deposit_rate(&self) -> (res: Result<u128, PoolError>)
        ensures
            res == (if supplied_capital(self.state) > u128::MAX {
                Err::<u128, PoolError>(PoolError::Overflow)
            } else if self.pool_params.u_optimal > crate::fixed_point::BP {
                Err::<u128, PoolError>(PoolError::InvalidParameter)
            } else if crate::accrual::state_borrow_rate(self.pool_params, self.state) > u128::MAX {
                Err::<u128, PoolError>(PoolError::Overflow)
            } else if self.pool_params.reserve_factor > crate::fixed_point::BP {
                Err::<u128, PoolError>(PoolError::InvalidParameter)
            } else {
                Ok::<u128, PoolError>(
                    crate::rate::deposit_rate(
                        crate::rate::utilisation(
                            self.state.total_borrowed as nat,
                            supplied_capital(self.state),
                        ),
                        crate::accrual::state_borrow_rate(self.pool_params, self.state),
                        self.pool_params.reserve_factor as nat,
                    ) as u128,
                )
            }),
    {
        self.state.get_deposit_rate(&self.pool_params)
    }

    /// The share of the capital that is lent out. Fails as
    /// `GlobalState::get_capital_utilisation` does.
    pub fn view_capital_utilisation(&self) -> (res: Result<u128, PoolError>)
        ensures
            supplied_capital(self.state) > u128::MAX ==> res == Err::<u128, PoolError>(
                PoolError::Overflow,
            ),
            supplied_capital(self.state) <= u128::MAX ==> res == Ok::<u128, PoolError>(
                crate::rate::utilisation(
                    self.state.total_borrowed as nat,
                    supplied_capital(self.state),
                ) as u128,
            ),
    {
        self.state.get_capital_utilisation()
    }
}

} // verus!
