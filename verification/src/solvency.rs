//! Health of a position and its liquidation.
//!
//! The health factor sets the value of the collateral against the value of the
//! debt. A position whose factor lies below the pool's threshold may be repaid by
//! anyone, who receives the repayment's share of the collateral in return.
use vstd::prelude::*;
use crate::error::PoolError;
use crate::fixed_point::bp;
use crate::wide::mul3_div2;
use crate::fixed_point::BP;
use crate::model::copy_bytes;
use crate::model::DebtPosition;
use crate::model::DebtPositionView;
use crate::model::LiquidateData;
use crate::model::LiquidateDataView;
use crate::position::after_payment;
use crate::position::collateral_share;
use crate::position::lemma_owed_at_open_index;
use crate::position::lemma_payment_reduces_principal;
use crate::position::remaining_principal;
use crate::position::lemma_share_bounded;
use crate::position::owed_amount;
use crate::position::settled;

verus! {

/// Value of the collateral per unit of value owed, scaled by `BP`.
pub open spec fn health_factor(
    collateral_amount: nat,
    collateral_price: nat,
    owed: nat,
    debt_price: nat,
) -> nat {
    if owed * debt_price == 0 {
        0
    } else {
        ((collateral_amount * collateral_price) * bp()) / (owed * debt_price)
    }
}

/// Why the health factor of these values cannot be given, if it cannot: the debt
/// is worth nothing, or the factor exceeds 128 bits.
pub open spec fn health_factor_error(
    collateral_amount: nat,
    collateral_price: nat,
    owed: nat,
    debt_price: nat,
) -> Option<PoolError> {
    if owed * debt_price == 0 {
        Some(PoolError::InvalidParameter)
    } else if health_factor(collateral_amount, collateral_price, owed, debt_price) > u128::MAX {
        Some(PoolError::Overflow)
    } else {
        None
    }
}

/// A health factor as a position records it: capped at the largest `u32`.
pub open spec fn capped(factor: nat) -> nat {
    if factor > u32::MAX {
        u32::MAX as nat
    } else {
        factor
    }
}

/// Capping a health factor does not change on which side of a threshold it lies.
pub proof fn lemma_cap_keeps_decision(factor: nat, threshold: u32)
    ensures
        capped(factor) < threshold <==> factor < threshold,
{
}

/// The health factor of a debt of `owed` backed by `collateral_amount`, at the two prices.
///
/// Fails with the error that `health_factor_error` names, exactly where it names one.
pub fn compute_health_factor(
    collateral_amount: u128,
    collateral_price: u128,
    owed: u128,
    debt_price: u128,
) -> (res: Result<u128, PoolError>)
    ensures
        res == (match health_factor_error(
            collateral_amount as nat,
            collateral_price as nat,
            owed as nat,
            debt_price as nat,
        ) {
            Some(e) => Err::<u128, PoolError>(e),
            None => Ok::<u128, PoolError>(
                health_factor(
                    collateral_amount as nat,
                    collateral_price as nat,
                    owed as nat,
                    debt_price as nat,
                ) as u128,
            ),
        }),
{
    proof {
        assert(owed * debt_price == 0 <==> owed == 0 || debt_price == 0) by (nonlinear_arith);
    }
    if owed == 0 || debt_price == 0 {
        return Err(PoolError::InvalidParameter);
    }
    match mul3_div2(collateral_amount, collateral_price, BP as u128, owed, debt_price) {
        Some(factor) => Ok(factor),
        None => Err(PoolError::Overflow),
    }
}

/// Why a liquidation of `p` is refused, if it is. The tests come in this order:
/// the position is settled; what it owes cannot be given; its health factor cannot
/// be given; the factor is not below the threshold; nothing is repaid, or more than is owed.
pub open spec fn liquidation_error(
    p: DebtPositionView,
    repayment: nat,
    current_index: nat,
    collateral_price: nat,
    debt_price: nat,
    threshold: nat,
) -> Option<PoolError> {
    let owed = owed_amount(p.size, current_index, p.borrow_index);
    if settled(p) {
        Some(PoolError::AlreadySettled)
    } else if p.borrow_index == 0 || current_index < p.borrow_index {
        Some(PoolError::InvariantViolation)
    } else if owed > u128::MAX {
        Some(PoolError::Overflow)
    } else if health_factor_error(p.collateral_amount, collateral_price, owed, debt_price) is Some {
        health_factor_error(p.collateral_amount, collateral_price, owed, debt_price)
    } else if health_factor(p.collateral_amount, collateral_price, owed, debt_price) >= threshold {
        Some(PoolError::NotLiquidatable)
    } else if repayment == 0 || repayment > owed {
        Some(PoolError::InvalidParameter)
    } else {
        None
    }
}

/// A position after liquidators repaid `repayment` of the `owed` it amounted to:
/// the principal and the collateral that are left, the health factor it had, and
/// the mark of liquidation where the whole debt was repaid.
pub open spec fn after_liquidation(
    p: DebtPositionView,
    repayment: nat,
    owed: nat,
    current_index: nat,
    factor: nat,
) -> DebtPositionView {
    DebtPositionView {
        health_factor: capped(factor),
        is_liquidated: repayment == owed,
        ..after_payment(p, repayment, owed, current_index)
    }
}

/// A position whose health factor is not below the threshold is never liquidated,
/// and one whose factor is below it is, for any repayment up to what it owes.
pub proof fn lemma_liquidation_follows_health(
    p: DebtPositionView,
    repayment: nat,
    current_index: nat,
    collateral_price: nat,
    debt_price: nat,
    threshold: nat,
)
    requires
        !settled(p),
        0 < p.borrow_index <= current_index,
        owed_amount(p.size, current_index, p.borrow_index) <= u128::MAX,
        health_factor_error(
            p.collateral_amount,
            collateral_price,
            owed_amount(p.size, current_index, p.borrow_index),
            debt_price,
        ) is None,
    ensures
        health_factor(
            p.collateral_amount,
            collateral_price,
            owed_amount(p.size, current_index, p.borrow_index),
            debt_price,
        ) >= threshold ==> liquidation_error(
            p,
            repayment,
            current_index,
            collateral_price,
            debt_price,
            threshold,
        ) == Some(PoolError::NotLiquidatable),
        health_factor(
            p.collateral_amount,
            collateral_price,
            owed_amount(p.size, current_index, p.borrow_index),
            debt_price,
        ) < threshold && 0 < repayment <= owed_amount(p.size, current_index, p.borrow_index)
            ==> liquidation_error(
            p,
            repayment,
            current_index,
            collateral_price,
            debt_price,
            threshold,
        ) is None,
{
}

/// A liquidation reduces the debt by at least what was repaid: at the index of
/// the liquidation the position owes the principal it is left with, which is at
/// most what it owed less the repayment, and less principal than before.
pub proof fn lemma_liquidation_reduces_debt(
    p: DebtPositionView,
    repayment: nat,
    owed: nat,
    current_index: nat,
    factor: nat,
)
    requires
        current_index > 0,
        p.size <= owed,
        0 < repayment <= owed,
    ensures
        owed_amount(
            after_liquidation(p, repayment, owed, current_index, factor).size,
            current_index,
            after_liquidation(p, repayment, owed, current_index, factor).borrow_index,
        ) == after_liquidation(p, repayment, owed, current_index, factor).size,
        after_liquidation(p, repayment, owed, current_index, factor).size <= owed - repayment,
        p.size > 0 ==> after_liquidation(p, repayment, owed, current_index, factor).size < p.size,
        after_liquidation(p, repayment, owed, current_index, factor).collateral_amount
            <= p.collateral_amount,
{
    lemma_owed_at_open_index(remaining_principal(p.size, repayment, owed), current_index);
    lemma_payment_reduces_principal(p.size, repayment, owed);
    lemma_share_bounded(p.collateral_amount, repayment, owed);
}

impl DebtPosition {
    /// The position's health factor at `current_borrow_index` and the two prices.
    ///
    /// Fails as `owed_amount` does, and else with the error that
    /// `health_factor_error` names for what the position owes.
    pub fn compute_health_factor(
        &self,
        current_borrow_index: u128,
        collateral_price: u128,
        debt_price: u128,
    ) -> (res: Result<u128, PoolError>)
        ensures
            res == (if self.borrow_index == 0 || current_borrow_index < self.borrow_index {
                Err::<u128, PoolError>(PoolError::InvariantViolation)
            } else if owed_amount(
                self@.size,
                current_borrow_index as nat,
                self@.borrow_index,
            ) > u128::MAX {
                Err::<u128, PoolError>(PoolError::Overflow)
            } else {
                match health_factor_error(
                    self@.collateral_amount,
                    collateral_price as nat,
                    owed_amount(self@.size, current_borrow_index as nat, self@.borrow_index),
                    debt_price as nat,
                ) {
                    Some(e) => Err::<u128, PoolError>(e),
                    None => Ok::<u128, PoolError>(
                        health_factor(
                            self@.collateral_amount,
                            collateral_price as nat,
                            owed_amount(self@.size, current_borrow_index as nat, self@.borrow_index),
                            debt_price as nat,
                        ) as u128,
                    ),
                }
            }),
    {
        let owed: u128 = self.owed_amount(current_borrow_index)?;
        compute_health_factor(self.collateral_amount, collateral_price, owed, debt_price)
    }

    /// Whether the position may be liquidated by its recorded health factor: the
    /// factor lies below `threshold` and the position is not liquidated already.
    pub fn is_liquidatable(&self, threshold: u32) -> (res: bool)
        ensures
            res == (self@.health_factor < threshold && !self@.is_liquidated),
    {
        self.health_factor < threshold && !self.is_liquidated
    }

    /// Records the position's health factor at `current_borrow_index` and the two
    /// prices, capped at the largest `u32`, and returns what it recorded.
    ///
    /// Fails as `compute_health_factor` does; a failed call changes nothing.
    pub fn update_health_factor(
        &mut self,
        current_borrow_index: u128,
        collateral_price: u128,
        debt_price: u128,
    ) -> (res: Result<u32, PoolError>)
        ensures
            res is Err ==> final(self)@ == old(self)@,
            res is Ok <==> 0 < old(self).borrow_index <= current_borrow_index && owed_amount(
                old(self)@.size,
                current_borrow_index as nat,
                old(self)@.borrow_index,
            ) <= u128::MAX && health_factor_error(
                old(self)@.collateral_amount,
                collateral_price as nat,
                owed_amount(old(self)@.size, current_borrow_index as nat, old(self)@.borrow_index),
                debt_price as nat,
            ) is None,
            res matches Ok(recorded) ==> recorded == capped(
                health_factor(
                    old(self)@.collateral_amount,
                    collateral_price as nat,
                    owed_amount(old(self)@.size, current_borrow_index as nat, old(self)@.borrow_index),
                    debt_price as nat,
                ),
            ) && final(self)@ == (DebtPositionView { health_factor: recorded as nat, ..old(self)@ }),
    {
        let factor: u128 = self.compute_health_factor(
            current_borrow_index,
            collateral_price,
            debt_price,
        )?;
        let recorded: u32 = cap_health_factor(factor);
        self.health_factor = recorded;
        Ok(recorded)
    }

    /// Liquidates the position, in part or in whole: takes `repayment` towards its
    /// debt and releases the repayment's share of the collateral to the liquidator.
    ///
    /// Refused with the error that `liquidation_error` names, exactly where it names
    /// one; a refused call changes nothing. A liquidation of the whole debt marks
    /// the position as liquidated.
    pub fn liquidate(
        &mut self,
        repayment: u128,
        current_borrow_index: u128,
        collateral_price: u128,
        debt_price: u128,
        threshold: u32,
    ) -> (res: Result<LiquidateData, PoolError>)
        ensures
            res matches Err(e) ==> liquidation_error(
                old(self)@,
                repayment as nat,
                current_borrow_index as nat,
                collateral_price as nat,
                debt_price as nat,
                threshold as nat,
            ) == Some(e) && final(self)@ == old(self)@,
            res is Ok ==> final(self).size <= old(self).size,
            res matches Ok(paid_out) ==> {
                let owed = owed_amount(
                    old(self)@.size,
                    current_borrow_index as nat,
                    old(self)@.borrow_index,
                );
                &&& liquidation_error(
                    old(self)@,
                    repayment as nat,
                    current_borrow_index as nat,
                    collateral_price as nat,
                    debt_price as nat,
                    threshold as nat,
                ) is None
                &&& paid_out@ == (LiquidateDataView {
                    collateral_token: old(self)@.collateral_identifier,
                    amount: collateral_share(old(self)@.collateral_amount, repayment as nat, owed),
                })
                &&& final(self)@ == after_liquidation(
                    old(self)@,
                    repayment as nat,
                    owed,
                    current_borrow_index as nat,
                    health_factor(
                        old(self)@.collateral_amount,
                        collateral_price as nat,
                        owed,
                        debt_price as nat,
                    ),
                )
            },
    {
        if self.is_settled() {
            return Err(PoolError::AlreadySettled);
        }
        let owed: u128 = self.owed_amount(current_borrow_index)?;
        let factor: u128 = compute_health_factor(
            self.collateral_amount,
            collateral_price,
            owed,
            debt_price,
        )?;
        if factor >= threshold as u128 {
            return Err(PoolError::NotLiquidatable);
        }
        if repayment == 0 || repayment > owed {
            return Err(PoolError::InvalidParameter);
        }
        let done = self.settle(repayment, current_borrow_index)?;
        self.health_factor = cap_health_factor(factor);
        self.is_liquidated = repayment == owed;
        Ok(
            LiquidateData {
                collateral_token: copy_bytes(&self.collateral_identifier),
                amount: done.released,
            },
        )
    }
}

/// A health factor as a position records it.
pub fn cap_health_factor(factor: u128) -> (recorded: u32)
    ensures
        recorded == capped(factor as nat),
{
    if factor > u32::MAX as u128 {
        u32::MAX
    } else {
        factor as u32
    }
}

} // verus!
