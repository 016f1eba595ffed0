//! What a position owes, and what a payment makes of it.
//!
//! A position states its debt as of one value of the borrow index. What it owes
//! at a later value is computed when it is asked for, never by rewriting the position.
//!
//! Only a payment restates a position. It reduces the principal in the proportion
//! in which it reduces the debt, and states what is left at the index of the
//! payment; a payment of nothing is refused, so that no call restates a position
//! without paying.
use vstd::prelude::*;
use vstd::arithmetic::div_mod::lemma_div_by_multiple;
use vstd::arithmetic::div_mod::lemma_div_is_ordered;
use vstd::arithmetic::div_mod::lemma_multiply_divide_lt;
use vstd::arithmetic::mul::lemma_mul_inequality;
use vstd::arithmetic::mul::lemma_mul_is_commutative;
use crate::error::PoolError;
use crate::fixed_point::mul_div;
use crate::model::copy_bytes;
use crate::model::DebtMetadata;
use crate::model::DebtMetadataView;
use crate::model::DebtPosition;
use crate::model::DebtPositionView;
use crate::fixed_point::fraction_of;
use crate::fixed_point::lemma_fraction_bounded;
use crate::fixed_point::lemma_quotient_at_least;

verus! {

/// What a debt of `principal`, stated at `open_index`, amounts to at `current_index`.
pub open spec fn owed_amount(principal: nat, current_index: nat, open_index: nat) -> nat {
    if open_index == 0 {
        0
    } else {
        (principal * current_index) / open_index
    }
}

/// The interest in what is owed: the part beyond the principal.
pub open spec fn accrued_interest(principal: nat, current_index: nat, open_index: nat) -> nat {
    (owed_amount(principal, current_index, open_index) - principal) as nat
}

/// The collateral that a payment towards a debt of `owed` releases: all of it
/// where the payment covers the debt, else the same share of it as the payment is of the debt.
pub open spec fn collateral_share(collateral: nat, payment: nat, owed: nat) -> nat {
    if payment >= owed {
        collateral
    } else {
        (collateral * payment) / owed
    }
}

/// The part of a payment that goes into a debt of `owed`.
pub open spec fn applied_payment(payment: nat, owed: nat) -> nat {
    if payment >= owed {
        owed
    } else {
        payment
    }
}

/// The principal that is left of `size` after `payment` towards the `owed` it
/// amounts to: nothing where the payment covers the debt, else the same share of
/// it as what is still owed is of the debt, rounded down.
pub open spec fn remaining_principal(size: nat, payment: nat, owed: nat) -> nat {
    if payment >= owed {
        0
    } else {
        (size * ((owed - payment) as nat)) / owed
    }
}

/// A position after `payment` was taken towards the `owed` it amounts to at
/// `current_index`: the principal that is left, stated at that index, and the
/// collateral that is left.
pub open spec fn after_payment(p: DebtPositionView, payment: nat, owed: nat, current_index: nat) -> DebtPositionView {
    DebtPositionView {
        size: remaining_principal(p.size, payment, owed),
        borrow_index: current_index,
        collateral_amount: (p.collateral_amount - collateral_share(
            p.collateral_amount,
            applied_payment(payment, owed),
            owed,
        )) as nat,
        ..p
    }
}

/// Whether a position is done with: it owes nothing and holds no collateral, or
/// liquidators have repaid it in whole.
pub open spec fn settled(p: DebtPositionView) -> bool {
    (p.size == 0 && p.collateral_amount == 0) || p.is_liquidated
}

/// Why a position takes no payment, if it does not. The tests come in this
/// order: the position is settled; nothing is paid; what it owes cannot be given.
pub open spec fn settle_error(p: DebtPositionView, payment: nat, current_index: nat) -> Option<PoolError> {
    if settled(p) {
        Some(PoolError::AlreadySettled)
    } else if payment == 0 {
        Some(PoolError::InvalidParameter)
    } else if p.borrow_index == 0 || current_index < p.borrow_index {
        Some(PoolError::InvariantViolation)
    } else if owed_amount(p.size, current_index, p.borrow_index) > u128::MAX {
        Some(PoolError::Overflow)
    } else {
        None
    }
}

/// Interest is never negative: while the index has not fallen since the position
/// was stated, what is owed is at least the principal.
pub proof fn lemma_owed_covers_principal(principal: nat, current_index: nat, open_index: nat)
    requires
        0 < open_index <= current_index,
    ensures
        owed_amount(principal, current_index, open_index) >= principal,
{
    lemma_mul_is_commutative(principal as int, open_index as int);
    lemma_mul_is_commutative(principal as int, current_index as int);
    lemma_mul_inequality(open_index as int, current_index as int, principal as int);
    lemma_div_is_ordered(
        (principal * open_index) as int,
        (principal * current_index) as int,
        open_index as int,
    );
    lemma_div_by_multiple(principal as int, open_index as int);
}

/// At the index at which a debt is stated it amounts to its principal.
pub proof fn lemma_owed_at_open_index(principal: nat, index: nat)
    requires
        index > 0,
    ensures
        owed_amount(principal, index, index) == principal,
{
    lemma_div_by_multiple(principal as int, index as int);
}

/// What is owed does not fall as the index rises.
pub proof fn lemma_owed_monotone(principal: nat, lower: nat, higher: nat, open_index: nat)
    requires
        open_index > 0,
        lower <= higher,
    ensures
        owed_amount(principal, lower, open_index) <= owed_amount(principal, higher, open_index),
{
    crate::fixed_point::lemma_fraction_monotone(principal, lower, higher, open_index);
}

/// A payment releases no more collateral than there is.
pub proof fn lemma_share_bounded(collateral: nat, payment: nat, owed: nat)
    ensures
        collateral_share(collateral, payment, owed) <= collateral,
{
    if payment < owed {
        lemma_fraction_bounded(collateral, payment, owed);
    }
}

/// A payment reduces the principal, and by no more than was paid: of a debt that
/// has a principal, any payment leaves less principal than there was; the
/// principal that it clears is at most the part of the payment that went into the
/// debt; and what is left is at most what was owed less that part.
pub proof fn lemma_payment_reduces_principal(size: nat, payment: nat, owed: nat)
    requires
        size <= owed,
        0 < payment,
    ensures
        size > 0 ==> remaining_principal(size, payment, owed) < size,
        remaining_principal(size, payment, owed) <= size,
        size - remaining_principal(size, payment, owed) <= applied_payment(payment, owed),
        remaining_principal(size, payment, owed) <= owed - applied_payment(payment, owed),
{
    if payment < owed {
        let rest: nat = (owed - payment) as nat;
        // what is left is below the principal
        lemma_fraction_bounded(size, rest, owed);
        if size > 0 {
            assert(size * rest < size * owed) by (nonlinear_arith)
                requires
                    size > 0,
                    rest < owed,
            ;
            lemma_mul_is_commutative(size as int, owed as int);
            lemma_multiply_divide_lt((size * rest) as int, owed as int, size as int);
        }
        // what is cleared is at most the payment
        if size > payment {
            assert(size * rest >= (size - payment) * owed) by (nonlinear_arith)
                requires
                    rest == owed - payment,
                    size <= owed,
                    payment >= 0,
            ;
            lemma_quotient_at_least((size * rest) as int, size - payment, owed as int);
        }
        // what is left is at most what is still owed
        lemma_mul_is_commutative(size as int, rest as int);
        lemma_fraction_bounded(rest, size, owed);
    }
}

/// What a payment did to a position.
#[derive(Clone, Copy, Debug, PartialEq, Eq, Structural)]
pub struct Settlement {
    /// What the position owed before the payment.
    pub owed: u128,
    /// The part of the payment that went into the debt.
    pub applied: u128,
    /// The principal that the payment cleared; the rest of what went into the debt is interest.
    pub principal: u128,
    /// The collateral that the payment released.
    pub released: u128,
}

impl DebtPosition {
    /// A new position: a debt of `principal` stated at `borrow_index`, opened in `current_round`.
    pub fn open(
        principal: u128,
        collateral_amount: u128,
        collateral_identifier: Vec<u8>,
        borrow_index: u128,
        current_round: u64,
    ) -> (p: DebtPosition)
        ensures
            p@ == (DebtPositionView {
                size: principal as nat,
                health_factor: 0,
                is_liquidated: false,
                timestamp: current_round as nat,
                borrow_index: borrow_index as nat,
                collateral_amount: collateral_amount as nat,
                collateral_identifier: collateral_identifier@,
            }),
    {
        DebtPosition {
            size: principal,
            health_factor: 0,
            is_liquidated: false,
            timestamp: current_round,
            borrow_index,
            collateral_amount,
            collateral_identifier,
        }
    }

    /// Whether the position is done with: it owes nothing and holds no collateral,
    /// or liquidators have repaid it in whole.
    pub fn is_settled(&self) -> (res: bool)
        ensures
            res == settled(self@),
    {
        (self.size == 0 && self.collateral_amount == 0) || self.is_liquidated
    }

    /// What the position owes at `current_borrow_index`.
    ///
    /// Fails with `InvariantViolation` where the position's own index is zero or the
    /// current index lies below it, and with `Overflow` where the amount does not
    /// fit in 128 bits. An amount that is returned is at least the principal.
    pub fn owed_amount(&self, current_borrow_index: u128) -> (res: Result<u128, PoolError>)
        ensures
            (self.borrow_index == 0 || current_borrow_index < self.borrow_index) ==> res == Err::<
                u128,
                PoolError,
            >(PoolError::InvariantViolation),
            (0 < self.borrow_index <= current_borrow_index) ==> res == (if owed_amount(
                self.size as nat,
                current_borrow_index as nat,
                self.borrow_index as nat,
            ) <= u128::MAX {
                Ok::<u128, PoolError>(
                    owed_amount(
                        self.size as nat,
                        current_borrow_index as nat,
                        self.borrow_index as nat,
                    ) as u128,
                )
            } else {
                Err::<u128, PoolError>(PoolError::Overflow)
            }),
            res matches Ok(owed) ==> owed >= self.size,
    {
        if self.borrow_index == 0 || current_borrow_index < self.borrow_index {
            return Err(PoolError::InvariantViolation);
        }
        proof {
            lemma_owed_covers_principal(
                self.size as nat,
                current_borrow_index as nat,
                self.borrow_index as nat,
            );
        }
        match mul_div(self.size, current_borrow_index, self.borrow_index) {
            Some(owed) => Ok(owed),
            None => Err(PoolError::Overflow),
        }
    }

    /// The interest the position owes at `current_borrow_index`: what it owes beyond its principal.
    ///
    /// Fails as `owed_amount` does.
    pub fn get_debt_interest(&self, current_borrow_index: u128) -> (res: Result<u128, PoolError>)
        ensures
            (self.borrow_index == 0 || current_borrow_index < self.borrow_index) ==> res == Err::<
                u128,
                PoolError,
            >(PoolError::InvariantViolation),
            (0 < self.borrow_index <= current_borrow_index) ==> res == (if owed_amount(
                self.size as nat,
                current_borrow_index as nat,
                self.borrow_index as nat,
            ) <= u128::MAX {
                Ok::<u128, PoolError>(
                    accrued_interest(
                        self.size as nat,
                        current_borrow_index as nat,
                        self.borrow_index as nat,
                    ) as u128,
                )
            } else {
                Err::<u128, PoolError>(PoolError::Overflow)
            }),
    {
        let owed: u128 = self.owed_amount(current_borrow_index)?;
        Ok(owed - self.size)
    }

    /// What a debt token records about this position.
    pub fn metadata(&self) -> (m: DebtMetadata)
        ensures
            m@ == (DebtMetadataView {
                timestamp: self@.timestamp,
                collateral_amount: self@.collateral_amount,
                collateral_identifier: self@.collateral_identifier,
                collateral_timestamp: self@.timestamp,
            }),
    {
        DebtMetadata {
            timestamp: self.timestamp,
            collateral_amount: self.collateral_amount,
            collateral_identifier: copy_bytes(&self.collateral_identifier),
            collateral_timestamp: self.timestamp,
        }
    }

    /// Closes the position: the debt becomes zero and all collateral is released.
    /// Returns the collateral released.
    pub fn close(&mut self) -> (released: u128)
        ensures
            released == old(self).collateral_amount,
            final(self)@ == (DebtPositionView { size: 0, collateral_amount: 0, ..old(self)@ }),
            settled(final(self)@),
    {
        let released: u128 = self.collateral_amount;
        self.size = 0;
        self.collateral_amount = 0;
        released
    }

    /// Takes `payment` towards the debt as it stands at `current_borrow_index`.
    ///
    /// A payment of at least what is owed clears the principal and releases all
    /// collateral; what it holds beyond the debt is not taken. A smaller payment
    /// reduces the principal in the proportion in which it reduces the debt,
    /// restates it at the current index, so that interest runs on what is left
    /// only, and releases the payment's share of the collateral.
    ///
    /// Fails with the error that `settle_error` names, exactly where it names one.
    /// A failed call changes nothing.
    pub fn settle(&mut self, payment: u128, current_borrow_index: u128) -> (res: Result<
        Settlement,
        PoolError,
    >)
        ensures
            res matches Err(e) ==> settle_error(
                old(self)@,
                payment as nat,
                current_borrow_index as nat,
            ) == Some(e) && final(self)@ == old(self)@,
            res matches Ok(done) ==> {
                &&& settle_error(old(self)@, payment as nat, current_borrow_index as nat) is None
                &&& done.owed == owed_amount(
                    old(self)@.size,
                    current_borrow_index as nat,
                    old(self)@.borrow_index,
                )
                &&& done.applied == applied_payment(payment as nat, done.owed as nat)
                &&& done.principal == old(self).size - final(self).size
                &&& done.released == collateral_share(
                    old(self)@.collateral_amount,
                    done.applied as nat,
                    done.owed as nat,
                )
                &&& final(self)@ == after_payment(
                    old(self)@,
                    payment as nat,
                    done.owed as nat,
                    current_borrow_index as nat,
                )
                &&& done.owed >= old(self).size
                &&& done.principal <= done.applied
                &&& old(self).size > 0 ==> final(self).size < old(self).size
                &&& final(self).size <= done.owed - done.applied
                &&& done.released <= old(self).collateral_amount
                &&& payment >= done.owed ==> settled(final(self)@) && done.released == old(self).collateral_amount
            },
    {
        if self.is_settled() {
            return Err(PoolError::AlreadySettled);
        }
        if payment == 0 {
            return Err(PoolError::InvalidParameter);
        }
        let owed: u128 = self.owed_amount(current_borrow_index)?;
        let applied: u128 = if payment >= owed {
            owed
        } else {
            payment
        };
        proof {
            lemma_share_bounded(self.collateral_amount as nat, applied as nat, owed as nat);
            lemma_payment_reduces_principal(self.size as nat, payment as nat, owed as nat);
        }
        let released: u128 = if applied >= owed {
            self.collateral_amount
        } else {
            fraction_of(self.collateral_amount, applied, owed)
        };
        let left: u128 = if applied >= owed {
            0
        } else {
            fraction_of(self.size, owed - applied, owed)
        };
        let principal: u128 = self.size - left;
        self.size = left;
        self.borrow_index = current_borrow_index;
        self.collateral_amount = self.collateral_amount - released;
        Ok(Settlement { owed, applied, principal, released })
    }
}

} // verus!
