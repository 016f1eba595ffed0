//! The ways in which an operation of the pool is refused.
use vstd::prelude::*;

verus! {

/// Why an operation was refused. A refused operation changes nothing.
#[derive(Clone, Copy, Debug, PartialEq, Eq, Structural)]
pub enum PoolError {
    /// An argument lies outside the values the operation is defined on.
    InvalidParameter,
    /// No record is stored under the identifier.
    NotFound,
    /// The pool holds less than the operation would pay out.
    InsufficientFunds,
    /// A loan was asked for without collateral to back it.
    InsufficientCollateral,
    /// The state contradicts itself: an index ran backwards or more is lent than was supplied.
    InvariantViolation,
    /// The position's health factor is not below the threshold.
    NotLiquidatable,
    /// The position was settled before.
    AlreadySettled,
    /// The price feed has no quote for an asset.
    PriceUnavailable,
    /// A result does not fit in 128 bits.
    Overflow,
}

} // verus!
