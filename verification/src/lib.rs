//! Accounting core of a collateralised lending pool.
//!
//! The pool takes deposits of one asset and lends them out against collateral.
//! It keeps two indices that grow with the interest accrued, so that what a
//! position owes is computed from the index at which it was stated and the index
//! now, and no position is rewritten while time passes.
//!
//! Every amount, rate and index is an unsigned integer of 128 bits; fractions are
//! scaled by [`fixed_point::BP`] and every division rounds down. An operation whose
//! result would not fit fails with [`error::PoolError::Overflow`]; no operation panics.
//!
//! - [`fixed_point`] and [`wide`]: the exact products and quotients on which all formulas rest.
//! - [`rate`]: utilisation, borrow rate and deposit rate.
//! - [`accrual`]: the global state and the accrual of interest.
//! - [`position`] and [`solvency`]: one position, what it owes, its health and its liquidation.
//! - [`ledger`] and [`pool`]: the positions of a pool and the pool's operations.
//! - [`conservation`]: what holds over any sequence of operations.
//! - [`tokens`] and [`router`]: token names and the register of pools.
pub mod accrual;
pub mod conservation;
pub mod error;
pub mod fixed_point;
pub mod ledger;
pub mod model;
pub mod pool;
pub mod position;
pub mod rate;
pub mod router;
pub mod solvency;
pub mod tokens;
pub mod wide;

pub use accrual::GlobalState;
pub use error::PoolError;
pub use fixed_point::BP;
pub use ledger::PositionLedger;
pub use model::DebtMetadata;
pub use model::DebtPosition;
pub use model::DepositMetadata;
pub use model::InterestMetadata;
pub use model::IssueData;
pub use model::LiquidateData;
pub use model::PoolParams;
pub use model::RepayPostion;
pub use pool::LiquidityPool;
pub use router::Router;
