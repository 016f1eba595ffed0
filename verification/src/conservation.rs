//! What holds of a pool over any sequence of operations.
//!
//! The pool's capital is what is in reserve together with what is lent out, at
//! the value the books carry it. Operations change it by what enters and leaves
//! the pool and by nothing else: a deposit adds its amount, a withdrawal removes
//! its amount, a loan moves capital from the reserves into the loans, and a
//! payment towards a debt adds the interest that is in the payment: what was
//! paid, less the principal that the payment cleared.
use vstd::prelude::*;
use crate::accrual::accrue_step;
use crate::accrual::lemma_accrue_grows;
use crate::accrual::supplied_capital;
use crate::ledger::distinct_ids;
use crate::ledger::holds;
use crate::ledger::index_of;
use crate::ledger::lemma_held_has_first;
use crate::ledger::LedgerEntryView;
use crate::pool::borrow_result;
use crate::pool::deposit_result;
use crate::pool::cleared_principal;
use crate::pool::lemma_liquidate_moves_capital;
use crate::pool::lemma_repay_moves_capital;
use crate::pool::liquidate_result;
use crate::pool::repay_result;
use crate::pool::withdraw_result;
use crate::pool::PoolView;
use crate::position::applied_payment;
use crate::position::lemma_owed_covers_principal;
use crate::position::lemma_payment_reduces_principal;
use crate::position::owed_amount;

verus! {

/// One call of an operation of the pool, with its arguments.
pub enum PoolOp {
    Deposit { asset: Seq<u8>, amount: u128, round: u64 },
    Withdraw { amount: u128, round: u64 },
    Borrow {
        id: Seq<u8>,
        principal: u128,
        collateral_amount: u128,
        collateral_identifier: Seq<u8>,
        round: u64,
    },
    Repay { id: Seq<u8>, asset: Seq<u8>, amount: u128, round: u64 },
    Liquidate {
        id: Seq<u8>,
        asset: Seq<u8>,
        amount: u128,
        collateral_price: Option<u128>,
        debt_price: Option<u128>,
        round: u64,
    },
}

/// The pool after a call, where the call succeeds.
pub open spec fn outcome(pool: PoolView, op: PoolOp) -> Option<PoolView> {
    match op {
        PoolOp::Deposit { asset, amount, round } => match deposit_result(pool, asset, amount, round) {
            Ok(done) => Some(done.0),
            Err(_) => None,
        },
        PoolOp::Withdraw { amount, round } => match withdraw_result(pool, amount, round) {
            Ok(done) => Some(done),
            Err(_) => None,
        },
        PoolOp::Borrow { id, principal, collateral_amount, collateral_identifier, round } => match borrow_result(
            pool,
            id,
            principal,
            collateral_amount,
            collateral_identifier,
            round,
        ) {
            Ok(done) => Some(done.0),
            Err(_) => None,
        },
        PoolOp::Repay { id, asset, amount, round } => match repay_result(pool, id, asset, amount, round) {
            Ok(done) => Some(done.0),
            Err(_) => None,
        },
        PoolOp::Liquidate { id, asset, amount, collateral_price, debt_price, round } => match liquidate_result(
            pool,
            id,
            asset,
            amount,
            collateral_price,
            debt_price,
            round,
        ) {
            Ok(done) => Some(done.0),
            Err(_) => None,
        },
    }
}

/// The pool after a call: a call that is refused leaves it as it was.
pub open spec fn step(pool: PoolView, op: PoolOp) -> PoolView {
    match outcome(pool, op) {
        Some(next) => next,
        None => pool,
    }
}

/// The pool after a sequence of calls, made in order.
pub open spec fn run(pool: PoolView, ops: Seq<PoolOp>) -> PoolView
    decreases ops.len(),
{
    if ops.len() == 0 {
        pool
    } else {
        step(run(pool, ops.drop_last()), ops.last())
    }
}

/// What the position under `id` owes once the pool has accrued up to `round`.
pub open spec fn owed_at(pool: PoolView, id: Seq<u8>, round: u64) -> nat {
    let p = pool.debt_positions[index_of(pool.debt_positions, id)].position;
    owed_amount(
        p.size,
        accrue_step(pool.pool_params, pool.state, round).borrow_index as nat,
        p.borrow_index,
    )
}

/// The interest in a payment of `amount` towards the position under `id`: the
/// part of the payment that goes into the debt, less the principal that it clears.
pub open spec fn interest_paid(pool: PoolView, id: Seq<u8>, amount: u128, round: u64) -> int {
    let p = pool.debt_positions[index_of(pool.debt_positions, id)].position;
    applied_payment(amount as nat, owed_at(pool, id, round)) - cleared_principal(
        p.size,
        amount as nat,
        owed_at(pool, id, round),
    )
}

/// What a call adds to the pool's capital: nothing where it is refused; else the
/// amount of a deposit, the negated amount of a withdrawal, nothing for a loan,
/// and for a payment towards a debt the interest in the payment.
pub open spec fn capital_inflow(pool: PoolView, op: PoolOp) -> int {
    if outcome(pool, op) is None {
        0
    } else {
        match op {
            PoolOp::Deposit { amount, .. } => amount as int,
            PoolOp::Withdraw { amount, .. } => -(amount as int),
            PoolOp::Borrow { .. } => 0,
            PoolOp::Repay { id, amount, round, .. } => interest_paid(pool, id, amount, round),
            PoolOp::Liquidate { id, amount, round, .. } => interest_paid(pool, id, amount, round),
        }
    }
}

/// What a call adds to the reserves: nothing where it is refused; else what the
/// caller hands to the pool less what the pool hands out.
pub open spec fn cash_inflow(pool: PoolView, op: PoolOp) -> int {
    if outcome(pool, op) is None {
        0
    } else {
        match op {
            PoolOp::Deposit { amount, .. } => amount as int,
            PoolOp::Withdraw { amount, .. } => -(amount as int),
            PoolOp::Borrow { principal, .. } => -(principal as int),
            PoolOp::Repay { id, amount, round, .. } => applied_payment(
                amount as nat,
                owed_at(pool, id, round),
            ) as int,
            PoolOp::Liquidate { amount, .. } => amount as int,
        }
    }
}

/// What a sequence of calls adds to the pool's capital.
pub open spec fn capital_inflows(pool: PoolView, ops: Seq<PoolOp>) -> int
    decreases ops.len(),
{
    if ops.len() == 0 {
        0
    } else {
        capital_inflows(pool, ops.drop_last()) + capital_inflow(run(pool, ops.drop_last()), ops.last())
    }
}

/// What a sequence of calls adds to the reserves.
pub open spec fn cash_inflows(pool: PoolView, ops: Seq<PoolOp>) -> int
    decreases ops.len(),
{
    if ops.len() == 0 {
        0
    } else {
        cash_inflows(pool, ops.drop_last()) + cash_inflow(run(pool, ops.drop_last()), ops.last())
    }
}

/// One call changes the capital by its inflow and the reserves by its cash, and
/// neither lowers the borrow index nor touches the pool's settings. A payment
/// towards a debt never raises the loans, and the capital grows by no more than
/// the payment.
pub proof fn lemma_step_conserves(pool: PoolView, op: PoolOp)
    ensures
        supplied_capital(step(pool, op).state) == supplied_capital(pool.state) + capital_inflow(
            pool,
            op,
        ),
        step(pool, op).state.total_reserves == pool.state.total_reserves + cash_inflow(pool, op),
        (op is Repay || op is Liquidate) ==> 0 <= capital_inflow(pool, op) <= cash_inflow(pool, op),
        (op is Repay || op is Liquidate) ==> step(pool, op).state.total_borrowed
            <= pool.state.total_borrowed,
        step(pool, op).state.borrow_index >= pool.state.borrow_index,
        step(pool, op).pool_params == pool.pool_params,
        step(pool, op).pool_asset == pool.pool_asset,
        step(pool, op).health_factor_threshold == pool.health_factor_threshold,
{
    if outcome(pool, op) is Some {
        match op {
            PoolOp::Deposit { asset, amount, round } => {
                lemma_accrue_grows(pool.pool_params, pool.state, round);
            },
            PoolOp::Withdraw { amount, round } => {
                lemma_accrue_grows(pool.pool_params, pool.state, round);
            },
            PoolOp::Borrow { id, principal, collateral_amount, collateral_identifier, round } => {
                lemma_accrue_grows(pool.pool_params, pool.state, round);
            },
            PoolOp::Repay { id, asset, amount, round } => {
                lemma_repay_moves_capital(pool, id, asset, amount, round);
                lemma_accrue_grows(pool.pool_params, pool.state, round);
                let p = pool.debt_positions[index_of(pool.debt_positions, id)].position;
                lemma_owed_covers_principal(
                    p.size,
                    accrue_step(pool.pool_params, pool.state, round).borrow_index as nat,
                    p.borrow_index,
                );
                lemma_payment_reduces_principal(p.size, amount as nat, owed_at(pool, id, round));
            },
            PoolOp::Liquidate { id, asset, amount, collateral_price, debt_price, round } => {
                lemma_liquidate_moves_capital(
                    pool,
                    id,
                    asset,
                    amount,
                    collateral_price,
                    debt_price,
                    round,
                );
                lemma_accrue_grows(pool.pool_params, pool.state, round);
                let p = pool.debt_positions[index_of(pool.debt_positions, id)].position;
                lemma_owed_covers_principal(
                    p.size,
                    accrue_step(pool.pool_params, pool.state, round).borrow_index as nat,
                    p.borrow_index,
                );
                lemma_payment_reduces_principal(p.size, amount as nat, owed_at(pool, id, round));
            },
        }
    }
}

/// Capital is conserved: after any sequence of calls the pool's capital is what
/// it was before, plus what the calls added to it; and its reserves are what they
/// were, plus the cash the calls brought. Nothing is gained or lost besides.
pub proof fn lemma_capital_conserved(pool: PoolView, ops: Seq<PoolOp>)
    ensures
        supplied_capital(run(pool, ops).state) == supplied_capital(pool.state) + capital_inflows(
            pool,
            ops,
        ),
        run(pool, ops).state.total_reserves == pool.state.total_reserves + cash_inflows(pool, ops),
        run(pool, ops).state.borrow_index >= pool.state.borrow_index,
        run(pool, ops).pool_params == pool.pool_params,
    decreases ops.len(),
{
    if ops.len() > 0 {
        lemma_capital_conserved(pool, ops.drop_last());
        lemma_step_conserves(run(pool, ops.drop_last()), ops.last());
    }
}

/// No call puts two positions under one identifier.
pub proof fn lemma_step_keeps_ids_distinct(pool: PoolView, op: PoolOp)
    requires
        distinct_ids(pool.debt_positions),
    ensures
        distinct_ids(step(pool, op).debt_positions),
{
    let before = pool.debt_positions;
    let after = step(pool, op).debt_positions;
    if outcome(pool, op) is Some {
        match op {
            PoolOp::Borrow { id, principal, collateral_amount, collateral_identifier, round } => {
                assert forall|i: int, j: int| 0 <= i < j < after.len() implies after[i].id
                    != after[j].id by {
                    if j < before.len() {
                        assert(before[i].id != before[j].id);
                    } else {
                        assert(before[i].id != id);
                    }
                }
            },
            PoolOp::Repay { id, asset, amount, round } => {
                lemma_held_has_first(before, id);
                assert forall|i: int, j: int| 0 <= i < j < after.len() implies after[i].id
                    != after[j].id by {
                    assert(before[i].id != before[j].id);
                }
            },
            PoolOp::Liquidate { id, asset, amount, collateral_price, debt_price, round } => {
                lemma_held_has_first(before, id);
                assert forall|i: int, j: int| 0 <= i < j < after.len() implies after[i].id
                    != after[j].id by {
                    assert(before[i].id != before[j].id);
                }
            },
            _ => {},
        }
    }
}

/// The debt that the positions of a ledger stand at, taken together.
pub open spec fn booked_debt(entries: Seq<LedgerEntryView>) -> nat
    decreases entries.len(),
{
    if entries.len() == 0 {
        0
    } else {
        booked_debt(entries.drop_last()) + entries.last().position.size
    }
}

/// A new entry adds its debt to the booked debt.
pub proof fn lemma_booked_debt_push(entries: Seq<LedgerEntryView>, entry: LedgerEntryView)
    ensures
        booked_debt(entries.push(entry)) == booked_debt(entries) + entry.position.size,
{
    assert(entries.push(entry).drop_last() =~= entries);
}

/// Replacing an entry replaces its debt in the booked debt.
pub proof fn lemma_booked_debt_update(entries: Seq<LedgerEntryView>, at: int, entry: LedgerEntryView)
    requires
        0 <= at < entries.len(),
    ensures
        booked_debt(entries.update(at, entry)) == booked_debt(entries) - entries[at].position.size
            + entry.position.size,
    decreases entries.len(),
{
    if at == entries.len() - 1 {
        assert(entries.update(at, entry).drop_last() =~= entries.drop_last());
    } else {
        lemma_booked_debt_update(entries.drop_last(), at, entry);
        assert(entries.update(at, entry).drop_last() =~= entries.drop_last().update(at, entry));
    }
}

/// The books agree with the ledger: where what is lent out is the debt that the
/// positions stand at, it is so after any call.
pub proof fn lemma_step_keeps_books(pool: PoolView, op: PoolOp)
    requires
        pool.state.total_borrowed == booked_debt(pool.debt_positions),
    ensures
        step(pool, op).state.total_borrowed == booked_debt(step(pool, op).debt_positions),
{
    if outcome(pool, op) is Some {
        match op {
            PoolOp::Deposit { asset, amount, round } => {
                lemma_accrue_grows(pool.pool_params, pool.state, round);
            },
            PoolOp::Withdraw { amount, round } => {
                lemma_accrue_grows(pool.pool_params, pool.state, round);
            },
            PoolOp::Borrow { id, principal, collateral_amount, collateral_identifier, round } => {
                lemma_accrue_grows(pool.pool_params, pool.state, round);
                lemma_booked_debt_push(
                    pool.debt_positions,
                    step(pool, op).debt_positions.last(),
                );
                assert(step(pool, op).debt_positions =~= pool.debt_positions.push(
                    step(pool, op).debt_positions.last(),
                ));
            },
            PoolOp::Repay { id, asset, amount, round } => {
                lemma_repay_moves_capital(pool, id, asset, amount, round);
                lemma_accrue_grows(pool.pool_params, pool.state, round);
                lemma_held_has_first(pool.debt_positions, id);
                let at = index_of(pool.debt_positions, id);
                lemma_owed_covers_principal(
                    pool.debt_positions[at].position.size,
                    accrue_step(pool.pool_params, pool.state, round).borrow_index as nat,
                    pool.debt_positions[at].position.borrow_index,
                );
                lemma_payment_reduces_principal(
                    pool.debt_positions[at].position.size,
                    amount as nat,
                    owed_at(pool, id, round),
                );
                lemma_booked_debt_update(pool.debt_positions, at, step(pool, op).debt_positions[at]);
                assert(step(pool, op).debt_positions =~= pool.debt_positions.update(
                    at,
                    step(pool, op).debt_positions[at],
                ));
            },
            PoolOp::Liquidate { id, asset, amount, collateral_price, debt_price, round } => {
                lemma_liquidate_moves_capital(
                    pool,
                    id,
                    asset,
                    amount,
                    collateral_price,
                    debt_price,
                    round,
                );
                lemma_accrue_grows(pool.pool_params, pool.state, round);
                lemma_held_has_first(pool.debt_positions, id);
                let at = index_of(pool.debt_positions, id);
                lemma_owed_covers_principal(
                    pool.debt_positions[at].position.size,
                    accrue_step(pool.pool_params, pool.state, round).borrow_index as nat,
                    pool.debt_positions[at].position.borrow_index,
                );
                lemma_payment_reduces_principal(
                    pool.debt_positions[at].position.size,
                    amount as nat,
                    owed_at(pool, id, round),
                );
                lemma_booked_debt_update(pool.debt_positions, at, step(pool, op).debt_positions[at]);
                assert(step(pool, op).debt_positions =~= pool.debt_positions.update(
                    at,
                    step(pool, op).debt_positions[at],
                ));
            },
        }
    }
}

/// Over any sequence of calls both hold together: no identifier is used twice, and
/// what is lent out is the debt that the positions stand at.
pub proof fn lemma_run_keeps_books(pool: PoolView, ops: Seq<PoolOp>)
    requires
        distinct_ids(pool.debt_positions),
        pool.state.total_borrowed == booked_debt(pool.debt_positions),
    ensures
        distinct_ids(run(pool, ops).debt_positions),
        run(pool, ops).state.total_borrowed == booked_debt(run(pool, ops).debt_positions),
    decreases ops.len(),
{
    if ops.len() > 0 {
        lemma_run_keeps_books(pool, ops.drop_last());
        lemma_step_keeps_ids_distinct(run(pool, ops.drop_last()), ops.last());
        lemma_step_keeps_books(run(pool, ops.drop_last()), ops.last());
    }
}

} // verus!
