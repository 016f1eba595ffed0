use liquidity_pool::error::PoolError;
use liquidity_pool::model::DebtPosition;
use liquidity_pool::model::RepayPostion;
use liquidity_pool::position::Settlement;
use liquidity_pool::solvency::compute_health_factor;

const UNIT: u128 = 1_000_000_000;

fn position() -> DebtPosition {
    DebtPosition::open(1_000, 500, b"COLL-123456".to_vec(), UNIT, 42)
}

#[test]
fn default_position_is_empty() {
    let p = DebtPosition::default();
    assert_eq!(p.size, 0);
    assert_eq!(p.health_factor, 0);
    assert!(!p.is_liquidated);
    assert_eq!(p.timestamp, 0);
    assert_eq!(p.collateral_amount, 0);
    assert!(p.collateral_identifier.is_empty());
    assert_eq!(p.borrow_index, UNIT);
    assert!(p.is_settled());
}

#[test]
fn default_repayment_is_empty() {
    let r = RepayPostion::default();
    assert!(r.identifier.is_empty());
    assert_eq!(r.amount, 0);
    assert_eq!(r.nonce, 0);
    assert_eq!(r.borrow_timestamp, 0);
    assert!(r.collateral_identifier.is_empty());
    assert_eq!(r.collateral_amount, 0);
    assert_eq!(r.collateral_timestamp, 0);
    let copy = r.clone();
    assert_eq!(copy.amount, 0);
}

#[test]
fn opened_position_records_index_and_round() {
    let p = position();
    assert_eq!(p.size, 1_000);
    assert_eq!(p.borrow_index, UNIT);
    assert_eq!(p.timestamp, 42);
    assert_eq!(p.collateral_amount, 500);
    assert_eq!(p.collateral_identifier, b"COLL-123456".to_vec());
    assert!(!p.is_liquidated);
    assert!(!p.is_settled());
    let copy = p.clone();
    assert_eq!(copy.collateral_identifier, p.collateral_identifier);
    assert_eq!(copy.size, p.size);
    let meta = p.metadata();
    assert_eq!(meta.timestamp, 42);
    assert_eq!(meta.collateral_timestamp, 42);
    assert_eq!(meta.collateral_amount, 500);
    assert_eq!(meta.collateral_identifier, b"COLL-123456".to_vec());
    assert_eq!(meta.clone().collateral_amount, 500);
}

#[test]
fn owed_amount_after_five_percent() {
    assert_eq!(position().owed_amount(1_050_000_000), Ok(1_050));
    assert_eq!(position().get_debt_interest(1_050_000_000), Ok(50));
}

#[test]
fn owed_amount_at_the_open_index_is_the_principal() {
    assert_eq!(position().owed_amount(UNIT), Ok(1_000));
    assert_eq!(position().get_debt_interest(UNIT), Ok(0));
}

#[test]
fn owed_amount_rounds_down() {
    let p = DebtPosition::open(3, 1, vec![], 7, 0);
    assert_eq!(p.owed_amount(8), Ok(3));
    assert_eq!(p.owed_amount(9), Ok(3));
    assert_eq!(p.owed_amount(10), Ok(4));
}

#[test]
fn owed_amount_is_never_below_the_principal() {
    for size in [0u128, 1, 999, 1_000_000_007] {
        for open in [1u128, 3, UNIT, UNIT + 1] {
            for rise in [0u128, 1, 2, UNIT] {
                let p = DebtPosition::open(size, 1, vec![], open, 0);
                assert!(p.owed_amount(open + rise).unwrap() >= size);
            }
        }
    }
}

#[test]
fn owed_amount_refuses_a_fallen_index() {
    assert_eq!(position().owed_amount(UNIT - 1), Err(PoolError::InvariantViolation));
    assert_eq!(position().get_debt_interest(UNIT - 1), Err(PoolError::InvariantViolation));
    let p = DebtPosition::open(5, 1, vec![], 0, 0);
    assert_eq!(p.owed_amount(0), Err(PoolError::InvariantViolation));
    assert_eq!(p.owed_amount(9), Err(PoolError::InvariantViolation));
}

#[test]
fn owed_amount_reports_overflow() {
    let p = DebtPosition::open(u128::MAX, 1, vec![], 1, 0);
    assert_eq!(p.owed_amount(2), Err(PoolError::Overflow));
    assert_eq!(p.owed_amount(1), Ok(u128::MAX));
}

#[test]
fn full_payment_closes_and_releases_all() {
    let mut p = position();
    let done = p.settle(1_050, 1_050_000_000).unwrap();
    assert_eq!(done, Settlement { owed: 1_050, applied: 1_050, principal: 1_000, released: 500 });
    assert_eq!(p.size, 0);
    assert_eq!(p.collateral_amount, 0);
    assert!(p.is_settled());
    assert!(!p.is_liquidated);
}

#[test]
fn payment_beyond_the_debt_takes_the_debt_only() {
    let mut p = position();
    let done = p.settle(5_000, 1_050_000_000).unwrap();
    assert_eq!(done, Settlement { owed: 1_050, applied: 1_050, principal: 1_000, released: 500 });
    assert!(p.is_settled());
}

#[test]
fn half_payment_releases_half() {
    let mut p = position();
    let done = p.settle(525, 1_050_000_000).unwrap();
    assert_eq!(done, Settlement { owed: 1_050, applied: 525, principal: 500, released: 250 });
    assert_eq!(p.size, 500);
    assert_eq!(p.borrow_index, 1_050_000_000);
    assert_eq!(p.collateral_amount, 250);
    assert!(!p.is_settled());
    // interest runs on what is left only
    assert_eq!(p.owed_amount(1_050_000_000), Ok(500));
    assert_eq!(p.owed_amount(2_100_000_000), Ok(1_000));
}

#[test]
fn small_payment_reduces_the_principal() {
    let mut p = position();
    // owes 1_050, of which 50 are interest; a payment below the interest
    let done = p.settle(10, 1_050_000_000).unwrap();
    assert_eq!(done, Settlement { owed: 1_050, applied: 10, principal: 10, released: 4 });
    assert_eq!(p.size, 990);
    assert_eq!(p.borrow_index, 1_050_000_000);
    assert_eq!(p.collateral_amount, 496);
    assert_eq!(p.owed_amount(1_050_000_000), Ok(990));
}

#[test]
fn payment_clears_no_more_principal_than_was_paid() {
    for size in [1u128, 2, 7, 1_000, 999_983] {
        for rise in [0u128, 1, 50_000_000, 1_000_000_000, 7_000_000_000] {
            for payment in [1u128, 2, 3, 500, 1_000_000] {
                let mut p = DebtPosition::open(size, 100, vec![], UNIT, 0);
                let done = p.settle(payment, UNIT + rise).unwrap();
                assert!(p.size < size);
                assert_eq!(done.principal, size - p.size);
                assert!(done.principal <= done.applied);
                assert!(done.applied <= payment);
                assert!(p.size <= done.owed - done.applied);
                assert_eq!(p.owed_amount(UNIT + rise), Ok(p.size));
            }
        }
    }
}

#[test]
fn partial_payment_rounds_down() {
    let mut p = DebtPosition::open(10, 10, vec![], UNIT, 0);
    let done = p.settle(1, 3 * UNIT).unwrap();
    assert_eq!(done, Settlement { owed: 30, applied: 1, principal: 1, released: 0 });
    assert_eq!(p.size, 9);
    assert_eq!(p.collateral_amount, 10);
    let done = p.settle(8, 3 * UNIT).unwrap();
    assert_eq!(done, Settlement { owed: 9, applied: 8, principal: 8, released: 8 });
    assert_eq!(p.size, 1);
    assert_eq!(p.collateral_amount, 2);
}

#[test]
fn payment_of_nothing_is_refused() {
    let mut p = position();
    assert_eq!(p.settle(0, 1_050_000_000), Err(PoolError::InvalidParameter));
    assert_eq!(p.size, 1_000);
    assert_eq!(p.borrow_index, UNIT);
    assert_eq!(p.collateral_amount, 500);
}

#[test]
fn collateral_of_a_cleared_principal_is_released_by_the_next_payment() {
    let mut p = DebtPosition::open(1, 9, vec![], UNIT, 0);
    let done = p.settle(1, 3 * UNIT).unwrap();
    assert_eq!(done, Settlement { owed: 3, applied: 1, principal: 1, released: 3 });
    assert_eq!(p.size, 0);
    assert_eq!(p.collateral_amount, 6);
    assert!(!p.is_settled());
    let done = p.settle(5, 3 * UNIT).unwrap();
    assert_eq!(done, Settlement { owed: 0, applied: 0, principal: 0, released: 6 });
    assert!(p.is_settled());
    assert_eq!(p.settle(5, 3 * UNIT), Err(PoolError::AlreadySettled));
}

#[test]
fn settled_position_takes_no_payment() {
    let mut p = position();
    p.settle(1_050, 1_050_000_000).unwrap();
    assert_eq!(p.settle(1, 1_050_000_000), Err(PoolError::AlreadySettled));
    let mut q = position();
    q.is_liquidated = true;
    assert_eq!(q.settle(1, UNIT), Err(PoolError::AlreadySettled));
    assert_eq!(q.size, 1_000);
}

#[test]
fn failed_payment_changes_nothing() {
    let mut p = position();
    assert_eq!(p.settle(10, UNIT - 1), Err(PoolError::InvariantViolation));
    assert_eq!(p.size, 1_000);
    assert_eq!(p.borrow_index, UNIT);
    assert_eq!(p.collateral_amount, 500);
    let mut q = DebtPosition::open(u128::MAX, 1, vec![], 1, 0);
    assert_eq!(q.settle(10, 2), Err(PoolError::Overflow));
    assert_eq!(q.size, u128::MAX);
}

#[test]
fn closing_releases_all_collateral() {
    let mut p = position();
    assert_eq!(p.close(), 500);
    assert_eq!(p.size, 0);
    assert_eq!(p.collateral_amount, 0);
    assert!(p.is_settled());
    assert_eq!(p.timestamp, 42);
}

#[test]
fn health_factor_values() {
    assert_eq!(compute_health_factor(1_000, 1, 600, 2), Ok(833_333_333));
    assert_eq!(compute_health_factor(1_000, 2, 600, 1), Ok(3_333_333_333));
    assert_eq!(compute_health_factor(0, 2, 600, 1), Ok(0));
    assert_eq!(compute_health_factor(600, 1, 600, 1), Ok(UNIT));
}

#[test]
fn health_factor_errors() {
    assert_eq!(compute_health_factor(1, 1, 0, 1), Err(PoolError::InvalidParameter));
    assert_eq!(compute_health_factor(1, 1, 1, 0), Err(PoolError::InvalidParameter));
    assert_eq!(compute_health_factor(u128::MAX, 2, 1, 1), Err(PoolError::Overflow));
    assert_eq!(compute_health_factor(u128::MAX, 1, 1, 1), Err(PoolError::Overflow));
    assert_eq!(compute_health_factor(u128::MAX, 1, UNIT, 1), Ok(u128::MAX));
    assert_eq!(compute_health_factor(u128::MAX, 1, UNIT - 1, 1), Err(PoolError::Overflow));
}

#[test]
fn health_factor_of_values_beyond_128_bits() {
    // the value of the debt exceeds 128 bits, the factor does not
    assert_eq!(compute_health_factor(1, 1, u128::MAX, 2), Ok(0));
    assert_eq!(compute_health_factor(u128::MAX, 3, u128::MAX, 4), Ok(750_000_000));
    // both values exceed 128 bits
    assert_eq!(compute_health_factor(u128::MAX, u128::MAX, u128::MAX, u128::MAX), Ok(UNIT));
    assert_eq!(compute_health_factor(u128::MAX, u128::MAX, u128::MAX, u128::MAX / 2), Ok(2 * UNIT));
    // the value of the collateral exceeds 128 bits
    assert_eq!(compute_health_factor(u128::MAX, 1 << 100, 1 << 100, UNIT), Ok(u128::MAX));
}

#[test]
fn position_health_factor_uses_what_is_owed() {
    let p = position();
    // owes 1_050 at price 1, backed by 500 at price 3
    assert_eq!(p.compute_health_factor(1_050_000_000, 3, 1), Ok(1_428_571_428));
    assert_eq!(p.compute_health_factor(UNIT - 1, 3, 1), Err(PoolError::InvariantViolation));
    assert_eq!(p.compute_health_factor(UNIT, 3, 0), Err(PoolError::InvalidParameter));
}

#[test]
fn recorded_health_factor_is_capped() {
    let mut p = position();
    assert_eq!(p.update_health_factor(1_050_000_000, 3, 1), Ok(1_428_571_428));
    assert_eq!(p.health_factor, 1_428_571_428);
    assert!(p.is_liquidatable(1_428_571_429));
    assert!(!p.is_liquidatable(1_428_571_428));
    assert_eq!(p.update_health_factor(1_050_000_000, 1_000, 1), Ok(u32::MAX));
    assert_eq!(p.health_factor, u32::MAX);
    assert!(!p.is_liquidatable(u32::MAX));
    assert_eq!(p.update_health_factor(1, 1, 1), Err(PoolError::InvariantViolation));
    assert_eq!(p.health_factor, u32::MAX);
    p.health_factor = 0;
    p.is_liquidated = true;
    assert!(!p.is_liquidatable(5));
}

#[test]
fn liquidation_is_refused_at_or_above_the_threshold() {
    let mut p = position();
    // factor = 500 * 2 * UNIT / 1000 = UNIT
    assert_eq!(p.liquidate(100, UNIT, 2, 1, 1_000_000_000), Err(PoolError::NotLiquidatable));
    assert_eq!(p.liquidate(100, UNIT, 3, 1, 1_000_000_000), Err(PoolError::NotLiquidatable));
    assert_eq!(p.size, 1_000);
    assert_eq!(p.collateral_amount, 500);
    assert_eq!(p.health_factor, 0);
}

#[test]
fn liquidation_below_the_threshold_releases_the_share() {
    let mut p = position();
    // factor = 500 * 1 * UNIT / 1000 = UNIT / 2
    let out = p.liquidate(400, UNIT, 1, 1, 1_000_000_000).unwrap();
    assert_eq!(out.collateral_token, b"COLL-123456".to_vec());
    assert_eq!(out.amount, 200);
    assert_eq!(p.size, 600);
    assert_eq!(p.collateral_amount, 300);
    assert_eq!(p.health_factor, 500_000_000);
    assert!(!p.is_liquidated);
    assert_eq!(p.owed_amount(UNIT), Ok(600));
}

#[test]
fn liquidation_reduces_the_principal_in_proportion() {
    let mut p = position();
    // owes 1_050; factor = 500 * UNIT / 1_050 = 476_190_476
    let out = p.liquidate(210, 1_050_000_000, 1, 1, 1_000_000_000).unwrap();
    assert_eq!(out.amount, 100);
    assert_eq!(p.size, 800);
    assert_eq!(p.borrow_index, 1_050_000_000);
    assert_eq!(p.collateral_amount, 400);
    assert_eq!(p.health_factor, 476_190_476);
    assert_eq!(p.owed_amount(1_050_000_000), Ok(800));
}

#[test]
fn liquidation_of_the_whole_debt_marks_the_position() {
    let mut p = position();
    let out = p.liquidate(1_050, 1_050_000_000, 1, 1, 1_000_000_000).unwrap();
    assert_eq!(out.amount, 500);
    assert_eq!(p.size, 0);
    assert_eq!(p.collateral_amount, 0);
    assert!(p.is_liquidated);
    assert_eq!(p.borrow_index, 1_050_000_000);
    assert_eq!(p.liquidate(1, 1_050_000_000, 1, 1, 1_000_000_000), Err(PoolError::AlreadySettled));
}

#[test]
fn liquidation_refuses_nothing_and_more_than_is_owed() {
    let mut p = position();
    assert_eq!(p.liquidate(1_001, UNIT, 1, 1, 1_000_000_000), Err(PoolError::InvalidParameter));
    assert_eq!(p.liquidate(0, UNIT, 1, 1, 1_000_000_000), Err(PoolError::InvalidParameter));
    assert_eq!(p.size, 1_000);
    assert_eq!(p.borrow_index, UNIT);
}

#[test]
fn liquidation_passes_on_earlier_errors() {
    let mut p = position();
    assert_eq!(p.liquidate(1, UNIT - 1, 1, 1, 5), Err(PoolError::InvariantViolation));
    assert_eq!(p.liquidate(1, UNIT, 1, 0, 5), Err(PoolError::InvalidParameter));
    assert_eq!(p.liquidate(1, UNIT, u128::MAX, 1, 5), Err(PoolError::Overflow));
    assert_eq!(p.liquidate(1, UNIT, 1, 1, 0), Err(PoolError::NotLiquidatable));
}
