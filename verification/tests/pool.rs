use liquidity_pool::error::PoolError;
use liquidity_pool::ledger::PositionLedger;
use liquidity_pool::model::DebtPosition;
use liquidity_pool::model::DepositMetadata;
use liquidity_pool::model::InterestMetadata;
use liquidity_pool::model::LiquidateData;
use liquidity_pool::model::RepayPostion;
use liquidity_pool::pool::repayment_refund;
use liquidity_pool::pool::LiquidityPool;

const UNIT: u128 = 1_000_000_000;

fn asset() -> Vec<u8> {
    b"USDC-abcdef".to_vec()
}

fn collateral() -> Vec<u8> {
    b"WEGLD-123456".to_vec()
}

fn id(name: &str) -> Vec<u8> {
    name.as_bytes().to_vec()
}

/// A pool with base 0, slope1 0.1, slope2 1, optimal 0.8 and a threshold of one.
fn pool() -> LiquidityPool {
    LiquidityPool::init(
        asset(),
        b"router".to_vec(),
        0,
        UNIT / 10,
        UNIT,
        8 * UNIT / 10,
        UNIT / 10,
        1_000_000_000,
        100,
    )
    .unwrap()
}

/// 1000 supplied, 400 of it lent against 1000 of collateral, all in round 100.
fn lent_pool() -> LiquidityPool {
    let mut p = pool();
    p.deposit_asset(&asset(), 1_000, 100).unwrap();
    p.borrow(id("first"), 400, 1_000, collateral(), 100).unwrap();
    p
}

#[test]
fn init_sets_up_an_empty_pool() {
    let p = pool();
    assert_eq!(p.view_pool_asset(), asset());
    assert_eq!(p.view_lending_pool(), b"router".to_vec());
    assert_eq!(p.view_reserve(), 0);
    assert_eq!(p.view_total_borrow(), 0);
    assert_eq!(p.view_health_factor_threshold(), 1_000_000_000);
    assert_eq!(p.debt_nonce, 1);
    assert_eq!(p.state.borrow_index, UNIT);
    assert_eq!(p.state.supply_index, UNIT);
    assert_eq!(p.state.last_update_round, 100);
    assert_eq!(p.debt_positions.len(), 0);
    assert!(p.get_positions_ids().is_empty());
    assert_eq!(p.view_capital_utilisation(), Ok(0));
    assert_eq!(p.view_borrow_rate(), Ok(0));
    assert_eq!(p.view_deposit_rate(), Ok(0));
}

#[test]
fn init_refuses_an_optimal_utilisation_above_one() {
    let r = LiquidityPool::init(asset(), vec![], 0, 0, 0, UNIT + 1, 0, 1, 0);
    assert_eq!(r.err(), Some(PoolError::InvalidParameter));
}

#[test]
fn init_takes_any_reserve_factor() {
    for factor in [0u128, UNIT, UNIT + 1, u128::MAX] {
        let p = LiquidityPool::init(asset(), b"router".to_vec(), 1, 2, 3, UNIT, factor, 7, 9).unwrap();
        assert_eq!(p.view_pool_asset(), asset());
        assert_eq!(p.view_lending_pool(), b"router".to_vec());
        assert_eq!(p.pool_params.r_base, 1);
        assert_eq!(p.pool_params.r_slope1, 2);
        assert_eq!(p.pool_params.r_slope2, 3);
        assert_eq!(p.pool_params.u_optimal, UNIT);
        assert_eq!(p.pool_params.reserve_factor, factor);
        assert_eq!(p.state.borrow_index, UNIT);
        assert_eq!(p.state.supply_index, UNIT);
        assert_eq!(p.view_borrow_rate(), Ok(1));
    }
    let mut p = LiquidityPool::init(asset(), vec![], 1, 2, 3, UNIT, UNIT + 1, 7, 9).unwrap();
    assert_eq!(p.view_deposit_rate(), Err(PoolError::InvalidParameter));
    assert_eq!(p.deposit_asset(&asset(), 10, 20).map(|m| m.timestamp), Ok(20));
    assert_eq!(p.state.borrow_index, UNIT + 11);
}

#[test]
fn deposit_of_nothing_into_an_empty_pool() {
    let mut p = pool();
    assert_eq!(p.deposit_asset(&asset(), 0, 100), Ok(DepositMetadata { timestamp: 100 }));
    assert_eq!(p.view_reserve(), 0);
    assert_eq!(p.view_capital_utilisation(), Ok(0));
    assert_eq!(p.deposit_asset(&asset(), 0, 250), Ok(DepositMetadata { timestamp: 250 }));
    assert_eq!(p.view_capital_utilisation(), Ok(0));
    assert_eq!(p.state.last_update_round, 250);
    assert_eq!(p.state.supply_index, UNIT);
}

#[test]
fn deposit_adds_to_the_reserves() {
    let mut p = pool();
    assert_eq!(p.deposit_asset(&asset(), 1_000, 105), Ok(DepositMetadata { timestamp: 105 }));
    assert_eq!(p.view_reserve(), 1_000);
    assert_eq!(p.state.last_update_round, 105);
    assert_eq!(InterestMetadata { timestamp: 105 }.timestamp, 105);
}

#[test]
fn deposit_refuses_another_asset() {
    let mut p = pool();
    assert_eq!(p.deposit_asset(&collateral(), 1_000, 100), Err(PoolError::InvalidParameter));
    assert_eq!(p.view_reserve(), 0);
}

#[test]
fn deposit_reports_overflow_and_rolls_back_accrual() {
    let mut p = lent_pool();
    assert_eq!(p.deposit_asset(&asset(), u128::MAX, 110), Err(PoolError::Overflow));
    assert_eq!(p.view_reserve(), 600);
    assert_eq!(p.state.last_update_round, 100);
    assert_eq!(p.state.borrow_index, UNIT);
}

#[test]
fn deposit_refuses_a_round_in_the_past() {
    let mut p = pool();
    assert_eq!(p.deposit_asset(&asset(), 1, 99), Err(PoolError::InvalidParameter));
}

#[test]
fn withdraw_takes_from_the_reserves() {
    let mut p = lent_pool();
    assert_eq!(p.withdraw(100, 100), Ok(()));
    assert_eq!(p.view_reserve(), 500);
    assert_eq!(p.view_total_borrow(), 400);
}

#[test]
fn withdraw_refuses_more_than_the_reserves() {
    let mut p = lent_pool();
    assert_eq!(p.withdraw(601, 110), Err(PoolError::InsufficientFunds));
    assert_eq!(p.view_reserve(), 600);
    assert_eq!(p.state.last_update_round, 100);
    assert_eq!(p.withdraw(600, 110), Ok(()));
    assert_eq!(p.view_reserve(), 0);
    assert_eq!(p.view_capital_utilisation(), Ok(UNIT));
}

#[test]
fn borrow_opens_a_position_at_the_accrued_index() {
    let mut p = lent_pool();
    let opened = p.borrow(id("second"), 100, 50, collateral(), 110).unwrap();
    assert_eq!(opened, DebtPosition::open(100, 50, collateral(), 1_500_000_000, 110));
    assert_eq!(p.view_reserve(), 500);
    assert_eq!(p.view_total_borrow(), 500);
    assert_eq!(p.debt_nonce, 3);
    assert_eq!(p.get_positions_ids(), vec![id("first"), id("second")]);
    assert_eq!(p.view_debt_position(&id("second")), Ok(opened));
    assert_eq!(p.debt_positions.entry(1).unwrap().nonce, 2);
    assert_eq!(p.debt_positions.entry(0).unwrap().nonce, 1);
    assert!(p.debt_positions.entry(2).is_none());
    assert_eq!(p.debt_positions.find(&id("second")), Some(1));
    assert_eq!(p.debt_positions.find(&id("third")), None);
}

#[test]
fn borrow_keeps_the_capital() {
    let p = lent_pool();
    assert_eq!(p.view_reserve(), 600);
    assert_eq!(p.view_total_borrow(), 400);
    assert_eq!(p.view_capital_utilisation(), Ok(400_000_000));
    assert_eq!(p.view_borrow_rate(), Ok(50_000_000));
    assert_eq!(p.view_deposit_rate(), Ok(18_000_000));
}

#[test]
fn borrow_refusals() {
    let mut p = lent_pool();
    assert_eq!(p.borrow(id("x"), 0, 1, collateral(), 100).err(), Some(PoolError::InvalidParameter));
    assert_eq!(
        p.borrow(id("x"), 1, 0, collateral(), 100).err(),
        Some(PoolError::InsufficientCollateral)
    );
    assert_eq!(p.borrow(id("first"), 1, 1, collateral(), 100).err(), Some(PoolError::InvalidParameter));
    assert_eq!(p.borrow(id("x"), 601, 1, collateral(), 100).err(), Some(PoolError::InsufficientFunds));
    assert_eq!(p.borrow(id("x"), 1, 1, collateral(), 99).err(), Some(PoolError::InvalidParameter));
    p.debt_nonce = u64::MAX;
    assert_eq!(p.borrow(id("x"), 1, 1, collateral(), 100).err(), Some(PoolError::Overflow));
    assert_eq!(p.view_reserve(), 600);
    assert_eq!(p.view_total_borrow(), 400);
    assert_eq!(p.debt_positions.len(), 1);
}

#[test]
fn repay_of_what_is_owed_closes_the_position() {
    let mut p = lent_pool();
    let record = p.repay(&id("first"), &asset(), 600, 110).unwrap();
    assert_eq!(
        record,
        RepayPostion {
            identifier: asset(),
            amount: 600,
            nonce: 1,
            borrow_timestamp: 100,
            collateral_identifier: collateral(),
            collateral_amount: 1_000,
            collateral_timestamp: 100,
        }
    );
    let left = p.view_debt_position(&id("first")).unwrap();
    assert_eq!(left.size, 0);
    assert_eq!(left.collateral_amount, 0);
    assert!(left.is_settled());
    assert_eq!(p.view_reserve(), 1_200);
    assert_eq!(p.view_total_borrow(), 0);
    assert_eq!(p.state.borrow_index, 1_500_000_000);
    assert_eq!(p.state.last_update_round, 110);
}

#[test]
fn repay_of_more_than_is_owed_takes_what_is_owed() {
    let mut p = lent_pool();
    let record = p.repay(&id("first"), &asset(), 10_000, 110).unwrap();
    assert_eq!(record.amount, 600);
    assert_eq!(record.collateral_amount, 1_000);
    assert_eq!(p.view_reserve(), 1_200);
    assert_eq!(repayment_refund(10_000, &record), 9_400);
    assert_eq!(repayment_refund(600, &record), 0);
    assert_eq!(repayment_refund(5, &record), 0);
}

#[test]
fn repay_of_half_releases_half() {
    let mut p = lent_pool();
    let record = p.repay(&id("first"), &asset(), 300, 110).unwrap();
    assert_eq!(record.amount, 300);
    assert_eq!(record.collateral_amount, 500);
    let left = p.view_debt_position(&id("first")).unwrap();
    assert_eq!(left.size, 200);
    assert_eq!(left.borrow_index, 1_500_000_000);
    assert_eq!(left.collateral_amount, 500);
    assert_eq!(left.timestamp, 100);
    assert_eq!(left.owed_amount(p.state.borrow_index), Ok(200));
    // 300 were paid: 200 of principal, which leave the loans, and 100 of interest
    assert_eq!(p.view_reserve(), 900);
    assert_eq!(p.view_total_borrow(), 200);
    assert_eq!(p.get_debt_position_interest(&id("first")), Ok(0));
}

#[test]
fn repay_of_less_than_the_interest_still_reduces_the_principal() {
    let mut p = pool();
    p.deposit_asset(&asset(), 1_000, 100).unwrap();
    p.borrow(id("first"), 1_000, 50, collateral(), 100).unwrap();
    // all is lent: the rate is 0.1 + 1 = 1.1 a round; one round takes the index to 2.1
    assert_eq!(p.view_borrow_rate(), Ok(1_100_000_000));
    let record = p.repay(&id("first"), &asset(), 10, 101).unwrap();
    assert_eq!(p.state.borrow_index, 2_100_000_000);
    assert_eq!(record.amount, 10);
    // owed 2_100; left 1_000 * 2_090 / 2_100 = 995
    let left = p.view_debt_position(&id("first")).unwrap();
    assert_eq!(left.size, 995);
    assert_eq!(p.view_total_borrow(), 995);
    assert_eq!(p.view_reserve(), 10);
    // capital grew by the interest in the payment, 10 - 5, not by more than was paid
    assert_eq!(p.view_reserve() + p.view_total_borrow(), 1_005);
}

#[test]
fn repay_refusals() {
    let mut p = lent_pool();
    assert_eq!(p.repay(&id("nope"), &asset(), 1, 110).err(), Some(PoolError::NotFound));
    assert_eq!(p.repay(&id("first"), &collateral(), 1, 110).err(), Some(PoolError::InvalidParameter));
    assert_eq!(p.repay(&id("first"), &asset(), 1, 99).err(), Some(PoolError::InvalidParameter));
    assert_eq!(p.repay(&id("first"), &asset(), 0, 110).err(), Some(PoolError::InvalidParameter));
    assert_eq!(p.state.last_update_round, 100);
    assert_eq!(p.view_debt_position(&id("first")).unwrap().borrow_index, UNIT);
    p.repay(&id("first"), &asset(), 600, 110).unwrap();
    assert_eq!(p.repay(&id("first"), &asset(), 1, 110).err(), Some(PoolError::AlreadySettled));
}

#[test]
fn repay_detects_books_that_do_not_hold_the_position() {
    let mut p = lent_pool();
    p.state.total_borrowed = 399;
    p.state.total_reserves = 601;
    assert_eq!(p.repay(&id("first"), &asset(), 1, 100).err(), Some(PoolError::InvariantViolation));
    assert_eq!(p.view_debt_position(&id("first")).unwrap().size, 400);
}

#[test]
fn interest_of_a_position_at_the_stored_index() {
    let mut p = lent_pool();
    assert_eq!(p.get_debt_position_interest(&id("first")), Ok(0));
    assert_eq!(p.get_debt_position_interest(&id("nope")), Ok(0));
    p.deposit_asset(&asset(), 0, 110).unwrap();
    assert_eq!(p.get_debt_position_interest(&id("first")), Ok(200));
    assert_eq!(p.view_debt_position(&id("nope")).err(), Some(PoolError::NotFound));
}

#[test]
fn liquidation_needs_both_prices() {
    let mut p = lent_pool();
    let r = p.liquidate(&id("first"), &asset(), 100, None, Some(1), 110);
    assert_eq!(r.err(), Some(PoolError::PriceUnavailable));
    let r = p.liquidate(&id("first"), &asset(), 100, Some(1), None, 110);
    assert_eq!(r.err(), Some(PoolError::PriceUnavailable));
    assert_eq!(p.state.last_update_round, 100);
}

#[test]
fn liquidation_is_refused_for_a_healthy_position() {
    let mut p = lent_pool();
    // owes 600; 1000 * 2 * UNIT / (600 * 1) = 3_333_333_333
    let r = p.liquidate(&id("first"), &asset(), 100, Some(2), Some(1), 110);
    assert_eq!(r.err(), Some(PoolError::NotLiquidatable));
    // exactly at the threshold: 600 * 1 * UNIT / (600 * 1) is refused too
    let mut q = pool();
    q.deposit_asset(&asset(), 1_000, 100).unwrap();
    q.borrow(id("first"), 400, 600, collateral(), 100).unwrap();
    let r = q.liquidate(&id("first"), &asset(), 100, Some(1), Some(1), 110);
    assert_eq!(r.err(), Some(PoolError::NotLiquidatable));
    assert_eq!(q.view_debt_position(&id("first")).unwrap().size, 400);
    assert_eq!(q.state.last_update_round, 100);
}

#[test]
fn liquidation_of_an_unhealthy_position() {
    let mut p = lent_pool();
    // owes 600; 1000 * 1 * UNIT / (600 * 2) = 833_333_333
    let out = p.liquidate(&id("first"), &asset(), 150, Some(1), Some(2), 110).unwrap();
    assert_eq!(out, LiquidateData { collateral_token: collateral(), amount: 250 });
    let left = p.view_debt_position(&id("first")).unwrap();
    assert_eq!(left.size, 300);
    assert_eq!(left.collateral_amount, 750);
    assert_eq!(left.borrow_index, 1_500_000_000);
    assert_eq!(left.health_factor, 833_333_333);
    assert!(!left.is_liquidated);
    assert_eq!(left.owed_amount(p.state.borrow_index), Ok(300));
    assert_eq!(p.view_reserve(), 750);
    assert_eq!(p.view_total_borrow(), 300);
}

#[test]
fn liquidation_of_the_whole_debt() {
    let mut p = lent_pool();
    let out = p.liquidate(&id("first"), &asset(), 600, Some(1), Some(2), 110).unwrap();
    assert_eq!(out.amount, 1_000);
    let left = p.view_debt_position(&id("first")).unwrap();
    assert_eq!(left.size, 0);
    assert!(left.is_liquidated);
    assert_eq!(p.view_reserve(), 1_200);
    assert_eq!(p.view_total_borrow(), 0);
    let r = p.liquidate(&id("first"), &asset(), 1, Some(1), Some(2), 110);
    assert_eq!(r.err(), Some(PoolError::AlreadySettled));
    assert_eq!(p.repay(&id("first"), &asset(), 1, 110).err(), Some(PoolError::AlreadySettled));
}

#[test]
fn liquidation_refusals() {
    let mut p = lent_pool();
    let r = p.liquidate(&id("nope"), &asset(), 1, Some(1), Some(2), 110);
    assert_eq!(r.err(), Some(PoolError::NotFound));
    let r = p.liquidate(&id("first"), &collateral(), 1, Some(1), Some(2), 110);
    assert_eq!(r.err(), Some(PoolError::InvalidParameter));
    let r = p.liquidate(&id("first"), &asset(), 601, Some(1), Some(2), 110);
    assert_eq!(r.err(), Some(PoolError::InvalidParameter));
    let r = p.liquidate(&id("first"), &asset(), 0, Some(1), Some(2), 110);
    assert_eq!(r.err(), Some(PoolError::InvalidParameter));
    let r = p.liquidate(&id("first"), &asset(), 1, Some(1), Some(0), 110);
    assert_eq!(r.err(), Some(PoolError::InvalidParameter));
    let r = p.liquidate(&id("first"), &asset(), 1, Some(1), Some(2), 99);
    assert_eq!(r.err(), Some(PoolError::InvalidParameter));
    assert_eq!(p.state.last_update_round, 100);
    assert_eq!(p.view_debt_position(&id("first")).unwrap().size, 400);
}

#[test]
fn threshold_can_be_set() {
    let mut p = lent_pool();
    p.endpoint_health_factor_threshold(800_000_000);
    assert_eq!(p.view_health_factor_threshold(), 800_000_000);
    let r = p.liquidate(&id("first"), &asset(), 150, Some(1), Some(2), 110);
    assert_eq!(r.err(), Some(PoolError::NotLiquidatable));
}

#[test]
fn capital_changes_by_what_enters_and_leaves() {
    let mut p = pool();
    let mut expected: u128 = 0;
    p.deposit_asset(&asset(), 5_000, 100).unwrap();
    expected += 5_000;
    assert_eq!(p.view_reserve() + p.view_total_borrow(), expected);
    p.borrow(id("a"), 2_000, 900, collateral(), 101).unwrap();
    assert_eq!(p.view_reserve() + p.view_total_borrow(), expected);
    p.borrow(id("b"), 1_000, 400, collateral(), 120).unwrap();
    assert_eq!(p.view_reserve() + p.view_total_borrow(), expected);
    p.withdraw(700, 130).unwrap();
    expected -= 700;
    assert_eq!(p.view_reserve() + p.view_total_borrow(), expected);
    // a payment in part: the capital grows by the interest in it
    let reserves = p.view_reserve();
    let loans = p.view_total_borrow();
    let record = p.repay(&id("a"), &asset(), 500, 200).unwrap();
    let a = p.view_debt_position(&id("a")).unwrap();
    assert_eq!(p.state.borrow_index, 8_804_651_140);
    assert_eq!(record.amount, 500);
    assert_eq!(a.size, 1_943);
    assert_eq!(p.view_reserve(), reserves + 500);
    assert_eq!(p.view_total_borrow(), loans - 57);
    expected += 500 - 57;
    assert_eq!(p.view_reserve() + p.view_total_borrow(), expected);
    // a payment in whole: the capital grows by all the interest the position owed
    p.deposit_asset(&asset(), 0, 300).unwrap();
    let interest_b = p.get_debt_position_interest(&id("b")).unwrap();
    let owed_b = p.view_debt_position(&id("b")).unwrap().owed_amount(p.state.borrow_index).unwrap();
    let record = p.repay(&id("b"), &asset(), owed_b + 5, 300).unwrap();
    assert_eq!(record.amount, owed_b);
    expected += interest_b;
    assert_eq!(p.view_reserve() + p.view_total_borrow(), expected);
    assert!(interest_b > 0);
    // a refused call changes nothing
    assert!(p.withdraw(u128::MAX, 400).is_err());
    assert_eq!(p.view_reserve() + p.view_total_borrow(), expected);
    // what is lent out is what the open positions stand at
    assert_eq!(p.view_total_borrow(), a.size);
}

#[test]
fn ledger_keeps_one_entry_for_each_identifier() {
    let mut ledger = PositionLedger::new();
    assert_eq!(ledger.len(), 0);
    let first = DebtPosition::open(1, 2, collateral(), UNIT, 3);
    let second = DebtPosition::open(4, 5, collateral(), UNIT, 6);
    assert_eq!(ledger.insert(id("a"), 1, first.clone()), Ok(()));
    assert_eq!(ledger.insert(id("a"), 2, second.clone()), Err(PoolError::InvalidParameter));
    assert_eq!(ledger.len(), 1);
    assert_eq!(ledger.position(&id("a")), Some(first.clone()));
    assert_eq!(ledger.position(&id("b")), None);
    assert_eq!(ledger.update(&id("b"), second.clone()), Err(PoolError::NotFound));
    assert_eq!(ledger.update(&id("a"), second.clone()), Ok(()));
    assert_eq!(ledger.position(&id("a")), Some(second));
    assert_eq!(ledger.entry(0).unwrap().nonce, 1);
    assert_eq!(ledger.entry(0).unwrap().id, id("a"));
    assert_eq!(ledger.ids(), vec![id("a")]);
}
