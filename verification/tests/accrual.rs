use liquidity_pool::accrual::GlobalState;
use liquidity_pool::error::PoolError;
use liquidity_pool::model::PoolParams;

const UNIT: u128 = 1_000_000_000;

fn params() -> PoolParams {
    PoolParams::new(0, UNIT / 10, UNIT, 8 * UNIT / 10, UNIT / 10).unwrap()
}

fn state() -> GlobalState {
    GlobalState {
        total_reserves: 600,
        total_borrowed: 400,
        borrow_index: UNIT,
        supply_index: UNIT,
        rewards_reserve: 0,
        last_update_round: 100,
    }
}

#[test]
fn new_state_has_indices_of_one() {
    let s = GlobalState::new(7);
    assert_eq!(s.total_reserves, 0);
    assert_eq!(s.total_borrowed, 0);
    assert_eq!(s.borrow_index, UNIT);
    assert_eq!(s.supply_index, UNIT);
    assert_eq!(s.rewards_reserve, 0);
    assert_eq!(s.last_update_round, 7);
}

#[test]
fn params_refuse_an_optimal_utilisation_above_one() {
    assert_eq!(PoolParams::new(0, 0, 0, UNIT + 1, 0), Err(PoolError::InvalidParameter));
    let p = PoolParams::new(1, 2, 3, UNIT, UNIT).unwrap();
    assert_eq!((p.r_base, p.r_slope1, p.r_slope2, p.u_optimal, p.reserve_factor), (1, 2, 3, UNIT, UNIT));
}

#[test]
fn params_take_any_reserve_factor() {
    let p = PoolParams::new(1, 2, 3, 4, UNIT + 1).unwrap();
    assert_eq!(p.reserve_factor, UNIT + 1);
    let p = PoolParams::new(1, 2, 3, 4, u128::MAX).unwrap();
    assert_eq!(p.reserve_factor, u128::MAX);
    // the factor is refused where the deposit rate needs it
    assert_eq!(state().get_deposit_rate(&p), Err(PoolError::InvalidParameter));
    assert_eq!(state().get_borrow_rate(&p), Ok(4));
    let mut s = state();
    assert_eq!(s.update_interest_indexes(&p, 110), Ok(()));
    assert_eq!(s.borrow_index, UNIT + 40);
}

#[test]
fn rates_of_a_state() {
    let s = state();
    assert_eq!(s.get_total_supplied_capital(), Ok(1_000));
    assert_eq!(s.get_capital_utilisation(), Ok(400_000_000));
    assert_eq!(s.get_borrow_rate(&params()), Ok(50_000_000));
    assert_eq!(s.get_deposit_rate(&params()), Ok(18_000_000));
}

#[test]
fn rates_of_an_empty_pool() {
    let s = GlobalState::new(0);
    assert_eq!(s.get_total_supplied_capital(), Ok(0));
    assert_eq!(s.get_capital_utilisation(), Ok(0));
    assert_eq!(s.get_borrow_rate(&params()), Ok(0));
    assert_eq!(s.get_deposit_rate(&params()), Ok(0));
}

#[test]
fn supplied_capital_beyond_128_bits_is_overflow() {
    let s = GlobalState { total_reserves: u128::MAX, total_borrowed: 1, ..state() };
    assert_eq!(s.get_total_supplied_capital(), Err(PoolError::Overflow));
    assert_eq!(s.get_capital_utilisation(), Err(PoolError::Overflow));
    assert_eq!(s.get_borrow_rate(&params()), Err(PoolError::Overflow));
    assert_eq!(s.get_deposit_rate(&params()), Err(PoolError::Overflow));
}

#[test]
fn round_and_index_differences() {
    let s = state();
    assert_eq!(s.get_round_diff(100), Ok(0));
    assert_eq!(s.get_round_diff(110), Ok(10));
    assert_eq!(s.get_round_diff(99), Err(PoolError::InvalidParameter));
    assert_eq!(s.get_borrow_index_diff(UNIT), Ok(0));
    assert_eq!(s.get_borrow_index_diff(UNIT - 5), Ok(5));
    assert_eq!(s.get_borrow_index_diff(UNIT + 1), Err(PoolError::InvariantViolation));
}

#[test]
fn accrual_over_ten_rounds() {
    let mut s = state();
    assert_eq!(s.update_interest_indexes(&params(), 110), Ok(()));
    assert_eq!(s.borrow_index, 1_500_000_000);
    assert_eq!(s.rewards_reserve, 200);
    assert_eq!(s.supply_index, 1_200_000_000);
    assert_eq!(s.last_update_round, 110);
    assert_eq!(s.total_reserves, 600);
    assert_eq!(s.total_borrowed, 400);
}

#[test]
fn accrual_for_the_same_round_changes_nothing() {
    let mut s = state();
    assert_eq!(s.update_interest_indexes(&params(), 100), Ok(()));
    assert_eq!(s, state());
    assert_eq!(s.update_interest_indexes(&params(), 110), Ok(()));
    let once = s;
    assert_eq!(s.update_interest_indexes(&params(), 110), Ok(()));
    assert_eq!(s, once);
}

#[test]
fn accrual_refuses_a_round_in_the_past() {
    let mut s = state();
    assert_eq!(s.update_interest_indexes(&params(), 99), Err(PoolError::InvalidParameter));
    assert_eq!(s, state());
}

#[test]
fn accrual_refuses_invalid_params() {
    let mut s = state();
    let bad = PoolParams { u_optimal: UNIT + 1, ..params() };
    assert_eq!(s.update_interest_indexes(&bad, 101), Err(PoolError::InvalidParameter));
    assert_eq!(s, state());
    assert_eq!(s.update_interest_indexes(&bad, 100), Ok(()));
}

#[test]
fn accrual_reports_overflow_and_changes_nothing() {
    let start = GlobalState { borrow_index: u128::MAX - 10, ..state() };
    let mut s = start;
    assert_eq!(s.update_interest_indexes(&params(), 101), Err(PoolError::Overflow));
    assert_eq!(s, start);
    let start = GlobalState { rewards_reserve: u128::MAX, ..state() };
    let mut s = start;
    assert_eq!(s.update_interest_indexes(&params(), 110), Err(PoolError::Overflow));
    assert_eq!(s, start);
    let start = GlobalState { supply_index: u128::MAX, ..state() };
    let mut s = start;
    assert_eq!(s.update_interest_indexes(&params(), 110), Err(PoolError::Overflow));
    assert_eq!(s, start);
    let start = GlobalState { total_reserves: u128::MAX, ..state() };
    let mut s = start;
    assert_eq!(s.update_interest_indexes(&params(), 110), Err(PoolError::Overflow));
    assert_eq!(s, start);
}

#[test]
fn accrual_of_an_empty_pool_keeps_the_supply_index() {
    let mut s = GlobalState::new(0);
    let p = PoolParams::new(5, 0, 0, UNIT / 2, 0).unwrap();
    assert_eq!(s.update_interest_indexes(&p, 4), Ok(()));
    assert_eq!(s.borrow_index, UNIT + 20);
    assert_eq!(s.supply_index, UNIT);
    assert_eq!(s.rewards_reserve, 0);
    assert_eq!(s.last_update_round, 4);
}

#[test]
fn borrow_index_never_falls_over_a_sequence_of_rounds() {
    let mut s = state();
    let mut last = s.borrow_index;
    for round in [100u64, 101, 101, 105, 90, 250, 250, 1_000] {
        let _ = s.update_interest_indexes(&params(), round);
        assert!(s.borrow_index >= last);
        last = s.borrow_index;
    }
    assert_eq!(s.last_update_round, 1_000);
    assert_eq!(s.borrow_index, UNIT + 900 * 50_000_000);
}

#[test]
fn single_steps_of_accrual() {
    let mut s = state();
    assert_eq!(s.update_borrow_index(50_000_000, 10), Ok(()));
    assert_eq!(s.borrow_index, 1_500_000_000);
    assert_eq!(s.update_rewards_reserves(50_000_000, 10), Ok(200));
    assert_eq!(s.rewards_reserve, 200);
    assert_eq!(s.update_supply_index(200), Ok(()));
    assert_eq!(s.supply_index, 1_200_000_000);
    s.update_index_last_used(110);
    assert_eq!(s.last_update_round, 110);
}

#[test]
fn single_steps_report_overflow() {
    let mut s = state();
    assert_eq!(s.update_borrow_index(u128::MAX, 2), Err(PoolError::Overflow));
    assert_eq!(s.update_borrow_index(u128::MAX, 1), Err(PoolError::Overflow));
    assert_eq!(s, state());
    let mut s = GlobalState { total_borrowed: u128::MAX, ..state() };
    assert_eq!(s.update_rewards_reserves(u128::MAX, 2), Err(PoolError::Overflow));
    assert_eq!(s.rewards_reserve, 0);
    let mut s = GlobalState { rewards_reserve: u128::MAX, ..state() };
    assert_eq!(s.update_rewards_reserves(UNIT, 1), Err(PoolError::Overflow));
    assert_eq!(s.rewards_reserve, u128::MAX);
    let mut s = GlobalState { supply_index: u128::MAX, ..state() };
    assert_eq!(s.update_supply_index(1_000), Err(PoolError::Overflow));
    assert_eq!(s.update_supply_index(0), Ok(()));
    assert_eq!(s.supply_index, u128::MAX);
}

#[test]
fn rewards_of_a_rate_times_rounds_beyond_128_bits() {
    // rate * rounds exceeds 128 bits, the interest does not
    let mut s = state();
    assert_eq!(
        s.update_rewards_reserves(u128::MAX, 2),
        Ok(272_225_893_536_750_770_770_699_685_945_414)
    );
    assert_eq!(s.rewards_reserve, 272_225_893_536_750_770_770_699_685_945_414);
    let mut s = GlobalState { total_borrowed: 1, ..state() };
    assert_eq!(s.update_rewards_reserves(u128::MAX, 1_000_000_000), Ok(u128::MAX));
}

#[test]
fn rewards_round_down() {
    let mut s = GlobalState { total_borrowed: 3, ..state() };
    assert_eq!(s.update_rewards_reserves(333_333_333, 1), Ok(0));
    assert_eq!(s.update_rewards_reserves(333_333_334, 1), Ok(1));
    assert_eq!(s.rewards_reserve, 1);
}

#[test]
fn deposit_value_grows_with_the_supply_index() {
    let s = GlobalState { supply_index: 1_200_000_000, ..state() };
    assert_eq!(s.get_deposit_value(1_000, UNIT), Ok(1_200));
    assert_eq!(s.get_deposit_value(1_000, 1_200_000_000), Ok(1_000));
    assert_eq!(s.get_deposit_value(7, 1_100_000_000), Ok(7));
    assert_eq!(s.get_deposit_value(1_000, 0), Err(PoolError::InvariantViolation));
    assert_eq!(s.get_deposit_value(1_000, 1_200_000_001), Err(PoolError::InvariantViolation));
    assert_eq!(s.get_deposit_value(u128::MAX, UNIT), Err(PoolError::Overflow));
}
