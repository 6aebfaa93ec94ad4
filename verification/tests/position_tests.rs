use btb_finance_clmm::errors::ErrorCode;
use btb_finance_clmm::pool::create_pool;
use btb_finance_clmm::position::{
    calculate_liquidity_from_amounts, close_position, collect_fees, create_position,
    decrease_liquidity, increase_liquidity, open_position,
};
use btb_finance_clmm::state::{Pool, TickArray};
use btb_finance_clmm::tick_array::initialize_tick_array;
use btb_finance_clmm::tick_math::{MAX_TICK, MIN_TICK, Q64};

fn pool_with_arrays() -> (Pool, TickArray, TickArray) {
    let pool = create_pool(1, 2, 3000, 10, 1, Q64).unwrap();
    let lower = initialize_tick_array(-100, 1).unwrap();
    let upper = initialize_tick_array(100, 1).unwrap();
    (pool, lower, upper)
}

#[test]
fn test_position_lifecycle() {
    let (mut pool, mut lower, mut upper) = pool_with_arrays();
    let position = create_position(&mut pool, &mut lower, &mut upper, -100, 100, 1_000_000, 7, 9);
    let mut position = position.expect("position creation should succeed");
    assert_eq!(position.liquidity, 1_000_000);
    assert_eq!(position.tick_lower_index, -100);
    assert_eq!(position.tick_upper_index, 100);
    assert_eq!(position.tokens_owed_0, 0);
    assert_eq!(position.tokens_owed_1, 0);
    // the range contains the current tick, so the pool is deeper now
    assert_eq!(pool.liquidity, 1_000_000);
    // the boundary ticks took the liquidity delta
    assert_eq!(lower.ticks[0].liquidity_net, 1_000_000);
    assert_eq!(lower.ticks[0].liquidity_gross, 1_000_000);
    assert_eq!(upper.ticks[0].liquidity_net, -1_000_000);
    assert_eq!(upper.ticks[0].liquidity_gross, 1_000_000);

    // removing everything empties the position and the ticks
    decrease_liquidity(&mut pool, &mut position, &mut lower, &mut upper, 1_000_000).unwrap();
    assert_eq!(position.liquidity, 0);
    assert_eq!(pool.liquidity, 0);
    assert_eq!(lower.ticks[0].liquidity_net, 0);
    assert_eq!(lower.ticks[0].liquidity_gross, 0);
    assert!(close_position(&position).is_ok());
}

#[test]
fn position_tests_test_position_validation() {
    let (mut pool, mut lower, mut upper) = pool_with_arrays();

    // Test invalid tick range
    let result = create_position(&mut pool, &mut lower, &mut upper, 100, 0, 1_000_000, 7, 9);
    assert!(result.is_err(), "Should fail with invalid tick range");
    assert_eq!(result.unwrap_err(), ErrorCode::InvalidTickRange);

    // Test zero liquidity
    let result = create_position(&mut pool, &mut lower, &mut upper, -100, 100, 0, 7, 9);
    assert!(result.is_err(), "Should fail with zero liquidity");
    assert_eq!(result.unwrap_err(), ErrorCode::ZeroLiquidity);

    // Test insufficient liquidity on removal
    let mut position = create_position(&mut pool, &mut lower, &mut upper, -100, 100, 1_000_000, 7, 9)
        .unwrap();
    let result = decrease_liquidity(&mut pool, &mut position, &mut lower, &mut upper, 2_000_000);
    assert_eq!(result.unwrap_err(), ErrorCode::InsufficientLiquidity);

    // Test closing a position with remaining liquidity
    let result = close_position(&position);
    assert_eq!(result.unwrap_err(), ErrorCode::NonZeroLiquidity);
}

#[test]
fn test_position_edge_cases() {
    // Test minimum tick spacing: with spacing 60 a misaligned range fails
    let mut pool = create_pool(1, 2, 3000, 10, 60, Q64).unwrap();
    let mut lower = initialize_tick_array(-120, 60).unwrap();
    let mut upper = initialize_tick_array(120, 60).unwrap();
    let result = create_position(&mut pool, &mut lower, &mut upper, -10, 10, 1_000_000, 7, 9);
    assert_eq!(result.unwrap_err(), ErrorCode::InvalidTickSpacing);

    // Test position at tick bounds
    let result = create_position(&mut pool, &mut lower, &mut upper, MIN_TICK - 1, 100, 1_000_000, 7, 9);
    assert_eq!(result.unwrap_err(), ErrorCode::InvalidTickIndex);
    let result = create_position(&mut pool, &mut lower, &mut upper, -100, MAX_TICK + 1, 1_000_000, 7, 9);
    assert_eq!(result.unwrap_err(), ErrorCode::InvalidTickIndex);

    // A position whose boundary tick lies outside the supplied window fails
    let result = create_position(&mut pool, &mut lower, &mut upper, -120, 600, 1_000_000, 7, 9);
    assert_eq!(result.unwrap_err(), ErrorCode::InvalidTickIndex);
}

#[test]
fn test_create_position() {
    let (mut pool, mut lower, mut upper) = pool_with_arrays();
    let result = create_position(&mut pool, &mut lower, &mut upper, -100, 100, 1_000_000, 42, 9);
    assert!(result.is_ok());
    let position = result.unwrap();
    assert_eq!(position.pool, 42);
    assert_eq!(position.owner, 9);
    assert_eq!(position.tick_lower_index, -100);
    assert_eq!(position.tick_upper_index, 100);
    assert_eq!(position.liquidity, 1_000_000);
}

#[test]
fn test_increase_liquidity() {
    let (mut pool, mut lower, mut upper) = pool_with_arrays();
    let mut position = create_position(&mut pool, &mut lower, &mut upper, -100, 100, 1_000_000, 7, 9)
        .unwrap();
    let result = increase_liquidity(&mut pool, &mut position, &mut lower, &mut upper, 500_000);
    assert!(result.is_ok());
    assert_eq!(position.liquidity, 1_500_000); // Original 1M + 500k increase
    assert_eq!(pool.liquidity, 1_500_000);
    assert_eq!(lower.ticks[0].liquidity_net, 1_500_000);
}

#[test]
fn test_error_conditions() {
    let (mut pool, mut lower, mut upper) = pool_with_arrays();
    let mut position = create_position(&mut pool, &mut lower, &mut upper, -100, 100, 1_000, 7, 9)
        .unwrap();
    // zero deltas are rejected
    assert_eq!(
        increase_liquidity(&mut pool, &mut position, &mut lower, &mut upper, 0).unwrap_err(),
        ErrorCode::ZeroLiquidity
    );
    assert_eq!(
        decrease_liquidity(&mut pool, &mut position, &mut lower, &mut upper, 0).unwrap_err(),
        ErrorCode::ZeroLiquidity
    );
    // a removal beyond the balance is rejected and changes nothing
    assert_eq!(
        decrease_liquidity(&mut pool, &mut position, &mut lower, &mut upper, 1_001).unwrap_err(),
        ErrorCode::InsufficientLiquidity
    );
    assert_eq!(position.liquidity, 1_000);
    assert_eq!(pool.liquidity, 1_000);
}

#[test]
fn test_open_position_liquidity_formula() {
    let (mut pool, mut lower, mut upper) = pool_with_arrays();
    // liquidity is min(L0, L1) for the supplied amounts over [-100, 100]:
    // L0 = 100_004_583 from token 0, L1 = 100 from one unit of token 1
    let position = open_position(&mut pool, &mut lower, &mut upper, -100, 100, 1_000_000, 1, 7, 9)
        .expect("open_position should succeed");
    assert_eq!(position.liquidity, 100);
    // the standalone conversion agrees
    let liq = calculate_liquidity_from_amounts(Q64, -100, 100, 1_000_000, 1).unwrap();
    assert_eq!(liq, 100);
    // a token-1 amount whose product with both range prices leaves 128 bits
    // is rejected rather than truncated
    let overflowing = calculate_liquidity_from_amounts(Q64, -100, 100, 1_000_000, 1_000_000);
    assert_eq!(overflowing.unwrap_err(), ErrorCode::MathOverflow);
    // both amounts are needed: a zero amount pins the minimum to zero
    let (mut pool2, mut lower2, mut upper2) = pool_with_arrays();
    let result = open_position(&mut pool2, &mut lower2, &mut upper2, -100, 100, 1_000_000, 0, 7, 9);
    assert_eq!(result.unwrap_err(), ErrorCode::ZeroLiquidity);
}

#[test]
fn test_collect_fees_fresh_position() {
    // A freshly opened position with no intervening swaps owes nothing
    let (mut pool, mut lower, mut upper) = pool_with_arrays();
    let mut position = create_position(&mut pool, &mut lower, &mut upper, -100, 100, 1_000_000, 7, 9)
        .unwrap();
    let owed = collect_fees(&pool, &mut position, &lower, &upper).unwrap();
    assert_eq!(owed, (0, 0));
    // even on a pool with prior fee growth the snapshot protects the opener
    let mut pool2 = create_pool(1, 2, 3000, 10, 1, Q64).unwrap();
    pool2.fee_growth_global_0_x64 = 999_999;
    pool2.fee_growth_global_1_x64 = 123_456;
    let mut lower2 = initialize_tick_array(-100, 1).unwrap();
    let mut upper2 = initialize_tick_array(100, 1).unwrap();
    let mut position2 = create_position(&mut pool2, &mut lower2, &mut upper2, -100, 100, 1_000_000, 7, 9)
        .unwrap();
    let owed2 = collect_fees(&pool2, &mut position2, &lower2, &upper2).unwrap();
    assert_eq!(owed2, (0, 0));
}
