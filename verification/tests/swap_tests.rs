use btb_finance_clmm::errors::ErrorCode;
use btb_finance_clmm::pool::create_pool;
use btb_finance_clmm::position::create_position;
use btb_finance_clmm::state::{Pool, TickArray};
use btb_finance_clmm::swap::{calculate_next_sqrt_price, router_swap, swap_step};
use btb_finance_clmm::tick_array::initialize_tick_array;
use btb_finance_clmm::tick_math::{
    tick_to_sqrt_price_x64, MAX_SQRT_PRICE_X64, MIN_SQRT_PRICE_X64, Q64,
};

/// A pool at price 1.0 with a [-100, 100] position of liquidity 1_000_000,
/// and a zeroed tick window around the current price for the swap to cross.
fn scenario_pool() -> (Pool, TickArray) {
    let mut pool = create_pool(1, 2, 3000, 10, 1, Q64).unwrap();
    let mut lower = initialize_tick_array(-100, 1).unwrap();
    let mut upper = initialize_tick_array(100, 1).unwrap();
    create_position(&mut pool, &mut lower, &mut upper, -100, 100, 1_000_000, 7, 9).unwrap();
    let mid = initialize_tick_array(-44, 1).unwrap();
    (pool, mid)
}

#[test]
fn swap_tests_test_single_swap() {
    // Test successful swap
    let (mut pool, mut mid) = scenario_pool();
    let limit = tick_to_sqrt_price_x64(-100).unwrap();
    let result = swap_step(&mut pool, &mut mid, 1_000_000, 0, limit, true);
    assert!(result.is_ok(), "Swap should succeed");

    // Test slippage protection
    let (mut pool, mut mid) = scenario_pool();
    let result = swap_step(&mut pool, &mut mid, 1_000_000, 1_100_000, limit, true);
    assert_eq!(result.unwrap_err(), ErrorCode::ExcessiveSlippage);

    // Test zero amount
    let (mut pool, mut mid) = scenario_pool();
    let result = swap_step(&mut pool, &mut mid, 0, 0, limit, true);
    assert_eq!(result.unwrap_err(), ErrorCode::InvalidAmount);

    // Test invalid price limit
    let (mut pool, mut mid) = scenario_pool();
    let result = swap_step(&mut pool, &mut mid, 1_000_000, 900_000, 0, true);
    assert_eq!(result.unwrap_err(), ErrorCode::InvalidPriceLimit);
}

#[test]
fn test_swap_scenario() {
    // fee_rate 3000, protocol_fee_rate 10, tick_spacing 1, position with
    // liquidity 1_000_000 at [-100, 100], swap 1_000_000 zero-for-one
    let (mut pool, mut mid) = scenario_pool();
    let limit = tick_to_sqrt_price_x64(-100).unwrap();
    let amount_out = swap_step(&mut pool, &mut mid, 1_000_000, 0, limit, true).unwrap();
    // the output is below the offered input (partial fill at the limit)
    assert!(amount_out < 1_000_000);
    assert_eq!(amount_out, 5011);
    // the price stopped at the limit, in the limit's bucket
    assert_eq!(pool.sqrt_price_x64, limit);
    assert_eq!(pool.tick_current, -100);
    // the fee grew the input-token accumulator by a liquidity-scaled amount
    assert_eq!(pool.fee_growth_global_0_x64, 258_254_417_031_933);
    assert!(pool.fee_growth_global_0_x64 > 0);
    assert_eq!(pool.fee_growth_global_1_x64, 0);
    // the protocol took its share of the consumed fee
    assert_eq!(pool.protocol_fees_0, 1);
    // liquidity is unchanged: no initialized tick was crossed
    assert_eq!(pool.liquidity, 1_000_000);
}

#[test]
fn test_swap_zero_liquidity() {
    let mut pool = create_pool(1, 2, 3000, 10, 1, Q64).unwrap();
    let mut mid = initialize_tick_array(-44, 1).unwrap();
    let result = swap_step(&mut pool, &mut mid, 1_000_000, 0, MIN_SQRT_PRICE_X64, true);
    assert_eq!(result.unwrap_err(), ErrorCode::ZeroLiquidity);
}

#[test]
fn test_swap_wrong_side_limit() {
    let (mut pool, mut mid) = scenario_pool();
    // zero-for-one moves the price down: a limit above the price is invalid
    let result = swap_step(&mut pool, &mut mid, 1_000_000, 0, MAX_SQRT_PRICE_X64, true);
    assert_eq!(result.unwrap_err(), ErrorCode::InvalidPriceLimit);
    // the reverse direction rejects a limit below the price
    let result = swap_step(&mut pool, &mut mid, 1_000_000, 0, MIN_SQRT_PRICE_X64, false);
    assert_eq!(result.unwrap_err(), ErrorCode::InvalidPriceLimit);
}

#[test]
fn test_swap_crosses_ticks() {
    // a swap that walks down across an initialized tick picks up its
    // liquidity change and flips its outside growth
    let (mut pool, mut mid) = scenario_pool();
    // put a small extra position boundary inside the crossing window
    btb_finance_clmm::tick_array::update_tick(&mut mid, -10, -2_000, true).unwrap();
    let limit = tick_to_sqrt_price_x64(-100).unwrap();
    let amount_out = swap_step(&mut pool, &mut mid, 1_000_000, 0, limit, true).unwrap();
    assert!(amount_out > 0);
    // crossing down subtracts the net: 1_000_000 - (-2_000)
    assert_eq!(pool.liquidity, 1_002_000);
    let crossed = btb_finance_clmm::tick_array::get_tick(&mid, -10).unwrap();
    assert_eq!(crossed.fee_growth_outside_0_x64, pool.fee_growth_global_0_x64);
}

#[test]
fn test_calculate_next_sqrt_price_values() {
    // moving down is linear in the sqrt price: 2^64 - 997_000 * 2^64 / 1_000_000
    let down = calculate_next_sqrt_price(Q64, 1_000_000, 997_000, true).unwrap();
    assert_eq!(down, Q64 - 18_391_403_841_488_422_961);
    // moving up is linear in the reciprocal
    let up = calculate_next_sqrt_price(Q64, 1_000_000_000_000, 1_000_000, false).unwrap();
    assert!(up > Q64);
    // no liquidity to trade against
    assert_eq!(
        calculate_next_sqrt_price(Q64, 0, 1_000_000, true),
        Err(ErrorCode::ZeroLiquidity)
    );
    // a move past zero is rejected
    assert_eq!(
        calculate_next_sqrt_price(MIN_SQRT_PRICE_X64, 1, u64::MAX, true),
        Err(ErrorCode::MathOverflow)
    );
}

#[test]
fn router_tests_test_single_swap() {
    // the router runs each hop with the widest admissible limit, so the
    // whole input is consumed against the in-window liquidity
    let (pool, mid) = scenario_pool();
    let mut pools = vec![pool];
    let mut arrays = vec![mid];
    let result = router_swap(&mut pools, &mut arrays, 1_000_000, 0);
    assert!(result.is_ok(), "Swap should succeed");
    assert_eq!(result.unwrap(), 332_332_999);

    // Test slippage protection
    let (pool, mid) = scenario_pool();
    let mut pools = vec![pool];
    let mut arrays = vec![mid];
    let result = router_swap(&mut pools, &mut arrays, 1_000_000, 400_000_000);
    assert_eq!(result.unwrap_err(), ErrorCode::ExcessiveSlippage);
}

#[test]
fn router_tests_test_router_swap() {
    // two hops: down through the first pool, up through the second
    let (pool_a, mid_a) = scenario_pool();
    let (pool_b, mid_b) = scenario_pool();
    let mut pools = vec![pool_a, pool_b];
    let mut arrays = vec![mid_a, mid_b];
    let result = router_swap(&mut pools, &mut arrays, 1_000_000, 0);
    assert!(result.is_ok(), "Router swap should succeed");
    // both pools moved: the first down, the second up
    assert!(pools[0].sqrt_price_x64 < Q64);
    assert!(pools[1].sqrt_price_x64 > Q64);

    // Test slippage protection on the final hop
    let (pool_a, mid_a) = scenario_pool();
    let (pool_b, mid_b) = scenario_pool();
    let mut pools = vec![pool_a, pool_b];
    let mut arrays = vec![mid_a, mid_b];
    let result = router_swap(&mut pools, &mut arrays, 1_000_000, u64::MAX);
    assert_eq!(result.unwrap_err(), ErrorCode::ExcessiveSlippage);

    // Test zero amount: the first hop rejects it
    let (pool_a, mid_a) = scenario_pool();
    let mut pools = vec![pool_a];
    let mut arrays = vec![mid_a];
    let result = router_swap(&mut pools, &mut arrays, 0, 0);
    assert_eq!(result.unwrap_err(), ErrorCode::InvalidAmount);
}

#[test]
fn test_router_validation() {
    // an empty route is rejected
    let mut pools: Vec<Pool> = vec![];
    let mut arrays: Vec<TickArray> = vec![];
    let result = router_swap(&mut pools, &mut arrays, 1_000_000, 0);
    assert_eq!(result.unwrap_err(), ErrorCode::InvalidAmount);
}
