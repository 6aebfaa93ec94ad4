use btb_finance_clmm::errors::ErrorCode;
use btb_finance_clmm::pool::create_pool;
use btb_finance_clmm::state::{Tick, TickArray, TICK_ARRAY_SIZE};
use btb_finance_clmm::tick_array::{cross_tick, get_tick, initialize_tick_array, update_tick};
use btb_finance_clmm::tick_math::{MAX_TICK, MIN_TICK, Q64};

#[test]
fn test_initialize_tick_array() {
    // Test successful initialization
    let result = initialize_tick_array(0, 5);
    assert!(result.is_ok(), "Tick array initialization should succeed");
    let arr = result.unwrap();
    assert_eq!(arr.start_tick_index, 0);
    assert_eq!(arr.ticks.len(), TICK_ARRAY_SIZE);
    assert_eq!(arr.ticks[0].index, 0);
    assert_eq!(arr.ticks[87].index, 87);
    assert_eq!(arr.ticks[50].liquidity_gross, 0);

    // Test invalid tick index (not multiple of spacing)
    let result = initialize_tick_array(3, 5);
    assert_eq!(result.unwrap_err(), ErrorCode::InvalidTickIndex);

    // Test tick index out of bounds
    let result = initialize_tick_array(443_640, 5);
    assert_eq!(result.unwrap_err(), ErrorCode::InvalidTickIndex);
}

#[test]
fn test_update_tick() {
    let mut arr = initialize_tick_array(0, 1).unwrap();

    // Test successful update
    let result = update_tick(&mut arr, 0, 100, true);
    assert!(result.is_ok(), "Tick update should succeed");
    assert_eq!(arr.ticks[0].liquidity_net, 100);
    assert_eq!(arr.ticks[0].liquidity_gross, 100);

    // Test update with invalid tick index
    let result = update_tick(&mut arr, TICK_ARRAY_SIZE as i32, 100, true);
    assert_eq!(result.unwrap_err(), ErrorCode::InvalidTickIndex);

    // Test update without gross tracking
    let result = update_tick(&mut arr, 1, -40, false);
    assert!(result.is_ok());
    assert_eq!(arr.ticks[1].liquidity_net, -40);
    assert_eq!(arr.ticks[1].liquidity_gross, 0);

    // Test overflow protection
    let result = update_tick(&mut arr, 0, i128::MAX, true);
    assert_eq!(result.unwrap_err(), ErrorCode::MathOverflow);
}

#[test]
fn test_cross_tick() {
    let mut pool = create_pool(1, 2, 3000, 10, 1, Q64).unwrap();
    pool.liquidity = 1_000;
    pool.fee_growth_global_0_x64 = 5_000;
    pool.fee_growth_global_1_x64 = 7_000;
    let mut arr = initialize_tick_array(0, 1).unwrap();
    update_tick(&mut arr, 0, 100, true).unwrap();

    // Test successful tick crossing: the pool sits at tick 0, so crossing
    // tick 0 moves down and removes the tick's net liquidity
    let result = cross_tick(&mut pool, &mut arr, 0);
    assert!(result.is_ok(), "Tick crossing should succeed");
    assert_eq!(pool.liquidity, 900);
    assert_eq!(arr.ticks[0].fee_growth_outside_0_x64, 5_000);
    assert_eq!(arr.ticks[0].fee_growth_outside_1_x64, 7_000);

    // Test crossing invalid tick
    let result = cross_tick(&mut pool, &mut arr, TICK_ARRAY_SIZE as i32);
    assert_eq!(result.unwrap_err(), ErrorCode::InvalidTickIndex);

    // Crossing back up restores liquidity and the outside growth
    pool.tick_current = -1;
    let result = cross_tick(&mut pool, &mut arr, 0);
    assert!(result.is_ok(), "Should handle multiple crossings");
    assert_eq!(pool.liquidity, 1_000);
    assert_eq!(arr.ticks[0].fee_growth_outside_0_x64, 0);
    assert_eq!(arr.ticks[0].fee_growth_outside_1_x64, 0);
}

#[test]
fn test_tick_array_boundaries() {
    // Test at min tick
    let result = initialize_tick_array(MIN_TICK, 1);
    assert!(result.is_ok(), "Should initialize at min tick");

    // Test at max tick
    let result = initialize_tick_array(MAX_TICK, 1);
    assert!(result.is_ok(), "Should initialize at max tick");

    // Test updating tick at boundaries: the first and the last slot both
    // succeed, one past either end fails
    let mut arr = initialize_tick_array(0, 1).unwrap();
    assert!(update_tick(&mut arr, 0, 100, true).is_ok(), "Should update first tick");
    assert!(update_tick(&mut arr, 87, 100, true).is_ok(), "Should update last tick");
    assert_eq!(update_tick(&mut arr, -1, 100, true).unwrap_err(), ErrorCode::InvalidTickIndex);
    assert_eq!(update_tick(&mut arr, 88, 100, true).unwrap_err(), ErrorCode::InvalidTickIndex);
}

#[test]
fn test_get_tick() {
    let mut arr = initialize_tick_array(-44, 1).unwrap();
    update_tick(&mut arr, -2, 55, true).unwrap();
    let t: Tick = get_tick(&arr, -2).unwrap();
    assert_eq!(t.index, -2);
    assert_eq!(t.liquidity_net, 55);
    assert_eq!(get_tick(&arr, 44), Err(ErrorCode::InvalidTickIndex));
    assert_eq!(get_tick(&arr, -45), Err(ErrorCode::InvalidTickIndex));
}

#[test]
fn test_tick_array_window() {
    let arr: TickArray = initialize_tick_array(-88, 2).unwrap();
    assert_eq!(arr.start_tick_index, -88);
    assert_eq!(arr.ticks[0].index, -88);
    assert_eq!(arr.ticks[87].index, -1);
}
