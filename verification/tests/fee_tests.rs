use btb_finance_clmm::errors::ErrorCode;
use btb_finance_clmm::fees::{
    calculate_fee_amount, calculate_fee_growth, calculate_protocol_fee, compute_fee_growth_inside,
    compute_uncollected_fees, update_position_fees,
};
use btb_finance_clmm::pool::create_pool;
use btb_finance_clmm::state::{Position, Tick};

#[test]
fn test_calculate_fee_amount() {
    // Test normal case
    let (fee, amount) = calculate_fee_amount(1_000_000, 3000).unwrap(); // 0.3% fee
    assert_eq!(fee, 3000);
    assert_eq!(amount, 997000);

    // Test zero fee
    let (fee, amount) = calculate_fee_amount(1_000_000, 0).unwrap();
    assert_eq!(fee, 0);
    assert_eq!(amount, 1_000_000);

    // Test max fee
    let (fee, amount) = calculate_fee_amount(1_000_000, 1_000_000).unwrap();
    assert_eq!(fee, 1_000_000);
    assert_eq!(amount, 0);
}

#[test]
fn test_calculate_protocol_fee() {
    // Test normal case
    let protocol_fee = calculate_protocol_fee(1_000_000, 10).unwrap(); // 10%
    assert_eq!(protocol_fee, 100_000);

    // Test min rate
    let protocol_fee = calculate_protocol_fee(1_000_000, 1).unwrap();
    assert_eq!(protocol_fee, 10_000);

    // Test max rate
    let protocol_fee = calculate_protocol_fee(1_000_000, 25).unwrap();
    assert_eq!(protocol_fee, 250_000);

    // Test invalid rate
    assert!(calculate_protocol_fee(1_000_000, 0).is_err());
    assert!(calculate_protocol_fee(1_000_000, 26).is_err());
}

fn tick_with_outside(index: i32, outside_0: u128, outside_1: u128) -> Tick {
    Tick {
        index,
        liquidity_net: 0,
        liquidity_gross: 0,
        fee_growth_outside_0_x64: outside_0,
        fee_growth_outside_1_x64: outside_1,
    }
}

#[test]
fn test_compute_fee_growth_inside() {
    let tick_lower = tick_with_outside(-10, 100, 200);
    let tick_upper = tick_with_outside(10, 300, 400);

    // Test current tick inside range
    let (growth_0, growth_1) = compute_fee_growth_inside(0, 1000, 2000, &tick_lower, &tick_upper)
        .unwrap();
    assert_eq!(growth_0, 600);
    assert_eq!(growth_1, 1400);

    // Test current tick below range: the lower tick's growth-below flips to
    // the complement, and the difference wraps modulo 2^128
    let (growth_0, growth_1) = compute_fee_growth_inside(-20, 1000, 2000, &tick_lower, &tick_upper)
        .unwrap();
    assert_eq!(growth_0, u128::MAX - 199);
    assert_eq!(growth_1, u128::MAX - 199);

    // Test current tick above range: the upper tick's growth-above flips
    let (growth_0, growth_1) = compute_fee_growth_inside(20, 1000, 2000, &tick_lower, &tick_upper)
        .unwrap();
    assert_eq!(growth_0, 200);
    assert_eq!(growth_1, 200);
}

#[test]
fn test_calculate_fee_growth_values() {
    // exact Q64.64 scaling: 1000 * 2^64 / 1_000_000
    assert_eq!(calculate_fee_growth(1000, 1_000_000).unwrap(), 18_446_744_073_709_551);
    // a fee over a single unit of liquidity is the fee itself in Q64.64
    assert_eq!(calculate_fee_growth(1, 1).unwrap(), 1u128 << 64);
    // zero liquidity cannot absorb a fee
    assert_eq!(calculate_fee_growth(1000, 0), Err(ErrorCode::ZeroLiquidity));
    // a fee that does not fit 64 bits overflows the scaling
    assert_eq!(calculate_fee_growth(1u128 << 64, 1), Err(ErrorCode::MathOverflow));
}

#[test]
fn test_compute_uncollected_fees_values() {
    // growth delta of 2^64 per unit over 5 units of liquidity
    let inside = 1u128 << 64;
    assert_eq!(compute_uncollected_fees(5, inside, 0).unwrap(), 5);
    // wrapping delta: last snapshot above current value wraps around
    let last = u128::MAX;
    assert_eq!(compute_uncollected_fees(1, (1u128 << 64) - 1, last).unwrap(), 1);
    // overflow of delta * liquidity is rejected
    assert_eq!(
        compute_uncollected_fees(u128::MAX, 2, 0),
        Err(ErrorCode::MathOverflow)
    );
}

#[test]
fn test_update_position_fees() {
    // a pool that accumulated one Q64.64 unit of growth per unit of
    // liquidity for token 0, and three for token 1, since the position's
    // last settlement
    let mut pool = create_pool(1, 2, 3000, 10, 1, 1u128 << 64).unwrap();
    pool.fee_growth_global_0_x64 = 1u128 << 64;
    pool.fee_growth_global_1_x64 = 3u128 << 64;
    let tick_lower = tick_with_outside(-10, 0, 0);
    let tick_upper = tick_with_outside(10, 0, 0);
    let mut position = Position {
        pool: 1,
        owner: 2,
        tick_lower_index: -10,
        tick_upper_index: 10,
        liquidity: 7,
        fee_growth_inside_0_last_x64: 0,
        fee_growth_inside_1_last_x64: 0,
        tokens_owed_0: 0,
        tokens_owed_1: 0,
    };
    let (uncollected_0, uncollected_1) =
        update_position_fees(&mut position, &pool, &tick_lower, &tick_upper).unwrap();
    assert_eq!(uncollected_0, 7);
    assert_eq!(uncollected_1, 21);
    // the snapshots moved forward, so settling again yields nothing
    assert_eq!(position.fee_growth_inside_0_last_x64, 1u128 << 64);
    assert_eq!(position.fee_growth_inside_1_last_x64, 3u128 << 64);
    let again = update_position_fees(&mut position, &pool, &tick_lower, &tick_upper).unwrap();
    assert_eq!(again, (0, 0));
}
