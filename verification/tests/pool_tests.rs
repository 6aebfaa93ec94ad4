use btb_finance_clmm::errors::ErrorCode;
use btb_finance_clmm::pool::{collect_protocol_fees, create_pool, update_pool};
use btb_finance_clmm::tick_math::{MAX_SQRT_PRICE_X64, MIN_SQRT_PRICE_X64, Q64};

#[test]
fn test_create_pool() {
    // Test successful pool creation
    let result = create_pool(1, 2, 3000, 10, 1, Q64);
    assert!(result.is_ok(), "Pool creation should succeed");
    let pool = result.unwrap();
    assert_eq!(pool.fee_rate, 3000);
    assert_eq!(pool.protocol_fee_rate, 10);
    assert_eq!(pool.tick_spacing, 1);
    assert_eq!(pool.liquidity, 0);
    assert_eq!(pool.sqrt_price_x64, Q64);
    assert_eq!(pool.tick_current, 0);
    assert_eq!(pool.fee_growth_global_0_x64, 0);
    assert_eq!(pool.fee_growth_global_1_x64, 0);

    // Test invalid fee rate
    let result = create_pool(1, 2, 100_001, 10, 1, Q64);
    assert_eq!(result.unwrap_err(), ErrorCode::InvalidFeeRate);

    // Test invalid protocol fee rate
    let result = create_pool(1, 2, 3000, 26, 1, Q64);
    assert_eq!(result.unwrap_err(), ErrorCode::InvalidProtocolFeeRate);

    // Test invalid tick spacing
    let result = create_pool(1, 2, 3000, 10, 101, Q64);
    assert_eq!(result.unwrap_err(), ErrorCode::InvalidTickSpacing);

    // Test token order
    let result = create_pool(2, 2, 3000, 10, 1, Q64);
    assert_eq!(result.unwrap_err(), ErrorCode::InvalidTokenPair);

    // Test out-of-bounds initial price
    let result = create_pool(1, 2, 3000, 10, 1, MIN_SQRT_PRICE_X64 - 1);
    assert_eq!(result.unwrap_err(), ErrorCode::InvalidPriceLimit);
}

#[test]
fn test_update_pool() {
    let mut pool = create_pool(1, 2, 3000, 10, 1, Q64).unwrap();

    // Test updating fee rate
    let result = update_pool(&mut pool, Some(2000), None);
    assert!(result.is_ok(), "Fee rate update should succeed");
    assert_eq!(pool.fee_rate, 2000);

    // Test updating protocol fee rate
    let result = update_pool(&mut pool, None, Some(15));
    assert!(result.is_ok(), "Protocol fee rate update should succeed");
    assert_eq!(pool.protocol_fee_rate, 15);

    // Test invalid fee rate
    let result = update_pool(&mut pool, Some(100_001), None);
    assert_eq!(result.unwrap_err(), ErrorCode::InvalidFeeRate);
    assert_eq!(pool.fee_rate, 2000);

    // Test invalid protocol fee rate
    let result = update_pool(&mut pool, None, Some(26));
    assert_eq!(result.unwrap_err(), ErrorCode::InvalidProtocolFeeRate);
    assert_eq!(pool.protocol_fee_rate, 15);
}

#[test]
fn test_collect_protocol_fees() {
    let mut pool = create_pool(1, 2, 3000, 10, 1, Q64).unwrap();
    pool.protocol_fees_0 = 1234;
    pool.protocol_fees_1 = 5678;

    // Test successful fee collection
    let (amount_0, amount_1) = collect_protocol_fees(&mut pool);
    assert_eq!((amount_0, amount_1), (1234, 5678));
    assert_eq!(pool.protocol_fees_0, 0);
    assert_eq!(pool.protocol_fees_1, 0);

    // Test fee collection with zero fees
    let (amount_0, amount_1) = collect_protocol_fees(&mut pool);
    assert_eq!((amount_0, amount_1), (0, 0));
}

#[test]
fn test_pool_boundaries() {
    // Test minimum valid values
    let result = create_pool(1, 2, 0, 1, 1, MIN_SQRT_PRICE_X64);
    assert!(result.is_ok(), "Should succeed with min values");

    // Test maximum valid values
    let result = create_pool(1, 2, 100_000, 25, 100, MAX_SQRT_PRICE_X64);
    assert!(result.is_ok(), "Should succeed with max values");

    // Test mixed boundary values
    let result = create_pool(1, 2, 100_000, 1, 100, Q64);
    assert!(result.is_ok(), "Should succeed with mixed boundaries");
}
