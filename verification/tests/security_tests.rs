use btb_finance_clmm::errors::ErrorCode;
use btb_finance_clmm::security::{
    check_authority, validate_fee_amounts, validate_liquidity_amounts, validate_price_range,
    validate_tick_spacing,
};

#[test]
fn test_price_range_validation() {
    // Valid price range
    let result = validate_price_range(100, 200, 150);
    assert!(result.is_ok());

    // Invalid: lower >= upper
    let result = validate_price_range(200, 100, 150);
    assert!(matches!(result.unwrap_err(), ErrorCode::InvalidPriceRange));

    // Invalid: current price out of range (below)
    let result = validate_price_range(100, 200, 50);
    assert!(matches!(result.unwrap_err(), ErrorCode::PriceLimitReached));

    // Invalid: current price out of range (above)
    let result = validate_price_range(100, 200, 250);
    assert!(matches!(result.unwrap_err(), ErrorCode::PriceLimitReached));
}

#[test]
fn test_liquidity_validation() {
    // Valid amounts
    let result = validate_liquidity_amounts(1000, 2000, 500);
    assert!(result.is_ok());

    // Invalid: both amounts below minimum
    let result = validate_liquidity_amounts(100, 200, 500);
    assert!(matches!(result.unwrap_err(), ErrorCode::ZeroLiquidity));

    // Valid: one amount meets the minimum
    let result = validate_liquidity_amounts(600, 100, 500);
    assert!(result.is_ok());
}

#[test]
fn test_tick_spacing_validation() {
    // Valid tick alignment
    let result = validate_tick_spacing(10, -100, 100);
    assert!(result.is_ok());

    // Invalid lower tick
    let result = validate_tick_spacing(10, -105, 100);
    assert!(matches!(result.unwrap_err(), ErrorCode::InvalidTickSpacing));

    // Invalid upper tick
    let result = validate_tick_spacing(10, -100, 105);
    assert!(matches!(result.unwrap_err(), ErrorCode::InvalidTickSpacing));
}

#[test]
fn test_authority_validation() {
    let owner: u64 = 11;
    let attacker: u64 = 22;

    // Valid authority
    let result = check_authority(owner, owner);
    assert!(result.is_ok());

    // Invalid authority
    let result = check_authority(attacker, owner);
    assert!(matches!(result.unwrap_err(), ErrorCode::InvalidAuthority));
}

#[test]
fn security_tests_test_fee_validation() {
    // Valid fee amounts
    let result = validate_fee_amounts(1000, 500);
    assert!(result.is_ok());

    // Invalid: requested exceeds collected
    let result = validate_fee_amounts(500, 1000);
    assert!(matches!(result.unwrap_err(), ErrorCode::InsufficientProtocolFees));

    // Valid: exact amount
    let result = validate_fee_amounts(1000, 1000);
    assert!(result.is_ok());
}

#[test]
fn test_combined_validations() {
    // a consistent request passes every check
    assert!(validate_price_range(100, 200, 150).is_ok());
    assert!(validate_liquidity_amounts(1000, 2000, 500).is_ok());
    assert!(validate_tick_spacing(10, -100, 100).is_ok());
    assert!(check_authority(5, 5).is_ok());

    // a single failing check rejects the request
    assert!(check_authority(5, 6).is_err());
    let cases = [(0u64, 0u64, 1u64, false), (1, 0, 1, true), (0, 1, 1, true)];
    for (amount_0, amount_1, min_amount, expected) in cases {
        let result = validate_liquidity_amounts(amount_0, amount_1, min_amount);
        assert_eq!(result.is_ok(), expected);
    }
}
