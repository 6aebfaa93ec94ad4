//! Standalone validation checks shared by the host's entry points.
//!
//! Each check states exactly when it passes; a failure names the violated
//! constraint and leaves everything untouched.

use vstd::prelude::*;

use crate::errors::ErrorCode;

verus! {

/// A price range must be ordered, and the current price must lie inside it.
pub fn validate_price_range(lower_price: u128, upper_price: u128, current_price: u128) -> (r:
    Result<(), ErrorCode>)
    ensures
        lower_price >= upper_price ==> r == Err::<(), ErrorCode>(ErrorCode::InvalidPriceRange),
        lower_price < upper_price && !(lower_price <= current_price <= upper_price) ==> r
            == Err::<(), ErrorCode>(ErrorCode::PriceLimitReached),
        lower_price < upper_price && lower_price <= current_price <= upper_price ==> r == Ok::<
            (),
            ErrorCode,
        >(()),
{
    if lower_price >= upper_price {
        return Err(ErrorCode::InvalidPriceRange);
    }
    if current_price < lower_price || current_price > upper_price {
        return Err(ErrorCode::PriceLimitReached);
    }
    Ok(())
}

/// At least one of the two deposit amounts must reach the required minimum.
pub fn validate_liquidity_amounts(amount_0: u64, amount_1: u64, min_amount: u64) -> (r: Result<
    (),
    ErrorCode,
>)
    ensures
        (amount_0 >= min_amount || amount_1 >= min_amount) <==> r == Ok::<(), ErrorCode>(()),
        !(amount_0 >= min_amount || amount_1 >= min_amount) <==> r == Err::<(), ErrorCode>(
            ErrorCode::ZeroLiquidity,
        ),
{
    if amount_0 >= min_amount || amount_1 >= min_amount {
        Ok(())
    } else {
        Err(ErrorCode::ZeroLiquidity)
    }
}

/// Both range bounds must be aligned to the pool's tick spacing.
pub fn validate_tick_spacing(tick_spacing: u16, tick_lower: i32, tick_upper: i32) -> (r: Result<
    (),
    ErrorCode,
>)
    requires
        tick_spacing >= 1,
    ensures
        (tick_lower as int % tick_spacing as int == 0 && tick_upper as int % tick_spacing as int
            == 0) <==> r == Ok::<(), ErrorCode>(()),
        !(tick_lower as int % tick_spacing as int == 0 && tick_upper as int % tick_spacing as int
            == 0) <==> r == Err::<(), ErrorCode>(ErrorCode::InvalidTickSpacing),
{
    let lower_ok = crate::tick_array::is_multiple_of_spacing(tick_lower, tick_spacing);
    let upper_ok = crate::tick_array::is_multiple_of_spacing(tick_upper, tick_spacing);
    if lower_ok && upper_ok {
        Ok(())
    } else {
        Err(ErrorCode::InvalidTickSpacing)
    }
}

/// A caller must be the expected authority.
pub fn check_authority(authority: u64, expected: u64) -> (r: Result<(), ErrorCode>)
    ensures
        authority == expected <==> r == Ok::<(), ErrorCode>(()),
        authority != expected <==> r == Err::<(), ErrorCode>(ErrorCode::InvalidAuthority),
{
    if authority == expected {
        Ok(())
    } else {
        Err(ErrorCode::InvalidAuthority)
    }
}

/// A fee withdrawal must not ask for more than was collected.
pub fn validate_fee_amounts(collected_amount: u64, requested_amount: u64) -> (r: Result<
    (),
    ErrorCode,
>)
    ensures
        collected_amount >= requested_amount <==> r == Ok::<(), ErrorCode>(()),
        collected_amount < requested_amount <==> r == Err::<(), ErrorCode>(
            ErrorCode::InsufficientProtocolFees,
        ),
{
    if collected_amount >= requested_amount {
        Ok(())
    } else {
        Err(ErrorCode::InsufficientProtocolFees)
    }
}

} // verus!
