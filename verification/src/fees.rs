//! Trading-fee arithmetic.
//!
//! Pure functions: the trading fee taken from a swap input, the protocol's
//! share of that fee, and the per-unit-liquidity growth credited to liquidity
//! providers. All rounding is downward; all arithmetic is checked except the
//! fee-growth accumulators, which are modular by design.

use vstd::prelude::*;

use crate::errors::ErrorCode;
use crate::state::{Pool, Position, Tick};

verus! {

/// Subtraction modulo 2^128, the arithmetic of all fee-growth accumulators.
pub open spec fn wrap_sub(a: u128, b: u128) -> u128 {
    vstd::wrapping::u128_specs::wrapping_sub(a, b)
}

/// Addition modulo 2^128.
pub open spec fn wrap_add(a: u128, b: u128) -> u128 {
    vstd::wrapping::u128_specs::wrapping_add(a, b)
}

/// Fee rates are expressed in hundredths of a bip: parts per million.
pub const FEE_RATE_DENOMINATOR: u64 = 1_000_000;

/// The protocol fee rate is a percentage of the trading fee.
pub const PROTOCOL_FEE_DENOMINATOR: u64 = 100;

/// Smallest admissible protocol fee rate (1%).
pub const MIN_PROTOCOL_FEE_RATE: u8 = 1;

/// Largest admissible protocol fee rate (25%).
pub const MAX_PROTOCOL_FEE_RATE: u8 = 25;

/// 2^64, the scale factor of Q64.64 fixed-point values.
pub const Q64: u128 = 0x1_0000_0000_0000_0000;

/// The trading fee on `amount_in` at `fee_rate` parts per million, rounded
/// down. An input below the rounding threshold pays zero fee.
pub open spec fn fee_of(amount_in: u128, fee_rate: u32) -> int {
    (amount_in * fee_rate) / (FEE_RATE_DENOMINATOR as int)
}

/// The protocol's cut of a trading fee at `protocol_fee_rate` percent,
/// rounded down.
pub open spec fn protocol_fee_of(fee_amount: u128, protocol_fee_rate: u8) -> int {
    (fee_amount * protocol_fee_rate) / (PROTOCOL_FEE_DENOMINATOR as int)
}

/// Per-unit-liquidity fee growth: the fee scaled to Q64.64 and spread over
/// `liquidity`, rounded down.
pub open spec fn fee_growth_of(fee_amount: u128, liquidity: u128) -> int {
    (fee_amount * Q64) / (liquidity as int)
}

/// Split a swap input into the trading fee and the amount that remains.
///
/// Returns `(fee, amount_after_fee)` with `fee` rounded down. Fails with
/// `MathOverflow` if the product `amount_in * fee_rate` exceeds `u128`, or if
/// `fee_rate` is so large (above one million) that the fee would exceed the
/// input itself.
pub fn calculate_fee_amount(amount_in: u128, fee_rate: u32) -> (r: Result<
    (u128, u128),
    ErrorCode,
>)
    ensures
        amount_in * fee_rate > u128::MAX ==> r == Err::<(u128, u128), ErrorCode>(
            ErrorCode::MathOverflow,
        ),
        amount_in * fee_rate <= u128::MAX && fee_of(amount_in, fee_rate) > amount_in ==> r == Err::<
            (u128, u128),
            ErrorCode,
        >(ErrorCode::MathOverflow),
        amount_in * fee_rate <= u128::MAX && fee_of(amount_in, fee_rate) <= amount_in ==> r == Ok::<
            (u128, u128),
            ErrorCode,
        >(
            (
                fee_of(amount_in, fee_rate) as u128,
                (amount_in - fee_of(amount_in, fee_rate)) as u128,
            ),
        ),
{
    let product = match amount_in.checked_mul(fee_rate as u128) {
        Some(p) => p,
        None => {
            return Err(ErrorCode::MathOverflow);
        },
    };
    let fee_amount = product / (FEE_RATE_DENOMINATOR as u128);
    let amount_after_fee = match amount_in.checked_sub(fee_amount) {
        Some(a) => a,
        None => {
            return Err(ErrorCode::MathOverflow);
        },
    };
    Ok((fee_amount, amount_after_fee))
}

/// The protocol treasury's share of a collected trading fee.
///
/// Rejects a `protocol_fee_rate` outside [1, 25]; fails with `MathOverflow`
/// if `fee_amount * protocol_fee_rate` exceeds `u128`.
pub fn calculate_protocol_fee(fee_amount: u128, protocol_fee_rate: u8) -> (r: Result<
    u128,
    ErrorCode,
>)
    ensures
        protocol_fee_rate < MIN_PROTOCOL_FEE_RATE || protocol_fee_rate > MAX_PROTOCOL_FEE_RATE
            ==> r == Err::<u128, ErrorCode>(ErrorCode::InvalidProtocolFeeRate),
        MIN_PROTOCOL_FEE_RATE <= protocol_fee_rate <= MAX_PROTOCOL_FEE_RATE && fee_amount
            * protocol_fee_rate > u128::MAX ==> r == Err::<u128, ErrorCode>(ErrorCode::MathOverflow),
        MIN_PROTOCOL_FEE_RATE <= protocol_fee_rate <= MAX_PROTOCOL_FEE_RATE && fee_amount
            * protocol_fee_rate <= u128::MAX ==> r == Ok::<u128, ErrorCode>(
            protocol_fee_of(fee_amount, protocol_fee_rate) as u128,
        ),
{
    if protocol_fee_rate < MIN_PROTOCOL_FEE_RATE || protocol_fee_rate > MAX_PROTOCOL_FEE_RATE {
        return Err(ErrorCode::InvalidProtocolFeeRate);
    }
    let product = match fee_amount.checked_mul(protocol_fee_rate as u128) {
        Some(p) => p,
        None => {
            return Err(ErrorCode::MathOverflow);
        },
    };
    Ok(product / (PROTOCOL_FEE_DENOMINATOR as u128))
}

/// The Q64.64 fee-growth increment produced by spreading `fee_amount` over
/// `liquidity` units.
///
/// A pool with zero active liquidity cannot absorb a fee: that case fails
/// with `ZeroLiquidity` rather than silently skipping accrual. Fails with
/// `MathOverflow` if `fee_amount` does not fit in 64 bits, since the Q64.64
/// scaling would then overflow.
pub fn calculate_fee_growth(fee_amount: u128, liquidity: u128) -> (r: Result<u128, ErrorCode>)
    ensures
        liquidity == 0 ==> r == Err::<u128, ErrorCode>(ErrorCode::ZeroLiquidity),
        liquidity > 0 && fee_amount * Q64 > u128::MAX ==> r == Err::<u128, ErrorCode>(
            ErrorCode::MathOverflow,
        ),
        liquidity > 0 && fee_amount * Q64 <= u128::MAX ==> r == Ok::<u128, ErrorCode>(
            fee_growth_of(fee_amount, liquidity) as u128,
        ),
{
    if liquidity == 0 {
        return Err(ErrorCode::ZeroLiquidity);
    }
    let scaled = match fee_amount.checked_mul(Q64) {
        Some(s) => s,
        None => {
            return Err(ErrorCode::MathOverflow);
        },
    };
    Ok(scaled / liquidity)
}

/// Fee growth below a range's lower tick: the tick's stored outside value
/// while the price sits at or above it, its complement otherwise.
pub open spec fn growth_below(tick_current: int, tick_index: int, global: u128, outside: u128) -> u128 {
    if tick_current >= tick_index {
        outside
    } else {
        wrap_sub(global, outside)
    }
}

/// Fee growth above a range's upper tick: the tick's stored outside value
/// while the price sits below it, its complement otherwise.
pub open spec fn growth_above(tick_current: int, tick_index: int, global: u128, outside: u128) -> u128 {
    if tick_current < tick_index {
        outside
    } else {
        wrap_sub(global, outside)
    }
}

/// Fee growth inside a range: global growth minus the growth below the lower
/// tick and above the upper tick, modulo 2^128.
pub open spec fn growth_inside(
    tick_current: int,
    lower_index: int,
    upper_index: int,
    global: u128,
    outside_lower: u128,
    outside_upper: u128,
) -> u128 {
    wrap_sub(
        wrap_sub(global, growth_below(tick_current, lower_index, global, outside_lower)),
        growth_above(tick_current, upper_index, global, outside_upper),
    )
}

/// Fee growth inside a tick range for both tokens, by the three-way tick
/// comparison against the current tick.
pub fn compute_fee_growth_inside(
    tick_current: i32,
    fee_growth_global_0_x64: u128,
    fee_growth_global_1_x64: u128,
    tick_lower: &Tick,
    tick_upper: &Tick,
) -> (r: Result<(u128, u128), ErrorCode>)
    ensures
        r == Ok::<(u128, u128), ErrorCode>(
            (
                growth_inside(
                    tick_current as int,
                    tick_lower.index as int,
                    tick_upper.index as int,
                    fee_growth_global_0_x64,
                    tick_lower.fee_growth_outside_0_x64,
                    tick_upper.fee_growth_outside_0_x64,
                ),
                growth_inside(
                    tick_current as int,
                    tick_lower.index as int,
                    tick_upper.index as int,
                    fee_growth_global_1_x64,
                    tick_lower.fee_growth_outside_1_x64,
                    tick_upper.fee_growth_outside_1_x64,
                ),
            ),
        ),
{
    let (fee_growth_below_0_x64, fee_growth_below_1_x64) = if tick_current >= tick_lower.index {
        (tick_lower.fee_growth_outside_0_x64, tick_lower.fee_growth_outside_1_x64)
    } else {
        (
            fee_growth_global_0_x64.wrapping_sub(tick_lower.fee_growth_outside_0_x64),
            fee_growth_global_1_x64.wrapping_sub(tick_lower.fee_growth_outside_1_x64),
        )
    };
    let (fee_growth_above_0_x64, fee_growth_above_1_x64) = if tick_current < tick_upper.index {
        (tick_upper.fee_growth_outside_0_x64, tick_upper.fee_growth_outside_1_x64)
    } else {
        (
            fee_growth_global_0_x64.wrapping_sub(tick_upper.fee_growth_outside_0_x64),
            fee_growth_global_1_x64.wrapping_sub(tick_upper.fee_growth_outside_1_x64),
        )
    };
    Ok(
        (
            fee_growth_global_0_x64.wrapping_sub(fee_growth_below_0_x64).wrapping_sub(
                fee_growth_above_0_x64,
            ),
            fee_growth_global_1_x64.wrapping_sub(fee_growth_below_1_x64).wrapping_sub(
                fee_growth_above_1_x64,
            ),
        ),
    )
}

/// The fees a position has earned since its last settlement: the modular
/// growth delta times its liquidity, scaled down from Q64.64.
pub fn compute_uncollected_fees(
    liquidity: u128,
    fee_growth_inside_x64: u128,
    fee_growth_inside_last_x64: u128,
) -> (r: Result<u128, ErrorCode>)
    ensures
        ({
            let delta = wrap_sub(fee_growth_inside_x64, fee_growth_inside_last_x64);
            if delta * liquidity > u128::MAX {
                r == Err::<u128, ErrorCode>(ErrorCode::MathOverflow)
            } else {
                r == Ok::<u128, ErrorCode>(((delta * liquidity) / (Q64 as int)) as u128)
            }
        }),
{
    let fee_delta = fee_growth_inside_x64.wrapping_sub(fee_growth_inside_last_x64);
    let scaled = match fee_delta.checked_mul(liquidity) {
        Some(s) => s,
        None => {
            return Err(ErrorCode::MathOverflow);
        },
    };
    Ok(scaled / Q64)
}

/// Settle a position against the current fee growth of its range: report the
/// uncollected fees for both tokens and move the snapshots forward.
///
/// On `MathOverflow` (a growth delta times the position's liquidity leaving
/// 128 bits) the position is unchanged.
pub fn update_position_fees(
    position: &mut Position,
    pool: &Pool,
    tick_lower: &Tick,
    tick_upper: &Tick,
) -> (r: Result<(u128, u128), ErrorCode>)
    ensures
        ({
            let gi0 = growth_inside(
                pool.tick_current as int,
                tick_lower.index as int,
                tick_upper.index as int,
                pool.fee_growth_global_0_x64,
                tick_lower.fee_growth_outside_0_x64,
                tick_upper.fee_growth_outside_0_x64,
            );
            let gi1 = growth_inside(
                pool.tick_current as int,
                tick_lower.index as int,
                tick_upper.index as int,
                pool.fee_growth_global_1_x64,
                tick_lower.fee_growth_outside_1_x64,
                tick_upper.fee_growth_outside_1_x64,
            );
            let d0 = wrap_sub(gi0, old(position).fee_growth_inside_0_last_x64);
            let d1 = wrap_sub(gi1, old(position).fee_growth_inside_1_last_x64);
            let l = old(position).liquidity;
            if d0 * l > u128::MAX || d1 * l > u128::MAX {
                r == Err::<(u128, u128), ErrorCode>(ErrorCode::MathOverflow) && *final(position)
                    == *old(position)
            } else {
                &&& r == Ok::<(u128, u128), ErrorCode>(
                    (((d0 * l) / (Q64 as int)) as u128, ((d1 * l) / (Q64 as int)) as u128),
                )
                &&& *final(position) == (Position {
                    fee_growth_inside_0_last_x64: gi0,
                    fee_growth_inside_1_last_x64: gi1,
                    ..*old(position)
                })
            }
        }),
{
    let (fee_growth_inside_0_x64, fee_growth_inside_1_x64) = match compute_fee_growth_inside(
        pool.tick_current,
        pool.fee_growth_global_0_x64,
        pool.fee_growth_global_1_x64,
        tick_lower,
        tick_upper,
    ) {
        Ok(g) => g,
        Err(e) => {
            return Err(e);
        },
    };
    let uncollected_fees_0 = match compute_uncollected_fees(
        position.liquidity,
        fee_growth_inside_0_x64,
        position.fee_growth_inside_0_last_x64,
    ) {
        Ok(f) => f,
        Err(e) => {
            return Err(e);
        },
    };
    let uncollected_fees_1 = match compute_uncollected_fees(
        position.liquidity,
        fee_growth_inside_1_x64,
        position.fee_growth_inside_1_last_x64,
    ) {
        Ok(f) => f,
        Err(e) => {
            return Err(e);
        },
    };
    position.fee_growth_inside_0_last_x64 = fee_growth_inside_0_x64;
    position.fee_growth_inside_1_last_x64 = fee_growth_inside_1_x64;
    Ok((uncollected_fees_0, uncollected_fees_1))
}

} // verus!
