//! Pool lifecycle: creation, parameter updates, protocol-fee collection.

use vstd::prelude::*;

use crate::errors::ErrorCode;
use crate::fees::{MAX_PROTOCOL_FEE_RATE, MIN_PROTOCOL_FEE_RATE};
use crate::state::{Pool, MAX_FEE_RATE, MAX_TICK_SPACING};
use crate::tick_math::{sqrt_price_x64_to_tick, MAX_SQRT_PRICE_X64, MIN_SQRT_PRICE_X64};

verus! {

/// Create a pool for an ordered token pair at a caller-supplied price.
///
/// Validates, in this order: the fee rate (at most 10%), the protocol fee
/// rate (1 to 25 percent of the fee), the tick spacing (1 to 100), the
/// canonical token order, and the initial sqrt price (within the global
/// bounds). A fresh pool has no liquidity and no accumulated fees; its
/// current tick is the bucket containing the initial price.
pub fn create_pool(
    token_mint_0: u64,
    token_mint_1: u64,
    fee_rate: u32,
    protocol_fee_rate: u8,
    tick_spacing: u16,
    initial_sqrt_price_x64: u128,
) -> (r: Result<Pool, ErrorCode>)
    ensures
        fee_rate > MAX_FEE_RATE ==> r == Err::<Pool, ErrorCode>(ErrorCode::InvalidFeeRate),
        fee_rate <= MAX_FEE_RATE && !(MIN_PROTOCOL_FEE_RATE <= protocol_fee_rate
            <= MAX_PROTOCOL_FEE_RATE) ==> r == Err::<Pool, ErrorCode>(
            ErrorCode::InvalidProtocolFeeRate,
        ),
        fee_rate <= MAX_FEE_RATE && MIN_PROTOCOL_FEE_RATE <= protocol_fee_rate
            <= MAX_PROTOCOL_FEE_RATE && !(1 <= tick_spacing <= MAX_TICK_SPACING) ==> r == Err::<
            Pool,
            ErrorCode,
        >(ErrorCode::InvalidTickSpacing),
        fee_rate <= MAX_FEE_RATE && MIN_PROTOCOL_FEE_RATE <= protocol_fee_rate
            <= MAX_PROTOCOL_FEE_RATE && 1 <= tick_spacing <= MAX_TICK_SPACING && !(token_mint_0
            < token_mint_1) ==> r == Err::<Pool, ErrorCode>(ErrorCode::InvalidTokenPair),
        fee_rate <= MAX_FEE_RATE && MIN_PROTOCOL_FEE_RATE <= protocol_fee_rate
            <= MAX_PROTOCOL_FEE_RATE && 1 <= tick_spacing <= MAX_TICK_SPACING && token_mint_0
            < token_mint_1 && !(MIN_SQRT_PRICE_X64 <= initial_sqrt_price_x64
            <= MAX_SQRT_PRICE_X64) ==> r == Err::<Pool, ErrorCode>(ErrorCode::InvalidPriceLimit),
        fee_rate <= MAX_FEE_RATE && MIN_PROTOCOL_FEE_RATE <= protocol_fee_rate
            <= MAX_PROTOCOL_FEE_RATE && 1 <= tick_spacing <= MAX_TICK_SPACING && token_mint_0
            < token_mint_1 && MIN_SQRT_PRICE_X64 <= initial_sqrt_price_x64 <= MAX_SQRT_PRICE_X64
            ==> {
            &&& r is Ok
            &&& r.unwrap().wf()
            &&& r.unwrap() == (Pool {
                token_mint_0,
                token_mint_1,
                fee_rate,
                protocol_fee_rate,
                tick_spacing,
                liquidity: 0,
                sqrt_price_x64: initial_sqrt_price_x64,
                tick_current: r.unwrap().tick_current,
                fee_growth_global_0_x64: 0,
                fee_growth_global_1_x64: 0,
                protocol_fees_0: 0,
                protocol_fees_1: 0,
            })
        },
{
    if fee_rate > MAX_FEE_RATE {
        return Err(ErrorCode::InvalidFeeRate);
    }
    if protocol_fee_rate < MIN_PROTOCOL_FEE_RATE || protocol_fee_rate > MAX_PROTOCOL_FEE_RATE {
        return Err(ErrorCode::InvalidProtocolFeeRate);
    }
    if tick_spacing < 1 || tick_spacing > MAX_TICK_SPACING {
        return Err(ErrorCode::InvalidTickSpacing);
    }
    if token_mint_0 >= token_mint_1 {
        return Err(ErrorCode::InvalidTokenPair);
    }
    let tick_current = match sqrt_price_x64_to_tick(initial_sqrt_price_x64) {
        Ok(t) => t,
        Err(e) => {
            return Err(e);
        },
    };
    Ok(
        Pool {
            token_mint_0,
            token_mint_1,
            fee_rate,
            protocol_fee_rate,
            tick_spacing,
            liquidity: 0,
            sqrt_price_x64: initial_sqrt_price_x64,
            tick_current,
            fee_growth_global_0_x64: 0,
            fee_growth_global_1_x64: 0,
            protocol_fees_0: 0,
            protocol_fees_1: 0,
        },
    )
}

/// Update the pool's fee configuration; a `None` leaves a parameter as it
/// was. Both new values are validated before anything changes.
pub fn update_pool(pool: &mut Pool, fee_rate: Option<u32>, protocol_fee_rate: Option<u8>) -> (r:
    Result<(), ErrorCode>)
    requires
        old(pool).wf(),
    ensures
        final(pool).wf(),
        fee_rate is Some && fee_rate.unwrap() > MAX_FEE_RATE ==> r == Err::<(), ErrorCode>(
            ErrorCode::InvalidFeeRate,
        ) && *final(pool) == *old(pool),
        !(fee_rate is Some && fee_rate.unwrap() > MAX_FEE_RATE) && protocol_fee_rate is Some && !(
        MIN_PROTOCOL_FEE_RATE <= protocol_fee_rate.unwrap() <= MAX_PROTOCOL_FEE_RATE) ==> r
            == Err::<(), ErrorCode>(ErrorCode::InvalidProtocolFeeRate) && *final(pool) == *old(
            pool,
        ),
        !(fee_rate is Some && fee_rate.unwrap() > MAX_FEE_RATE) && !(protocol_fee_rate is Some
            && !(MIN_PROTOCOL_FEE_RATE <= protocol_fee_rate.unwrap() <= MAX_PROTOCOL_FEE_RATE))
            ==> r == Ok::<(), ErrorCode>(()) && *final(pool) == (Pool {
            fee_rate: if fee_rate is Some {
                fee_rate.unwrap()
            } else {
                old(pool).fee_rate
            },
            protocol_fee_rate: if protocol_fee_rate is Some {
                protocol_fee_rate.unwrap()
            } else {
                old(pool).protocol_fee_rate
            },
            ..*old(pool)
        }),
{
    if let Some(new_fee_rate) = fee_rate {
        if new_fee_rate > MAX_FEE_RATE {
            return Err(ErrorCode::InvalidFeeRate);
        }
    }
    if let Some(new_protocol_fee_rate) = protocol_fee_rate {
        if new_protocol_fee_rate < MIN_PROTOCOL_FEE_RATE || new_protocol_fee_rate
            > MAX_PROTOCOL_FEE_RATE {
            return Err(ErrorCode::InvalidProtocolFeeRate);
        }
    }
    if let Some(new_fee_rate) = fee_rate {
        pool.fee_rate = new_fee_rate;
    }
    if let Some(new_protocol_fee_rate) = protocol_fee_rate {
        pool.protocol_fee_rate = new_protocol_fee_rate;
    }
    Ok(())
}

/// Withdraw the accumulated protocol fees, resetting both balances to zero.
/// Returns the amounts owed to the treasury; the host performs the actual
/// transfers after this call.
pub fn collect_protocol_fees(pool: &mut Pool) -> (r: (u64, u64))
    requires
        old(pool).wf(),
    ensures
        final(pool).wf(),
        r == (old(pool).protocol_fees_0, old(pool).protocol_fees_1),
        *final(pool) == (Pool { protocol_fees_0: 0, protocol_fees_1: 0, ..*old(pool) }),
{
    let amount_0 = pool.protocol_fees_0;
    let amount_1 = pool.protocol_fees_1;
    pool.protocol_fees_0 = 0;
    pool.protocol_fees_1 = 0;
    (amount_0, amount_1)
}

} // verus!
