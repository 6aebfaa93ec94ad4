//! The tick registry: fixed windows of 88 tick slots.
//!
//! A tick array covers the consecutive coordinates `start .. start + 88`.
//! Opening a position touches the two boundary ticks of its range; a swap
//! that moves the price past a tick crosses it, transferring its liquidity
//! delta into or out of the pool and flipping its outside fee growth.

use vstd::prelude::*;

use vstd::arithmetic::div_mod::{lemma_fundamental_div_mod, lemma_mod_multiples_basic};

use crate::errors::ErrorCode;
use crate::state::{Pool, Tick, TickArray, TICK_ARRAY_SIZE};
use crate::tick_math::tick_in_range;

verus! {

/// Euclidean divisibility is insensitive to sign.
proof fn lemma_neg_divisible(a: int, s: int)
    requires
        s > 0,
    ensures
        (a % s == 0) <==> ((-a) % s == 0),
{
    if a % s == 0 {
        lemma_fundamental_div_mod(a, s);
        lemma_mod_multiples_basic(-(a / s), s);
        assert(-a == (-(a / s)) * s) by (nonlinear_arith)
            requires
                a == s * (a / s),
        ;
    }
    if (-a) % s == 0 {
        lemma_fundamental_div_mod(-a, s);
        lemma_mod_multiples_basic(-((-a) / s), s);
        assert(a == (-((-a) / s)) * s) by (nonlinear_arith)
            requires
                -a == s * ((-a) / s),
        ;
    }
}

/// Whether a tick coordinate is aligned to the pool's tick spacing.
pub fn is_multiple_of_spacing(tick: i32, tick_spacing: u16) -> (r: bool)
    requires
        tick_spacing >= 1,
    ensures
        r == (tick as int % tick_spacing as int == 0),
{
    let s = tick_spacing as u64;
    if tick >= 0 {
        (tick as u64) % s == 0
    } else {
        let a = (-(tick as i64)) as u64;
        let r = a % s == 0;
        proof {
            lemma_neg_divisible(a as int, s as int);
        }
        r
    }
}

/// Whether a tick index may start a tick array: aligned to the spacing and
/// within the tick domain.
pub fn is_valid_tick_index(tick_index: i32, tick_spacing: u16) -> (r: bool)
    requires
        tick_spacing >= 1,
    ensures
        r == (tick_in_range(tick_index as int) && tick_index as int % tick_spacing as int == 0),
{
    let aligned = is_multiple_of_spacing(tick_index, tick_spacing);
    aligned && tick_index >= crate::tick_math::MIN_TICK && tick_index
        <= crate::tick_math::MAX_TICK
}

/// Allocate a tick array of 88 zeroed slots at `start_tick_index`.
///
/// The start index must be aligned to the tick spacing and within the tick
/// domain; otherwise the array is rejected with `InvalidTickIndex`.
pub fn initialize_tick_array(start_tick_index: i32, tick_spacing: u16) -> (r: Result<
    TickArray,
    ErrorCode,
>)
    requires
        tick_spacing >= 1,
    ensures
        !(tick_in_range(start_tick_index as int) && start_tick_index as int
            % tick_spacing as int == 0) ==> r == Err::<TickArray, ErrorCode>(
            ErrorCode::InvalidTickIndex,
        ),
        (tick_in_range(start_tick_index as int) && start_tick_index as int
            % tick_spacing as int == 0) ==> {
            &&& r is Ok
            &&& r.unwrap().wf()
            &&& r.unwrap().start_tick_index == start_tick_index
            &&& forall|i: int|
                0 <= i < TICK_ARRAY_SIZE ==> #[trigger] r.unwrap().ticks[i] == (Tick {
                    index: (start_tick_index + i) as i32,
                    liquidity_net: 0,
                    liquidity_gross: 0,
                    fee_growth_outside_0_x64: 0,
                    fee_growth_outside_1_x64: 0,
                })
        },
{
    if !is_valid_tick_index(start_tick_index, tick_spacing) {
        return Err(ErrorCode::InvalidTickIndex);
    }
    let mut ticks: Vec<Tick> = Vec::new();
    let mut i: usize = 0;
    while i < TICK_ARRAY_SIZE
        invariant
            i <= TICK_ARRAY_SIZE,
            ticks.len() == i,
            tick_in_range(start_tick_index as int),
            forall|j: int|
                0 <= j < i ==> #[trigger] ticks[j] == (Tick {
                    index: (start_tick_index + j) as i32,
                    liquidity_net: 0,
                    liquidity_gross: 0,
                    fee_growth_outside_0_x64: 0,
                    fee_growth_outside_1_x64: 0,
                }),
        decreases TICK_ARRAY_SIZE - i,
    {
        ticks.push(Tick::zeroed(start_tick_index + (i as i32)));
        i = i + 1;
    }
    Ok(TickArray { start_tick_index, ticks })
}

/// Fetch the tick stored at `tick_index`, or `InvalidTickIndex` if the
/// coordinate lies outside this array's 88-slot window.
pub fn get_tick(tick_array: &TickArray, tick_index: i32) -> (r: Result<Tick, ErrorCode>)
    requires
        tick_array.wf(),
    ensures
        tick_array.holds_tick(tick_index as int) ==> r == Ok::<Tick, ErrorCode>(
            tick_array.ticks[tick_index - tick_array.start_tick_index],
        ),
        !tick_array.holds_tick(tick_index as int) ==> r == Err::<Tick, ErrorCode>(
            ErrorCode::InvalidTickIndex,
        ),
{
    if tick_index < tick_array.start_tick_index || (tick_index as i64) >= (
    tick_array.start_tick_index as i64) + (TICK_ARRAY_SIZE as i64) {
        return Err(ErrorCode::InvalidTickIndex);
    }
    let offset = (tick_index - tick_array.start_tick_index) as usize;
    Ok(tick_array.ticks[offset])
}

/// Apply a liquidity delta to the tick at `tick_index`.
///
/// Adds `liquidity_delta` to the tick's `liquidity_net`; when the tick
/// serves as a position boundary (`is_upper_bound` per the caller's
/// bookkeeping), also adds the delta's magnitude to `liquidity_gross`.
/// Rejects a coordinate outside the window with `InvalidTickIndex` and any
/// overflowing update with `MathOverflow`; on error the array is unchanged.
pub fn update_tick(
    tick_array: &mut TickArray,
    tick_index: i32,
    liquidity_delta: i128,
    is_upper_bound: bool,
) -> (r: Result<(), ErrorCode>)
    requires
        old(tick_array).wf(),
    ensures
        final(tick_array).wf(),
        final(tick_array).start_tick_index == old(tick_array).start_tick_index,
        !old(tick_array).holds_tick(tick_index as int) ==> r == Err::<(), ErrorCode>(
            ErrorCode::InvalidTickIndex,
        ) && *final(tick_array) == *old(tick_array),
        old(tick_array).holds_tick(tick_index as int) ==> {
            let off = tick_index - old(tick_array).start_tick_index;
            let t = old(tick_array).ticks[off];
            let new_net = t.liquidity_net + liquidity_delta;
            let new_gross = t.liquidity_gross + abs_delta(liquidity_delta);
            if !(i128::MIN <= new_net <= i128::MAX) || (is_upper_bound && new_gross > u128::MAX) {
                r == Err::<(), ErrorCode>(ErrorCode::MathOverflow) && *final(tick_array) == *old(
                    tick_array,
                )
            } else {
                r == Ok::<(), ErrorCode>(()) && final(tick_array).ticks@ == old(
                    tick_array,
                ).ticks@.update(
                    off,
                    Tick {
                        liquidity_net: new_net as i128,
                        liquidity_gross: if is_upper_bound {
                            new_gross as u128
                        } else {
                            t.liquidity_gross
                        },
                        ..t
                    },
                )
            }
        },
{
    if tick_index < tick_array.start_tick_index || (tick_index as i64) >= (
    tick_array.start_tick_index as i64) + (TICK_ARRAY_SIZE as i64) {
        return Err(ErrorCode::InvalidTickIndex);
    }
    let offset = (tick_index - tick_array.start_tick_index) as usize;
    let t = tick_array.ticks[offset];
    let new_net = match t.liquidity_net.checked_add(liquidity_delta) {
        Some(n) => n,
        None => {
            return Err(ErrorCode::MathOverflow);
        },
    };
    let magnitude: u128 = if liquidity_delta >= 0 {
        liquidity_delta as u128
    } else {
        ((-(liquidity_delta + 1)) as u128) + 1
    };
    let new_gross: u128 = if is_upper_bound {
        match t.liquidity_gross.checked_add(magnitude) {
            Some(g) => g,
            None => {
                return Err(ErrorCode::MathOverflow);
            },
        }
    } else {
        t.liquidity_gross
    };
    let updated = Tick {
        index: t.index,
        liquidity_net: new_net,
        liquidity_gross: new_gross,
        fee_growth_outside_0_x64: t.fee_growth_outside_0_x64,
        fee_growth_outside_1_x64: t.fee_growth_outside_1_x64,
    };
    tick_array.ticks.set(offset, updated);
    Ok(())
}

/// The magnitude of a signed liquidity delta.
pub open spec fn abs_delta(d: i128) -> int {
    if d >= 0 {
        d as int
    } else {
        -(d as int)
    }
}

/// Cross the tick at `tick_index` as the pool price moves past it.
///
/// Moving down through the tick (`pool.tick_current >= tick_index`) removes
/// the tick's `liquidity_net` from the pool; moving up adds it. Either way
/// the tick's outside fee growth flips to `global - outside` for both
/// tokens, modulo 2^128. Rejects a coordinate outside the window with
/// `InvalidTickIndex`, and a liquidity update that leaves the unsigned
/// 128-bit range with `MathOverflow`; on error nothing changes.
pub fn cross_tick(pool: &mut Pool, tick_array: &mut TickArray, tick_index: i32) -> (r: Result<
    (),
    ErrorCode,
>)
    requires
        old(tick_array).wf(),
    ensures
        final(tick_array).wf(),
        final(tick_array).start_tick_index == old(tick_array).start_tick_index,
        !old(tick_array).holds_tick(tick_index as int) ==> r == Err::<(), ErrorCode>(
            ErrorCode::InvalidTickIndex,
        ) && *final(tick_array) == *old(tick_array) && *final(pool) == *old(pool),
        old(tick_array).holds_tick(tick_index as int) ==> {
            let off = tick_index - old(tick_array).start_tick_index;
            let t = old(tick_array).ticks[off];
            let new_liquidity = if old(pool).tick_current >= tick_index {
                old(pool).liquidity - t.liquidity_net
            } else {
                old(pool).liquidity + t.liquidity_net
            };
            if !(0 <= new_liquidity <= u128::MAX) {
                r == Err::<(), ErrorCode>(ErrorCode::MathOverflow) && *final(tick_array) == *old(
                    tick_array,
                ) && *final(pool) == *old(pool)
            } else {
                &&& r == Ok::<(), ErrorCode>(())
                &&& *final(pool) == (Pool { liquidity: new_liquidity as u128, ..*old(pool) })
                &&& final(tick_array).ticks@ == old(tick_array).ticks@.update(
                    off,
                    Tick {
                        fee_growth_outside_0_x64: vstd::wrapping::u128_specs::wrapping_sub(
                            old(pool).fee_growth_global_0_x64,
                            t.fee_growth_outside_0_x64,
                        ),
                        fee_growth_outside_1_x64: vstd::wrapping::u128_specs::wrapping_sub(
                            old(pool).fee_growth_global_1_x64,
                            t.fee_growth_outside_1_x64,
                        ),
                        ..t
                    },
                )
            }
        },
{
    if tick_index < tick_array.start_tick_index || (tick_index as i64) >= (
    tick_array.start_tick_index as i64) + (TICK_ARRAY_SIZE as i64) {
        return Err(ErrorCode::InvalidTickIndex);
    }
    let offset = (tick_index - tick_array.start_tick_index) as usize;
    let t = tick_array.ticks[offset];
    let net = t.liquidity_net;
    let magnitude: u128 = if net >= 0 {
        net as u128
    } else {
        ((-(net + 1)) as u128) + 1
    };
    let crossing_down = pool.tick_current >= tick_index;
    // moving down subtracts the net, moving up adds it; a negative net
    // reverses the operation on the unsigned total
    let new_liquidity = if (crossing_down && net >= 0) || (!crossing_down && net < 0) {
        match pool.liquidity.checked_sub(magnitude) {
            Some(l) => l,
            None => {
                return Err(ErrorCode::MathOverflow);
            },
        }
    } else {
        match pool.liquidity.checked_add(magnitude) {
            Some(l) => l,
            None => {
                return Err(ErrorCode::MathOverflow);
            },
        }
    };
    let updated = Tick {
        index: t.index,
        liquidity_net: t.liquidity_net,
        liquidity_gross: t.liquidity_gross,
        fee_growth_outside_0_x64: pool.fee_growth_global_0_x64.wrapping_sub(
            t.fee_growth_outside_0_x64,
        ),
        fee_growth_outside_1_x64: pool.fee_growth_global_1_x64.wrapping_sub(
            t.fee_growth_outside_1_x64,
        ),
    };
    tick_array.ticks.set(offset, updated);
    pool.liquidity = new_liquidity;
    Ok(())
}

} // verus!
