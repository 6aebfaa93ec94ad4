//! Position accounting: opening, resizing, settling and closing stakes in a
//! pool's price ranges.
//!
//! A position's liquidity is derived from the token amounts supplied at the
//! current price; its boundary ticks carry the liquidity deltas that swaps
//! apply when crossing them. Fee settlement uses the flip-on-cross outside
//! accumulators to reconstruct the growth inside the range. Every operation
//! validates and checks all arithmetic before mutating anything: on an error
//! no state changes.

use vstd::prelude::*;

use crate::errors::ErrorCode;
use crate::fees::{growth_inside, wrap_sub, Q64};
use crate::state::{valid_tick_range, Pool, Position, Tick, TickArray};
use crate::tick_array::{get_tick, update_tick};
use crate::tick_math::{
    lemma_sqrt_price_increasing, q64, sqrt_price_at, tick_in_range, tick_to_sqrt_price_x64,
};

verus! {

/// Liquidity supportable by `amount_0` of token 0 over a sqrt-price range:
/// `amount_0` scaled to Q64.64 and divided by the range width.
pub open spec fn liquidity_from_amount_0(amount_0: u64, sqrt_lower: int, sqrt_upper: int) -> int {
    if amount_0 > 0 {
        (amount_0 * q64()) / (sqrt_upper - sqrt_lower)
    } else {
        0
    }
}

/// Liquidity supportable by `amount_1` of token 1 over a sqrt-price range:
/// `amount_1` times both range bounds over the range width, scaled back
/// down from Q64.64.
pub open spec fn liquidity_from_amount_1(amount_1: u64, sqrt_lower: int, sqrt_upper: int) -> int {
    if amount_1 > 0 {
        (((amount_1 * sqrt_lower) * sqrt_upper) / (sqrt_upper - sqrt_lower)) / q64()
    } else {
        0
    }
}

/// The smaller of two liquidity candidates: the binding constraint.
pub open spec fn min_liquidity(l0: int, l1: int) -> int {
    if l0 <= l1 {
        l0
    } else {
        l1
    }
}

/// The liquidity granted for a pair of token amounts over a tick range.
pub open spec fn position_liquidity(
    tick_lower: int,
    tick_upper: int,
    amount_0: u64,
    amount_1: u64,
) -> int {
    min_liquidity(
        liquidity_from_amount_0(amount_0, sqrt_price_at(tick_lower), sqrt_price_at(tick_upper)),
        liquidity_from_amount_1(amount_1, sqrt_price_at(tick_lower), sqrt_price_at(tick_upper)),
    )
}

/// Compute the liquidity both token amounts can jointly support over a tick
/// range: each amount is converted by the range's sqrt prices and the
/// smaller result wins.
///
/// Rejects an out-of-domain tick with `InvalidTickIndex`; any overflowing or
/// degenerate intermediate (an empty or inverted sqrt-price range with a
/// nonzero amount) fails with `MathOverflow`.
pub fn calculate_liquidity_from_amounts(
    sqrt_price_x64: u128,
    tick_lower_index: i32,
    tick_upper_index: i32,
    amount_0: u64,
    amount_1: u64,
) -> (r: Result<u128, ErrorCode>)
    ensures
        ({
            let spl = sqrt_price_at(tick_lower_index as int);
            let spu = sqrt_price_at(tick_upper_index as int);
            if !(tick_in_range(tick_lower_index as int) && tick_in_range(
                tick_upper_index as int,
            )) {
                r == Err::<u128, ErrorCode>(ErrorCode::InvalidTickIndex)
            } else if ((amount_0 > 0 || amount_1 > 0) && spu <= spl) || (amount_1 > 0 && (amount_1
                * spl > u128::MAX || (amount_1 * spl) * spu > u128::MAX)) {
                r == Err::<u128, ErrorCode>(ErrorCode::MathOverflow)
            } else {
                let liq = position_liquidity(
                    tick_lower_index as int,
                    tick_upper_index as int,
                    amount_0,
                    amount_1,
                );
                r == Ok::<u128, ErrorCode>(liq as u128) && 0 <= liq <= u128::MAX
            }
        }),
{
    let sqrt_price_lower = match tick_to_sqrt_price_x64(tick_lower_index) {
        Ok(p) => p,
        Err(e) => {
            return Err(e);
        },
    };
    let sqrt_price_upper = match tick_to_sqrt_price_x64(tick_upper_index) {
        Ok(p) => p,
        Err(e) => {
            return Err(e);
        },
    };
    proof {
        crate::tick_math::lemma_sqrt_price_bounds(tick_lower_index as int);
        crate::tick_math::lemma_sqrt_price_bounds(tick_upper_index as int);
    }
    let liquidity_by_0: u128 = if amount_0 > 0 {
        let width = match sqrt_price_upper.checked_sub(sqrt_price_lower) {
            Some(w) => w,
            None => {
                return Err(ErrorCode::MathOverflow);
            },
        };
        let numerator = (amount_0 as u128) * Q64;
        match numerator.checked_div(width) {
            Some(l) => l,
            None => {
                return Err(ErrorCode::MathOverflow);
            },
        }
    } else {
        0
    };
    let liquidity_by_1: u128 = if amount_1 > 0 {
        let scaled_low = match (amount_1 as u128).checked_mul(sqrt_price_lower) {
            Some(p) => p,
            None => {
                return Err(ErrorCode::MathOverflow);
            },
        };
        let scaled_both = match scaled_low.checked_mul(sqrt_price_upper) {
            Some(p) => p,
            None => {
                return Err(ErrorCode::MathOverflow);
            },
        };
        let width = match sqrt_price_upper.checked_sub(sqrt_price_lower) {
            Some(w) => w,
            None => {
                return Err(ErrorCode::MathOverflow);
            },
        };
        let quotient = match scaled_both.checked_div(width) {
            Some(l) => l,
            None => {
                return Err(ErrorCode::MathOverflow);
            },
        };
        quotient / Q64
    } else {
        0
    };
    if liquidity_by_0 <= liquidity_by_1 {
        Ok(liquidity_by_0)
    } else {
        Ok(liquidity_by_1)
    }
}

/// Whether the pool's current tick lies inside a position range, making the
/// range actively earn fees: `tick_lower <= tick_current < tick_upper`.
pub open spec fn range_active(tick_current: int, tick_lower: int, tick_upper: int) -> bool {
    tick_lower <= tick_current < tick_upper
}

/// All the checks that must pass before liquidity can be attached to a
/// range's boundary ticks and the pool: the amount fits a signed delta, both
/// boundary ticks lie in their arrays' windows, neither tick's counters
/// overflow, and an active range does not overflow the pool total.
pub open spec fn can_attach(
    pool: Pool,
    lower_array: TickArray,
    upper_array: TickArray,
    tick_lower_index: int,
    tick_upper_index: int,
    liquidity: u128,
) -> bool {
    &&& liquidity <= i128::MAX
    &&& lower_array.holds_tick(tick_lower_index)
    &&& upper_array.holds_tick(tick_upper_index)
    &&& ({
        let lt = lower_array.ticks[tick_lower_index - lower_array.start_tick_index];
        &&& lt.liquidity_net + liquidity <= i128::MAX
        &&& lt.liquidity_gross + liquidity <= u128::MAX
    })
    &&& ({
        let ut = upper_array.ticks[tick_upper_index - upper_array.start_tick_index];
        &&& ut.liquidity_net - liquidity >= i128::MIN
        &&& ut.liquidity_gross + liquidity <= u128::MAX
    })
    &&& (range_active(pool.tick_current as int, tick_lower_index, tick_upper_index)
        ==> pool.liquidity + liquidity <= u128::MAX)
}

/// The position record created when `liquidity` is attached to a range: the
/// fee-growth snapshots are taken at attach time, so the position starts
/// with nothing owed.
pub open spec fn fresh_position(
    pool: Pool,
    lower_tick: Tick,
    upper_tick: Tick,
    tick_lower_index: i32,
    tick_upper_index: i32,
    liquidity: u128,
    pool_id: u64,
    owner: u64,
) -> Position {
    Position {
        pool: pool_id,
        owner,
        tick_lower_index,
        tick_upper_index,
        liquidity,
        fee_growth_inside_0_last_x64: growth_inside(
            pool.tick_current as int,
            lower_tick.index as int,
            upper_tick.index as int,
            pool.fee_growth_global_0_x64,
            lower_tick.fee_growth_outside_0_x64,
            upper_tick.fee_growth_outside_0_x64,
        ),
        fee_growth_inside_1_last_x64: growth_inside(
            pool.tick_current as int,
            lower_tick.index as int,
            upper_tick.index as int,
            pool.fee_growth_global_1_x64,
            lower_tick.fee_growth_outside_1_x64,
            upper_tick.fee_growth_outside_1_x64,
        ),
        tokens_owed_0: 0,
        tokens_owed_1: 0,
    }
}

/// Attach `liquidity` to the boundary ticks of a range and, when the range
/// is active, to the pool total; build the position record with its
/// snapshots taken now.
fn attach_liquidity(
    pool: &mut Pool,
    tick_array_lower: &mut TickArray,
    tick_array_upper: &mut TickArray,
    tick_lower_index: i32,
    tick_upper_index: i32,
    liquidity: u128,
    pool_id: u64,
    owner: u64,
) -> (r: Result<Position, ErrorCode>)
    requires
        old(pool).wf(),
        old(tick_array_lower).wf(),
        old(tick_array_upper).wf(),
        tick_lower_index < tick_upper_index,
        tick_in_range(tick_lower_index as int),
        tick_in_range(tick_upper_index as int),
        liquidity >= 1,
    ensures
        final(pool).wf(),
        final(tick_array_lower).wf(),
        final(tick_array_upper).wf(),
        ({
            let ok = can_attach(
                *old(pool),
                *old(tick_array_lower),
                *old(tick_array_upper),
                tick_lower_index as int,
                tick_upper_index as int,
                liquidity,
            );
            if !ok {
                &&& *final(pool) == *old(pool)
                &&& *final(tick_array_lower) == *old(tick_array_lower)
                &&& *final(tick_array_upper) == *old(tick_array_upper)
                &&& (r == Err::<Position, ErrorCode>(ErrorCode::MathOverflow) || r == Err::<
                    Position,
                    ErrorCode,
                >(ErrorCode::InvalidTickIndex))
                &&& (liquidity <= i128::MAX && !(old(tick_array_lower).holds_tick(
                    tick_lower_index as int,
                ) && old(tick_array_upper).holds_tick(tick_upper_index as int)) <==> r == Err::<
                    Position,
                    ErrorCode,
                >(ErrorCode::InvalidTickIndex))
            } else {
                let off_l = tick_lower_index - old(tick_array_lower).start_tick_index;
                let off_u = tick_upper_index - old(tick_array_upper).start_tick_index;
                let lt = old(tick_array_lower).ticks[off_l];
                let ut = old(tick_array_upper).ticks[off_u];
                &&& r == Ok::<Position, ErrorCode>(
                    fresh_position(
                        *old(pool),
                        lt,
                        ut,
                        tick_lower_index,
                        tick_upper_index,
                        liquidity,
                        pool_id,
                        owner,
                    ),
                )
                &&& final(tick_array_lower).ticks@ == old(tick_array_lower).ticks@.update(
                    off_l,
                    Tick {
                        liquidity_net: (lt.liquidity_net + liquidity) as i128,
                        liquidity_gross: (lt.liquidity_gross + liquidity) as u128,
                        ..lt
                    },
                )
                &&& final(tick_array_upper).ticks@ == old(tick_array_upper).ticks@.update(
                    off_u,
                    Tick {
                        liquidity_net: (ut.liquidity_net - liquidity) as i128,
                        liquidity_gross: (ut.liquidity_gross + liquidity) as u128,
                        ..ut
                    },
                )
                &&& *final(pool) == (Pool {
                    liquidity: if range_active(
                        old(pool).tick_current as int,
                        tick_lower_index as int,
                        tick_upper_index as int,
                    ) {
                        (old(pool).liquidity + liquidity) as u128
                    } else {
                        old(pool).liquidity
                    },
                    ..*old(pool)
                })
                &&& final(tick_array_lower).start_tick_index == old(
                    tick_array_lower,
                ).start_tick_index
                &&& final(tick_array_upper).start_tick_index == old(
                    tick_array_upper,
                ).start_tick_index
            }
        }),
{
    if liquidity > (i128::MAX as u128) {
        return Err(ErrorCode::MathOverflow);
    }
    let delta = liquidity as i128;
    let lower_tick = match get_tick(tick_array_lower, tick_lower_index) {
        Ok(t) => t,
        Err(e) => {
            return Err(e);
        },
    };
    let upper_tick = match get_tick(tick_array_upper, tick_upper_index) {
        Ok(t) => t,
        Err(e) => {
            return Err(e);
        },
    };
    // validate every arithmetic step before mutating anything
    if lower_tick.liquidity_net.checked_add(delta).is_none() {
        return Err(ErrorCode::MathOverflow);
    }
    if lower_tick.liquidity_gross.checked_add(liquidity).is_none() {
        return Err(ErrorCode::MathOverflow);
    }
    if upper_tick.liquidity_net.checked_sub(delta).is_none() {
        return Err(ErrorCode::MathOverflow);
    }
    if upper_tick.liquidity_gross.checked_add(liquidity).is_none() {
        return Err(ErrorCode::MathOverflow);
    }
    let in_range = tick_lower_index <= pool.tick_current && pool.tick_current < tick_upper_index;
    let new_pool_liquidity = if in_range {
        match pool.liquidity.checked_add(liquidity) {
            Some(l) => l,
            None => {
                return Err(ErrorCode::MathOverflow);
            },
        }
    } else {
        pool.liquidity
    };
    let updated_lower = match update_tick(tick_array_lower, tick_lower_index, delta, true) {
        Ok(u) => u,
        Err(_) => vstd::pervasive::unreached(),
    };
    let updated_upper = match update_tick(tick_array_upper, tick_upper_index, -delta, true) {
        Ok(u) => u,
        Err(_) => vstd::pervasive::unreached(),
    };
    pool.liquidity = new_pool_liquidity;
    let position = Position {
        pool: pool_id,
        owner,
        tick_lower_index,
        tick_upper_index,
        liquidity,
        fee_growth_inside_0_last_x64: 0,
        fee_growth_inside_1_last_x64: 0,
        tokens_owed_0: 0,
        tokens_owed_1: 0,
    };
    let (snapshot_0, snapshot_1) = match crate::fees::compute_fee_growth_inside(
        pool.tick_current,
        pool.fee_growth_global_0_x64,
        pool.fee_growth_global_1_x64,
        &lower_tick,
        &upper_tick,
    ) {
        Ok(g) => g,
        Err(_) => vstd::pervasive::unreached(),
    };
    Ok(
        Position {
            fee_growth_inside_0_last_x64: snapshot_0,
            fee_growth_inside_1_last_x64: snapshot_1,
            ..position
        },
    )
}

/// Open a position by supplying token amounts.
///
/// Validates the range (ordered, in the tick domain, aligned to the pool's
/// tick spacing), derives the liquidity from the amounts via
/// `calculate_liquidity_from_amounts`, rejects a zero result with
/// `ZeroLiquidity`, and attaches the liquidity to the boundary ticks and —
/// when the range contains the current tick — the pool total. The new
/// position's fee snapshots are taken now, so it starts with nothing owed.
/// On any error nothing changes.
pub fn open_position(
    pool: &mut Pool,
    tick_array_lower: &mut TickArray,
    tick_array_upper: &mut TickArray,
    tick_lower_index: i32,
    tick_upper_index: i32,
    amount_0: u64,
    amount_1: u64,
    pool_id: u64,
    owner: u64,
) -> (r: Result<Position, ErrorCode>)
    requires
        old(pool).wf(),
        old(tick_array_lower).wf(),
        old(tick_array_upper).wf(),
    ensures
        final(pool).wf(),
        final(tick_array_lower).wf(),
        final(tick_array_upper).wf(),
        r is Err ==> *final(pool) == *old(pool) && *final(tick_array_lower) == *old(
            tick_array_lower,
        ) && *final(tick_array_upper) == *old(tick_array_upper),
        !(tick_lower_index < tick_upper_index) ==> r == Err::<Position, ErrorCode>(
            ErrorCode::InvalidTickRange,
        ),
        tick_lower_index < tick_upper_index && !(tick_in_range(tick_lower_index as int)
            && tick_in_range(tick_upper_index as int)) ==> r == Err::<Position, ErrorCode>(
            ErrorCode::InvalidTickIndex,
        ),
        tick_lower_index < tick_upper_index && tick_in_range(tick_lower_index as int)
            && tick_in_range(tick_upper_index as int) && !(tick_lower_index as int
            % old(pool).tick_spacing as int == 0 && tick_upper_index as int % old(
            pool,
        ).tick_spacing as int == 0) ==> r == Err::<Position, ErrorCode>(
            ErrorCode::InvalidTickSpacing,
        ),
        valid_tick_range(
            tick_lower_index as int,
            tick_upper_index as int,
            old(pool).tick_spacing as int,
        ) ==> ({
            let spl = sqrt_price_at(tick_lower_index as int);
            let spu = sqrt_price_at(tick_upper_index as int);
            let liq = position_liquidity(
                tick_lower_index as int,
                tick_upper_index as int,
                amount_0,
                amount_1,
            );
            if amount_1 > 0 && (amount_1 * spl > u128::MAX || (amount_1 * spl) * spu
                > u128::MAX) {
                r == Err::<Position, ErrorCode>(ErrorCode::MathOverflow)
            } else if liq == 0 {
                r == Err::<Position, ErrorCode>(ErrorCode::ZeroLiquidity)
            } else if !can_attach(
                *old(pool),
                *old(tick_array_lower),
                *old(tick_array_upper),
                tick_lower_index as int,
                tick_upper_index as int,
                liq as u128,
            ) {
                r is Err
            } else {
                let off_l = tick_lower_index - old(tick_array_lower).start_tick_index;
                let off_u = tick_upper_index - old(tick_array_upper).start_tick_index;
                let lt = old(tick_array_lower).ticks[off_l];
                let ut = old(tick_array_upper).ticks[off_u];
                &&& r == Ok::<Position, ErrorCode>(
                    fresh_position(
                        *old(pool),
                        lt,
                        ut,
                        tick_lower_index,
                        tick_upper_index,
                        liq as u128,
                        pool_id,
                        owner,
                    ),
                )
                &&& r.unwrap().liquidity == liq
                &&& final(tick_array_lower).ticks@ == old(tick_array_lower).ticks@.update(
                    off_l,
                    Tick {
                        liquidity_net: (lt.liquidity_net + liq) as i128,
                        liquidity_gross: (lt.liquidity_gross + liq) as u128,
                        ..lt
                    },
                )
                &&& final(tick_array_upper).ticks@ == old(tick_array_upper).ticks@.update(
                    off_u,
                    Tick {
                        liquidity_net: (ut.liquidity_net - liq) as i128,
                        liquidity_gross: (ut.liquidity_gross + liq) as u128,
                        ..ut
                    },
                )
                &&& *final(pool) == (Pool {
                    liquidity: if range_active(
                        old(pool).tick_current as int,
                        tick_lower_index as int,
                        tick_upper_index as int,
                    ) {
                        (old(pool).liquidity + liq) as u128
                    } else {
                        old(pool).liquidity
                    },
                    ..*old(pool)
                })
            }
        }),
{
    if tick_lower_index >= tick_upper_index {
        return Err(ErrorCode::InvalidTickRange);
    }
    if tick_lower_index < crate::tick_math::MIN_TICK || tick_upper_index
        > crate::tick_math::MAX_TICK || tick_lower_index > crate::tick_math::MAX_TICK
        || tick_upper_index < crate::tick_math::MIN_TICK {
        return Err(ErrorCode::InvalidTickIndex);
    }
    let aligned_lower = crate::tick_array::is_multiple_of_spacing(
        tick_lower_index,
        pool.tick_spacing,
    );
    let aligned_upper = crate::tick_array::is_multiple_of_spacing(
        tick_upper_index,
        pool.tick_spacing,
    );
    if !aligned_lower || !aligned_upper {
        return Err(ErrorCode::InvalidTickSpacing);
    }
    proof {
        lemma_sqrt_price_increasing(tick_lower_index as int, tick_upper_index as int);
    }
    let liquidity = match calculate_liquidity_from_amounts(
        pool.sqrt_price_x64,
        tick_lower_index,
        tick_upper_index,
        amount_0,
        amount_1,
    ) {
        Ok(l) => l,
        Err(e) => {
            return Err(e);
        },
    };
    if liquidity == 0 {
        return Err(ErrorCode::ZeroLiquidity);
    }
    attach_liquidity(
        pool,
        tick_array_lower,
        tick_array_upper,
        tick_lower_index,
        tick_upper_index,
        liquidity,
        pool_id,
        owner,
    )
}

/// Open a position with an explicitly chosen liquidity amount.
///
/// Validates the range exactly as `open_position` does, rejects zero
/// liquidity with `ZeroLiquidity`, and attaches the liquidity to the
/// boundary ticks and — for an active range — the pool total.
pub fn create_position(
    pool: &mut Pool,
    tick_array_lower: &mut TickArray,
    tick_array_upper: &mut TickArray,
    tick_lower_index: i32,
    tick_upper_index: i32,
    liquidity: u128,
    pool_id: u64,
    owner: u64,
) -> (r: Result<Position, ErrorCode>)
    requires
        old(pool).wf(),
        old(tick_array_lower).wf(),
        old(tick_array_upper).wf(),
    ensures
        final(pool).wf(),
        final(tick_array_lower).wf(),
        final(tick_array_upper).wf(),
        r is Err ==> *final(pool) == *old(pool) && *final(tick_array_lower) == *old(
            tick_array_lower,
        ) && *final(tick_array_upper) == *old(tick_array_upper),
        !(tick_lower_index < tick_upper_index) ==> r == Err::<Position, ErrorCode>(
            ErrorCode::InvalidTickRange,
        ),
        tick_lower_index < tick_upper_index && liquidity == 0 ==> r == Err::<Position, ErrorCode>(
            ErrorCode::ZeroLiquidity,
        ),
        tick_lower_index < tick_upper_index && liquidity > 0 && !(tick_in_range(
            tick_lower_index as int,
        ) && tick_in_range(tick_upper_index as int)) ==> r == Err::<Position, ErrorCode>(
            ErrorCode::InvalidTickIndex,
        ),
        tick_lower_index < tick_upper_index && liquidity > 0 && tick_in_range(
            tick_lower_index as int,
        ) && tick_in_range(tick_upper_index as int) && !(tick_lower_index as int % old(
            pool,
        ).tick_spacing as int == 0 && tick_upper_index as int % old(pool).tick_spacing as int == 0)
            ==> r == Err::<Position, ErrorCode>(ErrorCode::InvalidTickSpacing),
        liquidity > 0 && valid_tick_range(
            tick_lower_index as int,
            tick_upper_index as int,
            old(pool).tick_spacing as int,
        ) ==> ({
            if !can_attach(
                *old(pool),
                *old(tick_array_lower),
                *old(tick_array_upper),
                tick_lower_index as int,
                tick_upper_index as int,
                liquidity,
            ) {
                r is Err
            } else {
                let off_l = tick_lower_index - old(tick_array_lower).start_tick_index;
                let off_u = tick_upper_index - old(tick_array_upper).start_tick_index;
                let lt = old(tick_array_lower).ticks[off_l];
                let ut = old(tick_array_upper).ticks[off_u];
                &&& r == Ok::<Position, ErrorCode>(
                    fresh_position(
                        *old(pool),
                        lt,
                        ut,
                        tick_lower_index,
                        tick_upper_index,
                        liquidity,
                        pool_id,
                        owner,
                    ),
                )
                &&& final(tick_array_lower).ticks@ == old(tick_array_lower).ticks@.update(
                    off_l,
                    Tick {
                        liquidity_net: (lt.liquidity_net + liquidity) as i128,
                        liquidity_gross: (lt.liquidity_gross + liquidity) as u128,
                        ..lt
                    },
                )
                &&& final(tick_array_upper).ticks@ == old(tick_array_upper).ticks@.update(
                    off_u,
                    Tick {
                        liquidity_net: (ut.liquidity_net - liquidity) as i128,
                        liquidity_gross: (ut.liquidity_gross + liquidity) as u128,
                        ..ut
                    },
                )
                &&& *final(pool) == (Pool {
                    liquidity: if range_active(
                        old(pool).tick_current as int,
                        tick_lower_index as int,
                        tick_upper_index as int,
                    ) {
                        (old(pool).liquidity + liquidity) as u128
                    } else {
                        old(pool).liquidity
                    },
                    ..*old(pool)
                })
            }
        }),
{
    if tick_lower_index >= tick_upper_index {
        return Err(ErrorCode::InvalidTickRange);
    }
    if liquidity == 0 {
        return Err(ErrorCode::ZeroLiquidity);
    }
    if tick_lower_index < crate::tick_math::MIN_TICK || tick_upper_index
        > crate::tick_math::MAX_TICK || tick_lower_index > crate::tick_math::MAX_TICK
        || tick_upper_index < crate::tick_math::MIN_TICK {
        return Err(ErrorCode::InvalidTickIndex);
    }
    let aligned_lower = crate::tick_array::is_multiple_of_spacing(
        tick_lower_index,
        pool.tick_spacing,
    );
    let aligned_upper = crate::tick_array::is_multiple_of_spacing(
        tick_upper_index,
        pool.tick_spacing,
    );
    if !aligned_lower || !aligned_upper {
        return Err(ErrorCode::InvalidTickSpacing);
    }
    attach_liquidity(
        pool,
        tick_array_lower,
        tick_array_upper,
        tick_lower_index,
        tick_upper_index,
        liquidity,
        pool_id,
        owner,
    )
}

/// Settle and withdraw a position's accumulated fees.
///
/// Recomputes the fee growth inside the position's range, derives the
/// uncollected amounts since the last snapshot, adds the tokens already
/// owed, and returns the two totals for the host to transfer; the position's
/// snapshots move forward and its owed balances reset to zero. A freshly
/// opened position with no intervening swaps collects `(0, 0)`. Fails with
/// `InvalidTickIndex` if a boundary tick is outside its array's window and
/// with `MathOverflow` if a fee total leaves 64 bits; on error the position
/// is unchanged.
pub fn collect_fees(
    pool: &Pool,
    position: &mut Position,
    tick_array_lower: &TickArray,
    tick_array_upper: &TickArray,
) -> (r: Result<(u64, u64), ErrorCode>)
    requires
        tick_array_lower.wf(),
        tick_array_upper.wf(),
    ensures
        r is Err ==> *final(position) == *old(position),
        !(tick_array_lower.holds_tick(old(position).tick_lower_index as int)
            && tick_array_upper.holds_tick(old(position).tick_upper_index as int)) ==> r == Err::<
            (u64, u64),
            ErrorCode,
        >(ErrorCode::InvalidTickIndex),
        tick_array_lower.holds_tick(old(position).tick_lower_index as int)
            && tick_array_upper.holds_tick(old(position).tick_upper_index as int) ==> ({
            let lt = tick_array_lower.ticks[old(position).tick_lower_index
                - tick_array_lower.start_tick_index];
            let ut = tick_array_upper.ticks[old(position).tick_upper_index
                - tick_array_upper.start_tick_index];
            let gi0 = growth_inside(
                pool.tick_current as int,
                lt.index as int,
                ut.index as int,
                pool.fee_growth_global_0_x64,
                lt.fee_growth_outside_0_x64,
                ut.fee_growth_outside_0_x64,
            );
            let gi1 = growth_inside(
                pool.tick_current as int,
                lt.index as int,
                ut.index as int,
                pool.fee_growth_global_1_x64,
                lt.fee_growth_outside_1_x64,
                ut.fee_growth_outside_1_x64,
            );
            let d0 = wrap_sub(gi0, old(position).fee_growth_inside_0_last_x64);
            let d1 = wrap_sub(gi1, old(position).fee_growth_inside_1_last_x64);
            let l = old(position).liquidity;
            let u0 = (d0 * l) / (Q64 as int);
            let u1 = (d1 * l) / (Q64 as int);
            let t0 = u0 + old(position).tokens_owed_0;
            let t1 = u1 + old(position).tokens_owed_1;
            if d0 * l > u128::MAX || d1 * l > u128::MAX || t0 > u64::MAX || t1 > u64::MAX {
                r == Err::<(u64, u64), ErrorCode>(ErrorCode::MathOverflow)
            } else {
                &&& r == Ok::<(u64, u64), ErrorCode>((t0 as u64, t1 as u64))
                &&& *final(position) == (Position {
                    fee_growth_inside_0_last_x64: gi0,
                    fee_growth_inside_1_last_x64: gi1,
                    tokens_owed_0: 0,
                    tokens_owed_1: 0,
                    ..*old(position)
                })
            }
        }),
{
    let lower_tick = match get_tick(tick_array_lower, position.tick_lower_index) {
        Ok(t) => t,
        Err(e) => {
            return Err(e);
        },
    };
    let upper_tick = match get_tick(tick_array_upper, position.tick_upper_index) {
        Ok(t) => t,
        Err(e) => {
            return Err(e);
        },
    };
    let (fee_growth_inside_0_x64, fee_growth_inside_1_x64) = match
    crate::fees::compute_fee_growth_inside(
        pool.tick_current,
        pool.fee_growth_global_0_x64,
        pool.fee_growth_global_1_x64,
        &lower_tick,
        &upper_tick,
    ) {
        Ok(g) => g,
        Err(e) => {
            return Err(e);
        },
    };
    let uncollected_0 = match crate::fees::compute_uncollected_fees(
        position.liquidity,
        fee_growth_inside_0_x64,
        position.fee_growth_inside_0_last_x64,
    ) {
        Ok(f) => f,
        Err(e) => {
            return Err(e);
        },
    };
    let uncollected_1 = match crate::fees::compute_uncollected_fees(
        position.liquidity,
        fee_growth_inside_1_x64,
        position.fee_growth_inside_1_last_x64,
    ) {
        Ok(f) => f,
        Err(e) => {
            return Err(e);
        },
    };
    if uncollected_0 > (u64::MAX as u128) - (position.tokens_owed_0 as u128) {
        return Err(ErrorCode::MathOverflow);
    }
    if uncollected_1 > (u64::MAX as u128) - (position.tokens_owed_1 as u128) {
        return Err(ErrorCode::MathOverflow);
    }
    let total_0 = (uncollected_0 as u64) + position.tokens_owed_0;
    let total_1 = (uncollected_1 as u64) + position.tokens_owed_1;
    position.fee_growth_inside_0_last_x64 = fee_growth_inside_0_x64;
    position.fee_growth_inside_1_last_x64 = fee_growth_inside_1_x64;
    position.tokens_owed_0 = 0;
    position.tokens_owed_1 = 0;
    Ok((total_0, total_1))
}

/// Add liquidity to an existing position: both boundary ticks, the pool
/// total when the range is active, and the position record all grow by
/// `liquidity`. Rejects zero with `ZeroLiquidity`; any overflow fails with
/// `MathOverflow` before anything changes.
pub fn increase_liquidity(
    pool: &mut Pool,
    position: &mut Position,
    tick_array_lower: &mut TickArray,
    tick_array_upper: &mut TickArray,
    liquidity: u128,
) -> (r: Result<(), ErrorCode>)
    requires
        old(pool).wf(),
        old(tick_array_lower).wf(),
        old(tick_array_upper).wf(),
        old(position).tick_lower_index < old(position).tick_upper_index,
        tick_in_range(old(position).tick_lower_index as int),
        tick_in_range(old(position).tick_upper_index as int),
    ensures
        final(pool).wf(),
        final(tick_array_lower).wf(),
        final(tick_array_upper).wf(),
        r is Err ==> *final(pool) == *old(pool) && *final(position) == *old(position)
            && *final(tick_array_lower) == *old(tick_array_lower)
            && *final(tick_array_upper) == *old(tick_array_upper),
        liquidity == 0 ==> r == Err::<(), ErrorCode>(ErrorCode::ZeroLiquidity),
        liquidity > 0 && old(position).liquidity + liquidity > u128::MAX ==> r == Err::<
            (),
            ErrorCode,
        >(ErrorCode::MathOverflow),
        liquidity > 0 && old(position).liquidity + liquidity <= u128::MAX ==> ({
            if !can_attach(
                *old(pool),
                *old(tick_array_lower),
                *old(tick_array_upper),
                old(position).tick_lower_index as int,
                old(position).tick_upper_index as int,
                liquidity,
            ) {
                r is Err
            } else {
                let off_l = old(position).tick_lower_index - old(
                    tick_array_lower,
                ).start_tick_index;
                let off_u = old(position).tick_upper_index - old(
                    tick_array_upper,
                ).start_tick_index;
                let lt = old(tick_array_lower).ticks[off_l];
                let ut = old(tick_array_upper).ticks[off_u];
                &&& r == Ok::<(), ErrorCode>(())
                &&& *final(position) == (Position {
                    liquidity: (old(position).liquidity + liquidity) as u128,
                    ..*old(position)
                })
                &&& final(tick_array_lower).ticks@ == old(tick_array_lower).ticks@.update(
                    off_l,
                    Tick {
                        liquidity_net: (lt.liquidity_net + liquidity) as i128,
                        liquidity_gross: (lt.liquidity_gross + liquidity) as u128,
                        ..lt
                    },
                )
                &&& final(tick_array_upper).ticks@ == old(tick_array_upper).ticks@.update(
                    off_u,
                    Tick {
                        liquidity_net: (ut.liquidity_net - liquidity) as i128,
                        liquidity_gross: (ut.liquidity_gross + liquidity) as u128,
                        ..ut
                    },
                )
                &&& *final(pool) == (Pool {
                    liquidity: if range_active(
                        old(pool).tick_current as int,
                        old(position).tick_lower_index as int,
                        old(position).tick_upper_index as int,
                    ) {
                        (old(pool).liquidity + liquidity) as u128
                    } else {
                        old(pool).liquidity
                    },
                    ..*old(pool)
                })
            }
        }),
{
    if liquidity == 0 {
        return Err(ErrorCode::ZeroLiquidity);
    }
    let new_position_liquidity = match position.liquidity.checked_add(liquidity) {
        Some(l) => l,
        None => {
            return Err(ErrorCode::MathOverflow);
        },
    };
    let attached = attach_liquidity(
        pool,
        tick_array_lower,
        tick_array_upper,
        position.tick_lower_index,
        position.tick_upper_index,
        liquidity,
        position.pool,
        position.owner,
    );
    match attached {
        Ok(_) => {
            position.liquidity = new_position_liquidity;
            Ok(())
        },
        Err(e) => Err(e),
    }
}

/// Remove liquidity from a position: the reverse of `increase_liquidity`.
/// Rejects zero with `ZeroLiquidity` and a removal beyond the position's
/// balance with `InsufficientLiquidity`; any overflow on the tick or pool
/// counters fails with `MathOverflow` before anything changes.
pub fn decrease_liquidity(
    pool: &mut Pool,
    position: &mut Position,
    tick_array_lower: &mut TickArray,
    tick_array_upper: &mut TickArray,
    liquidity: u128,
) -> (r: Result<(), ErrorCode>)
    requires
        old(pool).wf(),
        old(tick_array_lower).wf(),
        old(tick_array_upper).wf(),
    ensures
        final(pool).wf(),
        final(tick_array_lower).wf(),
        final(tick_array_upper).wf(),
        r is Err ==> *final(pool) == *old(pool) && *final(position) == *old(position)
            && *final(tick_array_lower) == *old(tick_array_lower)
            && *final(tick_array_upper) == *old(tick_array_upper),
        liquidity == 0 ==> r == Err::<(), ErrorCode>(ErrorCode::ZeroLiquidity),
        liquidity > 0 && liquidity > old(position).liquidity ==> r == Err::<(), ErrorCode>(
            ErrorCode::InsufficientLiquidity,
        ),
        0 < liquidity <= old(position).liquidity ==> ({
            let detach_ok = {
                &&& liquidity <= i128::MAX
                &&& old(tick_array_lower).holds_tick(old(position).tick_lower_index as int)
                &&& old(tick_array_upper).holds_tick(old(position).tick_upper_index as int)
                &&& ({
                    let lt = old(tick_array_lower).ticks[old(position).tick_lower_index - old(
                        tick_array_lower,
                    ).start_tick_index];
                    &&& lt.liquidity_net - liquidity >= i128::MIN
                    &&& lt.liquidity_gross - liquidity >= 0
                })
                &&& ({
                    let ut = old(tick_array_upper).ticks[old(position).tick_upper_index - old(
                        tick_array_upper,
                    ).start_tick_index];
                    &&& ut.liquidity_net + liquidity <= i128::MAX
                    &&& ut.liquidity_gross - liquidity >= 0
                })
                &&& (range_active(
                    old(pool).tick_current as int,
                    old(position).tick_lower_index as int,
                    old(position).tick_upper_index as int,
                ) ==> old(pool).liquidity - liquidity >= 0)
            };
            if !detach_ok {
                r is Err
            } else {
                let off_l = old(position).tick_lower_index - old(
                    tick_array_lower,
                ).start_tick_index;
                let off_u = old(position).tick_upper_index - old(
                    tick_array_upper,
                ).start_tick_index;
                let lt = old(tick_array_lower).ticks[off_l];
                let ut = old(tick_array_upper).ticks[off_u];
                &&& r == Ok::<(), ErrorCode>(())
                &&& *final(position) == (Position {
                    liquidity: (old(position).liquidity - liquidity) as u128,
                    ..*old(position)
                })
                &&& final(tick_array_lower).ticks@ == old(tick_array_lower).ticks@.update(
                    off_l,
                    Tick {
                        liquidity_net: (lt.liquidity_net - liquidity) as i128,
                        liquidity_gross: (lt.liquidity_gross - liquidity) as u128,
                        ..lt
                    },
                )
                &&& final(tick_array_upper).ticks@ == old(tick_array_upper).ticks@.update(
                    off_u,
                    Tick {
                        liquidity_net: (ut.liquidity_net + liquidity) as i128,
                        liquidity_gross: (ut.liquidity_gross - liquidity) as u128,
                        ..ut
                    },
                )
                &&& *final(pool) == (Pool {
                    liquidity: if range_active(
                        old(pool).tick_current as int,
                        old(position).tick_lower_index as int,
                        old(position).tick_upper_index as int,
                    ) {
                        (old(pool).liquidity - liquidity) as u128
                    } else {
                        old(pool).liquidity
                    },
                    ..*old(pool)
                })
            }
        }),
{
    if liquidity == 0 {
        return Err(ErrorCode::ZeroLiquidity);
    }
    if liquidity > position.liquidity {
        return Err(ErrorCode::InsufficientLiquidity);
    }
    if liquidity > (i128::MAX as u128) {
        return Err(ErrorCode::MathOverflow);
    }
    let delta = liquidity as i128;
    let lower_tick = match get_tick(tick_array_lower, position.tick_lower_index) {
        Ok(t) => t,
        Err(e) => {
            return Err(e);
        },
    };
    let upper_tick = match get_tick(tick_array_upper, position.tick_upper_index) {
        Ok(t) => t,
        Err(e) => {
            return Err(e);
        },
    };
    // validate every arithmetic step before mutating anything
    if lower_tick.liquidity_net.checked_sub(delta).is_none() {
        return Err(ErrorCode::MathOverflow);
    }
    if lower_tick.liquidity_gross.checked_sub(liquidity).is_none() {
        return Err(ErrorCode::MathOverflow);
    }
    if upper_tick.liquidity_net.checked_add(delta).is_none() {
        return Err(ErrorCode::MathOverflow);
    }
    if upper_tick.liquidity_gross.checked_sub(liquidity).is_none() {
        return Err(ErrorCode::MathOverflow);
    }
    let in_range = position.tick_lower_index <= pool.tick_current && pool.tick_current
        < position.tick_upper_index;
    let new_pool_liquidity = if in_range {
        match pool.liquidity.checked_sub(liquidity) {
            Some(l) => l,
            None => {
                return Err(ErrorCode::MathOverflow);
            },
        }
    } else {
        pool.liquidity
    };
    let lower_result = update_tick(tick_array_lower, position.tick_lower_index, -delta, false);
    match lower_result {
        Ok(_) => (),
        Err(_) => vstd::pervasive::unreached(),
    };
    let upper_result = update_tick(tick_array_upper, position.tick_upper_index, delta, false);
    match upper_result {
        Ok(_) => (),
        Err(_) => vstd::pervasive::unreached(),
    };
    // gross tracking shrinks on both boundary ticks
    let off_l = (position.tick_lower_index - tick_array_lower.start_tick_index) as usize;
    let lt = tick_array_lower.ticks[off_l];
    tick_array_lower.ticks.set(
        off_l,
        Tick { liquidity_gross: lt.liquidity_gross - liquidity, ..lt },
    );
    let off_u = (position.tick_upper_index - tick_array_upper.start_tick_index) as usize;
    let ut = tick_array_upper.ticks[off_u];
    tick_array_upper.ticks.set(
        off_u,
        Tick { liquidity_gross: ut.liquidity_gross - liquidity, ..ut },
    );
    pool.liquidity = new_pool_liquidity;
    position.liquidity = position.liquidity - liquidity;
    Ok(())
}

/// Check that a position may be closed: all liquidity removed and all owed
/// fees collected. A position that still holds either fails with
/// `NonZeroLiquidity`; the host deletes the record on success.
pub fn close_position(position: &Position) -> (r: Result<(), ErrorCode>)
    ensures
        (position.liquidity == 0 && position.tokens_owed_0 == 0 && position.tokens_owed_1 == 0)
            <==> r == Ok::<(), ErrorCode>(()),
        !(position.liquidity == 0 && position.tokens_owed_0 == 0 && position.tokens_owed_1 == 0)
            <==> r == Err::<(), ErrorCode>(ErrorCode::NonZeroLiquidity),
{
    if position.liquidity != 0 || position.tokens_owed_0 != 0 || position.tokens_owed_1 != 0 {
        return Err(ErrorCode::NonZeroLiquidity);
    }
    Ok(())
}

} // verus!
