//! Library-wide laws: properties that tie several operations together,
//! stated over the same spec functions the operations' contracts use.

use vstd::prelude::*;

use vstd::arithmetic::div_mod::{
    lemma_div_is_ordered_by_denominator, lemma_div_pos_is_pos, lemma_fundamental_div_mod,
};
use vstd::arithmetic::mul::lemma_mul_nonnegative;

use crate::fees::{fee_growth_of, growth_inside, protocol_fee_of, wrap_sub, Q64};
use crate::position::{
    fresh_position, liquidity_from_amount_0, liquidity_from_amount_1, min_liquidity,
    position_liquidity,
};
use crate::state::{valid_tick_range, Pool, Tick};
use crate::swap::{flipped_tick, full_fill, price_step, recip, swap_amount_out, swap_new_price};
use crate::tick_math::{
    lemma_sqrt_price_bounds, lemma_sqrt_price_increasing, q128, q64, sqrt_price_at,
    MIN_SQRT_PRICE_X64,
};

verus! {

/// The liquidity granted to a new position is the minimum of the two
/// per-token formula values, over a strictly ordered sqrt-price range, and
/// always fits the unsigned 128-bit range.
///
/// Together with `open_position`'s contract this says: for every valid,
/// spacing-aligned range and any positive amounts whose conversion does not
/// overflow, the position's liquidity is exactly `min(L0, L1)`, and the
/// position is created whenever that minimum is positive.
pub proof fn law_position_liquidity(
    tick_lower: int,
    tick_upper: int,
    tick_spacing: int,
    amount_0: u64,
    amount_1: u64,
)
    requires
        valid_tick_range(tick_lower, tick_upper, tick_spacing),
        amount_0 > 0,
        amount_1 > 0,
    ensures
        sqrt_price_at(tick_lower) < sqrt_price_at(tick_upper),
        position_liquidity(tick_lower, tick_upper, amount_0, amount_1) == min_liquidity(
            liquidity_from_amount_0(
                amount_0,
                sqrt_price_at(tick_lower),
                sqrt_price_at(tick_upper),
            ),
            liquidity_from_amount_1(
                amount_1,
                sqrt_price_at(tick_lower),
                sqrt_price_at(tick_upper),
            ),
        ),
        0 <= position_liquidity(tick_lower, tick_upper, amount_0, amount_1) <= u128::MAX,
{
    lemma_sqrt_price_increasing(tick_lower, tick_upper);
    lemma_sqrt_price_bounds(tick_lower);
    lemma_sqrt_price_bounds(tick_upper);
    let spl = sqrt_price_at(tick_lower);
    let spu = sqrt_price_at(tick_upper);
    lemma_mul_nonnegative(amount_0 as int, q64());
    lemma_div_pos_is_pos(amount_0 * q64(), spu - spl);
    lemma_div_is_ordered_by_denominator(amount_0 * q64(), 1, spu - spl);
    assert(amount_0 * q64() <= u128::MAX) by (nonlinear_arith)
        requires
            amount_0 <= u64::MAX,
            q64() == 0x1_0000_0000_0000_0000,
    ;
}

/// Crossing a tick twice in a row restores it: the outside-growth flip is
/// its own inverse modulo 2^128, and the liquidity taken out by a downward
/// crossing is returned by the matching upward crossing.
pub proof fn law_cross_tick_round_trip(t: Tick, pool_liquidity: u128, global_0: u128, global_1: u128)
    requires
        0 <= pool_liquidity - t.liquidity_net <= u128::MAX,
    ensures
        flipped_tick(flipped_tick(t, global_0, global_1), global_0, global_1) == t,
        (pool_liquidity - t.liquidity_net) + t.liquidity_net == pool_liquidity,
{
}

/// One swap's fee split conserves value within integer rounding: the
/// protocol share and the liquidity providers' share partition the fee, and
/// the growth credited per unit of liquidity, multiplied back by the
/// liquidity, recovers the providers' share up to one unit of liquidity.
pub proof fn law_fee_split_conservation(fee: u64, protocol_fee_rate: u8, liquidity: u128)
    requires
        protocol_fee_rate <= 100,
        liquidity >= 1,
    ensures
        ({
            let pf = protocol_fee_of(fee as u128, protocol_fee_rate);
            let lp = fee - pf;
            let delta = fee_growth_of(lp as u128, liquidity);
            &&& 0 <= pf <= fee
            &&& pf + lp == fee
            &&& delta * liquidity <= lp * q64() < (delta + 1) * liquidity
        }),
{
    let pf = protocol_fee_of(fee as u128, protocol_fee_rate);
    vstd::arithmetic::mul::lemma_mul_inequality(protocol_fee_rate as int, 100, fee as int);
    vstd::arithmetic::mul::lemma_mul_is_commutative(protocol_fee_rate as int, fee as int);
    vstd::arithmetic::mul::lemma_mul_is_commutative(100, fee as int);
    vstd::arithmetic::div_mod::lemma_div_is_ordered(
        fee as int * protocol_fee_rate,
        100 * (fee as int),
        100,
    );
    vstd::arithmetic::div_mod::lemma_div_multiples_vanish(fee as int, 100);
    lemma_div_pos_is_pos(fee as int * protocol_fee_rate, 100);
    lemma_mul_nonnegative(fee as int, protocol_fee_rate as int);
    let lp = fee - pf;
    let scaled = (lp as u128) * (Q64 as int);
    lemma_fundamental_div_mod(scaled, liquidity as int);
    vstd::arithmetic::div_mod::lemma_mod_division_less_than_divisor(scaled, liquidity as int);
    let delta = fee_growth_of(lp as u128, liquidity);
    assert(delta * liquidity <= scaled < (delta + 1) * liquidity) by (nonlinear_arith)
        requires
            scaled == (liquidity as int) * delta + scaled % (liquidity as int),
            0 <= scaled % (liquidity as int) < liquidity as int,
            liquidity >= 1,
    ;
}


/// The liquidity providers' share of one swap's fee.
pub open spec fn lp_share(fee: u64, protocol_fee_rate: u8) -> int {
    fee - protocol_fee_of(fee as u128, protocol_fee_rate)
}

/// Total fees charged over a sequence of swaps, each given as
/// `(fee, protocol_fee_rate, liquidity at the time)`.
pub open spec fn total_fees(swaps: Seq<(u64, u8, u128)>) -> int
    decreases swaps.len(),
{
    if swaps.len() == 0 {
        0
    } else {
        swaps[0].0 + total_fees(swaps.subrange(1, swaps.len() as int))
    }
}

/// Total protocol share over a sequence of swaps.
pub open spec fn total_protocol_fees(swaps: Seq<(u64, u8, u128)>) -> int
    decreases swaps.len(),
{
    if swaps.len() == 0 {
        0
    } else {
        protocol_fee_of(swaps[0].0 as u128, swaps[0].1) + total_protocol_fees(
            swaps.subrange(1, swaps.len() as int),
        )
    }
}

/// Total liquidity-provider share over a sequence of swaps.
pub open spec fn total_lp_fees(swaps: Seq<(u64, u8, u128)>) -> int
    decreases swaps.len(),
{
    if swaps.len() == 0 {
        0
    } else {
        lp_share(swaps[0].0, swaps[0].1) + total_lp_fees(swaps.subrange(1, swaps.len() as int))
    }
}

/// Sum of each swap's credited growth delta times the liquidity it was
/// spread over: the value the accumulators hand back to the providers.
pub open spec fn total_scaled_growth(swaps: Seq<(u64, u8, u128)>) -> int
    decreases swaps.len(),
{
    if swaps.len() == 0 {
        0
    } else {
        fee_growth_of((lp_share(swaps[0].0, swaps[0].1)) as u128, swaps[0].2) * swaps[0].2
            + total_scaled_growth(swaps.subrange(1, swaps.len() as int))
    }
}

/// Total liquidity active across a sequence of swaps: the rounding budget.
pub open spec fn total_liquidity(swaps: Seq<(u64, u8, u128)>) -> int
    decreases swaps.len(),
{
    if swaps.len() == 0 {
        0
    } else {
        swaps[0].2 + total_liquidity(swaps.subrange(1, swaps.len() as int))
    }
}

/// Fee conservation over any sequence of swaps: the protocol and provider
/// shares partition the fees exactly, and the value credited to the
/// fee-growth accumulators, scaled back from Q64.64, recovers the whole
/// provider share up to one unit per unit of active liquidity.
pub proof fn law_fee_sequence_conservation(swaps: Seq<(u64, u8, u128)>)
    requires
        forall|i: int|
            0 <= i < swaps.len() ==> (#[trigger] swaps[i]).1 <= 100 && swaps[i].2 >= 1,
    ensures
        total_lp_fees(swaps) + total_protocol_fees(swaps) == total_fees(swaps),
        total_scaled_growth(swaps) <= total_lp_fees(swaps) * q64(),
        total_lp_fees(swaps) * q64() <= total_scaled_growth(swaps) + total_liquidity(swaps),
    decreases swaps.len(),
{
    if swaps.len() > 0 {
        let head = swaps[0];
        let tail = swaps.subrange(1, swaps.len() as int);
        assert(forall|i: int|
            0 <= i < tail.len() ==> (#[trigger] tail[i]).1 <= 100 && tail[i].2 >= 1) by {
            assert(forall|i: int| 0 <= i < tail.len() ==> tail[i] == swaps[i + 1]);
        }
        law_fee_sequence_conservation(tail);
        law_fee_split_conservation(head.0, head.1, head.2);
        let lp = lp_share(head.0, head.1);
        let delta = fee_growth_of(lp as u128, head.2);
        assert((lp + total_lp_fees(tail)) * q64() == lp * q64() + total_lp_fees(tail) * q64())
            by (nonlinear_arith);
        assert(delta * head.2 <= lp * q64() < (delta + 1) * head.2);
        assert(lp * q64() <= delta * head.2 + head.2) by (nonlinear_arith)
            requires
                lp * q64() < (delta + 1) * head.2,
        ;
    }
}

/// Settling a position recovers its share of the range's fee growth within
/// integer rounding: the amount reported for a growth delta, scaled back up
/// by Q64.64, recovers the delta times the liquidity up to one Q64.64 unit.
/// Together with `law_fee_split_conservation` this bounds the value lost to
/// rounding across one swap and one settlement to below one token unit per
/// unit of liquidity.
pub proof fn law_settlement_rounding(liquidity: u128, inside: u128, last: u128)
    ensures
        ({
            let delta = wrap_sub(inside, last);
            let owed = (delta * liquidity) / (Q64 as int);
            owed * (Q64 as int) <= delta * liquidity < (owed + 1) * (Q64 as int)
        }),
{
    let delta = wrap_sub(inside, last);
    lemma_fundamental_div_mod(delta * liquidity, Q64 as int);
    vstd::arithmetic::div_mod::lemma_mod_division_less_than_divisor(
        delta * liquidity,
        Q64 as int,
    );
    vstd::arithmetic::mul::lemma_mul_nonnegative(delta as int, liquidity as int);
    let owed = (delta * liquidity) / (Q64 as int);
    assert(owed * (Q64 as int) <= delta * liquidity < (owed + 1) * (Q64 as int))
        by (nonlinear_arith)
        requires
            delta * liquidity == (Q64 as int) * owed + (delta * liquidity) % (Q64 as int),
            0 <= (delta * liquidity) % (Q64 as int) < Q64 as int,
    ;
}

/// A freshly opened position settles to nothing: its snapshots are taken at
/// open time, so while the pool's globals and its boundary ticks are
/// unchanged the growth delta of both tokens is zero, and `collect_fees`
/// reports `(0, 0)`.
pub proof fn law_fresh_position_collects_nothing(
    pool: Pool,
    lower_tick: Tick,
    upper_tick: Tick,
    tick_lower_index: i32,
    tick_upper_index: i32,
    liquidity: u128,
    pool_id: u64,
    owner: u64,
)
    ensures
        ({
            let p = fresh_position(
                pool,
                lower_tick,
                upper_tick,
                tick_lower_index,
                tick_upper_index,
                liquidity,
                pool_id,
                owner,
            );
            let gi0 = growth_inside(
                pool.tick_current as int,
                lower_tick.index as int,
                upper_tick.index as int,
                pool.fee_growth_global_0_x64,
                lower_tick.fee_growth_outside_0_x64,
                upper_tick.fee_growth_outside_0_x64,
            );
            let gi1 = growth_inside(
                pool.tick_current as int,
                lower_tick.index as int,
                upper_tick.index as int,
                pool.fee_growth_global_1_x64,
                lower_tick.fee_growth_outside_1_x64,
                upper_tick.fee_growth_outside_1_x64,
            );
            &&& wrap_sub(gi0, p.fee_growth_inside_0_last_x64) == 0
            &&& wrap_sub(gi1, p.fee_growth_inside_1_last_x64) == 0
            &&& (wrap_sub(gi0, p.fee_growth_inside_0_last_x64) * p.liquidity) / (Q64 as int) == 0
            &&& (wrap_sub(gi1, p.fee_growth_inside_1_last_x64) * p.liquidity) / (Q64 as int) == 0
            &&& p.tokens_owed_0 == 0
            &&& p.tokens_owed_1 == 0
        }),
{
}

/// A swap's output is never negative, so a zero `min_amount_out` can never
/// trip the slippage check: by `swap_step`'s contract such a swap fails only
/// for the other documented reasons.
pub proof fn law_swap_output_nonnegative(
    sqrt_price: u128,
    liquidity: u128,
    net_amount: u64,
    limit: u128,
    zero_for_one: bool,
)
    requires
        liquidity >= 1,
        MIN_SQRT_PRICE_X64 <= limit,
        MIN_SQRT_PRICE_X64 <= sqrt_price,
        if zero_for_one {
            limit < sqrt_price
        } else {
            limit > sqrt_price
        },
    ensures
        swap_amount_out(sqrt_price, liquidity, net_amount, limit, zero_for_one) >= 0,
{
    let spn = swap_new_price(sqrt_price, liquidity, net_amount, limit, zero_for_one);
    if zero_for_one {
        if full_fill(sqrt_price, liquidity, net_amount, limit, zero_for_one) {
            vstd::arithmetic::div_mod::lemma_div_pos_is_pos(
                net_amount * q64(),
                liquidity as int,
            );
        }
        assert(limit <= spn <= sqrt_price);
        lemma_mul_nonnegative(liquidity as int, sqrt_price - spn);
        lemma_div_pos_is_pos((liquidity as int) * (sqrt_price - spn), sqrt_price as int);
        lemma_mul_nonnegative(
            ((liquidity as int) * (sqrt_price - spn)) / (sqrt_price as int),
            q64(),
        );
        lemma_div_pos_is_pos(
            (((liquidity as int) * (sqrt_price - spn)) / (sqrt_price as int)) * q64(),
            spn,
        );
    } else {
        if full_fill(sqrt_price, liquidity, net_amount, limit, zero_for_one) {
            let inv = recip(sqrt_price);
            let step = price_step(net_amount, liquidity);
            // the upward target does not fall below the current price
            lemma_fundamental_div_mod(q128(), sqrt_price as int);
            vstd::arithmetic::mul::lemma_mul_is_commutative(inv, sqrt_price as int);
            vstd::arithmetic::div_mod::lemma_div_multiples_vanish(sqrt_price as int, inv);
            vstd::arithmetic::div_mod::lemma_div_is_ordered(
                (sqrt_price as int) * inv,
                q128(),
                inv,
            );
            lemma_div_pos_is_pos(net_amount * q64(), liquidity as int);
            lemma_div_is_ordered_by_denominator(q128(), inv - step, inv);
        }
        assert(sqrt_price <= spn);
        lemma_mul_nonnegative(liquidity as int, spn - sqrt_price);
        lemma_div_pos_is_pos((liquidity as int) * (spn - sqrt_price), q64());
    }
}

} // verus!
