//! The swap engine: single-step pricing against the pool's active liquidity.
//!
//! A swap consumes input tokens against the current liquidity, moving the
//! sqrt price toward the caller's limit; if the limit is hit first the fill
//! is partial and only the consumed input is charged. The trading fee is
//! taken from the input, split between the liquidity providers' fee-growth
//! accumulator and the protocol balance, and every tick boundary the price
//! moves past is crossed in price order.

use vstd::prelude::*;

use vstd::arithmetic::div_mod::{
    lemma_div_is_ordered, lemma_div_is_ordered_by_denominator, lemma_div_multiples_vanish,
    lemma_div_pos_is_pos, lemma_fundamental_div_mod,
};
use vstd::arithmetic::mul::lemma_mul_inequality;

use crate::errors::ErrorCode;
use crate::fees::{fee_growth_of, fee_of, protocol_fee_of, wrap_add, wrap_sub};
use crate::state::{Pool, Tick, TickArray, TICK_ARRAY_SIZE};
use crate::tick_math::{
    q128, q64, recip_q128, sqrt_price_at, sqrt_price_x64_to_tick, tick_in_range,
    MAX_SQRT_PRICE_X64, MAX_TICK, MIN_SQRT_PRICE_X64, Q64,
};

verus! {

/// The Q64.64 sqrt-price distance covered by spreading `amount` input
/// tokens over `liquidity`.
pub open spec fn price_step(amount: u64, liquidity: u128) -> int {
    (amount * q64()) / (liquidity as int)
}

/// The Q64.64 reciprocal of a sqrt price: the mirrored coordinate in which
/// an upward swap is a downward move.
pub open spec fn recip(sqrt_price: u128) -> int {
    q128() / (sqrt_price as int)
}

/// Compute the sqrt price reached by consuming `amount` post-fee input
/// tokens against `liquidity`, ignoring any price limit.
///
/// Swapping token 0 for token 1 moves the price down linearly in the sqrt
/// price; the reverse direction moves it up, linearly in the reciprocal.
/// Fails with `ZeroLiquidity` when there is no liquidity to trade against,
/// and with `MathOverflow` when the target would leave the representable
/// price range.
pub fn calculate_next_sqrt_price(
    sqrt_price_current: u128,
    liquidity: u128,
    amount: u64,
    zero_for_one: bool,
) -> (r: Result<u128, ErrorCode>)
    requires
        MIN_SQRT_PRICE_X64 <= sqrt_price_current <= MAX_SQRT_PRICE_X64,
    ensures
        liquidity == 0 ==> r == Err::<u128, ErrorCode>(ErrorCode::ZeroLiquidity),
        liquidity > 0 && zero_for_one ==> ({
            let step = price_step(amount, liquidity);
            if step >= sqrt_price_current {
                r == Err::<u128, ErrorCode>(ErrorCode::MathOverflow)
            } else {
                r == Ok::<u128, ErrorCode>((sqrt_price_current - step) as u128)
            }
        }),
        liquidity > 0 && !zero_for_one ==> ({
            let step = price_step(amount, liquidity);
            let inv = recip(sqrt_price_current);
            if inv - step < 2 {
                r == Err::<u128, ErrorCode>(ErrorCode::MathOverflow)
            } else {
                r == Ok::<u128, ErrorCode>((q128() / (inv - step)) as u128)
            }
        }),
{
    if liquidity == 0 {
        return Err(ErrorCode::ZeroLiquidity);
    }
    let scaled = (amount as u128) * Q64;
    let step = scaled / liquidity;
    if zero_for_one {
        if step >= sqrt_price_current {
            return Err(ErrorCode::MathOverflow);
        }
        Ok(sqrt_price_current - step)
    } else {
        let inv = recip_q128(sqrt_price_current);
        if inv < 2 || step > inv - 2 {
            proof {
                lemma_recip_in_range(sqrt_price_current);
            }
            return Err(ErrorCode::MathOverflow);
        }
        let inv_after = inv - step;
        proof {
            lemma_recip_in_range(sqrt_price_current);
            // the result fits: 2^128 / inv_after <= 2^128 / 2 < 2^127
            lemma_div_is_ordered_by_denominator(q128(), 2, inv_after as int);
        }
        Ok(recip_q128(inv_after))
    }
}

/// Whether a swap consumes its whole post-fee input before reaching the
/// price limit.
pub open spec fn full_fill(
    sqrt_price: u128,
    liquidity: u128,
    net_amount: u64,
    limit: u128,
    zero_for_one: bool,
) -> bool {
    let step = price_step(net_amount, liquidity);
    if zero_for_one {
        step <= sqrt_price - limit
    } else {
        let inv = recip(sqrt_price);
        inv - step >= 2 && q128() / (inv - step) <= limit
    }
}

/// The sqrt price where the swap stops: the full-fill target, or the limit
/// on a partial fill.
pub open spec fn swap_new_price(
    sqrt_price: u128,
    liquidity: u128,
    net_amount: u64,
    limit: u128,
    zero_for_one: bool,
) -> int {
    if !full_fill(sqrt_price, liquidity, net_amount, limit, zero_for_one) {
        limit as int
    } else if zero_for_one {
        sqrt_price - price_step(net_amount, liquidity)
    } else {
        q128() / (recip(sqrt_price) - price_step(net_amount, liquidity))
    }
}

/// The post-fee input actually consumed: everything on a full fill, else
/// the amount that moves the price exactly to the limit.
pub open spec fn swap_net_used(
    sqrt_price: u128,
    liquidity: u128,
    net_amount: u64,
    limit: u128,
    zero_for_one: bool,
) -> int {
    if full_fill(sqrt_price, liquidity, net_amount, limit, zero_for_one) {
        net_amount as int
    } else if zero_for_one {
        ((liquidity as int) * (sqrt_price - limit)) / q64()
    } else {
        ((liquidity as int) * (recip(sqrt_price) - recip(limit))) / q64()
    }
}

/// The fee charged on a partially consumed input: the gross-up of the net
/// amount at the pool's fee rate.
pub open spec fn fee_gross_up(net_used: int, fee_rate: u32) -> int {
    (net_used * fee_rate) / (1_000_000 - fee_rate)
}

/// The input charged to the trader: the full amount on a full fill; on a
/// partial fill the consumed net plus its fee, never above what was offered.
pub open spec fn swap_in_used(
    sqrt_price: u128,
    liquidity: u128,
    amount_in: u64,
    net_amount: u64,
    limit: u128,
    zero_for_one: bool,
    fee_rate: u32,
) -> int {
    if full_fill(sqrt_price, liquidity, net_amount, limit, zero_for_one) {
        amount_in as int
    } else {
        let nu = swap_net_used(sqrt_price, liquidity, net_amount, limit, zero_for_one);
        let total = nu + fee_gross_up(nu, fee_rate);
        if total <= amount_in {
            total
        } else {
            amount_in as int
        }
    }
}

/// The output produced by the price movement: the inverse of the liquidity
/// formulas, staged left to right with downward rounding.
pub open spec fn swap_amount_out(
    sqrt_price: u128,
    liquidity: u128,
    net_amount: u64,
    limit: u128,
    zero_for_one: bool,
) -> int {
    let spn = swap_new_price(sqrt_price, liquidity, net_amount, limit, zero_for_one);
    if zero_for_one {
        ((((liquidity as int) * (sqrt_price - spn)) / (sqrt_price as int)) * q64()) / spn
    } else {
        ((liquidity as int) * (spn - sqrt_price)) / q64()
    }
}

/// Whether `t` is the tick whose price bucket contains `p`.
pub open spec fn is_tick_bucket(t: int, p: u128) -> bool {
    &&& tick_in_range(t)
    &&& sqrt_price_at(t) <= p
    &&& (t < MAX_TICK ==> (p as int) < sqrt_price_at(t + 1))
}

/// The tick whose price bucket contains `p`; unique by monotonicity.
pub open spec fn tick_bucket(p: u128) -> int {
    choose|t: int| is_tick_bucket(t, p)
}

/// Any witness of the bucket predicate is the bucket.
pub proof fn lemma_tick_bucket_unique(p: u128, t: int)
    requires
        is_tick_bucket(t, p),
    ensures
        tick_bucket(p) == t,
{
    let t2 = choose|x: int| is_tick_bucket(x, p);
    assert(is_tick_bucket(t2, p));
    if t < t2 {
        crate::tick_math::lemma_sqrt_price_increasing(t + 1, t2);
        assert(false);
    }
    if t2 < t {
        crate::tick_math::lemma_sqrt_price_increasing(t2 + 1, t);
        assert(false);
    }
}

/// The sum of the `liquidity_net` fields over window offsets `[a, b)`.
pub open spec fn net_sum(ticks: Seq<Tick>, a: int, b: int) -> int
    decreases b - a,
{
    if a >= b {
        0
    } else {
        ticks[a].liquidity_net + net_sum(ticks, a + 1, b)
    }
}

/// Peel the last summand instead of the first.
proof fn lemma_net_sum_snoc(ticks: Seq<Tick>, a: int, k: int)
    requires
        a <= k,
    ensures
        net_sum(ticks, a, k + 1) == net_sum(ticks, a, k) + ticks[k].liquidity_net,
    decreases k - a,
{
    reveal_with_fuel(net_sum, 3);
    if a < k {
        lemma_net_sum_snoc(ticks, a + 1, k);
    }
}

/// Whether crossing the window offsets `[a, b)` upward, adding each
/// `liquidity_net` in ascending order, keeps the pool liquidity in the
/// unsigned 128-bit range at every step.
pub open spec fn cross_ok_up(ticks: Seq<Tick>, a: int, b: int, liquidity: int) -> bool
    decreases b - a,
{
    if a >= b {
        true
    } else {
        let next = liquidity + ticks[a].liquidity_net;
        0 <= next <= u128::MAX && cross_ok_up(ticks, a + 1, b, next)
    }
}

/// Whether crossing the window offsets `[a, b)` downward, subtracting each
/// `liquidity_net` in descending order, keeps the pool liquidity in the
/// unsigned 128-bit range at every step.
pub open spec fn cross_ok_down(ticks: Seq<Tick>, a: int, b: int, liquidity: int) -> bool
    decreases b - a,
{
    if a >= b {
        true
    } else {
        let next = liquidity - ticks[b - 1].liquidity_net;
        0 <= next <= u128::MAX && cross_ok_down(ticks, a, b - 1, next)
    }
}

/// Clamp a window offset into `[0, TICK_ARRAY_SIZE]`.
pub open spec fn clamp_offset(x: int) -> int {
    if x < 0 {
        0
    } else if x > TICK_ARRAY_SIZE {
        TICK_ARRAY_SIZE as int
    } else {
        x
    }
}

/// First window offset crossed by a price move from `old_tick`'s bucket to
/// `new_tick`'s: moving down crosses `(new_tick, old_tick]`, moving up
/// crosses `(old_tick, new_tick]`.
pub open spec fn cross_lo(start: int, old_tick: int, new_tick: int, zero_for_one: bool) -> int {
    clamp_offset(
        (if zero_for_one {
            new_tick + 1
        } else {
            old_tick + 1
        }) - start,
    )
}

/// One past the last window offset crossed by the price move.
pub open spec fn cross_hi(start: int, old_tick: int, new_tick: int, zero_for_one: bool) -> int {
    clamp_offset(
        (if zero_for_one {
            old_tick
        } else {
            new_tick
        }) + 1 - start,
    )
}

/// A tick after a crossing: both outside accumulators flip to the
/// complement of the current globals; everything else is kept.
pub open spec fn flipped_tick(t: Tick, global_0: u128, global_1: u128) -> Tick {
    Tick {
        fee_growth_outside_0_x64: wrap_sub(global_0, t.fee_growth_outside_0_x64),
        fee_growth_outside_1_x64: wrap_sub(global_1, t.fee_growth_outside_1_x64),
        ..t
    }
}

/// The trading fee never exceeds the input it is taken from, and the fee
/// product fits easily in 128 bits.
proof fn lemma_fee_le_amount(amount: u64, fee_rate: u32)
    requires
        fee_rate <= 1_000_000,
    ensures
        0 <= fee_of(amount as u128, fee_rate) <= amount,
        amount * fee_rate <= u128::MAX,
{
    lemma_mul_inequality(fee_rate as int, 1_000_000, amount as int);
    vstd::arithmetic::mul::lemma_mul_is_commutative(fee_rate as int, amount as int);
    vstd::arithmetic::mul::lemma_mul_is_commutative(1_000_000, amount as int);
    lemma_div_is_ordered(amount as int * fee_rate, 1_000_000 * (amount as int), 1_000_000);
    lemma_div_multiples_vanish(amount as int, 1_000_000);
    lemma_div_pos_is_pos(amount as int * fee_rate, 1_000_000);
    vstd::arithmetic::mul::lemma_mul_upper_bound(
        amount as int,
        u64::MAX as int,
        fee_rate as int,
        1_000_000,
    );
}

/// The protocol's cut never exceeds the fee it is taken from.
proof fn lemma_protocol_fee_le(fee: u64, rate: u8)
    requires
        rate <= 100,
    ensures
        0 <= protocol_fee_of(fee as u128, rate) <= fee,
        fee * rate <= u128::MAX,
{
    lemma_mul_inequality(rate as int, 100, fee as int);
    vstd::arithmetic::mul::lemma_mul_is_commutative(rate as int, fee as int);
    vstd::arithmetic::mul::lemma_mul_is_commutative(100, fee as int);
    lemma_div_is_ordered(fee as int * rate, 100 * (fee as int), 100);
    lemma_div_multiples_vanish(fee as int, 100);
    lemma_div_pos_is_pos(fee as int * rate, 100);
    vstd::arithmetic::mul::lemma_mul_upper_bound(fee as int, u64::MAX as int, rate as int, 100);
}

/// Spreading the step back over the liquidity recovers at most the scaled
/// input: `l * price_step(net, l) <= net * 2^64`, which also fits in
/// 128 bits.
proof fn lemma_step_scaled(net: u64, liquidity: u128)
    requires
        liquidity >= 1,
    ensures
        0 <= price_step(net, liquidity),
        (liquidity as int) * price_step(net, liquidity) <= net * q64(),
        net * q64() <= u128::MAX,
{
    lemma_fundamental_div_mod(net * q64(), liquidity as int);
    lemma_div_pos_is_pos(net * q64(), liquidity as int);
    vstd::arithmetic::mul::lemma_mul_upper_bound(
        net as int,
        u64::MAX as int,
        q64(),
        q64(),
    );
    assert((u64::MAX as int) * q64() <= u128::MAX) by (nonlinear_arith)
        requires
            q64() == 0x1_0000_0000_0000_0000,
    ;
}

/// On a partial downward fill the consumed input fits: the price gap to the
/// limit is smaller than the full step.
proof fn lemma_partial_net_down(sqrt_price: u128, limit: u128, liquidity: u128, net: u64)
    requires
        liquidity >= 1,
        limit < sqrt_price,
        price_step(net, liquidity) > sqrt_price - limit,
    ensures
        0 <= (liquidity as int) * (sqrt_price - limit) <= net * q64() <= u128::MAX,
        0 <= ((liquidity as int) * (sqrt_price - limit)) / q64() <= net,
{
    lemma_step_scaled(net, liquidity);
    lemma_mul_inequality(sqrt_price - limit, price_step(net, liquidity) - 1, liquidity as int);
    vstd::arithmetic::mul::lemma_mul_is_commutative(sqrt_price - limit, liquidity as int);
    vstd::arithmetic::mul::lemma_mul_is_commutative(
        price_step(net, liquidity) - 1,
        liquidity as int,
    );
    vstd::arithmetic::mul::lemma_mul_is_distributive_sub(
        liquidity as int,
        price_step(net, liquidity),
        1,
    );
    vstd::arithmetic::mul::lemma_mul_nonnegative(liquidity as int, sqrt_price - limit);
    lemma_div_is_ordered((liquidity as int) * (sqrt_price - limit), net * q64(), q64());
    lemma_div_multiples_vanish(net as int, q64());
    vstd::arithmetic::mul::lemma_mul_is_commutative(q64(), net as int);
    lemma_div_pos_is_pos((liquidity as int) * (sqrt_price - limit), q64());
}

/// On a partial upward fill the consumed input fits: the reciprocal gap to
/// the limit is at most the full step.
proof fn lemma_partial_net_up(sqrt_price: u128, limit: u128, liquidity: u128, net: u64)
    requires
        liquidity >= 1,
        MIN_SQRT_PRICE_X64 <= sqrt_price <= MAX_SQRT_PRICE_X64,
        MIN_SQRT_PRICE_X64 <= limit <= MAX_SQRT_PRICE_X64,
        limit > sqrt_price,
        !full_fill(sqrt_price, liquidity, net, limit, false),
    ensures
        0 <= recip(sqrt_price) - recip(limit),
        (liquidity as int) * (recip(sqrt_price) - recip(limit)) <= net * q64() <= u128::MAX,
        0 <= ((liquidity as int) * (recip(sqrt_price) - recip(limit))) / q64() <= net,
{
    let inv = recip(sqrt_price);
    let invl = recip(limit);
    let step = price_step(net, liquidity);
    lemma_step_scaled(net, liquidity);
    lemma_recip_in_range(sqrt_price);
    lemma_recip_in_range(limit);
    lemma_div_is_ordered_by_denominator(q128(), sqrt_price as int, limit as int);
    if inv - step < 2 {
        // the target escapes the representable range: the whole reciprocal
        // gap is below the step
        assert(inv - invl <= step) by {
            assert(invl > 2);
        };
    } else {
        // the target price exceeds the limit, so the limit's reciprocal is
        // at least the target's
        let inv2 = inv - step;
        let target = q128() / inv2;
        assert(limit < target);
        lemma_fundamental_div_mod(q128(), inv2);
        lemma_mul_inequality(limit as int + 1, target, inv2);
        // (limit + 1) * inv2 <= target * inv2 <= q128
        assert(target * inv2 <= q128()) by (nonlinear_arith)
            requires
                q128() == inv2 * (q128() / inv2) + q128() % inv2,
                q128() % inv2 >= 0,
                target == q128() / inv2,
        ;
        // hence inv2 <= q128 / limit
        assert(inv2 * (limit as int) <= q128()) by (nonlinear_arith)
            requires
                (limit as int + 1) * inv2 <= q128(),
                inv2 >= 0,
        ;
        vstd::arithmetic::mul::lemma_mul_is_commutative(inv2, limit as int);
        lemma_div_multiples_vanish(inv2, limit as int);
        lemma_div_is_ordered((limit as int) * inv2, q128(), limit as int);
    }
    // either way inv - invl <= step, so the product is bounded
    lemma_mul_inequality(inv - invl, step, liquidity as int);
    vstd::arithmetic::mul::lemma_mul_is_commutative(inv - invl, liquidity as int);
    vstd::arithmetic::mul::lemma_mul_is_commutative(step, liquidity as int);
    vstd::arithmetic::mul::lemma_mul_nonnegative(liquidity as int, inv - invl);
    lemma_div_is_ordered((liquidity as int) * (inv - invl), net * q64(), q64());
    lemma_div_multiples_vanish(net as int, q64());
    vstd::arithmetic::mul::lemma_mul_is_commutative(q64(), net as int);
    lemma_div_pos_is_pos((liquidity as int) * (inv - invl), q64());
}

/// Buckets are ordered like their prices.
proof fn lemma_bucket_ordered(p1: u128, p2: u128, t1: int, t2: int)
    requires
        is_tick_bucket(t1, p1),
        is_tick_bucket(t2, p2),
        p1 <= p2,
    ensures
        t1 <= t2,
{
    if t1 > t2 {
        if t2 + 1 < t1 {
            crate::tick_math::lemma_sqrt_price_increasing(t2 + 1, t1);
        }
        assert(false);
    }
}

/// The reciprocal of an in-range sqrt price is itself at least 2 and fits
/// comfortably in 128 bits.
proof fn lemma_recip_in_range(sqrt_price: u128)
    requires
        MIN_SQRT_PRICE_X64 <= sqrt_price <= MAX_SQRT_PRICE_X64,
    ensures
        2 < recip(sqrt_price) < q128() / 2,
        recip(sqrt_price) <= u128::MAX,
{
    lemma_div_is_ordered_by_denominator(q128(), sqrt_price as int, MAX_SQRT_PRICE_X64 as int);
    lemma_div_is_ordered_by_denominator(q128(), MIN_SQRT_PRICE_X64 as int, sqrt_price as int);
    assert(q128() / (MAX_SQRT_PRICE_X64 as int) > 2) by (nonlinear_arith)
        requires
            q128() == q64() * q64(),
            q64() == 0x1_0000_0000_0000_0000,
    ;
    assert(q128() / (MIN_SQRT_PRICE_X64 as int) < q128() / 2 && q128() / 2 < u128::MAX as int)
        by (nonlinear_arith)
        requires
            q128() == q64() * q64(),
            q64() == 0x1_0000_0000_0000_0000,
    ;
}

/// The complete input/output relation of one swap step: given the pool and
/// tick window before the call, relates the result and the state after it.
/// `swap_step` ensures exactly this relation; the router's contract chains
/// it across the hops of a route. Opaque: reveal it to relate a hop's
/// states; `swap_step`'s direct clauses state the same facts.
#[verifier::opaque]
pub open spec fn swap_step_post(
    pre_pool: Pool,
    pre_ticks: Seq<Tick>,
    pre_start: i32,
    amount_in: u64,
    min_amount_out: u64,
    price_limit: u128,
    zero_for_one: bool,
    post_pool: Pool,
    post_ticks: Seq<Tick>,
    r: Result<u64, ErrorCode>,
) -> bool {
    &&& (r is Err ==> post_pool == pre_pool && post_ticks == pre_ticks)
    &&& (amount_in == 0 ==> r == Err::<u64, ErrorCode>(ErrorCode::InvalidAmount))
    &&& (amount_in > 0 && !(MIN_SQRT_PRICE_X64 <= price_limit <= MAX_SQRT_PRICE_X64) ==> r
            == Err::<u64, ErrorCode>(ErrorCode::InvalidPriceLimit))
    &&& (amount_in > 0 && MIN_SQRT_PRICE_X64 <= price_limit <= MAX_SQRT_PRICE_X64 && !(
        if zero_for_one {
            price_limit < pre_pool.sqrt_price_x64
        } else {
            price_limit > pre_pool.sqrt_price_x64
        }) ==> r == Err::<u64, ErrorCode>(ErrorCode::InvalidPriceLimit))
    &&& (amount_in > 0 && MIN_SQRT_PRICE_X64 <= price_limit <= MAX_SQRT_PRICE_X64 && (
        if zero_for_one {
            price_limit < pre_pool.sqrt_price_x64
        } else {
            price_limit > pre_pool.sqrt_price_x64
        }) && pre_pool.liquidity == 0 ==> r == Err::<u64, ErrorCode>(ErrorCode::ZeroLiquidity))
    &&& (amount_in > 0 && MIN_SQRT_PRICE_X64 <= price_limit <= MAX_SQRT_PRICE_X64 && (
        if zero_for_one {
            price_limit < pre_pool.sqrt_price_x64
        } else {
            price_limit > pre_pool.sqrt_price_x64
        }) && pre_pool.liquidity > 0 ==> ({
            let sp = pre_pool.sqrt_price_x64;
            let l = pre_pool.liquidity;
            let limit = price_limit;
            let fee = fee_of(amount_in as u128, pre_pool.fee_rate);
            let net = (amount_in - fee) as u64;
            let spn = swap_new_price(sp, l, net, limit, zero_for_one);
            let out = swap_amount_out(sp, l, net, limit, zero_for_one);
            let nu = swap_net_used(sp, l, net, limit, zero_for_one);
            let iu = swap_in_used(
                sp,
                l,
                amount_in,
                net,
                limit,
                zero_for_one,
                pre_pool.fee_rate,
            );
            let fu = iu - nu;
            let pf = protocol_fee_of(fu as u128, pre_pool.protocol_fee_rate);
            let lp = fu - pf;
            let delta = fee_growth_of(lp as u128, l);
            let g0 = if zero_for_one {
                wrap_add(pre_pool.fee_growth_global_0_x64, delta as u128)
            } else {
                pre_pool.fee_growth_global_0_x64
            };
            let g1 = if !zero_for_one {
                wrap_add(pre_pool.fee_growth_global_1_x64, delta as u128)
            } else {
                pre_pool.fee_growth_global_1_x64
            };
            let nt = tick_bucket(spn as u128);
            let start = pre_start as int;
            let a = cross_lo(start, pre_pool.tick_current as int, nt, zero_for_one);
            let b = cross_hi(start, pre_pool.tick_current as int, nt, zero_for_one);
            let out_overflow = if zero_for_one {
                (((l as int) * (sp - spn)) / (sp as int)) * q64() > u128::MAX
            } else {
                (l as int) * (spn - sp) > u128::MAX
            };
            if out_overflow || out > u64::MAX {
                r == Err::<u64, ErrorCode>(ErrorCode::MathOverflow)
            } else if out < min_amount_out {
                r == Err::<u64, ErrorCode>(ErrorCode::ExcessiveSlippage)
            } else if (zero_for_one && pre_pool.protocol_fees_0 + pf > u64::MAX) || (!zero_for_one
                && pre_pool.protocol_fees_1 + pf > u64::MAX) {
                r == Err::<u64, ErrorCode>(ErrorCode::MathOverflow)
            } else if !(if zero_for_one {
                cross_ok_down(pre_ticks, a, b, l as int)
            } else {
                cross_ok_up(pre_ticks, a, b, l as int)
            }) {
                r == Err::<u64, ErrorCode>(ErrorCode::MathOverflow)
            } else {
                &&& r == Ok::<u64, ErrorCode>(out as u64)
                &&& post_pool == (Pool {
                    liquidity: (if zero_for_one {
                        l - net_sum(pre_ticks, a, b)
                    } else {
                        l + net_sum(pre_ticks, a, b)
                    }) as u128,
                    sqrt_price_x64: spn as u128,
                    tick_current: nt as i32,
                    fee_growth_global_0_x64: g0,
                    fee_growth_global_1_x64: g1,
                    protocol_fees_0: if zero_for_one {
                        (pre_pool.protocol_fees_0 + pf) as u64
                    } else {
                        pre_pool.protocol_fees_0
                    },
                    protocol_fees_1: if !zero_for_one {
                        (pre_pool.protocol_fees_1 + pf) as u64
                    } else {
                        pre_pool.protocol_fees_1
                    },
                    ..pre_pool
                })
                &&& post_ticks.len() == TICK_ARRAY_SIZE
                &&& forall|j: int|
                    0 <= j < TICK_ARRAY_SIZE ==> #[trigger] post_ticks[j] == (
                    if a <= j < b {
                        flipped_tick(pre_ticks[j], g0, g1)
                    } else {
                        pre_ticks[j]
                    })
            }
        }))
}

/// Execute one swap step against a pool.
///
/// Validates the price limit (inside the global bounds and on the side the
/// direction moves toward), requires active liquidity, deducts the trading
/// fee from the input, moves the price toward the limit — stopping at it on
/// a partial fill and then charging only the consumed input — and derives
/// the output from the price movement. Enforces the caller's slippage floor
/// on the output, credits the liquidity providers' share of the fee to the
/// input token's fee-growth accumulator and the protocol share to its
/// protocol balance, crosses every tick boundary the price moved past in
/// price order, and commits the new price and tick. Returns the output
/// amount; on any error nothing changes.
#[verifier::loop_isolation(false)]
#[verifier::rlimit(80)]
pub fn swap_step(
    pool: &mut Pool,
    tick_array: &mut TickArray,
    amount_in: u64,
    min_amount_out: u64,
    sqrt_price_limit_x64: u128,
    zero_for_one: bool,
) -> (r: Result<u64, ErrorCode>)
    requires
        old(pool).wf(),
        old(tick_array).wf(),
    ensures
        final(pool).wf(),
        final(tick_array).wf(),
        final(tick_array).start_tick_index == old(tick_array).start_tick_index,
        swap_step_post(
            *old(pool),
            old(tick_array).ticks@,
            old(tick_array).start_tick_index,
            amount_in,
            min_amount_out,
            sqrt_price_limit_x64,
            zero_for_one,
            *final(pool),
            final(tick_array).ticks@,
            r,
        ),
        r is Err ==> *final(pool) == *old(pool) && *final(tick_array) == *old(tick_array),
        amount_in == 0 ==> r == Err::<u64, ErrorCode>(ErrorCode::InvalidAmount),
        amount_in > 0 && !(MIN_SQRT_PRICE_X64 <= sqrt_price_limit_x64 <= MAX_SQRT_PRICE_X64) ==> r
            == Err::<u64, ErrorCode>(ErrorCode::InvalidPriceLimit),
        amount_in > 0 && MIN_SQRT_PRICE_X64 <= sqrt_price_limit_x64 <= MAX_SQRT_PRICE_X64 && !(
        if zero_for_one {
            sqrt_price_limit_x64 < old(pool).sqrt_price_x64
        } else {
            sqrt_price_limit_x64 > old(pool).sqrt_price_x64
        }) ==> r == Err::<u64, ErrorCode>(ErrorCode::InvalidPriceLimit),
        amount_in > 0 && MIN_SQRT_PRICE_X64 <= sqrt_price_limit_x64 <= MAX_SQRT_PRICE_X64 && (
        if zero_for_one {
            sqrt_price_limit_x64 < old(pool).sqrt_price_x64
        } else {
            sqrt_price_limit_x64 > old(pool).sqrt_price_x64
        }) && old(pool).liquidity == 0 ==> r == Err::<u64, ErrorCode>(ErrorCode::ZeroLiquidity),
        amount_in > 0 && MIN_SQRT_PRICE_X64 <= sqrt_price_limit_x64 <= MAX_SQRT_PRICE_X64 && (
        if zero_for_one {
            sqrt_price_limit_x64 < old(pool).sqrt_price_x64
        } else {
            sqrt_price_limit_x64 > old(pool).sqrt_price_x64
        }) && old(pool).liquidity > 0 ==> ({
            let sp = old(pool).sqrt_price_x64;
            let l = old(pool).liquidity;
            let limit = sqrt_price_limit_x64;
            let fee = fee_of(amount_in as u128, old(pool).fee_rate);
            let net = (amount_in - fee) as u64;
            let spn = swap_new_price(sp, l, net, limit, zero_for_one);
            let out = swap_amount_out(sp, l, net, limit, zero_for_one);
            let nu = swap_net_used(sp, l, net, limit, zero_for_one);
            let iu = swap_in_used(
                sp,
                l,
                amount_in,
                net,
                limit,
                zero_for_one,
                old(pool).fee_rate,
            );
            let fu = iu - nu;
            let pf = protocol_fee_of(fu as u128, old(pool).protocol_fee_rate);
            let lp = fu - pf;
            let delta = fee_growth_of(lp as u128, l);
            let g0 = if zero_for_one {
                wrap_add(old(pool).fee_growth_global_0_x64, delta as u128)
            } else {
                old(pool).fee_growth_global_0_x64
            };
            let g1 = if !zero_for_one {
                wrap_add(old(pool).fee_growth_global_1_x64, delta as u128)
            } else {
                old(pool).fee_growth_global_1_x64
            };
            let nt = tick_bucket(spn as u128);
            let start = old(tick_array).start_tick_index as int;
            let a = cross_lo(start, old(pool).tick_current as int, nt, zero_for_one);
            let b = cross_hi(start, old(pool).tick_current as int, nt, zero_for_one);
            let out_overflow = if zero_for_one {
                (((l as int) * (sp - spn)) / (sp as int)) * q64() > u128::MAX
            } else {
                (l as int) * (spn - sp) > u128::MAX
            };
            if out_overflow || out > u64::MAX {
                r == Err::<u64, ErrorCode>(ErrorCode::MathOverflow)
            } else if out < min_amount_out {
                r == Err::<u64, ErrorCode>(ErrorCode::ExcessiveSlippage)
            } else if (zero_for_one && old(pool).protocol_fees_0 + pf > u64::MAX) || (!zero_for_one
                && old(pool).protocol_fees_1 + pf > u64::MAX) {
                r == Err::<u64, ErrorCode>(ErrorCode::MathOverflow)
            } else if !(if zero_for_one {
                cross_ok_down(old(tick_array).ticks@, a, b, l as int)
            } else {
                cross_ok_up(old(tick_array).ticks@, a, b, l as int)
            }) {
                r == Err::<u64, ErrorCode>(ErrorCode::MathOverflow)
            } else {
                &&& r == Ok::<u64, ErrorCode>(out as u64)
                &&& *final(pool) == (Pool {
                    liquidity: (if zero_for_one {
                        l - net_sum(old(tick_array).ticks@, a, b)
                    } else {
                        l + net_sum(old(tick_array).ticks@, a, b)
                    }) as u128,
                    sqrt_price_x64: spn as u128,
                    tick_current: nt as i32,
                    fee_growth_global_0_x64: g0,
                    fee_growth_global_1_x64: g1,
                    protocol_fees_0: if zero_for_one {
                        (old(pool).protocol_fees_0 + pf) as u64
                    } else {
                        old(pool).protocol_fees_0
                    },
                    protocol_fees_1: if !zero_for_one {
                        (old(pool).protocol_fees_1 + pf) as u64
                    } else {
                        old(pool).protocol_fees_1
                    },
                    ..*old(pool)
                })
                &&& final(tick_array).ticks@.len() == TICK_ARRAY_SIZE
                &&& forall|j: int|
                    0 <= j < TICK_ARRAY_SIZE ==> #[trigger] final(tick_array).ticks@[j] == (
                    if a <= j < b {
                        flipped_tick(old(tick_array).ticks@[j], g0, g1)
                    } else {
                        old(tick_array).ticks@[j]
                    })
            }
        }),
{
    proof {
        reveal(swap_step_post);
    }
    if amount_in == 0 {
        return Err(ErrorCode::InvalidAmount);
    }
    if sqrt_price_limit_x64 < MIN_SQRT_PRICE_X64 || sqrt_price_limit_x64 > MAX_SQRT_PRICE_X64 {
        return Err(ErrorCode::InvalidPriceLimit);
    }
    if zero_for_one {
        if sqrt_price_limit_x64 >= pool.sqrt_price_x64 {
            return Err(ErrorCode::InvalidPriceLimit);
        }
    } else {
        if sqrt_price_limit_x64 <= pool.sqrt_price_x64 {
            return Err(ErrorCode::InvalidPriceLimit);
        }
    }
    if pool.liquidity == 0 {
        return Err(ErrorCode::ZeroLiquidity);
    }
    let sp = pool.sqrt_price_x64;
    let l = pool.liquidity;
    let limit = sqrt_price_limit_x64;
    proof {
        lemma_fee_le_amount(amount_in, pool.fee_rate);
    }
    let (fee_amount_u128, net_u128) = match crate::fees::calculate_fee_amount(
        amount_in as u128,
        pool.fee_rate,
    ) {
        Ok(p) => p,
        Err(_) => vstd::pervasive::unreached(),
    };
    let fee_amount = fee_amount_u128 as u64;
    let net = net_u128 as u64;
    // the unclamped target price, then clamped at the limit
    let target = calculate_next_sqrt_price(sp, l, net, zero_for_one);
    let (sp_new, full): (u128, bool) = match target {
        Ok(t) => {
            if zero_for_one {
                if t < limit {
                    (limit, false)
                } else {
                    (t, true)
                }
            } else {
                if t > limit {
                    (limit, false)
                } else {
                    (t, true)
                }
            }
        },
        Err(_) => (limit, false),
    };
    proof {
        lemma_step_scaled(net, l);
        let step = price_step(net, l);
        if zero_for_one {
            assert(full == (step <= sp - limit));
        } else {
            lemma_recip_in_range(sp);
            let inv = recip(sp);
            if inv - step >= 2 {
                lemma_div_pos_is_pos(q128(), inv - step);
                lemma_div_is_ordered_by_denominator(q128(), 2, inv - step);
                assert(q128() / 2 < u128::MAX as int) by (nonlinear_arith)
                    requires
                        q128() == q64() * q64(),
                        q64() == 0x1_0000_0000_0000_0000,
                ;
                // the upward target never falls below the current price
                lemma_fundamental_div_mod(q128(), sp as int);
                vstd::arithmetic::mul::lemma_mul_is_commutative(inv, sp as int);
                lemma_div_multiples_vanish(sp as int, inv);
                lemma_div_is_ordered((sp as int) * inv, q128(), inv);
                lemma_div_is_ordered_by_denominator(q128(), inv - step, inv);
            }
            assert(full == full_fill(sp, l, net, limit, zero_for_one));
        }
        assert(sp_new as int == swap_new_price(sp, l, net, limit, zero_for_one));
        assert(MIN_SQRT_PRICE_X64 <= sp_new <= MAX_SQRT_PRICE_X64);
    }
    // consumed input and its fee
    let (net_used_v, in_used_v): (u64, u64) = if full {
        (net, amount_in)
    } else {
        let nu128: u128 = if zero_for_one {
            proof {
                lemma_partial_net_down(sp, limit, l, net);
            }
            (l * (sp - limit)) / Q64
        } else {
            let inv = recip_q128(sp);
            let inv_limit = recip_q128(limit);
            proof {
                lemma_partial_net_up(sp, limit, l, net);
            }
            (l * (inv - inv_limit)) / Q64
        };
        let nu = nu128 as u64;
        proof {
            assert(pool.fee_rate <= crate::state::MAX_FEE_RATE);
            vstd::arithmetic::mul::lemma_mul_upper_bound(
                nu as int,
                u64::MAX as int,
                pool.fee_rate as int,
                100_000,
            );
        }
        let gross = ((nu as u128) * (pool.fee_rate as u128)) / ((1_000_000 - pool.fee_rate)
            as u128);
        proof {
            lemma_div_pos_is_pos((nu as int) * (pool.fee_rate as int), 1_000_000 - pool.fee_rate);
            vstd::arithmetic::mul::lemma_mul_upper_bound(
                nu as int,
                u64::MAX as int,
                pool.fee_rate as int,
                1_000_000,
            );
        }
        let tot = (nu as u128) + gross;
        let iu: u64 = if tot <= (amount_in as u128) {
            tot as u64
        } else {
            amount_in
        };
        (nu, iu)
    };
    let fee_used = in_used_v - net_used_v;
    proof {
        assert(net_used_v as int == swap_net_used(sp, l, net, limit, zero_for_one));
        assert(in_used_v as int == swap_in_used(
            sp,
            l,
            amount_in,
            net,
            limit,
            zero_for_one,
            pool.fee_rate,
        ));
    }
    // output from the price movement
    let out_u128: u128 = if zero_for_one {
        proof {
            if full {
                lemma_step_scaled(net, l);
                lemma_mul_inequality(sp - sp_new, price_step(net, l), l as int);
                vstd::arithmetic::mul::lemma_mul_is_commutative(sp - sp_new, l as int);
                vstd::arithmetic::mul::lemma_mul_is_commutative(price_step(net, l), l as int);
            } else {
                lemma_partial_net_down(sp, limit, l, net);
            }
            vstd::arithmetic::mul::lemma_mul_nonnegative(l as int, sp - sp_new);
            lemma_div_pos_is_pos((l as int) * (sp - sp_new), sp as int);
        }
        let t1 = l * (sp - sp_new);
        let t2 = t1 / sp;
        match t2.checked_mul(Q64) {
            Some(t3) => t3 / sp_new,
            None => {
                return Err(ErrorCode::MathOverflow);
            },
        }
    } else {
        match l.checked_mul(sp_new - sp) {
            Some(t1) => t1 / Q64,
            None => {
                return Err(ErrorCode::MathOverflow);
            },
        }
    };
    proof {
        assert(out_u128 as int == swap_amount_out(sp, l, net, limit, zero_for_one));
    }
    if out_u128 > (u64::MAX as u128) {
        return Err(ErrorCode::MathOverflow);
    }
    let amount_out = out_u128 as u64;
    if amount_out < min_amount_out {
        return Err(ErrorCode::ExcessiveSlippage);
    }
    // split the fee between liquidity providers and the protocol
    proof {
        lemma_protocol_fee_le(fee_used, pool.protocol_fee_rate);
    }
    let pf128 = match crate::fees::calculate_protocol_fee(
        fee_used as u128,
        pool.protocol_fee_rate,
    ) {
        Ok(p) => p,
        Err(_) => vstd::pervasive::unreached(),
    };
    let pf = pf128 as u64;
    let lp_fee = fee_used - pf;
    proof {
        vstd::arithmetic::mul::lemma_mul_upper_bound(
            lp_fee as int,
            u64::MAX as int,
            q64(),
            q64(),
        );
        assert((u64::MAX as int) * q64() <= u128::MAX) by (nonlinear_arith)
            requires
                q64() == 0x1_0000_0000_0000_0000,
        ;
    }
    let growth_delta = match crate::fees::calculate_fee_growth(lp_fee as u128, l) {
        Ok(d) => d,
        Err(_) => vstd::pervasive::unreached(),
    };
    // the protocol accumulator must be able to take its share
    if zero_for_one {
        if pool.protocol_fees_0.checked_add(pf).is_none() {
            return Err(ErrorCode::MathOverflow);
        }
    } else {
        if pool.protocol_fees_1.checked_add(pf).is_none() {
            return Err(ErrorCode::MathOverflow);
        }
    }
    // the destination price bucket
    let new_tick = match sqrt_price_x64_to_tick(sp_new) {
        Ok(t) => t,
        Err(_) => vstd::pervasive::unreached(),
    };
    proof {
        lemma_tick_bucket_unique(sp_new, new_tick as int);
        if zero_for_one {
            lemma_bucket_ordered(sp_new, sp, new_tick as int, pool.tick_current as int);
        } else {
            lemma_bucket_ordered(sp, sp_new, pool.tick_current as int, new_tick as int);
        }
    }
    // window offsets of the crossed ticks
    let start_i64 = tick_array.start_tick_index as i64;
    let (lo_t, hi_t): (i64, i64) = if zero_for_one {
        ((new_tick as i64) + 1, pool.tick_current as i64)
    } else {
        ((pool.tick_current as i64) + 1, new_tick as i64)
    };
    let a0 = lo_t - start_i64;
    let a_us: usize = if a0 < 0 {
        0
    } else if a0 > 88 {
        88
    } else {
        a0 as usize
    };
    let b0 = hi_t + 1 - start_i64;
    let b_us: usize = if b0 < 0 {
        0
    } else if b0 > 88 {
        88
    } else {
        b0 as usize
    };
    proof {
        assert(a_us as int == cross_lo(
            tick_array.start_tick_index as int,
            pool.tick_current as int,
            new_tick as int,
            zero_for_one,
        ));
        assert(b_us as int == cross_hi(
            tick_array.start_tick_index as int,
            pool.tick_current as int,
            new_tick as int,
            zero_for_one,
        ));
        assert(a_us <= b_us);
    }
    // feasibility of the whole crossing path, before any mutation
    let ghost l_int = l as int;
    let ghost pool_snap = *pool;
    let ghost arr_snap = *tick_array;
    if zero_for_one {
        let mut cur: u128 = l;
        let mut k: usize = b_us;
        while k > a_us
            invariant
                a_us <= k <= b_us <= TICK_ARRAY_SIZE,
                *pool == pool_snap,
                *tick_array == arr_snap,
                tick_array.wf(),
                tick_array.ticks@.len() == TICK_ARRAY_SIZE,
                cur as int == l_int - net_sum(tick_array.ticks@, k as int, b_us as int),
                cross_ok_down(tick_array.ticks@, a_us as int, b_us as int, l_int)
                    <==> cross_ok_down(tick_array.ticks@, a_us as int, k as int, cur as int),
            decreases k,
        {
            let t = tick_array.ticks[k - 1];
            let net_t = t.liquidity_net;
            let mag: u128 = if net_t >= 0 {
                net_t as u128
            } else {
                ((-(net_t + 1)) as u128) + 1
            };
            let next = if net_t >= 0 {
                cur.checked_sub(mag)
            } else {
                cur.checked_add(mag)
            };
            match next {
                Some(c) => {
                    proof {
                        assert(net_sum(tick_array.ticks@, k as int - 1, b_us as int)
                            == tick_array.ticks@[k as int - 1].liquidity_net + net_sum(
                            tick_array.ticks@,
                            k as int,
                            b_us as int,
                        ));
                    }
                    cur = c;
                },
                None => {
                    proof {
                        assert(!cross_ok_down(
                            tick_array.ticks@,
                            a_us as int,
                            k as int,
                            cur as int,
                        ));
                    }
                    return Err(ErrorCode::MathOverflow);
                },
            }
            k = k - 1;
        }
    } else {
        let mut cur: u128 = l;
        let mut k: usize = a_us;
        while k < b_us
            invariant
                a_us <= k <= b_us <= TICK_ARRAY_SIZE,
                *pool == pool_snap,
                *tick_array == arr_snap,
                tick_array.wf(),
                tick_array.ticks@.len() == TICK_ARRAY_SIZE,
                cur as int == l_int + net_sum(tick_array.ticks@, a_us as int, k as int),
                cross_ok_up(tick_array.ticks@, a_us as int, b_us as int, l_int) <==> cross_ok_up(
                    tick_array.ticks@,
                    k as int,
                    b_us as int,
                    cur as int,
                ),
            decreases b_us - k,
        {
            let t = tick_array.ticks[k];
            let net_t = t.liquidity_net;
            let mag: u128 = if net_t >= 0 {
                net_t as u128
            } else {
                ((-(net_t + 1)) as u128) + 1
            };
            let next = if net_t >= 0 {
                cur.checked_add(mag)
            } else {
                cur.checked_sub(mag)
            };
            match next {
                Some(c) => {
                    proof {
                        lemma_net_sum_snoc(tick_array.ticks@, a_us as int, k as int);
                    }
                    cur = c;
                },
                None => {
                    proof {
                        assert(!cross_ok_up(tick_array.ticks@, k as int, b_us as int, cur as int));
                    }
                    return Err(ErrorCode::MathOverflow);
                },
            }
            k = k + 1;
        }
    }
    // commit: fee accumulators first, so crossings flip against the updated
    // globals
    let ghost ticks_before = tick_array.ticks@;
    let ghost start_before = tick_array.start_tick_index;
    if zero_for_one {
        pool.fee_growth_global_0_x64 = pool.fee_growth_global_0_x64.wrapping_add(growth_delta);
        pool.protocol_fees_0 = pool.protocol_fees_0 + pf;
    } else {
        pool.fee_growth_global_1_x64 = pool.fee_growth_global_1_x64.wrapping_add(growth_delta);
        pool.protocol_fees_1 = pool.protocol_fees_1 + pf;
    }
    let ghost pool_mid = *pool;
    let ghost g0_final = pool.fee_growth_global_0_x64;
    let ghost g1_final = pool.fee_growth_global_1_x64;
    // cross every passed tick in price order
    if zero_for_one {
        let mut k: usize = b_us;
        while k > a_us
            invariant
                a_us <= k <= b_us <= TICK_ARRAY_SIZE,
                tick_array.wf(),
                tick_array.start_tick_index == start_before,
                tick_array.ticks@.len() == TICK_ARRAY_SIZE,
                *pool == (Pool { liquidity: pool.liquidity, ..pool_mid }),
                a_us == b_us || b_us as int <= pool_mid.tick_current - start_before + 1,
                pool.liquidity as int == l_int - net_sum(ticks_before, k as int, b_us as int),
                cross_ok_down(ticks_before, a_us as int, k as int, pool.liquidity as int),
                forall|j: int|
                    0 <= j < TICK_ARRAY_SIZE ==> #[trigger] tick_array.ticks@[j] == (
                    if k <= j < b_us {
                        flipped_tick(ticks_before[j], g0_final, g1_final)
                    } else {
                        ticks_before[j]
                    }),
            decreases k,
        {
            let idx_i64 = (tick_array.start_tick_index as i64) + ((k - 1) as i64);
            let idx = idx_i64 as i32;
            let ghost ticks_pre = tick_array.ticks@;
            let res = crate::tick_array::cross_tick(pool, tick_array, idx);
            match res {
                Ok(_) => (),
                Err(_) => vstd::pervasive::unreached(),
            };
            proof {
                assert(net_sum(ticks_before, k as int - 1, b_us as int) == ticks_before[k as int
                    - 1].liquidity_net + net_sum(ticks_before, k as int, b_us as int));
                assert forall|j: int| 0 <= j < TICK_ARRAY_SIZE implies #[trigger] tick_array.ticks@[j]
                    == (if k - 1 <= j < b_us {
                    flipped_tick(ticks_before[j], g0_final, g1_final)
                } else {
                    ticks_before[j]
                }) by {
                    if j == k - 1 {
                        assert(ticks_pre[j] == ticks_before[j]);
                    }
                }
            }
            k = k - 1;
        }
    } else {
        let mut k: usize = a_us;
        while k < b_us
            invariant
                a_us <= k <= b_us <= TICK_ARRAY_SIZE,
                tick_array.wf(),
                tick_array.start_tick_index == start_before,
                tick_array.ticks@.len() == TICK_ARRAY_SIZE,
                *pool == (Pool { liquidity: pool.liquidity, ..pool_mid }),
                a_us == b_us || a_us as int + start_before >= pool_mid.tick_current + 1,
                pool.liquidity as int == l_int + net_sum(ticks_before, a_us as int, k as int),
                cross_ok_up(ticks_before, k as int, b_us as int, pool.liquidity as int),
                forall|j: int|
                    0 <= j < TICK_ARRAY_SIZE ==> #[trigger] tick_array.ticks@[j] == (
                    if a_us <= j < k {
                        flipped_tick(ticks_before[j], g0_final, g1_final)
                    } else {
                        ticks_before[j]
                    }),
            decreases b_us - k,
        {
            let idx_i64 = (tick_array.start_tick_index as i64) + (k as i64);
            let idx = idx_i64 as i32;
            proof {
                lemma_net_sum_snoc(ticks_before, a_us as int, k as int);
            }
            let ghost ticks_pre = tick_array.ticks@;
            let res = crate::tick_array::cross_tick(pool, tick_array, idx);
            match res {
                Ok(_) => (),
                Err(_) => vstd::pervasive::unreached(),
            };
            proof {
                assert forall|j: int| 0 <= j < TICK_ARRAY_SIZE implies #[trigger] tick_array.ticks@[j]
                    == (if a_us <= j < k + 1 {
                    flipped_tick(ticks_before[j], g0_final, g1_final)
                } else {
                    ticks_before[j]
                }) by {
                    if j == k {
                        assert(ticks_pre[j] == ticks_before[j]);
                    }
                }
            }
            k = k + 1;
        }
    }
    // commit the new price and its bucket
    pool.sqrt_price_x64 = sp_new;
    pool.tick_current = new_tick;
    Ok(amount_out)
}

/// Chain swap steps across a route of pools, feeding each hop's output to
/// the next hop as input.
///
/// Hops alternate direction, starting with token 0 into the first pool, and
/// run with the widest admissible price limit. Intermediate hops pass a zero
/// output floor: slippage is bounded end-to-end, so only the final hop
/// enforces `min_amount_out`. The route fails fast on its first failing hop,
/// leaving the later pools untouched; an empty route is rejected with
/// `InvalidAmount`. On success the returned final output meets the floor.
#[verifier::loop_isolation(false)]
#[verifier::rlimit(100)]
pub fn router_swap(
    pools: &mut Vec<Pool>,
    tick_arrays: &mut Vec<TickArray>,
    amount_in: u64,
    min_amount_out: u64,
) -> (r: Result<u64, ErrorCode>)
    requires
        old(pools).len() == old(tick_arrays).len(),
        forall|i: int| 0 <= i < old(pools).len() ==> (#[trigger] old(pools)[i]).wf(),
        forall|i: int| 0 <= i < old(tick_arrays).len() ==> (#[trigger] old(tick_arrays)[i]).wf(),
    ensures
        final(pools).len() == old(pools).len(),
        final(tick_arrays).len() == old(tick_arrays).len(),
        forall|i: int| 0 <= i < final(pools).len() ==> (#[trigger] final(pools)[i]).wf(),
        forall|i: int|
            0 <= i < final(tick_arrays).len() ==> (#[trigger] final(tick_arrays)[i]).wf(),
        old(pools).len() == 0 ==> r == Err::<u64, ErrorCode>(ErrorCode::InvalidAmount),
        r is Ok ==> r.unwrap() >= min_amount_out,
        r is Ok ==> ({
            let n = old(pools).len() as int;
            exists|amounts: Seq<u64>|
                {
                    &&& amounts.len() == n + 1
                    &&& amounts[0] == amount_in
                    &&& r.unwrap() == amounts[n]
                    &&& forall|j: int|
                        0 <= j < n ==> swap_step_post(
                            old(pools)[j],
                            old(tick_arrays)[j].ticks@,
                            old(tick_arrays)[j].start_tick_index,
                            #[trigger] amounts[j],
                            if j + 1 == n {
                                min_amount_out
                            } else {
                                0
                            },
                            if j % 2 == 0 {
                                MIN_SQRT_PRICE_X64
                            } else {
                                MAX_SQRT_PRICE_X64
                            },
                            j % 2 == 0,
                            final(pools)[j],
                            final(tick_arrays)[j].ticks@,
                            Ok(amounts[j + 1]),
                        )
                }
        }),
        r is Err && old(pools).len() > 0 ==> ({
            let n = old(pools).len() as int;
            exists|amounts: Seq<u64>|
                #![trigger amounts.len()]
                {
                    let k = amounts.len() as int - 1;
                    &&& 1 <= amounts.len() <= n
                    &&& amounts[0] == amount_in
                    &&& forall|j: int|
                        0 <= j < k ==> swap_step_post(
                            old(pools)[j],
                            old(tick_arrays)[j].ticks@,
                            old(tick_arrays)[j].start_tick_index,
                            #[trigger] amounts[j],
                            0,
                            if j % 2 == 0 {
                                MIN_SQRT_PRICE_X64
                            } else {
                                MAX_SQRT_PRICE_X64
                            },
                            j % 2 == 0,
                            final(pools)[j],
                            final(tick_arrays)[j].ticks@,
                            Ok(amounts[j + 1]),
                        )
                    &&& swap_step_post(
                        old(pools)[k],
                        old(tick_arrays)[k].ticks@,
                        old(tick_arrays)[k].start_tick_index,
                        amounts[k],
                        if k + 1 == n {
                            min_amount_out
                        } else {
                            0
                        },
                        if k % 2 == 0 {
                            MIN_SQRT_PRICE_X64
                        } else {
                            MAX_SQRT_PRICE_X64
                        },
                        k % 2 == 0,
                        old(pools)[k],
                        old(tick_arrays)[k].ticks@,
                        r,
                    )
                    &&& forall|j: int|
                        k <= j < n ==> (#[trigger] final(pools)[j]) == old(pools)[j]
                    &&& forall|j: int|
                        k <= j < n ==> (#[trigger] final(tick_arrays)[j]) == old(tick_arrays)[j]
                }
        }),
{
    let route_len = pools.len();
    if route_len == 0 {
        return Err(ErrorCode::InvalidAmount);
    }
    let mut current_amount = amount_in;
    let ghost mut amounts: Seq<u64> = seq![amount_in];
    let mut i: usize = 0;
    while i < route_len
        invariant
            route_len == pools.len(),
            pools.len() == tick_arrays.len(),
            i <= route_len,
            forall|j: int| 0 <= j < pools.len() ==> (#[trigger] pools[j]).wf(),
            forall|j: int| 0 <= j < tick_arrays.len() ==> (#[trigger] tick_arrays[j]).wf(),
            i == route_len ==> current_amount >= min_amount_out,
            amounts.len() == i + 1,
            amounts[0] == amount_in,
            current_amount == amounts[i as int],
            forall|j: int| i <= j < route_len ==> (#[trigger] pools[j]) == old(pools)[j],
            forall|j: int|
                i <= j < route_len ==> (#[trigger] tick_arrays[j]) == old(tick_arrays)[j],
            forall|j: int|
                0 <= j < i ==> swap_step_post(
                    old(pools)[j],
                    old(tick_arrays)[j].ticks@,
                    old(tick_arrays)[j].start_tick_index,
                    #[trigger] amounts[j],
                    if j + 1 == route_len {
                        min_amount_out
                    } else {
                        0
                    },
                    if j % 2 == 0 {
                        MIN_SQRT_PRICE_X64
                    } else {
                        MAX_SQRT_PRICE_X64
                    },
                    j % 2 == 0,
                    pools[j],
                    tick_arrays[j].ticks@,
                    Ok(amounts[j + 1]),
                ),
        decreases route_len - i,
    {
        let zero_for_one = i % 2 == 0;
        let hop_min = if i + 1 == route_len {
            min_amount_out
        } else {
            0
        };
        let limit = if zero_for_one {
            MIN_SQRT_PRICE_X64
        } else {
            MAX_SQRT_PRICE_X64
        };
        let mut pool = pools[i];
        let ghost arrays_before = tick_arrays@;
        let mut arr = tick_arrays.remove(i);
        let hop = swap_step(&mut pool, &mut arr, current_amount, hop_min, limit, zero_for_one);
        match hop {
            Ok(out) => {
                pools.set(i, pool);
                tick_arrays.insert(i, arr);
                proof {
                    assert(tick_arrays@ =~= arrays_before.update(i as int, arr));
                }
                current_amount = out;
                proof {
                    amounts = amounts.push(out);
                }
            },
            Err(_) => {
                tick_arrays.insert(i, arr);
                proof {
                    assert(tick_arrays@ =~= arrays_before.update(i as int, arr));
                    assert(tick_arrays@ =~= arrays_before);
                }
                return Err(hop.unwrap_err());
            },
        }
        i = i + 1;
    }
    Ok(current_amount)
}

} // verus!
