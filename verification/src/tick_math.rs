//! Tick / sqrt-price fixed-point conversion.
//!
//! A tick is a discretized price coordinate; the pool price is carried as the
//! square root of the price in Q64.64 fixed point (64 fractional bits). One
//! tick up multiplies the sqrt price by sqrt(1.0001); the library realizes
//! that ratio as the Q64.64 constant `SQRT_RATIO_X64`, applied by floor
//! multiplication, and derives negative ticks by dividing 2^128 by the value
//! at the corresponding positive tick.
//!
//! The conversion is deterministic, strictly increasing over the whole tick
//! domain, and stays inside [`MIN_SQRT_PRICE_X64`, `MAX_SQRT_PRICE_X64`];
//! those three facts are proved here (`lemma_sqrt_price_increasing`,
//! `lemma_sqrt_price_bounds`) and carry the rest of the pool math.

use vstd::prelude::*;

use vstd::arithmetic::div_mod::{
    lemma_div_is_ordered, lemma_div_is_ordered_by_denominator, lemma_div_multiples_vanish,
    lemma_div_pos_is_pos, lemma_fundamental_div_mod, lemma_fundamental_div_mod_converse_div,
    lemma_hoist_over_denominator, lemma_mod_division_less_than_divisor, lemma_multiply_divide_lt,
    lemma_remainder_lower, lemma_remainder_upper,
};
use vstd::arithmetic::mul::lemma_mul_inequality;
use vstd::arithmetic::power::{lemma_pow0, lemma_pow1, lemma_pow_adds, lemma_pow_positive, pow};

use crate::errors::ErrorCode;

verus! {

/// Smallest usable tick index.
pub const MIN_TICK: i32 = -443636;

/// Largest usable tick index.
pub const MAX_TICK: i32 = 443636;

/// 2^64, the scale factor of Q64.64 fixed-point values.
pub const Q64: u128 = 0x1_0000_0000_0000_0000;

/// Smallest admissible sqrt price, reached at `MIN_TICK`.
pub const MIN_SQRT_PRICE_X64: u128 = 4_295_048_016;

/// Largest admissible sqrt price; the value at `MAX_TICK` stays below it.
pub const MAX_SQRT_PRICE_X64: u128 = 79_226_673_515_401_279_992_447_579_055;

/// sqrt(1.0001) in Q64.64, rounded down: the sqrt-price ratio between
/// adjacent ticks.
pub const SQRT_RATIO_X64: u128 = 18_447_666_387_855_959_850;

/// The fractional part of `SQRT_RATIO_X64`: `SQRT_RATIO_X64 - Q64`.
pub const RATIO_FRACTION_X64: u128 = 922_314_146_408_234;

/// Proved upper bound on the sqrt price at `MAX_TICK`.
pub const SQRT_PRICE_AT_MAX_TICK_BOUND: u128 = 79_226_673_515_400_910_100_727_349_154;

/// 2^64 as a mathematical integer.
pub open spec fn q64() -> int {
    Q64 as int
}

/// 2^128 as a mathematical integer.
pub open spec fn q128() -> int {
    q64() * q64()
}

/// sqrt(1.0001) in Q64.64 as a mathematical integer.
pub open spec fn ratio() -> int {
    SQRT_RATIO_X64 as int
}

/// The fractional part of the ratio as a mathematical integer.
pub open spec fn frac() -> int {
    RATIO_FRACTION_X64 as int
}

/// One tick upward: multiply a Q64.64 value by the ratio, rounding down.
pub open spec fn sqrt_step(x: int) -> int {
    x + (x * frac()) / q64()
}

/// The sqrt price `t` ticks above tick zero, starting from 1.0 (`Q64`).
pub open spec fn sqrt_iter(t: nat) -> int
    decreases t,
{
    if t == 0 {
        q64()
    } else {
        sqrt_step(sqrt_iter((t - 1) as nat))
    }
}

/// The sqrt price at any tick: positive ticks iterate the ratio upward;
/// a negative tick holds the Q64.64 reciprocal of its mirror image.
pub open spec fn sqrt_price_at(t: int) -> int {
    if t >= 0 {
        sqrt_iter(t as nat)
    } else {
        q128() / sqrt_iter((-t) as nat)
    }
}

/// Whether a tick index lies in the usable domain.
pub open spec fn tick_in_range(t: int) -> bool {
    MIN_TICK <= t <= MAX_TICK
}

/// Every iterate is at least 1.0 in Q64.64.
pub proof fn lemma_iter_ge_q64(t: nat)
    ensures
        sqrt_iter(t) >= q64(),
    decreases t,
{
    if t > 0 {
        let x = sqrt_iter((t - 1) as nat);
        lemma_iter_ge_q64((t - 1) as nat);
        lemma_div_pos_is_pos(x * frac(), q64());
        assert(x * frac() >= 0) by (nonlinear_arith)
            requires
                x >= 0,
        ;
    }
}

/// One step adds at least the ratio's fractional part.
proof fn lemma_step_gain(x: int)
    requires
        x >= q64(),
    ensures
        sqrt_step(x) >= x + frac(),
        sqrt_step(x) >= x,
{
    lemma_mul_inequality(q64(), x, frac());
    lemma_div_is_ordered(q64() * frac(), x * frac(), q64());
    lemma_div_multiples_vanish(frac(), q64());
}

/// Iterates grow strictly with the tick count.
pub proof fn lemma_iter_increases(t1: nat, t2: nat)
    requires
        t1 <= t2,
    ensures
        sqrt_iter(t1) <= sqrt_iter(t2),
        t1 < t2 ==> sqrt_iter(t1) + frac() <= sqrt_iter(t2),
    decreases t2,
{
    if t1 < t2 {
        let prev = sqrt_iter((t2 - 1) as nat);
        lemma_iter_increases(t1, (t2 - 1) as nat);
        lemma_iter_ge_q64((t2 - 1) as nat);
        lemma_step_gain(prev);
    }
}

/// Scaled by 2^64 per step, the iterates stay below the exact ratio powers.
proof fn lemma_iter_pow_upper(t: nat)
    ensures
        sqrt_iter(t) * pow(q64(), t) <= q64() * pow(ratio(), t),
    decreases t,
{
    if t == 0 {
        lemma_pow0(q64());
        lemma_pow0(ratio());
    } else {
        let s = (t - 1) as nat;
        let x = sqrt_iter(s);
        lemma_iter_pow_upper(s);
        lemma_iter_ge_q64(s);
        lemma_pow_positive(q64(), s);
        lemma_pow_positive(ratio(), s);
        // sqrt_step(x) * q64 <= x * ratio, because the floored quotient
        // times the divisor is at most the dividend.
        lemma_fundamental_div_mod(x * frac(), q64());
        assert(sqrt_step(x) * q64() <= x * ratio()) by (nonlinear_arith)
            requires
                sqrt_step(x) == x + (x * frac()) / q64(),
                q64() * ((x * frac()) / q64()) <= x * frac(),
                ratio() == q64() + frac(),
        ;
        lemma_pow_unfold(q64(), t);
        lemma_pow_unfold(ratio(), t);
        assert(sqrt_iter(t) * pow(q64(), t) <= q64() * pow(ratio(), t)) by (nonlinear_arith)
            requires
                pow(q64(), t) == q64() * pow(q64(), s),
                pow(ratio(), t) == ratio() * pow(ratio(), s),
                sqrt_iter(t) * q64() <= x * ratio(),
                x * pow(q64(), s) <= q64() * pow(ratio(), s),
                x >= q64(),
                q64() > 0,
                ratio() > 0,
                pow(q64(), s) > 0,
                pow(ratio(), s) > 0,
                sqrt_iter(t) >= 0,
        ;
    }
}

/// Scaled by 2^64 per step, the iterates lose less than one rounding unit
/// per step against the exact ratio powers.
proof fn lemma_iter_pow_lower(t: nat)
    ensures
        sqrt_iter(t) * pow(q64(), t) >= (q64() - t) * pow(ratio(), t),
    decreases t,
{
    if t == 0 {
        lemma_pow0(q64());
        lemma_pow0(ratio());
    } else {
        let s = (t - 1) as nat;
        let x = sqrt_iter(s);
        lemma_iter_pow_lower(s);
        lemma_iter_ge_q64(s);
        lemma_pow_positive(q64(), s);
        lemma_pow_positive(ratio(), s);
        // sqrt_step(x) * q64 > x * ratio - q64: the floored quotient times
        // the divisor exceeds the dividend minus the divisor.
        lemma_fundamental_div_mod(x * frac(), q64());
        assert(sqrt_step(x) * q64() >= x * ratio() - q64()) by (nonlinear_arith)
            requires
                sqrt_step(x) == x + (x * frac()) / q64(),
                q64() * ((x * frac()) / q64()) >= x * frac() - (q64() - 1),
                ratio() == q64() + frac(),
        ;
        // pow(ratio, t) >= q64 * pow(q64, s): the ratio exceeds the base.
        lemma_pow_base_increases(q64(), ratio(), s);
        lemma_pow_unfold(q64(), t);
        lemma_pow_unfold(ratio(), t);
        assert(sqrt_iter(t) * pow(q64(), t) >= (q64() - t) * pow(ratio(), t)) by (nonlinear_arith)
            requires
                pow(q64(), t) == q64() * pow(q64(), s),
                pow(ratio(), t) == ratio() * pow(ratio(), s),
                sqrt_iter(t) * q64() >= x * ratio() - q64(),
                x * pow(q64(), s) >= (q64() - s) * pow(ratio(), s),
                ratio() * pow(ratio(), s) >= ratio() * pow(q64(), s),
                ratio() > q64(),
                q64() > 0,
                pow(q64(), s) > 0,
                pow(ratio(), s) > 0,
                x >= q64(),
                t == s + 1,
                s >= 0,
        ;
    }
}

/// Squaring step of the upper bound chain: from a Q64.64 overestimate `u`
/// of the ratio power at exponent `s`, pass to an overestimate `v` at `2 * s`.
proof fn lemma_chain_square_upper(s: nat, u: int, v: int)
    requires
        s >= 1,
        u >= 1,
        v >= 1,
        pow(ratio(), s) * q64() <= u * pow(q64(), s),
        u * u <= v * q64(),
    ensures
        pow(ratio(), (2 * s) as nat) * q64() <= v * pow(q64(), (2 * s) as nat),
{
    let pr = pow(ratio(), s);
    let pq = pow(q64(), s);
    lemma_pow_positive(ratio(), s);
    lemma_pow_positive(q64(), s);
    lemma_pow_adds(ratio(), s, s);
    lemma_pow_adds(q64(), s, s);
    assert((pr * pr) * q64() <= v * (pq * pq)) by (nonlinear_arith)
        requires
            pr * q64() <= u * pq,
            u * u <= v * q64(),
            pr > 0,
            pq > 0,
            u >= 1,
            v >= 1,
            q64() > 1,
    ;
}

/// Squaring step of the lower bound chain: from a Q64.64 underestimate `u`
/// of the ratio power at exponent `s`, pass to an underestimate `v` at `2 * s`.
proof fn lemma_chain_square_lower(s: nat, u: int, v: int)
    requires
        s >= 1,
        u >= 1,
        v >= 1,
        pow(ratio(), s) * q64() >= u * pow(q64(), s),
        u * u >= v * q64(),
    ensures
        pow(ratio(), (2 * s) as nat) * q64() >= v * pow(q64(), (2 * s) as nat),
{
    let pr = pow(ratio(), s);
    let pq = pow(q64(), s);
    lemma_pow_positive(ratio(), s);
    lemma_pow_positive(q64(), s);
    lemma_pow_adds(ratio(), s, s);
    lemma_pow_adds(q64(), s, s);
    assert((pr * pr) * q64() >= v * (pq * pq)) by (nonlinear_arith)
        requires
            pr * q64() >= u * pq,
            u * u >= v * q64(),
            pr > 0,
            pq > 0,
            u >= 1,
            v >= 1,
            q64() > 1,
    ;
}

/// Multiply an upper estimate at exponent `s1` with one at `s2`, adding the
/// accumulated Q64.64 scale factors.
proof fn lemma_chain_combine_upper(s1: nat, m1: nat, v1: int, s2: nat, m2: nat, v2: int)
    requires
        v1 >= 1,
        v2 >= 1,
        pow(ratio(), s1) * pow(q64(), m1) <= v1 * pow(q64(), s1),
        pow(ratio(), s2) * pow(q64(), m2) <= v2 * pow(q64(), s2),
    ensures
        pow(ratio(), (s1 + s2) as nat) * pow(q64(), (m1 + m2) as nat) <= (v1 * v2) * pow(
            q64(),
            (s1 + s2) as nat,
        ),
{
    let pr1 = pow(ratio(), s1);
    let pr2 = pow(ratio(), s2);
    let pq1 = pow(q64(), s1);
    let pq2 = pow(q64(), s2);
    let pm1 = pow(q64(), m1);
    let pm2 = pow(q64(), m2);
    lemma_pow_positive(ratio(), s1);
    lemma_pow_positive(ratio(), s2);
    lemma_pow_positive(q64(), s1);
    lemma_pow_positive(q64(), s2);
    lemma_pow_positive(q64(), m1);
    lemma_pow_positive(q64(), m2);
    lemma_pow_adds(ratio(), s1, s2);
    lemma_pow_adds(q64(), s1, s2);
    lemma_pow_adds(q64(), m1, m2);
    assert((pr1 * pr2) * (pm1 * pm2) <= (v1 * v2) * (pq1 * pq2)) by (nonlinear_arith)
        requires
            pr1 * pm1 <= v1 * pq1,
            pr2 * pm2 <= v2 * pq2,
            pr1 > 0,
            pr2 > 0,
            pq1 > 0,
            pq2 > 0,
            pm1 > 0,
            pm2 > 0,
            v1 >= 1,
            v2 >= 1,
    ;
}

/// Multiply a lower estimate at exponent `s1` with one at `s2`, adding the
/// accumulated Q64.64 scale factors.
proof fn lemma_chain_combine_lower(s1: nat, m1: nat, v1: int, s2: nat, m2: nat, v2: int)
    requires
        v1 >= 1,
        v2 >= 1,
        pow(ratio(), s1) * pow(q64(), m1) >= v1 * pow(q64(), s1),
        pow(ratio(), s2) * pow(q64(), m2) >= v2 * pow(q64(), s2),
    ensures
        pow(ratio(), (s1 + s2) as nat) * pow(q64(), (m1 + m2) as nat) >= (v1 * v2) * pow(
            q64(),
            (s1 + s2) as nat,
        ),
{
    let pr1 = pow(ratio(), s1);
    let pr2 = pow(ratio(), s2);
    let pq1 = pow(q64(), s1);
    let pq2 = pow(q64(), s2);
    let pm1 = pow(q64(), m1);
    let pm2 = pow(q64(), m2);
    lemma_pow_positive(ratio(), s1);
    lemma_pow_positive(ratio(), s2);
    lemma_pow_positive(q64(), s1);
    lemma_pow_positive(q64(), s2);
    lemma_pow_positive(q64(), m1);
    lemma_pow_positive(q64(), m2);
    lemma_pow_adds(ratio(), s1, s2);
    lemma_pow_adds(q64(), s1, s2);
    lemma_pow_adds(q64(), m1, m2);
    assert((pr1 * pr2) * (pm1 * pm2) >= (v1 * v2) * (pq1 * pq2)) by (nonlinear_arith)
        requires
            pr1 * pm1 >= v1 * pq1,
            pr2 * pm2 >= v2 * pq2,
            pr1 > 0,
            pr2 > 0,
            pq1 > 0,
            pq2 > 0,
            pm1 > 0,
            pm2 > 0,
            v1 >= 1,
            v2 >= 1,
    ;
}

/// Unfold one factor of a power.
proof fn lemma_pow_unfold(b: int, t: nat)
    requires
        t >= 1,
    ensures
        pow(b, t) == b * pow(b, (t - 1) as nat),
{
    lemma_pow1(b);
    lemma_pow_adds(b, 1, (t - 1) as nat);
}

/// A larger base gives a larger power.
proof fn lemma_pow_base_increases(a: int, b: int, e: nat)
    requires
        1 <= a <= b,
    ensures
        pow(a, e) <= pow(b, e),
        pow(a, e) >= 1,
    decreases e,
{
    if e == 0 {
        lemma_pow0(a);
        lemma_pow0(b);
    } else {
        lemma_pow_base_increases(a, b, (e - 1) as nat);
        lemma_pow_unfold(a, e);
        lemma_pow_unfold(b, e);
        assert(a * pow(a, (e - 1) as nat) <= b * pow(b, (e - 1) as nat) && 1 <= a * pow(
            a,
            (e - 1) as nat,
        )) by (nonlinear_arith)
            requires
                1 <= a <= b,
                1 <= pow(a, (e - 1) as nat) <= pow(b, (e - 1) as nat),
        ;
    }
}


/// The iterate at the maximal tick stays below the proved bound constant,
/// hence below `MAX_SQRT_PRICE_X64`.
pub proof fn lemma_iter_upper_at_max()
    ensures
        sqrt_iter(443636nat) <= SQRT_PRICE_AT_MAX_TICK_BOUND as int,
{
    lemma_pow1(ratio());
    lemma_pow1(q64());
    assert(18447666387855959850int * 18447666387855959850int <= 18448588748116922570int * q64());
    lemma_chain_square_upper(1, 18447666387855959850, 18448588748116922570);
    assert(18448588748116922570int * 18448588748116922570int <= 18450433606991734262int * q64());
    lemma_chain_square_upper(2, 18448588748116922570, 18450433606991734262);
    assert(18450433606991734262int * 18450433606991734262int <= 18454123878217468678int * q64());
    lemma_chain_square_upper(4, 18450433606991734262, 18454123878217468678);
    assert(18454123878217468678int * 18454123878217468678int <= 18461506635090006698int * q64());
    lemma_chain_square_upper(8, 18454123878217468678, 18461506635090006698);
    assert(18461506635090006698int * 18461506635090006698int <= 18476281010653910138int * q64());
    lemma_chain_square_upper(16, 18461506635090006698, 18476281010653910138);
    assert(18476281010653910138int * 18476281010653910138int <= 18505865242158250029int * q64());
    lemma_chain_square_upper(32, 18476281010653910138, 18505865242158250029);
    assert(18505865242158250029int * 18505865242158250029int <= 18565175891880433497int * q64());
    lemma_chain_square_upper(64, 18505865242158250029, 18565175891880433497);
    assert(18565175891880433497int * 18565175891880433497int <= 18684368066214940532int * q64());
    lemma_chain_square_upper(128, 18565175891880433497, 18684368066214940532);
    assert(18684368066214940532int * 18684368066214940532int <= 18925053041275764569int * q64());
    lemma_chain_square_upper(256, 18684368066214940532, 18925053041275764569);
    assert(18925053041275764569int * 18925053041275764569int <= 19415764168677886717int * q64());
    lemma_chain_square_upper(512, 18925053041275764569, 19415764168677886717);
    assert(19415764168677886717int * 19415764168677886717int <= 20435687552633177054int * q64());
    lemma_chain_square_upper(1024, 19415764168677886717, 20435687552633177054);
    assert(20435687552633177054int * 20435687552633177054int <= 22639080592224302031int * q64());
    lemma_chain_square_upper(2048, 20435687552633177054, 22639080592224302031);
    assert(22639080592224302031int * 22639080592224302031int <= 27784196929998397347int * q64());
    lemma_chain_square_upper(4096, 22639080592224302031, 27784196929998397347);
    assert(27784196929998397347int * 27784196929998397347int <= 41848122137994978913int * q64());
    lemma_chain_square_upper(8192, 27784196929998397347, 41848122137994978913);
    assert(41848122137994978913int * 41848122137994978913int <= 94936283578220337979int * q64());
    lemma_chain_square_upper(16384, 41848122137994978913, 94936283578220337979);
    assert(94936283578220337979int * 94936283578220337979int <= 488590176327622142895int * q64());
    lemma_chain_square_upper(32768, 94936283578220337979, 488590176327622142895);
    assert(488590176327622142895int * 488590176327622142895int <= 12941056668319211919752int * q64());
    lemma_chain_square_upper(65536, 488590176327622142895, 12941056668319211919752);
    assert(12941056668319211919752int * 12941056668319211919752int <= 9078618265828823755685839int * q64());
    lemma_chain_square_upper(131072, 12941056668319211919752, 9078618265828823755685839);
    lemma_chain_combine_upper(4, 1, 18450433606991734262int, 16, 1, 18461506635090006698);
    lemma_chain_combine_upper(20, 2, 340622802455765547073703384084216086876int, 32, 1, 18476281010653910138);
    lemma_chain_combine_upper(52, 3, 6293442616809179046169923293510548802741125769750905148888int, 64, 1, 18505865242158250029);
    lemma_chain_combine_upper(116, 4, 116465600975926448933690585174705611949117533566223469025401002213483775317752int, 128, 1, 18565175891880433497);
    lemma_chain_combine_upper(244, 5, 2162204367471635997480436645788607773001500770762921735210484962818511606854912555572802679538744int, 1024, 1, 19415764168677886717);
    lemma_chain_combine_upper(1268, 6, 41980850083314624576368009025247592371188947674443786443053564479404248898888622271261002348342059785846314244463448int, 16384, 1, 41848122137994978913);
    lemma_chain_combine_upper(17652, 7, 1756819741743407095652862670146077289322619561197978360284382318082027400903931878824386419573989200628096452411491626468161033759272024int, 32768, 1, 94936283578220337979);
    lemma_chain_combine_upper(50420, 8, 166785937197967914256160585756508679669742292496408343285365801844795145062611499457004077513862166903142479341907371299295204230491297767331090642279399496int, 131072, 1, 12941056668319211919752);
    lemma_chain_combine_upper(181492, 9, 2158386264757631972035339053966060823112126495018680807458800148607784369480981703946146537594176434600532650130717386663407279985229106594875562174421854440064569138279901244992int, 262144, 1, 9078618265828823755685839);
    let a = sqrt_iter(443636nat);
    let pt = pow(q64(), 443636nat);
    let p10 = pow(q64(), 10);
    let rt = pow(ratio(), 443636nat);
    let prod = 19595164967942685229645148534209594740281728816070239751299180809336897271221946966040857413700409838718748870060763271926913876699023121985407752319898935971804692195364270988146317003012193574924068288int;
    lemma_iter_pow_upper(443636nat);
    lemma_iter_ge_q64(443636nat);
    lemma_pow_positive(q64(), 443636nat);
    lemma_pow_positive(q64(), 10);
    lemma_pow_positive(ratio(), 443636nat);
    assert((a * p10) * pt <= (q64() * prod) * pt) by (nonlinear_arith)
        requires
            a * pt <= q64() * rt,
            rt * p10 <= prod * pt,
            pt > 0,
            p10 > 0,
            q64() > 0,
            rt > 0,
            a > 0,
    ;
    assert(a * p10 <= q64() * prod) by (nonlinear_arith)
        requires
            (a * p10) * pt <= (q64() * prod) * pt,
            pt > 0,
    ;
    reveal_with_fuel(pow, 11);
    assert(p10 == q64() * (q64() * (q64() * (q64() * (q64() * (q64() * (q64() * (q64() * (q64()
        * (q64() * 1))))))))));
    assert(a <= SQRT_PRICE_AT_MAX_TICK_BOUND as int) by (nonlinear_arith)
        requires
            a * p10 <= q64() * prod,
            (SQRT_PRICE_AT_MAX_TICK_BOUND as int + 1) * p10 > q64() * prod,
            p10 > 0,
            a >= 0,
    ;
}

/// The iterate at the maximal tick is large enough that its Q64.64
/// reciprocal rounds down to at most `MIN_SQRT_PRICE_X64`.
pub proof fn lemma_iter_lower_at_max()
    ensures
        sqrt_iter(443636nat) * (MIN_SQRT_PRICE_X64 as int + 1) > q128(),
{
    lemma_pow1(ratio());
    lemma_pow1(q64());
    assert(18447666387855959850int * 18447666387855959850int >= 18448588748116922569int * q64());
    lemma_chain_square_lower(1, 18447666387855959850, 18448588748116922569);
    assert(18448588748116922569int * 18448588748116922569int >= 18450433606991734259int * q64());
    lemma_chain_square_lower(2, 18448588748116922569, 18450433606991734259);
    assert(18450433606991734259int * 18450433606991734259int >= 18454123878217468671int * q64());
    lemma_chain_square_lower(4, 18450433606991734259, 18454123878217468671);
    assert(18454123878217468671int * 18454123878217468671int >= 18461506635090006683int * q64());
    lemma_chain_square_lower(8, 18454123878217468671, 18461506635090006683);
    assert(18461506635090006683int * 18461506635090006683int >= 18476281010653910107int * q64());
    lemma_chain_square_lower(16, 18461506635090006683, 18476281010653910107);
    assert(18476281010653910107int * 18476281010653910107int >= 18505865242158249966int * q64());
    lemma_chain_square_lower(32, 18476281010653910107, 18505865242158249966);
    assert(18505865242158249966int * 18505865242158249966int >= 18565175891880433370int * q64());
    lemma_chain_square_lower(64, 18505865242158249966, 18565175891880433370);
    assert(18565175891880433370int * 18565175891880433370int >= 18684368066214940275int * q64());
    lemma_chain_square_lower(128, 18565175891880433370, 18684368066214940275);
    assert(18684368066214940275int * 18684368066214940275int >= 18925053041275764047int * q64());
    lemma_chain_square_lower(256, 18684368066214940275, 18925053041275764047);
    assert(18925053041275764047int * 18925053041275764047int >= 19415764168677885645int * q64());
    lemma_chain_square_lower(512, 18925053041275764047, 19415764168677885645);
    assert(19415764168677885645int * 19415764168677885645int >= 20435687552633174797int * q64());
    lemma_chain_square_lower(1024, 19415764168677885645, 20435687552633174797);
    assert(20435687552633174797int * 20435687552633174797int >= 22639080592224297029int * q64());
    lemma_chain_square_lower(2048, 20435687552633174797, 22639080592224297029);
    assert(22639080592224297029int * 22639080592224297029int >= 27784196929998385068int * q64());
    lemma_chain_square_lower(4096, 22639080592224297029, 27784196929998385068);
    assert(27784196929998385068int * 27784196929998385068int >= 41848122137994941923int * q64());
    lemma_chain_square_lower(8192, 27784196929998385068, 41848122137994941923);
    assert(41848122137994941923int * 41848122137994941923int >= 94936283578220170147int * q64());
    lemma_chain_square_lower(16384, 41848122137994941923, 94936283578220170147);
    assert(94936283578220170147int * 94936283578220170147int >= 488590176327620415397int * q64());
    lemma_chain_square_lower(32768, 94936283578220170147, 488590176327620415397);
    assert(488590176327620415397int * 488590176327620415397int >= 12941056668319120408908int * q64());
    lemma_chain_square_lower(65536, 488590176327620415397, 12941056668319120408908);
    assert(12941056668319120408908int * 12941056668319120408908int >= 9078618265828695359366874int * q64());
    lemma_chain_square_lower(131072, 12941056668319120408908, 9078618265828695359366874);
    lemma_chain_combine_lower(4, 1, 18450433606991734259int, 16, 1, 18461506635090006683);
    lemma_chain_combine_lower(20, 2, 340622802455765546741562360074070052897int, 32, 1, 18476281010653910107);
    lemma_chain_combine_lower(52, 3, 6293442616809179029473885522604011255973744262185372929979int, 64, 1, 18505865242158249966);
    lemma_chain_combine_lower(116, 4, 116465600975926448228229075249346732613541255818894690192089606241784497130714int, 128, 1, 18565175891880433370);
    lemma_chain_combine_lower(244, 5, 2162204367471635969592288305130107027670305476756236200116757678472588062314117588038723857526180int, 1024, 1, 19415764168677885645);
    lemma_chain_combine_lower(1268, 6, 41980850083314621717015215812322851350595181004589205560229354834315437624683088399821945863177017373054262633686100int, 16384, 1, 41848122137994941923);
    lemma_chain_combine_lower(17652, 7, 1756819741743405423122673162346645033636375047143275748379516606844280719122246197173005423773331553553656911977522219767302392912370300int, 32768, 1, 94936283578220170147);
    lemma_chain_combine_lower(50420, 8, 166785937197967460621789325230240640999395065713569685882684629505511223221145178715186955494078838750569237937243481232322314273428697378585901727069434100int, 131072, 1, 12941056668319120408908);
    lemma_chain_combine_lower(181492, 9, 2158386264757610838805353557142130079851919493721856144725933279366640991899442477002136937606891390037688861598314769369376628426562140111092654782520736900737880022500158962800int, 262144, 1, 9078618265828695359366874);
    let a = sqrt_iter(443636nat);
    let pt = pow(q64(), 443636nat);
    let p10 = pow(q64(), 10);
    let rt = pow(ratio(), 443636nat);
    let prod = 19595164967942216240266086748196040659983244592483342947815866225569060027550963410369024468430340736052386585482399824937289025505083157767835103828469150796679505171232591804945541846609336964518287200int;
    lemma_iter_pow_lower(443636nat);
    lemma_iter_ge_q64(443636nat);
    lemma_pow_positive(q64(), 443636nat);
    lemma_pow_positive(q64(), 10);
    lemma_pow_positive(ratio(), 443636nat);
    assert((a * p10) * pt >= ((q64() - 443636) * prod) * pt) by (nonlinear_arith)
        requires
            a * pt >= (q64() - 443636) * rt,
            rt * p10 >= prod * pt,
            pt > 0,
            p10 > 0,
            q64() - 443636 > 0,
            rt > 0,
            a > 0,
            prod > 0,
    ;
    assert(a * p10 >= (q64() - 443636) * prod) by (nonlinear_arith)
        requires
            (a * p10) * pt >= ((q64() - 443636) * prod) * pt,
            pt > 0,
    ;
    reveal_with_fuel(pow, 11);
    assert(p10 == q64() * (q64() * (q64() * (q64() * (q64() * (q64() * (q64() * (q64() * (q64()
        * (q64() * 1))))))))));
    assert(a * (MIN_SQRT_PRICE_X64 as int + 1) > q128()) by (nonlinear_arith)
        requires
            a * p10 >= (q64() - 443636) * prod,
            (q64() - 443636) * prod * (MIN_SQRT_PRICE_X64 as int + 1) > (q64() * q64()) * p10,
            p10 > 0,
            a > 0,
            q128() == q64() * q64(),
            MIN_SQRT_PRICE_X64 as int + 1 > 0,
    ;
}


/// Every iterate within the tick domain stays below the proved bound.
pub proof fn lemma_iter_le_bound(t: nat)
    requires
        t <= 443636,
    ensures
        sqrt_iter(t) <= SQRT_PRICE_AT_MAX_TICK_BOUND as int,
{
    lemma_iter_increases(t, 443636nat);
    lemma_iter_upper_at_max();
}

/// The sqrt price at the first tick above zero equals the ratio itself.
proof fn lemma_iter_one()
    ensures
        sqrt_iter(1) == ratio(),
{
    lemma_div_multiples_vanish(frac(), q64());
    reveal_with_fuel(sqrt_iter, 2);
}

/// The sqrt price at the minimal tick is exactly `MIN_SQRT_PRICE_X64`.
pub proof fn lemma_sqrt_price_at_min()
    ensures
        sqrt_price_at(MIN_TICK as int) == MIN_SQRT_PRICE_X64 as int,
{
    let a = sqrt_iter(443636nat);
    let m = MIN_SQRT_PRICE_X64 as int;
    lemma_iter_upper_at_max();
    lemma_iter_lower_at_max();
    lemma_iter_ge_q64(443636nat);
    // a * m <= q128, so the quotient is at least m
    assert(m * a <= q128()) by (nonlinear_arith)
        requires
            a <= SQRT_PRICE_AT_MAX_TICK_BOUND as int,
            m == 4295048016,
            a >= 0,
            q128() == q64() * q64(),
            q64() == 0x1_0000_0000_0000_0000,
    ;
    lemma_div_multiples_vanish(m, a);
    lemma_div_is_ordered(a * m, q128(), a);
    // a * (m + 1) > q128, so the quotient is less than m + 1
    lemma_multiply_divide_lt(q128(), a, m + 1);
}

/// The sqrt price mapping stays within the global price bounds over the
/// whole tick domain.
pub proof fn lemma_sqrt_price_bounds(t: int)
    requires
        tick_in_range(t),
    ensures
        MIN_SQRT_PRICE_X64 as int <= sqrt_price_at(t) <= MAX_SQRT_PRICE_X64 as int,
{
    if t >= 0 {
        lemma_iter_ge_q64(t as nat);
        lemma_iter_le_bound(t as nat);
    } else {
        let n = (-t) as nat;
        let x = sqrt_iter(n);
        lemma_iter_ge_q64(n);
        lemma_iter_le_bound(n);
        lemma_iter_one();
        lemma_iter_increases(1, n);
        // lower bound: MIN * x <= q128 so q128 / x >= MIN
        assert((MIN_SQRT_PRICE_X64 as int) * x <= q128()) by (nonlinear_arith)
            requires
                x <= SQRT_PRICE_AT_MAX_TICK_BOUND as int,
                x >= 0,
                q128() == q64() * q64(),
                q64() == 0x1_0000_0000_0000_0000,
        ;
        lemma_div_multiples_vanish(MIN_SQRT_PRICE_X64 as int, x);
        lemma_div_is_ordered(x * (MIN_SQRT_PRICE_X64 as int), q128(), x);
        // upper bound: x >= ratio, and q128 / ratio < q64 <= MAX
        lemma_div_is_ordered_by_denominator(q128(), ratio(), x);
        assert(q128() < ratio() * q64()) by (nonlinear_arith)
            requires
                q128() == q64() * q64(),
                ratio() == q64() + frac(),
                frac() > 0,
                q64() > 0,
        ;
        lemma_multiply_divide_lt(q128(), ratio(), q64());
    }
}

/// Between two mirrored negative ticks the Q64.64 reciprocal strictly falls.
proof fn lemma_inverse_strict(n1: nat, n2: nat)
    requires
        1 <= n2 < n1 <= 443636,
    ensures
        q128() / sqrt_iter(n1) < q128() / sqrt_iter(n2),
{
    let a = sqrt_iter(n1);
    let b = sqrt_iter(n2);
    lemma_iter_ge_q64(n2);
    lemma_iter_le_bound(n1);
    lemma_iter_increases((n2 + 1) as nat, n1);
    assert(sqrt_iter((n2 + 1) as nat) == sqrt_step(b));
    // a - b is at least the step gain on b
    lemma_fundamental_div_mod(b * frac(), q64());
    lemma_remainder_upper(b * frac(), q64());
    assert(q64() * (a - b) > b * frac() - q64()) by (nonlinear_arith)
        requires
            a - b >= (b * frac()) / q64(),
            b * frac() - q64() < ((b * frac()) / q64()) * q64(),
            q64() > 0,
    ;
    // the gap is large enough that the reciprocal drops by more than one
    assert(a * b <= q128() * (a - b)) by (nonlinear_arith)
        requires
            q64() * (a - b) > b * frac() - q64(),
            b >= q64(),
            b <= a,
            a <= 79226673515400910100727349154,
            q128() == q64() * q64(),
            q64() == 0x1_0000_0000_0000_0000,
            frac() == 922314146408234,
    ;
    let qa = q128() / a;
    lemma_fundamental_div_mod(q128(), a);
    lemma_remainder_lower(q128(), a);
    // (qa + 1) * b <= q128
    assert((qa + 1) * b <= q128()) by (nonlinear_arith)
        requires
            qa * a <= q128(),
            a * b <= q128() * (a - b),
            a > 0,
            b > 0,
            qa >= 0,
            qa == q128() / a,
    ;
    lemma_div_multiples_vanish(qa + 1, b);
    lemma_div_is_ordered(b * (qa + 1), q128(), b);
}

/// The sqrt price mapping is strictly increasing over the tick domain.
pub proof fn lemma_sqrt_price_increasing(t1: int, t2: int)
    requires
        tick_in_range(t1),
        tick_in_range(t2),
        t1 < t2,
    ensures
        sqrt_price_at(t1) < sqrt_price_at(t2),
{
    if 0 <= t1 {
        lemma_iter_increases(t1 as nat, t2 as nat);
    } else if t2 <= 0 {
        if t2 == 0 {
            let n = (-t1) as nat;
            let x = sqrt_iter(n);
            lemma_iter_one();
            lemma_iter_increases(1, n);
            lemma_iter_ge_q64(n);
            assert(q128() < ratio() * q64()) by (nonlinear_arith)
                requires
                    q128() == q64() * q64(),
                    ratio() == q64() + frac(),
                    frac() > 0,
                    q64() > 0,
            ;
            lemma_div_is_ordered_by_denominator(q128(), ratio(), x);
            lemma_multiply_divide_lt(q128(), ratio(), q64());
        } else {
            lemma_inverse_strict((-t1) as nat, (-t2) as nat);
        }
    } else {
        // t1 < 0 < t2: the negative side stays below q64, the positive side
        // at or above it.
        let n = (-t1) as nat;
        let x = sqrt_iter(n);
        lemma_iter_one();
        lemma_iter_increases(1, n);
        lemma_iter_ge_q64(n);
        assert(q128() < ratio() * q64()) by (nonlinear_arith)
            requires
                q128() == q64() * q64(),
                ratio() == q64() + frac(),
                frac() > 0,
                q64() > 0,
        ;
        lemma_div_is_ordered_by_denominator(q128(), ratio(), x);
        lemma_multiply_divide_lt(q128(), ratio(), q64());
        lemma_iter_ge_q64(t2 as nat);
    }
}

/// Iterate the per-tick ratio `ticks` times upward from 1.0.
fn sqrt_price_from_zero(ticks: u32) -> (r: u128)
    requires
        ticks <= 443636,
    ensures
        r as int == sqrt_iter(ticks as nat),
{
    let mut x: u128 = Q64;
    let mut k: u32 = 0;
    while k < ticks
        invariant
            k <= ticks,
            ticks <= 443636,
            x as int == sqrt_iter(k as nat),
        decreases ticks - k,
    {
        proof {
            lemma_iter_ge_q64(k as nat);
            lemma_iter_le_bound(k as nat);
            lemma_iter_le_bound((k + 1) as nat);
            lemma_iter_ge_q64((k + 1) as nat);
        }
        let hi = x / Q64;
        let lo = x % Q64;
        proof {
            lemma_fundamental_div_mod(x as int, q64());
            // hi is small because x is bounded
            lemma_div_is_ordered(x as int, SQRT_PRICE_AT_MAX_TICK_BOUND as int, q64());
            lemma_fundamental_div_mod_converse_div(
                SQRT_PRICE_AT_MAX_TICK_BOUND as int,
                q64(),
                4294886577,
                3871458268480290722,
            );
        }
        let inc = hi * RATIO_FRACTION_X64 + (lo * RATIO_FRACTION_X64) / Q64;
        proof {
            // inc equals the spec-level step gain (x * frac) / q64
            lemma_hoist_over_denominator(
                lo as int * frac(),
                hi as int * frac(),
                Q64 as nat,
            );
            assert(lo as int * frac() + (hi as int * frac()) * q64() == x as int * frac())
                by (nonlinear_arith)
                requires
                    x as int == q64() * (hi as int) + lo as int,
            ;
            assert(x as int + inc as int == sqrt_step(x as int));
            assert(sqrt_step(x as int) == sqrt_iter((k + 1) as nat));
        }
        x = x + inc;
        k = k + 1;
    }
    x
}

/// Convert a tick index to its Q64.64 sqrt price.
///
/// Deterministic and strictly increasing over [`MIN_TICK`, `MAX_TICK`]
/// (`lemma_sqrt_price_increasing`), with every result inside
/// [`MIN_SQRT_PRICE_X64`, `MAX_SQRT_PRICE_X64`] (`lemma_sqrt_price_bounds`).
/// A tick outside the domain is rejected with `InvalidTickIndex`.
pub fn tick_to_sqrt_price_x64(tick: i32) -> (r: Result<u128, ErrorCode>)
    ensures
        tick_in_range(tick as int) ==> r == Ok::<u128, ErrorCode>(
            sqrt_price_at(tick as int) as u128,
        ),
        !tick_in_range(tick as int) ==> r == Err::<u128, ErrorCode>(ErrorCode::InvalidTickIndex),
{
    if tick < MIN_TICK || tick > MAX_TICK {
        return Err(ErrorCode::InvalidTickIndex);
    }
    if tick >= 0 {
        let v = sqrt_price_from_zero(tick as u32);
        proof {
            lemma_sqrt_price_bounds(tick as int);
        }
        Ok(v)
    } else {
        let pos = sqrt_price_from_zero((-tick) as u32);
        proof {
            lemma_iter_ge_q64((-tick) as nat);
            lemma_sqrt_price_bounds(tick as int);
        }
        Ok(recip_q128(pos))
    }
}

/// The Q64.64 reciprocal: 2^128 divided by `x`, rounded down.
pub fn recip_q128(x: u128) -> (r: u128)
    requires
        x >= 2,
    ensures
        r as int == q128() / (x as int),
{
    let quot = u128::MAX / x;
    let rem = u128::MAX % x;
    proof {
        let p = x as int;
        lemma_fundamental_div_mod(u128::MAX as int, p);
        lemma_mod_division_less_than_divisor(u128::MAX as int, p);
        lemma_div_is_ordered_by_denominator(u128::MAX as int, 2, p);
        if rem as int == p - 1 {
            // 2^128 == x * (quot + 1)
            lemma_div_multiples_vanish(quot as int + 1, p);
            assert(p * (quot as int + 1) == q128()) by (nonlinear_arith)
                requires
                    u128::MAX as int == p * (quot as int) + (p - 1),
                    q128() == q64() * q64(),
                    q64() == 0x1_0000_0000_0000_0000,
            ;
        } else {
            assert(q128() == (quot as int) * p + (rem as int + 1)) by (nonlinear_arith)
                requires
                    u128::MAX as int == p * (quot as int) + rem as int,
                    q128() == q64() * q64(),
                    q64() == 0x1_0000_0000_0000_0000,
            ;
            lemma_fundamental_div_mod_converse_div(q128(), p, quot as int, rem as int + 1);
        }
    }
    if rem == x - 1 {
        quot + 1
    } else {
        quot
    }
}

/// Find the tick whose sqrt price bucket contains `sqrt_price_x64`.
///
/// Rejects a price outside the global bounds with `InvalidPriceLimit`.
/// Otherwise the result `t` is the greatest in-range tick whose sqrt price
/// does not exceed the argument: `sqrt_price_at(t) <= sqrt_price_x64`, and
/// below `MAX_TICK` the next tick's price is strictly larger.
pub fn sqrt_price_x64_to_tick(sqrt_price_x64: u128) -> (r: Result<i32, ErrorCode>)
    ensures
        !(MIN_SQRT_PRICE_X64 <= sqrt_price_x64 <= MAX_SQRT_PRICE_X64) ==> r == Err::<
            i32,
            ErrorCode,
        >(ErrorCode::InvalidPriceLimit),
        MIN_SQRT_PRICE_X64 <= sqrt_price_x64 <= MAX_SQRT_PRICE_X64 ==> {
            &&& r is Ok
            &&& tick_in_range(r.unwrap() as int)
            &&& sqrt_price_at(r.unwrap() as int) <= sqrt_price_x64 as int
            &&& (r.unwrap() < MAX_TICK ==> (sqrt_price_x64 as int) < sqrt_price_at(
                r.unwrap() as int + 1,
            ))
        },
{
    if sqrt_price_x64 < MIN_SQRT_PRICE_X64 || sqrt_price_x64 > MAX_SQRT_PRICE_X64 {
        return Err(ErrorCode::InvalidPriceLimit);
    }
    proof {
        lemma_sqrt_price_at_min();
    }
    let mut lo: i32 = MIN_TICK;
    let mut hi: i32 = MAX_TICK;
    while lo < hi
        invariant
            MIN_TICK <= lo <= hi <= MAX_TICK,
            MIN_SQRT_PRICE_X64 <= sqrt_price_x64 <= MAX_SQRT_PRICE_X64,
            sqrt_price_at(lo as int) <= sqrt_price_x64 as int,
            hi < MAX_TICK ==> (sqrt_price_x64 as int) < sqrt_price_at(hi as int + 1),
        decreases hi - lo,
    {
        let mid = lo + (hi - lo + 1) / 2;
        proof {
            lemma_sqrt_price_bounds(mid as int);
        }
        let sp = match tick_to_sqrt_price_x64(mid) {
            Ok(v) => v,
            Err(_) => vstd::pervasive::unreached(),
        };
        if sp <= sqrt_price_x64 {
            lo = mid;
        } else {
            hi = mid - 1;
        }
    }
    Ok(lo)
}

} // verus!
