use vstd::prelude::*;
use vstd::arithmetic::div_mod::{lemma_fundamental_div_mod, lemma_fundamental_div_mod_converse};
use vstd::arithmetic::power2::{pow2, lemma2_to64, lemma2_to64_rest, lemma_pow2_unfold, lemma_pow2_strictly_increases};

verus! {

/// One in 64.64 fixed point.
pub const ONE_X64: u128 = 0x1_0000_0000_0000_0000;

/// Lowest tick of the price domain.
pub const MIN_TICK: i32 = -887272;

/// Highest tick of the price domain.
pub const MAX_TICK: i32 = 887272;

/// `sqrt(1.0001)` in 64.64 fixed point: the base of the tick ladder.
pub const SQRT_1_0001_X64: u128 = 18447666387855958016;

/// Floors `tick` to the nearest multiple of `spacing` at or below it.
pub open spec fn snapped(tick: int, spacing: int) -> int {
    tick - tick % spacing
}

proof fn lemma_neg_rem(t: int, s: int)
    requires
        s > 0,
        t < 0,
    ensures
        t % s == (if (-t) % s == 0 { 0 } else { s - (-t) % s }),
{
    lemma_fundamental_div_mod(-t, s);
    let q0 = (-t) / s;
    let r0 = (-t) % s;
    if r0 == 0 {
        assert(t == (-q0) * s + 0) by (nonlinear_arith)
            requires -t == s * q0 + r0, r0 == 0;
        lemma_fundamental_div_mod_converse(t, s, -q0, 0);
    } else {
        assert(t == (-q0 - 1) * s + (s - r0)) by (nonlinear_arith)
            requires -t == s * q0 + r0;
        lemma_fundamental_div_mod_converse(t, s, -q0 - 1, s - r0);
    }
}

/// A tick of the domain (or one below it) snaps to a value that fits `i32`.
pub(crate) proof fn lemma_snapped_fits(c: int, s: int)
    requires
        s > 0,
        s <= i32::MAX,
        MIN_TICK - 1 <= c <= MAX_TICK,
    ensures
        snapped(c, s) >= i32::MIN,
        snapped(c, s) <= c,
{
    if c < 0 && c >= -s {
        lemma_fundamental_div_mod_converse(c, s, -1, c + s);
    }
}

/// Floors `tick` to a multiple of a positive `spacing` (Euclidean remainder, never toward zero).
pub fn snap_tick_to_spacing(tick: i32, spacing: i32) -> (r: i32)
    requires
        spacing > 0,
        snapped(tick as int, spacing as int) >= i32::MIN,
    ensures
        r == snapped(tick as int, spacing as int),
        r <= tick < r + spacing,
        (r as int) % (spacing as int) == 0,
{
    let t: i64 = tick as i64;
    let s: i64 = spacing as i64;
    let rem: i64 = if t >= 0 {
        t % s
    } else {
        let r0: i64 = (-t) % s;
        proof { lemma_neg_rem(t as int, s as int); }
        if r0 == 0 { 0 } else { s - r0 }
    };
    proof {
        lemma_fundamental_div_mod(tick as int, spacing as int);
        let q = (tick as int) / (spacing as int);
        assert(rem as int == (tick as int) % (spacing as int));
        assert(tick as int - rem as int == q * spacing as int) by (nonlinear_arith)
            requires tick as int == spacing as int * q + rem as int;
        lemma_fundamental_div_mod_converse(tick as int - rem as int, spacing as int, q, 0);
    }
    (t - rem) as i32
}


/// 2^64 as a mathematical integer: the scale of 64.64 fixed point.
pub open spec fn q64() -> int {
    0x1_0000_0000_0000_0000
}

/// Clamps a non-negative integer into the `u128` range.
pub open spec fn sat_u128(x: int) -> u128 {
    if x > u128::MAX {
        u128::MAX
    } else {
        x as u128
    }
}

/// The 64.64 product `a * b / 2^64`, saturated at `u128::MAX`.
pub open spec fn mul_q64_spec(a: u128, b: u128) -> u128 {
    sat_u128(a * b / q64())
}

/// The 64.64 quotient `a * 2^64 / b`, saturated at `u128::MAX`; division by zero
/// gives `u128::MAX` ("infinite price").
pub open spec fn div_q64_spec(a: u128, b: u128) -> u128 {
    if b == 0 {
        u128::MAX
    } else {
        sat_u128(a * q64() / (b as int))
    }
}

proof fn lemma_half_product_fits(x: int, y: int)
    requires
        0 <= x < q64(),
        0 <= y < q64(),
    ensures
        0 <= x * y < u128::MAX,
{
    let m = q64() - 1;
    assert(0 <= x * y <= m * y) by (nonlinear_arith)
        requires 0 <= x <= m, 0 <= y;
    assert(m * y <= m * m) by (nonlinear_arith)
        requires 0 <= y <= m, m >= 0;
    assert(m * m == 0xFFFF_FFFF_FFFF_FFFE_0000_0000_0000_0001int) by (nonlinear_arith)
        requires m == 0xFFFF_FFFF_FFFF_FFFFint;
}

proof fn lemma_product_split(a: int, b: int, ah: int, al: int, bh: int, bl: int)
    requires
        a == ah * q64() + al,
        b == bh * q64() + bl,
        0 <= al < q64(),
        0 <= bl < q64(),
        0 <= ah,
        0 <= bh,
    ensures
        a * b / q64() == ah * bh * q64() + al * bh + ah * bl + (al * bl) / q64(),
{
    let k = q64();
    let ll = al * bl;
    assert(al * bl >= 0) by (nonlinear_arith) requires al >= 0, bl >= 0;
    lemma_fundamental_div_mod(ll, k);
    let hh = ah * bh;
    let lh = al * bh;
    let hl = ah * bl;
    assert(a * b == (ah * k) * b + al * b) by (nonlinear_arith)
        requires a == ah * k + al;
    assert((ah * k) * b == (hh * k) * k + hl * k) by (nonlinear_arith)
        requires b == bh * k + bl, hh == ah * bh, hl == ah * bl;
    assert(al * b == lh * k + ll) by (nonlinear_arith)
        requires b == bh * k + bl, lh == al * bh, ll == al * bl;
    let v = hh * k + lh + hl + ll / k;
    assert(v * k == (hh * k) * k + lh * k + hl * k + (ll / k) * k) by (nonlinear_arith)
        requires v == hh * k + lh + hl + ll / k;
    assert(a * b == v * k + ll % k);
    lemma_fundamental_div_mod_converse(a * b, k, v, ll % k);
}

/// Multiplies two 64.64 fixed-point values, saturating at `u128::MAX` instead of wrapping.
pub fn mul_q64(a: u128, b: u128) -> (r: u128)
    ensures
        r == mul_q64_spec(a, b),
{
    let a_lo: u128 = a % ONE_X64;
    let a_hi: u128 = a / ONE_X64;
    let b_lo: u128 = b % ONE_X64;
    let b_hi: u128 = b / ONE_X64;
    proof {
        lemma_half_product_fits(a_lo as int, b_lo as int);
        lemma_half_product_fits(a_lo as int, b_hi as int);
        lemma_half_product_fits(a_hi as int, b_lo as int);
        lemma_half_product_fits(a_hi as int, b_hi as int);
        lemma_product_split(a as int, b as int, a_hi as int, a_lo as int, b_hi as int, b_lo as int);
    }
    let mul_ll: u128 = a_lo * b_lo;
    let mul_lh: u128 = a_lo * b_hi;
    let mul_hl: u128 = a_hi * b_lo;
    let mul_hh: u128 = a_hi * b_hi;
    if mul_hh >= ONE_X64 {
        assert(mul_hh * q64() >= q64() * q64()) by (nonlinear_arith)
            requires mul_hh >= q64();
        return u128::MAX;
    }
    let mid: u128 = mul_lh.saturating_add(mul_hl).saturating_add(mul_ll / ONE_X64);
    let res_hi: u128 = mul_hh * ONE_X64;
    res_hi.saturating_add(mid)
}

/// `floor(r * 2^64 / b)` for `r < b`, by binary long division.
fn div_rem_q64(r: u128, b: u128) -> (q: u128)
    requires
        r < b,
    ensures
        q == r * q64() / b as int,
        q < q64(),
{
    let mut rem: u128 = r;
    let mut quo: u128 = 0;
    let mut i: u32 = 0;
    let ghost scale: int = 1;
    proof {
        lemma2_to64();
        lemma2_to64_rest();
    }
    while i < 64
        invariant
            i <= 64,
            rem < b,
            scale == pow2(i as nat),
            pow2(64) == q64(),
            r * scale == quo * b + rem,
            quo < scale,
        decreases 64 - i,
    {
        proof {
            lemma_pow2_unfold((i + 1) as nat);
            if i < 63 {
                lemma_pow2_strictly_increases(i as nat, 63);
            }
            lemma2_to64();
            lemma2_to64_rest();
        }
        if rem >= b - rem {
            proof {
                assert(r * (2 * scale) == (2 * quo + 1) * b + (2 * rem - b)) by (nonlinear_arith)
                    requires r * scale == quo * b + rem;
            }
            rem = rem - (b - rem);
            quo = 2 * quo + 1;
        } else {
            proof {
                assert(r * (2 * scale) == (2 * quo) * b + 2 * rem) by (nonlinear_arith)
                    requires r * scale == quo * b + rem;
            }
            rem = 2 * rem;
            quo = 2 * quo;
        }
        proof {
            scale = 2 * scale;
        }
        i = i + 1;
    }
    proof {
        lemma_fundamental_div_mod_converse(r * q64(), b as int, quo as int, rem as int);
    }
    quo
}

/// Divides two 64.64 fixed-point values: `(a << 64) / b`, exact when it fits and
/// saturated at `u128::MAX` otherwise; a zero divisor gives `u128::MAX`.
pub fn div_q64(a: u128, b: u128) -> (r: u128)
    ensures
        r == div_q64_spec(a, b),
{
    if b == 0 {
        return u128::MAX;
    }
    if a < ONE_X64 {
        assert(a * q64() < q64() * q64()) by (nonlinear_arith)
            requires a < q64();
        return (a * ONE_X64) / b;
    }
    let q: u128 = a / b;
    let r: u128 = a % b;
    proof {
        lemma_fundamental_div_mod(a as int, b as int);
    }
    if q >= ONE_X64 {
        assert(a * q64() / b as int >= q * q64()) by (nonlinear_arith)
            requires a == b * q + r, r >= 0, b > 0, q >= 0, a >= 0;
        assert(q * q64() >= q64() * q64()) by (nonlinear_arith)
            requires q >= q64();
        return u128::MAX;
    }
    let r_part: u128 = div_rem_q64(r, b);
    proof {
        let k = q64();
        lemma_fundamental_div_mod(r * k, b as int);
        assert(a * k == (q * k + r_part) * b + (r * k) % (b as int)) by (nonlinear_arith)
            requires
                a == b * q + r,
                r * k == b * r_part + (r * k) % (b as int);
        lemma_fundamental_div_mod_converse(a * k, b as int, q * k + r_part, (r * k) % (b as int));
        assert(q * k + r_part <= (k - 1) * k + (k - 1)) by (nonlinear_arith)
            requires q <= k - 1, r_part <= k - 1;
    }
    q * ONE_X64 + r_part
}


/// Square-and-multiply over 64.64 values: `result * base^exp`, each product
/// rounded as `mul_q64` rounds it.
pub open spec fn pow_ladder(result: u128, base: u128, exp: nat) -> u128
    decreases exp,
{
    if exp == 0 {
        result
    } else {
        pow_ladder(
            if exp % 2 == 1 { mul_q64_spec(result, base) } else { result },
            mul_q64_spec(base, base),
            exp / 2,
        )
    }
}

/// `sqrt(1.0001)^tick` in 64.64 fixed point: the ladder over `|tick|`, inverted
/// with `div_q64` for negative ticks.
pub open spec fn sqrt_price_at_tick(tick: int) -> u128 {
    if tick >= 0 {
        pow_ladder(ONE_X64, SQRT_1_0001_X64, tick as nat)
    } else {
        div_q64_spec(ONE_X64, pow_ladder(ONE_X64, SQRT_1_0001_X64, (-tick) as nat))
    }
}

/// Whether `tick` lies in the price domain.
pub open spec fn tick_in_domain(tick: int) -> bool {
    MIN_TICK <= tick <= MAX_TICK
}

fn tick_sqrt_price_inner(tick: i32) -> (r: u128)
    requires
        tick > i32::MIN,
    ensures
        r == sqrt_price_at_tick(tick as int),
{
    if tick == 0 {
        return ONE_X64;
    }
    let negative: bool = tick < 0;
    let mut exp: i32 = if negative { -tick } else { tick };
    let ghost total: nat = exp as nat;
    let mut base: u128 = SQRT_1_0001_X64;
    let mut result: u128 = ONE_X64;
    while exp > 0
        invariant
            exp >= 0,
            pow_ladder(result, base, exp as nat) == pow_ladder(ONE_X64, SQRT_1_0001_X64, total),
        decreases exp,
    {
        if exp % 2 == 1 {
            result = mul_q64(result, base);
        }
        base = mul_q64(base, base);
        exp = exp / 2;
    }
    if negative {
        div_q64(ONE_X64, result)
    } else {
        result
    }
}

/// The 64.64 square-root price of a tick in the domain.
pub fn get_sqrt_ratio_at_tick(tick: i32) -> (r: u128)
    requires
        tick_in_domain(tick as int),
    ensures
        r == sqrt_price_at_tick(tick as int),
{
    tick_sqrt_price_inner(tick)
}

/// Bisection over ticks `[lo, hi]` for the tick whose price interval holds `p`.
pub open spec fn bisect_tick(p: u128, lo: int, hi: int) -> int
    decreases hi - lo,
{
    if hi - lo <= 1 {
        lo
    } else {
        let mid = lo + (hi - lo) / 2;
        if sqrt_price_at_tick(mid) <= p {
            bisect_tick(p, mid, hi)
        } else {
            bisect_tick(p, lo, mid)
        }
    }
}

/// The tick of a 64.64 square-root price: the highest tick at the top of the
/// domain, a bisection over the domain inside it, none below it.
pub open spec fn tick_at_sqrt_price(p: u128) -> Option<i32> {
    if p < sqrt_price_at_tick(MIN_TICK as int) {
        None
    } else if sqrt_price_at_tick(MAX_TICK as int) <= p {
        Some(MAX_TICK)
    } else {
        Some(bisect_tick(p, MIN_TICK as int, MAX_TICK as int) as i32)
    }
}

/// The tick of a 64.64 square-root price: a tick of the domain whose price is
/// at or below `sqrt_price` and whose successor's price is above it, found by
/// bisection; `None` below the domain's lowest price.
pub fn get_tick_at_sqrt_ratio(sqrt_price: u128) -> (r: Option<i32>)
    ensures
        r == tick_at_sqrt_price(sqrt_price),
        r is None <==> sqrt_price < sqrt_price_at_tick(MIN_TICK as int),
        r matches Some(t) ==> {
            &&& tick_in_domain(t as int)
            &&& sqrt_price_at_tick(t as int) <= sqrt_price
            &&& (t < MAX_TICK ==> sqrt_price < sqrt_price_at_tick(t + 1))
        },
{
    if sqrt_price < get_sqrt_ratio_at_tick(MIN_TICK) {
        return None;
    }
    if get_sqrt_ratio_at_tick(MAX_TICK) <= sqrt_price {
        return Some(MAX_TICK);
    }
    let mut lo: i32 = MIN_TICK;
    let mut hi: i32 = MAX_TICK;
    while hi - lo > 1
        invariant
            MIN_TICK <= lo < hi <= MAX_TICK,
            sqrt_price_at_tick(lo as int) <= sqrt_price,
            sqrt_price < sqrt_price_at_tick(hi as int),
            bisect_tick(sqrt_price, lo as int, hi as int) == bisect_tick(sqrt_price, MIN_TICK as int, MAX_TICK as int),
        decreases hi - lo,
    {
        let mid: i32 = lo + (hi - lo) / 2;
        if get_sqrt_ratio_at_tick(mid) <= sqrt_price {
            lo = mid;
        } else {
            hi = mid;
        }
    }
    Some(lo)
}

/// The 64.64 square-root price of a tick in the domain (same as `get_sqrt_ratio_at_tick`).
pub fn tick_to_sqrt_price_x64(tick: i32) -> (r: u128)
    requires
        tick_in_domain(tick as int),
    ensures
        r == sqrt_price_at_tick(tick as int),
{
    get_sqrt_ratio_at_tick(tick)
}

/// A signed amount read as unsigned, with non-positive values read as zero.
pub open spec fn clamp_to_u128(x: i128) -> u128 {
    if x <= 0 {
        0
    } else {
        x as u128
    }
}

/// An unsigned amount read as signed, saturated at `i128::MAX`.
pub open spec fn clamp_to_i128(x: u128) -> i128 {
    if x > i128::MAX {
        i128::MAX
    } else {
        x as i128
    }
}

fn i128_to_u128_safe(x: i128) -> (r: u128)
    ensures
        r == clamp_to_u128(x),
{
    if x <= 0 {
        0
    } else {
        x as u128
    }
}

fn u128_to_i128_saturating(x: u128) -> (r: i128)
    ensures
        r == clamp_to_i128(x),
{
    if x > i128::MAX as u128 {
        i128::MAX
    } else {
        x as i128
    }
}

/// Liquidity implied by an asset-0 amount over `[lower, upper]`:
/// `amount0 * lower * upper / (upper - lower)` in 64.64 arithmetic.
pub open spec fn liquidity_for_amount0(amount0: i128, sqrt_lower: u128, sqrt_upper: u128) -> i128 {
    let width = sqrt_upper.saturating_sub(sqrt_lower);
    if amount0 <= 0 || width == 0 {
        0
    } else {
        clamp_to_i128(
            div_q64_spec(
                mul_q64_spec(amount0 as u128, mul_q64_spec(sqrt_upper, sqrt_lower)),
                width,
            ),
        )
    }
}

/// Liquidity implied by an asset-1 amount over `[lower, upper]`:
/// `amount1 / (upper - lower)`.
pub open spec fn liquidity_for_amount1(amount1: i128, sqrt_lower: u128, sqrt_upper: u128) -> i128 {
    let width = sqrt_upper.saturating_sub(sqrt_lower);
    if amount1 <= 0 || width == 0 {
        0
    } else {
        clamp_to_i128((sat_u128(amount1 * q64()) / width) as u128)
    }
}

pub fn get_liquidity_for_amount0(amount0: i128, sqrt_price_lower: u128, sqrt_price_upper: u128) -> (r: i128)
    ensures
        r == liquidity_for_amount0(amount0, sqrt_price_lower, sqrt_price_upper),
{
    if amount0 <= 0 {
        return 0;
    }
    let amt0_u: u128 = i128_to_u128_safe(amount0);
    let denom: u128 = sqrt_price_upper.saturating_sub(sqrt_price_lower);
    if denom == 0 {
        return 0;
    }
    let num: u128 = mul_q64(amt0_u, mul_q64(sqrt_price_upper, sqrt_price_lower));
    u128_to_i128_saturating(div_q64(num, denom))
}

pub fn get_liquidity_for_amount1(amount1: i128, sqrt_price_lower: u128, sqrt_price_upper: u128) -> (r: i128)
    ensures
        r == liquidity_for_amount1(amount1, sqrt_price_lower, sqrt_price_upper),
{
    if amount1 <= 0 {
        return 0;
    }
    let amt1_u: u128 = i128_to_u128_safe(amount1);
    let width: u128 = sqrt_price_upper.saturating_sub(sqrt_price_lower);
    if width == 0 {
        return 0;
    }
    let scaled: u128 = if amt1_u >= ONE_X64 {
        assert(amt1_u * q64() >= q64() * q64()) by (nonlinear_arith)
            requires amt1_u >= q64();
        u128::MAX
    } else {
        assert(amt1_u * q64() < q64() * q64()) by (nonlinear_arith)
            requires amt1_u < q64();
        amt1_u * ONE_X64
    };
    u128_to_i128_saturating(scaled / width)
}

/// Liquidity that amounts of both assets can back over `[lower, upper]` at price
/// `p`: each asset's liquidity taken alone, and the smaller of the two while the
/// price lies inside the range, so that neither amount is exceeded.
pub open spec fn liquidity_for_amounts(p: u128, lower: u128, upper: u128, amount0: i128, amount1: i128) -> i128 {
    if p <= lower {
        liquidity_for_amount0(amount0, lower, upper)
    } else if p < upper {
        let l0 = liquidity_for_amount0(amount0, p, upper);
        let l1 = liquidity_for_amount1(amount1, lower, p);
        if l0 < l1 { l0 } else { l1 }
    } else {
        liquidity_for_amount1(amount1, lower, upper)
    }
}

pub fn get_liquidity_for_amounts(
    sqrt_price: u128,
    sqrt_price_lower: u128,
    sqrt_price_upper: u128,
    amount0: i128,
    amount1: i128,
) -> (r: i128)
    ensures
        r == liquidity_for_amounts(sqrt_price, sqrt_price_lower, sqrt_price_upper, amount0, amount1),
{
    if sqrt_price <= sqrt_price_lower {
        get_liquidity_for_amount0(amount0, sqrt_price_lower, sqrt_price_upper)
    } else if sqrt_price < sqrt_price_upper {
        let l0: i128 = get_liquidity_for_amount0(amount0, sqrt_price, sqrt_price_upper);
        let l1: i128 = get_liquidity_for_amount1(amount1, sqrt_price_lower, sqrt_price);
        if l0 < l1 { l0 } else { l1 }
    } else {
        get_liquidity_for_amount1(amount1, sqrt_price_lower, sqrt_price_upper)
    }
}

/// The price clamped into `[lower, upper]`.
pub open spec fn clamp_price(p: u128, lower: u128, upper: u128) -> u128 {
    if p < lower {
        if lower > upper { upper } else { lower }
    } else if p > upper {
        upper
    } else {
        p
    }
}

/// Asset amounts held by `liquidity` over `[lower, upper]` at price `p`:
/// asset 0 is `L * (upper - p) / (upper * p)` while `p < upper`, asset 1 is
/// `L * (p - lower)` while `p > lower`, with `p` first clamped into the range.
pub open spec fn amounts_for_liquidity(liquidity: i128, lower: u128, upper: u128, p: u128) -> (i128, i128) {
    if liquidity <= 0 {
        (0, 0)
    } else {
        let l = liquidity as u128;
        let sp = clamp_price(p, lower, upper);
        let denom = mul_q64_spec(upper, sp);
        let a0 = if sp < upper {
            div_q64_spec(mul_q64_spec(l, upper.saturating_sub(sp)), if denom == 0 { 1 } else { denom })
        } else {
            0
        };
        let a1 = if sp > lower { mul_q64_spec(l, sp.saturating_sub(lower)) } else { 0 };
        (clamp_to_i128(a0), clamp_to_i128(a1))
    }
}

pub fn get_amounts_for_liquidity(
    liquidity: i128,
    sqrt_price_lower: u128,
    sqrt_price_upper: u128,
    current_sqrt_price: u128,
) -> (r: (i128, i128))
    ensures
        r == amounts_for_liquidity(liquidity, sqrt_price_lower, sqrt_price_upper, current_sqrt_price),
{
    if liquidity <= 0 {
        return (0, 0);
    }
    let liq_u: u128 = i128_to_u128_safe(liquidity);
    let mut sp: u128 = current_sqrt_price;
    if sp < sqrt_price_lower {
        sp = sqrt_price_lower;
    }
    if sp > sqrt_price_upper {
        sp = sqrt_price_upper;
    }
    let mut amount0_u: u128 = 0;
    if sp < sqrt_price_upper {
        let num: u128 = mul_q64(liq_u, sqrt_price_upper.saturating_sub(sp));
        let prod: u128 = mul_q64(sqrt_price_upper, sp);
        let denom: u128 = if prod == 0 { 1 } else { prod };
        amount0_u = div_q64(num, denom);
    }
    let mut amount1_u: u128 = 0;
    if sp > sqrt_price_lower {
        amount1_u = mul_q64(liq_u, sp.saturating_sub(sqrt_price_lower));
    }
    (u128_to_i128_saturating(amount0_u), u128_to_i128_saturating(amount1_u))
}


/// One swap step against `liquidity` without a target price: the new price, the
/// input consumed and the output produced. Asset 0 in moves the price down to
/// `L * P / (L + amount * P)`, computed as `L / (L / P + amount)` so that no
/// intermediate product overflows, and never above `P`; asset 1 in moves it up
/// by `amount / L`.
pub open spec fn swap_step(sqrt_price: u128, liquidity: i128, amount: i128, zero_for_one: bool) -> (u128, i128, i128) {
    let l = clamp_to_u128(liquidity);
    if l == 0 || amount <= 0 {
        (sqrt_price, 0, 0)
    } else if zero_for_one {
        let q = div_q64_spec(l, div_q64_spec(l, sqrt_price).saturating_add(amount as u128));
        let next = if q < sqrt_price { q } else { sqrt_price };
        (next, amount, clamp_to_i128(mul_q64_spec(l, (sqrt_price - next) as u128)))
    } else {
        let next = sqrt_price.saturating_add(div_q64_spec(amount as u128, l));
        (next, amount, clamp_to_i128(div_q64_spec(l, sqrt_price).saturating_sub(div_q64_spec(l, next))))
    }
}

/// The smaller of two amounts.
pub open spec fn min_i128(a: i128, b: i128) -> i128 {
    if a <= b { a } else { b }
}

/// Whether `target` lies on the side of `sqrt_price` that the trade moves toward.
pub open spec fn target_ahead(sqrt_price: u128, zero_for_one: bool, target: u128) -> bool {
    if zero_for_one { target <= sqrt_price } else { target >= sqrt_price }
}

/// One swap step that stops at `target` when the free step would reach or pass
/// it; the input is then what it takes to move the price exactly to `target`
/// (`L/target - L/P` for asset 0, `L * (target - P)` for asset 1), never more
/// than offered. No liquidity, no input, or a target behind the price gives no step.
pub open spec fn swap_step_to_target(
    sqrt_price: u128,
    liquidity: i128,
    amount: i128,
    zero_for_one: bool,
    target: u128,
) -> (u128, i128, i128) {
    let l = clamp_to_u128(liquidity);
    let free = swap_step(sqrt_price, liquidity, amount, zero_for_one);
    if l == 0 || amount <= 0 || !target_ahead(sqrt_price, zero_for_one, target) {
        (sqrt_price, 0, 0)
    } else if zero_for_one && free.0 <= target {
        (
            target,
            min_i128(clamp_to_i128(div_q64_spec(l, target).saturating_sub(div_q64_spec(l, sqrt_price))), amount),
            clamp_to_i128(mul_q64_spec(l, (sqrt_price - target) as u128)),
        )
    } else if !zero_for_one && free.0 >= target {
        (
            target,
            min_i128(clamp_to_i128(mul_q64_spec(l, (target - sqrt_price) as u128)), amount),
            clamp_to_i128(div_q64_spec(l, sqrt_price).saturating_sub(div_q64_spec(l, target))),
        )
    } else {
        free
    }
}

/// `floor(x * num / den)` for a small numerator and denominator (basis-point
/// scaling), computed without an overflowing intermediate product.
pub fn mul_div_floor(x: u128, num: u128, den: u128) -> (r: u128)
    requires
        0 < den <= 10000,
        num <= 10000,
        x * num / (den as int) <= u128::MAX,
    ensures
        r == x * num / (den as int),
{
    let q: u128 = x / den;
    let rem: u128 = x % den;
    proof {
        lemma_fundamental_div_mod(x as int, den as int);
        assert(rem * num <= 10000 * 10000) by (nonlinear_arith)
            requires rem < den, den <= 10000, num <= 10000;
        let k = rem * num;
        lemma_fundamental_div_mod(k, den as int);
        assert(x * num == (q * num + k / (den as int)) * den + k % (den as int)) by (nonlinear_arith)
            requires
                x == den * q + rem,
                k == rem * num,
                k == den * (k / (den as int)) + k % (den as int);
        lemma_fundamental_div_mod_converse(x * num, den as int, q * num + k / (den as int), k % (den as int));
        assert(k / (den as int) >= 0) by (nonlinear_arith) requires k >= 0, den > 0;
        assert(q * num >= 0) by (nonlinear_arith) requires q >= 0, num >= 0;
    }
    q * num + (rem * num) / den
}

pub fn compute_swap_step(
    sqrt_price_current: u128,
    liquidity: i128,
    amount_remaining: i128,
    zero_for_one: bool,
) -> (r: (u128, i128, i128))
    ensures
        r == swap_step(sqrt_price_current, liquidity, amount_remaining, zero_for_one),
        zero_for_one ==> r.0 <= sqrt_price_current,
        !zero_for_one ==> r.0 >= sqrt_price_current,
        r.1 == (if liquidity > 0 && amount_remaining > 0 { amount_remaining } else { 0 }),
        r.2 >= 0,
{
    let liq_u: u128 = i128_to_u128_safe(liquidity);
    if liq_u == 0 || amount_remaining <= 0 {
        return (sqrt_price_current, 0, 0);
    }
    let amt_u: u128 = i128_to_u128_safe(amount_remaining);
    let sp: u128 = sqrt_price_current;
    if zero_for_one {
        let denom: u128 = div_q64(liq_u, sp).saturating_add(amt_u);
        let q: u128 = div_q64(liq_u, denom);
        let new_sp: u128 = if q < sp { q } else { sp };
        let amount_out: i128 = u128_to_i128_saturating(mul_q64(liq_u, sp - new_sp));
        (new_sp, amount_remaining, amount_out)
    } else {
        let delta_sp: u128 = div_q64(amt_u, liq_u);
        let new_sp: u128 = sp.saturating_add(delta_sp);
        let term1: u128 = div_q64(liq_u, sp);
        let term2: u128 = div_q64(liq_u, new_sp);
        let amount_out: i128 = u128_to_i128_saturating(term1.saturating_sub(term2));
        (new_sp, amount_remaining, amount_out)
    }
}

pub fn compute_swap_step_with_target(
    sqrt_price_current: u128,
    liquidity: i128,
    amount_specified: i128,
    zero_for_one: bool,
    sqrt_price_target: u128,
) -> (r: (u128, i128, i128))
    ensures
        r == swap_step_to_target(
            sqrt_price_current,
            liquidity,
            amount_specified,
            zero_for_one,
            sqrt_price_target,
        ),
        0 <= r.1 <= (if amount_specified > 0 { amount_specified } else { 0 }),
        r.2 >= 0,
        zero_for_one && sqrt_price_target <= sqrt_price_current
            ==> sqrt_price_target <= r.0 <= sqrt_price_current,
        !zero_for_one && sqrt_price_target >= sqrt_price_current
            ==> sqrt_price_current <= r.0 <= sqrt_price_target,
        !target_ahead(sqrt_price_current, zero_for_one, sqrt_price_target)
            ==> r == (sqrt_price_current, 0i128, 0i128),
        liquidity > 0 && amount_specified > 0 && target_ahead(sqrt_price_current, zero_for_one, sqrt_price_target)
            && r.0 != sqrt_price_target
            ==> r == swap_step(sqrt_price_current, liquidity, amount_specified, zero_for_one),
{
    let liq_u: u128 = i128_to_u128_safe(liquidity);
    let ahead: bool = if zero_for_one {
        sqrt_price_target <= sqrt_price_current
    } else {
        sqrt_price_target >= sqrt_price_current
    };
    if liq_u == 0 || amount_specified <= 0 || !ahead {
        return (sqrt_price_current, 0, 0);
    }
    let (next_sp, input_max, output_max) = compute_swap_step(
        sqrt_price_current,
        liquidity,
        amount_specified,
        zero_for_one,
    );
    if zero_for_one && next_sp <= sqrt_price_target {
        let needed: u128 = div_q64(liq_u, sqrt_price_target).saturating_sub(div_q64(liq_u, sqrt_price_current));
        let needed_i: i128 = u128_to_i128_saturating(needed);
        let input: i128 = if needed_i <= amount_specified { needed_i } else { amount_specified };
        let output: i128 = u128_to_i128_saturating(mul_q64(liq_u, sqrt_price_current - sqrt_price_target));
        (sqrt_price_target, input, output)
    } else if !zero_for_one && next_sp >= sqrt_price_target {
        let needed_i: i128 = u128_to_i128_saturating(mul_q64(liq_u, sqrt_price_target - sqrt_price_current));
        let input: i128 = if needed_i <= amount_specified { needed_i } else { amount_specified };
        let term1: u128 = div_q64(liq_u, sqrt_price_current);
        let term2: u128 = div_q64(liq_u, sqrt_price_target);
        let output: i128 = u128_to_i128_saturating(term1.saturating_sub(term2));
        (sqrt_price_target, input, output)
    } else {
        (next_sp, input_max, output_max)
    }
}

} // verus!
