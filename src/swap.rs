use vstd::prelude::*;

use crate::math::{
    compute_swap_step_with_target, div_q64, div_q64_spec, get_sqrt_ratio_at_tick,
    get_tick_at_sqrt_ratio, mul_div_floor, sqrt_price_at_tick, swap_step_to_target,
    tick_at_sqrt_price, tick_in_domain, MAX_TICK, MIN_TICK,
};
use crate::pool::{PoolConfig, PoolState, BPS};
use crate::tick::{
    cross_tick, crossed, find_next_initialized_tick, liquidity_after_cross, next_initialized_tick,
    sat_add_i128, saturating_add_i128, tick_at, wrap_add, TickMap,
};

verus! {

/// The most steps one swap takes.
pub const MAX_SWAP_STEPS: u32 = 1024;

/// What stays fixed while a swap runs.
#[derive(Clone, Copy, Debug, PartialEq, Eq, Structural)]
pub struct SwapParams {
    pub tick_spacing: i32,
    pub fee_bps: u32,
    pub protocol_fee_bps: u32,
    /// Asset 0 goes in and the price moves down; otherwise asset 1 goes in.
    pub zero_for_one: bool,
    /// The price the swap may not pass; zero for none.
    pub sqrt_price_limit_x64: u128,
}

/// The running state of a swap.
#[derive(Clone, Copy, Debug, PartialEq, Eq, Structural)]
pub struct SwapState {
    pub sqrt_price: u128,
    pub liquidity: i128,
    pub tick: i32,
    /// Input not yet spent on trade or fees.
    pub remaining: i128,
    /// Output produced so far.
    pub amount_out: i128,
    pub fee_growth_a: u128,
    pub fee_growth_b: u128,
    /// Protocol share of the fees taken so far, in the input asset.
    pub protocol_fee: u128,
    /// No further step can make progress.
    pub done: bool,
}

/// The price limit in force: the caller's, or the far end of the price range.
pub open spec fn effective_limit(p: SwapParams) -> u128 {
    if p.sqrt_price_limit_x64 != 0 {
        p.sqrt_price_limit_x64
    } else if p.zero_for_one {
        1
    } else {
        (u128::MAX - 1) as u128
    }
}

/// The price a step aims at: the next tick's price, or the limit where closer.
pub open spec fn step_target(tick_price: u128, p: SwapParams) -> u128 {
    let limit = effective_limit(p);
    if p.zero_for_one {
        if tick_price < limit { limit } else { tick_price }
    } else {
        if tick_price > limit { limit } else { tick_price }
    }
}

/// The input left for trading once the fee is set aside: `amount * (10000 - fee) / 10000`.
pub open spec fn available_for_trade(amount: i128, fee_bps: u32) -> i128 {
    (amount * (BPS - fee_bps) / (BPS as int)) as i128
}

/// The fee paid for a step that traded `amount_in` out of `available`: the rest
/// of the input when the step used all of it, else `amount_in * fee / (10000 - fee)`
/// rounded up.
pub open spec fn step_fee(remaining: i128, available: i128, amount_in: i128, fee_bps: u32) -> i128 {
    if amount_in == available {
        (remaining - amount_in) as i128
    } else {
        (amount_in * fee_bps / ((BPS - fee_bps) as int) + 1) as i128
    }
}

/// One step of the swap loop: find the next initialized tick, trade toward its
/// price (or the limit), take the fee into the fee-growth counter of the input
/// asset, and cross the tick when the step reached it.
pub open spec fn swap_iteration(s: SwapState, m: Map<i32, crate::tick::TickInfo>, p: SwapParams) -> (SwapState, Map<i32, crate::tick::TickInfo>) {
    let next = next_initialized_tick(m, s.tick, p.tick_spacing, p.zero_for_one);
    if s.remaining <= 0 || s.liquidity <= 0 || !tick_in_domain(next as int) {
        (SwapState { done: true, ..s }, m)
    } else {
        let target = step_target(sqrt_price_at_tick(next as int), p);
        let available = available_for_trade(s.remaining, p.fee_bps);
        let step = if s.sqrt_price == target {
            (s.sqrt_price, 0i128, 0i128)
        } else {
            swap_step_to_target(s.sqrt_price, s.liquidity, available, p.zero_for_one, target)
        };
        let amount_in = step.1;
        let fee = step_fee(s.remaining, available, amount_in, p.fee_bps);
        let remaining = (s.remaining - (amount_in + fee)) as i128;
        let protocol = (fee * p.protocol_fee_bps / (BPS as int)) as u128;
        let growth = div_q64_spec((fee - protocol) as u128, s.liquidity as u128);
        let fee_growth_a = if p.zero_for_one { wrap_add(s.fee_growth_a, growth) } else { s.fee_growth_a };
        let fee_growth_b = if p.zero_for_one { s.fee_growth_b } else { wrap_add(s.fee_growth_b, growth) };
        let moved = SwapState {
            remaining,
            amount_out: sat_add_i128(s.amount_out, step.2),
            fee_growth_a,
            fee_growth_b,
            protocol_fee: s.protocol_fee.saturating_add(protocol),
            ..s
        };
        let reached = step.0 == target;
        let forward = if p.zero_for_one { target <= s.sqrt_price } else { target >= s.sqrt_price };
        let at_limit = p.sqrt_price_limit_x64 != 0 && target == p.sqrt_price_limit_x64;
        if reached && forward && !at_limit {
            (
                SwapState {
                    sqrt_price: target,
                    liquidity: liquidity_after_cross(s.liquidity, tick_at(m, next).liquidity_net, p.zero_for_one),
                    tick: if p.zero_for_one { (next - 1) as i32 } else { next },
                    ..moved
                },
                crossed(m, next, fee_growth_a, fee_growth_b),
            )
        } else if step.0 != s.sqrt_price {
            (SwapState { sqrt_price: step.0, tick: tick_for_price(step.0, s.tick), done: remaining <= 0, ..moved }, m)
        } else {
            (SwapState { done: true, ..moved }, m)
        }
    }
}

/// The tick of a price the swap moved to inside an interval; `fallback` when the
/// price lies below the domain.
pub open spec fn tick_for_price(p: u128, fallback: i32) -> i32 {
    match tick_at_sqrt_price(p) {
        Some(t) => t,
        None => fallback,
    }
}

/// The swap loop run for at most `fuel` steps.
pub open spec fn swap_loop(s: SwapState, m: Map<i32, crate::tick::TickInfo>, p: SwapParams, fuel: nat) -> (SwapState, Map<i32, crate::tick::TickInfo>)
    decreases fuel,
{
    if fuel == 0 || s.done {
        (s, m)
    } else {
        let (s2, m2) = swap_iteration(s, m, p);
        swap_loop(s2, m2, p, (fuel - 1) as nat)
    }
}

/// The state a swap of `amount` starts from.
pub open spec fn initial_swap_state(pool: PoolState, amount: i128) -> SwapState {
    SwapState {
        sqrt_price: pool.sqrt_price_x64,
        liquidity: pool.liquidity,
        tick: pool.current_tick,
        remaining: amount,
        amount_out: 0,
        fee_growth_a: pool.fee_growth_global_a,
        fee_growth_b: pool.fee_growth_global_b,
        protocol_fee: 0,
        done: false,
    }
}

/// The parameters of a swap on a pool.
pub open spec fn swap_params(pool: PoolState, config: PoolConfig, zero_for_one: bool, limit: u128) -> SwapParams {
    SwapParams {
        tick_spacing: pool.tick_spacing,
        fee_bps: config.fee_bps,
        protocol_fee_bps: config.protocol_fee_bps,
        zero_for_one,
        sqrt_price_limit_x64: limit,
    }
}

/// The pool state after a swap that ended in `s`.
pub open spec fn pool_after_swap(pool: PoolState, s: SwapState, zero_for_one: bool) -> PoolState {
    PoolState {
        sqrt_price_x64: s.sqrt_price,
        current_tick: s.tick,
        liquidity: s.liquidity,
        fee_growth_global_a: s.fee_growth_a,
        fee_growth_global_b: s.fee_growth_b,
        protocol_fees_a: if zero_for_one { pool.protocol_fees_a.saturating_add(s.protocol_fee) } else { pool.protocol_fees_a },
        protocol_fees_b: if zero_for_one { pool.protocol_fees_b } else { pool.protocol_fees_b.saturating_add(s.protocol_fee) },
        ..pool
    }
}

/// The complete outcome of running the swap loop on a pool.
pub open spec fn swap_run(
    pool: PoolState,
    config: PoolConfig,
    ticks: Map<i32, crate::tick::TickInfo>,
    amount: i128,
    zero_for_one: bool,
    limit: u128,
) -> (SwapState, Map<i32, crate::tick::TickInfo>) {
    swap_loop(
        initial_swap_state(pool, amount),
        ticks,
        swap_params(pool, config, zero_for_one, limit),
        MAX_SWAP_STEPS as nat,
    )
}

proof fn lemma_fee_fits(remaining: int, f: int, available: int, amount_in: int)
    requires
        0 < f < 10000,
        remaining > 0,
        available == remaining * (10000 - f) / 10000,
        0 <= amount_in < available,
    ensures
        amount_in + amount_in * f / (10000 - f) + 1 <= remaining,
        amount_in * f / (10000 - f) >= 0,
{
    let d = 10000 - f;
    let fee = amount_in * f / d;
    vstd::arithmetic::div_mod::lemma_fundamental_div_mod(amount_in * f, d);
    vstd::arithmetic::div_mod::lemma_fundamental_div_mod(remaining * d, 10000);
    assert(amount_in * f >= 0) by (nonlinear_arith) requires amount_in >= 0, f > 0;
    assert(fee >= 0) by (nonlinear_arith) requires fee == amount_in * f / d, amount_in * f >= 0, d > 0;
    assert((amount_in + fee + 1) * d <= remaining * d) by (nonlinear_arith)
        requires
            d == 10000 - f,
            0 < f < 10000,
            fee * d <= amount_in * f,
            amount_in + 1 <= available,
            available * 10000 <= remaining * d,
            amount_in >= 0,
            fee >= 0;
    assert(amount_in + fee + 1 <= remaining) by (nonlinear_arith)
        requires (amount_in + fee + 1) * d <= remaining * d, d > 0;
}

proof fn lemma_available_bounds(remaining: int, f: int)
    requires
        0 < f < 10000,
        remaining > 0,
    ensures
        0 <= remaining * (10000 - f) / 10000 <= remaining,
{
    assert(0 <= remaining * (10000 - f) <= remaining * 10000) by (nonlinear_arith)
        requires 0 < f < 10000, remaining > 0;
}

proof fn lemma_scaled_le(x: int, n: int, d: int)
    requires
        x >= 0,
        0 <= n <= d,
        d > 0,
    ensures
        0 <= x * n / d <= x,
{
    assert(0 <= x * n <= x * d) by (nonlinear_arith) requires x >= 0, 0 <= n <= d;
    assert(x * d / d == x) by (nonlinear_arith) requires d > 0;
    vstd::arithmetic::div_mod::lemma_div_is_ordered(x * n, x * d, d);
    vstd::arithmetic::div_mod::lemma_div_pos_is_pos(x * n, d);
}

/// Runs the swap loop on a pool state and its ticks: walks the price across
/// initialized ticks until the input is spent, liquidity runs out, the limit is
/// reached, no step makes progress, or the step bound is hit. Returns the input
/// consumed (trade and fees) and the output produced.
pub fn engine_swap(
    pool: &mut PoolState,
    ticks: &mut TickMap,
    config: &PoolConfig,
    amount_specified: i128,
    zero_for_one: bool,
    sqrt_price_limit_x64: u128,
) -> (r: (i128, i128))
    requires
        old(pool).wf(),
        old(ticks).wf(),
        config.wf(),
    ensures
        amount_specified <= 0 ==> {
            &&& r == (0i128, 0i128)
            &&& *final(pool) == *old(pool)
            &&& final(ticks)@ == old(ticks)@
        },
        amount_specified > 0 ==> ({
            let (s, m) = swap_run(*old(pool), *config, old(ticks)@, amount_specified, zero_for_one, sqrt_price_limit_x64);
            &&& *final(pool) == pool_after_swap(*old(pool), s, zero_for_one)
            &&& final(ticks)@ == m
            &&& r == ((amount_specified - s.remaining) as i128, s.amount_out)
            &&& 0 <= s.remaining <= amount_specified
        }),
        final(pool).wf(),
        final(ticks).wf(),
        0 <= r.0,
        amount_specified > 0 ==> r.0 <= amount_specified,
        r.1 >= 0,
        zero_for_one ==> final(pool).sqrt_price_x64 <= old(pool).sqrt_price_x64,
        !zero_for_one ==> final(pool).sqrt_price_x64 >= old(pool).sqrt_price_x64,
        zero_for_one && sqrt_price_limit_x64 != 0 && old(pool).sqrt_price_x64 >= sqrt_price_limit_x64
            ==> final(pool).sqrt_price_x64 >= sqrt_price_limit_x64,
        !zero_for_one && sqrt_price_limit_x64 != 0 && old(pool).sqrt_price_x64 <= sqrt_price_limit_x64
            ==> final(pool).sqrt_price_x64 <= sqrt_price_limit_x64,
        zero_for_one ==> final(pool).fee_growth_global_b == old(pool).fee_growth_global_b,
        !zero_for_one ==> final(pool).fee_growth_global_a == old(pool).fee_growth_global_a,
{
    if amount_specified <= 0 {
        return (0, 0);
    }
    let params = SwapParams {
        tick_spacing: pool.tick_spacing,
        fee_bps: config.fee_bps,
        protocol_fee_bps: config.protocol_fee_bps,
        zero_for_one,
        sqrt_price_limit_x64,
    };
    let mut s = SwapState {
        sqrt_price: pool.sqrt_price_x64,
        liquidity: pool.liquidity,
        tick: pool.current_tick,
        remaining: amount_specified,
        amount_out: 0,
        fee_growth_a: pool.fee_growth_global_a,
        fee_growth_b: pool.fee_growth_global_b,
        protocol_fee: 0,
        done: false,
    };
    let ghost s0 = s;
    let ghost m0 = ticks@;
    let mut iter: u32 = 0;
    while iter < MAX_SWAP_STEPS && !s.done
        invariant
            iter <= MAX_SWAP_STEPS,
            params == swap_params(*old(pool), *config, zero_for_one, sqrt_price_limit_x64),
            config.wf(),
            params.tick_spacing > 0,
            ticks.wf(),
            MIN_TICK - 1 <= s.tick <= MAX_TICK,
            0 <= s.remaining <= amount_specified,
            s.amount_out >= 0,
            zero_for_one ==> s.sqrt_price <= old(pool).sqrt_price_x64,
            !zero_for_one ==> s.sqrt_price >= old(pool).sqrt_price_x64,
            zero_for_one && sqrt_price_limit_x64 != 0 && old(pool).sqrt_price_x64 >= sqrt_price_limit_x64
                ==> s.sqrt_price >= sqrt_price_limit_x64,
            !zero_for_one && sqrt_price_limit_x64 != 0 && old(pool).sqrt_price_x64 <= sqrt_price_limit_x64
                ==> s.sqrt_price <= sqrt_price_limit_x64,
            zero_for_one ==> s.fee_growth_b == old(pool).fee_growth_global_b,
            !zero_for_one ==> s.fee_growth_a == old(pool).fee_growth_global_a,
            swap_loop(s, ticks@, params, (MAX_SWAP_STEPS - iter) as nat) == swap_loop(s0, m0, params, MAX_SWAP_STEPS as nat),
        decreases MAX_SWAP_STEPS - iter,
    {
        let ghost s_prev = s;
        let ghost m_prev = ticks@;
        s = engine_step(s, ticks, &params);
        proof {
            assert((s, ticks@) == swap_iteration(s_prev, m_prev, params));
        }
        iter = iter + 1;
    }
    pool.sqrt_price_x64 = s.sqrt_price;
    pool.current_tick = s.tick;
    pool.liquidity = s.liquidity;
    pool.fee_growth_global_a = s.fee_growth_a;
    pool.fee_growth_global_b = s.fee_growth_b;
    if zero_for_one {
        pool.protocol_fees_a = pool.protocol_fees_a.saturating_add(s.protocol_fee);
    } else {
        pool.protocol_fees_b = pool.protocol_fees_b.saturating_add(s.protocol_fee);
    }
    (amount_specified - s.remaining, s.amount_out)
}

/// One step of the swap loop (see `swap_iteration`).
fn engine_step(s: SwapState, ticks: &mut TickMap, params: &SwapParams) -> (r: SwapState)
    requires
        old(ticks).wf(),
        params.tick_spacing > 0,
        0 < params.fee_bps < BPS,
        params.protocol_fee_bps <= BPS,
        MIN_TICK - 1 <= s.tick <= MAX_TICK,
        s.remaining >= 0,
        s.amount_out >= 0,
    ensures
        (r, final(ticks)@) == swap_iteration(s, old(ticks)@, *params),
        final(ticks).wf(),
        MIN_TICK - 1 <= r.tick <= MAX_TICK,
        0 <= r.remaining <= s.remaining,
        r.amount_out >= 0,
        params.zero_for_one ==> r.sqrt_price <= s.sqrt_price,
        !params.zero_for_one ==> r.sqrt_price >= s.sqrt_price,
        params.zero_for_one && params.sqrt_price_limit_x64 != 0 && s.sqrt_price >= params.sqrt_price_limit_x64
            ==> r.sqrt_price >= params.sqrt_price_limit_x64,
        !params.zero_for_one && params.sqrt_price_limit_x64 != 0 && s.sqrt_price <= params.sqrt_price_limit_x64
            ==> r.sqrt_price <= params.sqrt_price_limit_x64,
        params.zero_for_one ==> r.fee_growth_b == s.fee_growth_b,
        !params.zero_for_one ==> r.fee_growth_a == s.fee_growth_a,
{
    let zero_for_one = params.zero_for_one;
    let next_tick: i32 = find_next_initialized_tick(ticks, s.tick, params.tick_spacing, zero_for_one);
    if s.remaining <= 0 || s.liquidity <= 0 || next_tick < MIN_TICK || next_tick > MAX_TICK {
        return SwapState { done: true, ..s };
    }
    let limit: u128 = if params.sqrt_price_limit_x64 != 0 {
        params.sqrt_price_limit_x64
    } else if zero_for_one {
        1
    } else {
        u128::MAX - 1
    };
    let tick_price: u128 = get_sqrt_ratio_at_tick(next_tick);
    let target: u128 = if zero_for_one {
        if tick_price < limit { limit } else { tick_price }
    } else {
        if tick_price > limit { limit } else { tick_price }
    };
    proof {
        lemma_available_bounds(s.remaining as int, params.fee_bps as int);
    }
    let available: i128 = mul_div_floor(s.remaining as u128, (BPS - params.fee_bps) as u128, BPS as u128) as i128;
    let (next_price, step_in, step_out) = if s.sqrt_price == target {
        (s.sqrt_price, 0i128, 0i128)
    } else {
        compute_swap_step_with_target(s.sqrt_price, s.liquidity, available, zero_for_one, target)
    };
    let amount_in: i128 = step_in;
    let fee: i128 = if amount_in == available {
        s.remaining - amount_in
    } else {
        proof {
            lemma_fee_fits(s.remaining as int, params.fee_bps as int, available as int, amount_in as int);
        }
        mul_div_floor(amount_in as u128, params.fee_bps as u128, (BPS - params.fee_bps) as u128) as i128 + 1
    };
    let remaining: i128 = s.remaining - (amount_in + fee);
    proof {
        lemma_scaled_le(fee as int, params.protocol_fee_bps as int, BPS as int);
    }
    let protocol: u128 = mul_div_floor(fee as u128, params.protocol_fee_bps as u128, BPS as u128);
    let growth: u128 = div_q64((fee as u128) - protocol, s.liquidity as u128);
    let fee_growth_a: u128 = if zero_for_one { s.fee_growth_a.wrapping_add(growth) } else { s.fee_growth_a };
    let fee_growth_b: u128 = if zero_for_one { s.fee_growth_b } else { s.fee_growth_b.wrapping_add(growth) };
    let moved = SwapState {
        remaining,
        amount_out: saturating_add_i128(s.amount_out, step_out),
        fee_growth_a,
        fee_growth_b,
        protocol_fee: s.protocol_fee.saturating_add(protocol),
        ..s
    };
    let reached: bool = next_price == target;
    let forward: bool = if zero_for_one { target <= s.sqrt_price } else { target >= s.sqrt_price };
    let at_limit: bool = params.sqrt_price_limit_x64 != 0 && target == params.sqrt_price_limit_x64;
    if reached && forward && !at_limit {
        let mut liquidity: i128 = s.liquidity;
        cross_tick(ticks, next_tick, &mut liquidity, fee_growth_a, fee_growth_b, zero_for_one);
        SwapState {
            sqrt_price: target,
            liquidity,
            tick: if zero_for_one { next_tick - 1 } else { next_tick },
            ..moved
        }
    } else if next_price != s.sqrt_price {
        let tick: i32 = match get_tick_at_sqrt_ratio(next_price) {
            Some(t) => t,
            None => s.tick,
        };
        SwapState { sqrt_price: next_price, tick, done: remaining <= 0, ..moved }
    } else {
        SwapState { done: true, ..moved }
    }
}

} // verus!
