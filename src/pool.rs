use vstd::prelude::*;

use crate::math::{tick_in_domain, MIN_TICK, MAX_TICK};
use crate::tick::{tick_at, wrap_sub, TickMap};

verus! {

/// Fee rates are in basis points of this whole.
pub const BPS: u32 = 10000;

/// The dynamic state of a pool.
#[derive(Clone, Copy, Debug, PartialEq, Eq, Structural)]
pub struct PoolState {
    /// Square root of the price of asset A in asset B, 64.64 fixed point.
    pub sqrt_price_x64: u128,
    /// The tick whose price interval holds the price.
    pub current_tick: i32,
    /// Liquidity of the positions whose range holds the current tick.
    pub liquidity: i128,
    /// Distance between usable ticks.
    pub tick_spacing: i32,
    /// Fee growth per unit of liquidity of asset A, 64.64, modulo 2^128.
    pub fee_growth_global_a: u128,
    /// Fee growth per unit of liquidity of asset B, 64.64, modulo 2^128.
    pub fee_growth_global_b: u128,
    /// Protocol share of the fees paid in asset A.
    pub protocol_fees_a: u128,
    /// Protocol share of the fees paid in asset B.
    pub protocol_fees_b: u128,
}

/// The fixed parameters of a pool.
#[derive(Clone, Copy, Debug, PartialEq, Eq, Structural)]
pub struct PoolConfig {
    /// Swap fee in basis points of the input.
    pub fee_bps: u32,
    /// Share of the swap fee, in basis points, kept for the protocol.
    pub protocol_fee_bps: u32,
}

/// Why an operation was refused; a refused operation changes nothing.
#[derive(Clone, Copy, Debug, PartialEq, Eq, Structural)]
pub enum PoolError {
    /// The tick spacing is not positive.
    InvalidSpacing,
    /// The swap fee is not in `1..10000` or the protocol share exceeds 10000.
    InvalidFee,
    /// A tick lies outside the price domain.
    TickOutOfRange,
    /// The lower tick of a range is not below its upper tick.
    InvalidRange,
    /// The liquidity is below the minimum a position may hold.
    LiquidityBelowFloor,
    /// The deposit would exceed the most the caller allowed.
    SlippageExceeded,
    /// The position holds less liquidity than asked for.
    InsufficientLiquidity,
    /// An amount to swap or to remove is not positive.
    ZeroAmount,
    /// The pool has no active liquidity to trade against.
    NoLiquidity,
    /// The price limit lies on the wrong side of the current price.
    PriceLimitExceeded,
}

impl PoolConfig {
    /// The fee rates are within bounds.
    pub open spec fn wf(&self) -> bool {
        0 < self.fee_bps < BPS && self.protocol_fee_bps <= BPS
    }
}

impl PoolState {
    /// The spacing is positive and the current tick lies in the domain, or one
    /// below it after a crossing of its lowest tick.
    pub open spec fn wf(&self) -> bool {
        self.tick_spacing > 0 && MIN_TICK - 1 <= self.current_tick <= MAX_TICK
    }
}

/// Fee growth per unit of liquidity inside `[lower, upper)`: the global value
/// less the growth below the lower tick and above the upper tick, where each
/// tick's outside value counts as "below" ("above") when the price is on the
/// other side of it, and as the complement against the global value otherwise.
pub open spec fn growth_inside(
    global: u128,
    lower_outside: u128,
    upper_outside: u128,
    lower: i32,
    upper: i32,
    current_tick: i32,
) -> u128 {
    let below = if current_tick >= lower { lower_outside } else { wrap_sub(global, lower_outside) };
    let above = if current_tick < upper { upper_outside } else { wrap_sub(global, upper_outside) };
    wrap_sub(wrap_sub(global, below), above)
}

/// Fee growth of both assets inside `[lower, upper)` given the tick records.
pub open spec fn fee_growth_inside(
    ticks: Map<i32, crate::tick::TickInfo>,
    lower: i32,
    upper: i32,
    current_tick: i32,
    global_a: u128,
    global_b: u128,
) -> (u128, u128) {
    (
        growth_inside(
            global_a,
            tick_at(ticks, lower).fee_growth_outside_a,
            tick_at(ticks, upper).fee_growth_outside_a,
            lower,
            upper,
            current_tick,
        ),
        growth_inside(
            global_b,
            tick_at(ticks, lower).fee_growth_outside_b,
            tick_at(ticks, upper).fee_growth_outside_b,
            lower,
            upper,
            current_tick,
        ),
    )
}

pub fn get_fee_growth_inside(
    ticks: &TickMap,
    lower: i32,
    upper: i32,
    current_tick: i32,
    fee_growth_global_a: u128,
    fee_growth_global_b: u128,
) -> (r: (u128, u128))
    ensures
        r == fee_growth_inside(ticks@, lower, upper, current_tick, fee_growth_global_a, fee_growth_global_b),
{
    let lo = ticks.get(lower);
    let up = ticks.get(upper);
    let (below_a, below_b) = if current_tick >= lower {
        (lo.fee_growth_outside_a, lo.fee_growth_outside_b)
    } else {
        (
            fee_growth_global_a.wrapping_sub(lo.fee_growth_outside_a),
            fee_growth_global_b.wrapping_sub(lo.fee_growth_outside_b),
        )
    };
    let (above_a, above_b) = if current_tick < upper {
        (up.fee_growth_outside_a, up.fee_growth_outside_b)
    } else {
        (
            fee_growth_global_a.wrapping_sub(up.fee_growth_outside_a),
            fee_growth_global_b.wrapping_sub(up.fee_growth_outside_b),
        )
    };
    let inside_a = fee_growth_global_a.wrapping_sub(below_a).wrapping_sub(above_a);
    let inside_b = fee_growth_global_b.wrapping_sub(below_b).wrapping_sub(above_b);
    (inside_a, inside_b)
}

} // verus!
