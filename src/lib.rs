//! A concentrated-liquidity market maker: fixed-point tick and price math, a
//! sparse tick registry, fee-growth accounting and the swap engine, all over
//! plain values. Storage, custody and identities are left to the caller.
use vstd::prelude::*;

pub mod math;
pub mod tick;
pub mod position;
pub mod pool;
pub mod swap;

use crate::math::{
    amounts_for_liquidity, get_amounts_for_liquidity, get_liquidity_for_amounts, liquidity_for_amounts, get_sqrt_ratio_at_tick, lemma_snapped_fits,
    snap_tick_to_spacing, snapped, sqrt_price_at_tick, tick_in_domain, MAX_TICK, MIN_TICK,
};
use crate::pool::{fee_growth_inside, get_fee_growth_inside, PoolConfig, PoolError, PoolState, BPS};
use crate::position::{accrued, fee_share, modify_position, update_position_fees, Position};
use crate::swap::{engine_swap, pool_after_swap, swap_run};
use crate::tick::{
    records_in_use, sat_add_i128, saturating_add_i128, stored, tick_at, updated_tick, TickInfo,
    TickMap,
};

verus! {

/// The least liquidity a position may be opened or grown with.
pub const MIN_LIQUIDITY: i128 = 1000;

/// What a swap did.
#[derive(Clone, Copy, Debug, PartialEq, Eq, Structural)]
pub struct SwapResult {
    /// Input taken from the trader, fees included.
    pub amount_in: i128,
    /// Output paid to the trader.
    pub amount_out: i128,
    /// The pool's tick after the swap.
    pub current_tick: i32,
    /// The pool's price after the swap.
    pub sqrt_price_x64: u128,
}

/// A pool: its state, its fee parameters and its tick registry.
pub struct ClmmPool {
    pub state: PoolState,
    pub config: PoolConfig,
    pub ticks: TickMap,
}

/// The tick map after a position's liquidity on `[lower, upper)` changes by `delta`.
pub open spec fn ticks_after_bounds(
    m: Map<i32, TickInfo>,
    lower: i32,
    upper: i32,
    current_tick: i32,
    delta: i128,
    global_a: u128,
    global_b: u128,
) -> Map<i32, TickInfo> {
    let m1 = stored(m, lower, updated_tick(tick_at(m, lower), lower, current_tick, delta, global_a, global_b, false));
    stored(m1, upper, updated_tick(tick_at(m1, upper), upper, current_tick, delta, global_a, global_b, true))
}

/// Whether `[lower, upper)` holds the tick `current_tick`.
pub open spec fn in_range(lower: i32, upper: i32, current_tick: i32) -> bool {
    lower <= current_tick && current_tick < upper
}

/// The active liquidity after a change of `delta` on `[lower, upper)`: it moves
/// only when the range holds the current tick.
pub open spec fn active_after(state: PoolState, lower: i32, upper: i32, delta: i128) -> i128 {
    if in_range(lower, upper, state.current_tick) {
        sat_add_i128(state.liquidity, delta)
    } else {
        state.liquidity
    }
}

/// The refusal, if any, of adding `liquidity` on `[lower, upper)` (bounds
/// snapped to the spacing) with at most `max_a` and `max_b` deposited.
pub open spec fn add_liquidity_error(
    state: PoolState,
    lower: i32,
    upper: i32,
    liquidity: i128,
    max_a: i128,
    max_b: i128,
) -> Option<PoolError> {
    let lo = snapped(lower as int, state.tick_spacing as int);
    let up = snapped(upper as int, state.tick_spacing as int);
    if !tick_in_domain(lower as int) || !tick_in_domain(upper as int) || !tick_in_domain(lo) || !tick_in_domain(up) {
        Some(PoolError::TickOutOfRange)
    } else if lo >= up {
        Some(PoolError::InvalidRange)
    } else if liquidity < MIN_LIQUIDITY {
        Some(PoolError::LiquidityBelowFloor)
    } else {
        let amounts = amounts_for_liquidity(
            liquidity,
            sqrt_price_at_tick(lo),
            sqrt_price_at_tick(up),
            state.sqrt_price_x64,
        );
        if amounts.0 > max_a || amounts.1 > max_b {
            Some(PoolError::SlippageExceeded)
        } else {
            None
        }
    }
}

/// The liquidity that desired amounts back on `[lower, upper)` (bounds snapped)
/// at the current price.
pub open spec fn liquidity_for_desired(state: PoolState, lower: i32, upper: i32, desired_a: i128, desired_b: i128) -> i128 {
    let lo = snapped(lower as int, state.tick_spacing as int);
    let up = snapped(upper as int, state.tick_spacing as int);
    liquidity_for_amounts(state.sqrt_price_x64, sqrt_price_at_tick(lo), sqrt_price_at_tick(up), desired_a, desired_b)
}

/// The refusal, if any, of adding liquidity on `[lower, upper)` for desired
/// amounts, with at least `min_a` and `min_b` deposited.
pub open spec fn add_liquidity_for_amounts_error(
    state: PoolState,
    lower: i32,
    upper: i32,
    desired_a: i128,
    desired_b: i128,
    min_a: i128,
    min_b: i128,
) -> Option<PoolError> {
    let lo = snapped(lower as int, state.tick_spacing as int);
    let up = snapped(upper as int, state.tick_spacing as int);
    if !tick_in_domain(lower as int) || !tick_in_domain(upper as int) || !tick_in_domain(lo) || !tick_in_domain(up) {
        Some(PoolError::TickOutOfRange)
    } else if lo >= up {
        Some(PoolError::InvalidRange)
    } else {
        let liquidity = liquidity_for_desired(state, lower, upper, desired_a, desired_b);
        match add_liquidity_error(state, lo as i32, up as i32, liquidity, desired_a, desired_b) {
            Some(e) => Some(e),
            None => {
                let amounts = amounts_for_liquidity(liquidity, sqrt_price_at_tick(lo), sqrt_price_at_tick(up), state.sqrt_price_x64);
                if amounts.0 < min_a || amounts.1 < min_b {
                    Some(PoolError::SlippageExceeded)
                } else {
                    None
                }
            },
        }
    }
}

/// The refusal, if any, of removing `liquidity` from `pos` on `[lower, upper)`.
pub open spec fn remove_liquidity_error(pos: Position, lower: i32, upper: i32, liquidity: i128) -> Option<PoolError> {
    if !tick_in_domain(lower as int) || !tick_in_domain(upper as int) {
        Some(PoolError::TickOutOfRange)
    } else if lower >= upper {
        Some(PoolError::InvalidRange)
    } else if liquidity <= 0 {
        Some(PoolError::ZeroAmount)
    } else if pos.liquidity < liquidity {
        Some(PoolError::InsufficientLiquidity)
    } else {
        None
    }
}

/// The refusal, if any, of a swap before it runs.
pub open spec fn swap_error(state: PoolState, amount: i128, zero_for_one: bool, limit: u128) -> Option<PoolError> {
    if amount <= 0 {
        Some(PoolError::ZeroAmount)
    } else if state.liquidity <= 0 {
        Some(PoolError::NoLiquidity)
    } else if limit != 0 && (if zero_for_one { limit >= state.sqrt_price_x64 } else { limit <= state.sqrt_price_x64 }) {
        Some(PoolError::PriceLimitExceeded)
    } else {
        None
    }
}

/// The outcome of a swap that passed its checks: the result, the new pool state
/// and the new tick map. A run that takes no input or pays no output changes nothing.
pub open spec fn swap_outcome(
    state: PoolState,
    config: PoolConfig,
    ticks: Map<i32, TickInfo>,
    amount: i128,
    zero_for_one: bool,
    limit: u128,
) -> (SwapResult, PoolState, Map<i32, TickInfo>) {
    let (s, m) = swap_run(state, config, ticks, amount, zero_for_one, limit);
    let amount_in = amount - s.remaining;
    if amount_in <= 0 || s.amount_out <= 0 {
        (
            SwapResult { amount_in: 0, amount_out: 0, current_tick: state.current_tick, sqrt_price_x64: state.sqrt_price_x64 },
            state,
            ticks,
        )
    } else {
        (
            SwapResult { amount_in: amount_in as i128, amount_out: s.amount_out, current_tick: s.tick, sqrt_price_x64: s.sqrt_price },
            pool_after_swap(state, s, zero_for_one),
            m,
        )
    }
}

/// A position's owed fees moved out up to what the pool holds: the amount paid
/// is the smaller of the owed fee and the available balance.
pub open spec fn payout(owed: u128, available: u128) -> u128 {
    if owed <= available { owed } else { available }
}

/// Liquidity added for two ranges, with no swap in between, leaves the same tick
/// map in either order; so the fee growth inside every range is the same
/// whichever position was opened first. Asks that the tick sums stay in range.
pub proof fn lemma_adds_commute(
    m: Map<i32, TickInfo>,
    current_tick: i32,
    global_a: u128,
    global_b: u128,
    lower1: i32,
    upper1: i32,
    delta1: i128,
    lower2: i32,
    upper2: i32,
    delta2: i128,
    lower: i32,
    upper: i32,
)
    requires
        records_in_use(m),
        lower1 < upper1,
        lower2 < upper2,
        delta1 > 0,
        delta2 > 0,
        forall|t: i32| #[trigger] m.contains_key(t) ==> {
            &&& m[t].liquidity_gross + delta1 + delta2 <= i128::MAX
            &&& i128::MIN + delta1 + delta2 <= m[t].liquidity_net <= i128::MAX - delta1 - delta2
        },
    ensures
        ({
            let one_first = ticks_after_bounds(
                ticks_after_bounds(m, lower1, upper1, current_tick, delta1, global_a, global_b),
                lower2, upper2, current_tick, delta2, global_a, global_b,
            );
            let two_first = ticks_after_bounds(
                ticks_after_bounds(m, lower2, upper2, current_tick, delta2, global_a, global_b),
                lower1, upper1, current_tick, delta1, global_a, global_b,
            );
            &&& one_first == two_first
            &&& fee_growth_inside(one_first, lower, upper, current_tick, global_a, global_b)
                == fee_growth_inside(two_first, lower, upper, current_tick, global_a, global_b)
        }),
{
    let one_first = ticks_after_bounds(
        ticks_after_bounds(m, lower1, upper1, current_tick, delta1, global_a, global_b),
        lower2, upper2, current_tick, delta2, global_a, global_b,
    );
    let two_first = ticks_after_bounds(
        ticks_after_bounds(m, lower2, upper2, current_tick, delta2, global_a, global_b),
        lower1, upper1, current_tick, delta1, global_a, global_b,
    );
    assert(one_first =~= two_first);
}

/// Two liquidity changes of any sign (additions or removals), with no swap in
/// between, leave the same tick map in either order while every bound tick they
/// touch stays in use throughout; so the fee growth inside every range is the
/// same whichever change came first. Asks that the tick sums stay in range.
pub proof fn lemma_changes_commute_in_use(
    m: Map<i32, TickInfo>,
    current_tick: i32,
    global_a: u128,
    global_b: u128,
    lower1: i32,
    upper1: i32,
    delta1: i128,
    lower2: i32,
    upper2: i32,
    delta2: i128,
    lower: i32,
    upper: i32,
)
    requires
        records_in_use(m),
        lower1 < upper1,
        lower2 < upper2,
        forall|t: i32| (t == lower1 || t == upper1 || t == lower2 || t == upper2) ==> #[trigger] m.contains_key(t),
        forall|t: i32| #[trigger] m.contains_key(t) ==> {
            &&& m[t].liquidity_gross + (if delta1 < 0 { delta1 as int } else { 0 }) + (if delta2 < 0 { delta2 as int } else { 0 }) > 0
            &&& m[t].liquidity_gross + (if delta1 > 0 { delta1 as int } else { 0 }) + (if delta2 > 0 { delta2 as int } else { 0 }) <= i128::MAX
            &&& i128::MIN + (if delta1 >= 0 { delta1 as int } else { -delta1 }) + (if delta2 >= 0 { delta2 as int } else { -delta2 }) <= m[t].liquidity_net
            &&& m[t].liquidity_net <= i128::MAX - (if delta1 >= 0 { delta1 as int } else { -delta1 }) - (if delta2 >= 0 { delta2 as int } else { -delta2 })
        },
    ensures
        ({
            let one_first = ticks_after_bounds(
                ticks_after_bounds(m, lower1, upper1, current_tick, delta1, global_a, global_b),
                lower2, upper2, current_tick, delta2, global_a, global_b,
            );
            let two_first = ticks_after_bounds(
                ticks_after_bounds(m, lower2, upper2, current_tick, delta2, global_a, global_b),
                lower1, upper1, current_tick, delta1, global_a, global_b,
            );
            &&& one_first == two_first
            &&& fee_growth_inside(one_first, lower, upper, current_tick, global_a, global_b)
                == fee_growth_inside(two_first, lower, upper, current_tick, global_a, global_b)
        }),
{
    assert(m.contains_key(lower1) && m.contains_key(upper1) && m.contains_key(lower2) && m.contains_key(upper2));
    let one_first = ticks_after_bounds(
        ticks_after_bounds(m, lower1, upper1, current_tick, delta1, global_a, global_b),
        lower2, upper2, current_tick, delta2, global_a, global_b,
    );
    let two_first = ticks_after_bounds(
        ticks_after_bounds(m, lower2, upper2, current_tick, delta2, global_a, global_b),
        lower1, upper1, current_tick, delta1, global_a, global_b,
    );
    assert(one_first =~= two_first);
}

/// Adding liquidity to a position and at once removing the same liquidity on the
/// same (snapped) range is accepted, pays back exactly the amounts deposited,
/// and accrues no fees: the fee growth inside the range is the same at both
/// calls, so the removal leaves the owed fees as the addition left them.
pub proof fn lemma_add_then_remove(
    state: PoolState,
    ticks: Map<i32, TickInfo>,
    pos: Position,
    lower: i32,
    upper: i32,
    liquidity: i128,
    max_a: i128,
    max_b: i128,
)
    requires
        state.wf(),
        pos.wf(),
        add_liquidity_error(state, lower, upper, liquidity, max_a, max_b) is None,
    ensures
        ({
            let lo = snapped(lower as int, state.tick_spacing as int) as i32;
            let up = snapped(upper as int, state.tick_spacing as int) as i32;
            let ga = state.fee_growth_global_a;
            let gb = state.fee_growth_global_b;
            let m = ticks_after_bounds(ticks, lo, up, state.current_tick, liquidity, ga, gb);
            let inside = fee_growth_inside(m, lo, up, state.current_tick, ga, gb);
            let added = Position { liquidity: sat_add_i128(pos.liquidity, liquidity), ..accrued(pos, inside.0, inside.1) };
            let after_add = PoolState { liquidity: active_after(state, lo, up, liquidity), ..state };
            let inside_again = fee_growth_inside(m, lo, up, after_add.current_tick, after_add.fee_growth_global_a, after_add.fee_growth_global_b);
            let deposit = amounts_for_liquidity(liquidity, sqrt_price_at_tick(lo as int), sqrt_price_at_tick(up as int), state.sqrt_price_x64);
            &&& remove_liquidity_error(added, lo, up, liquidity) is None
            &&& inside_again == inside
            &&& accrued(added, inside_again.0, inside_again.1) == added
            &&& amounts_for_liquidity(liquidity, sqrt_price_at_tick(lo as int), sqrt_price_at_tick(up as int), after_add.sqrt_price_x64) == deposit
        }),
{
    let lo = snapped(lower as int, state.tick_spacing as int) as i32;
    let up = snapped(upper as int, state.tick_spacing as int) as i32;
    let ga = state.fee_growth_global_a;
    let gb = state.fee_growth_global_b;
    let m = ticks_after_bounds(ticks, lo, up, state.current_tick, liquidity, ga, gb);
    let inside = fee_growth_inside(m, lo, up, state.current_tick, ga, gb);
    let added = Position { liquidity: sat_add_i128(pos.liquidity, liquidity), ..accrued(pos, inside.0, inside.1) };
    assert(fee_share(added.liquidity, 0) == 0);
}

impl ClmmPool {
    /// State, parameters and ticks are each well formed.
    pub open spec fn wf(&self) -> bool {
        self.state.wf() && self.config.wf() && self.ticks.wf()
    }

    /// Opens a pool at `current_tick` snapped down to `tick_spacing`, priced at
    /// that tick so that tick and price agree (a supplied `sqrt_price_x64` is not
    /// used), with no liquidity and zero fee growth.
    pub fn initialize(
        fee_bps: u32,
        protocol_fee_bps: u32,
        sqrt_price_x64: u128,
        current_tick: i32,
        tick_spacing: i32,
    ) -> (r: Result<ClmmPool, PoolError>)
        ensures
            tick_spacing <= 0 ==> r == Err::<ClmmPool, PoolError>(PoolError::InvalidSpacing),
            tick_spacing > 0 && !(0 < fee_bps < BPS && protocol_fee_bps <= BPS)
                ==> r == Err::<ClmmPool, PoolError>(PoolError::InvalidFee),
            tick_spacing > 0 && 0 < fee_bps < BPS && protocol_fee_bps <= BPS && (!tick_in_domain(current_tick as int)
                || !tick_in_domain(snapped(current_tick as int, tick_spacing as int)))
                ==> r == Err::<ClmmPool, PoolError>(PoolError::TickOutOfRange),
            r is Ok <==> (tick_spacing > 0 && 0 < fee_bps < BPS && protocol_fee_bps <= BPS
                && tick_in_domain(current_tick as int) && tick_in_domain(snapped(current_tick as int, tick_spacing as int))),
            r matches Ok(p) ==> {
                let t = snapped(current_tick as int, tick_spacing as int);
                &&& p.wf()
                &&& p.state == (PoolState {
                    sqrt_price_x64: sqrt_price_at_tick(t),
                    current_tick: t as i32,
                    liquidity: 0,
                    tick_spacing,
                    fee_growth_global_a: 0,
                    fee_growth_global_b: 0,
                    protocol_fees_a: 0,
                    protocol_fees_b: 0,
                })
                &&& p.config == (PoolConfig { fee_bps, protocol_fee_bps })
                &&& p.ticks@ == Map::<i32, TickInfo>::empty()
            },
    {
        if tick_spacing <= 0 {
            return Err(PoolError::InvalidSpacing);
        }
        if fee_bps == 0 || fee_bps >= BPS || protocol_fee_bps > BPS {
            return Err(PoolError::InvalidFee);
        }
        if current_tick < MIN_TICK || current_tick > MAX_TICK {
            return Err(PoolError::TickOutOfRange);
        }
        proof {
            lemma_snapped_fits(current_tick as int, tick_spacing as int);
        }
        let tick: i32 = snap_tick_to_spacing(current_tick, tick_spacing);
        if tick < MIN_TICK {
            return Err(PoolError::TickOutOfRange);
        }
        let state = PoolState {
            sqrt_price_x64: get_sqrt_ratio_at_tick(tick),
            current_tick: tick,
            liquidity: 0,
            tick_spacing,
            fee_growth_global_a: 0,
            fee_growth_global_b: 0,
            protocol_fees_a: 0,
            protocol_fees_b: 0,
        };
        Ok(ClmmPool { state, config: PoolConfig { fee_bps, protocol_fee_bps }, ticks: TickMap::new() })
    }

    pub fn get_pool_state(&self) -> (r: PoolState)
        ensures
            r == self.state,
    {
        self.state
    }

    pub fn get_pool_config(&self) -> (r: PoolConfig)
        ensures
            r == self.config,
    {
        self.config
    }

    /// The record of `tick`; an unused tick reads as the empty record.
    pub fn get_tick_info(&self, tick: i32) -> (r: TickInfo)
        ensures
            r == tick_at(self.ticks@, tick),
    {
        self.ticks.get(tick)
    }

    /// Adds to `pos` over `[lower, upper)` (bounds snapped to the spacing) the
    /// liquidity that `desired_a` and `desired_b` can back at the current price:
    /// each asset's implied liquidity, the smaller one while the price is inside
    /// the range. Returns that liquidity and the amounts it is worth, which the
    /// caller deposits; they never exceed the desired amounts, and the addition
    /// is refused when they fall below `min_a` or `min_b`.
    pub fn add_liquidity(
        &mut self,
        pos: &mut Position,
        lower: i32,
        upper: i32,
        desired_a: i128,
        desired_b: i128,
        min_a: i128,
        min_b: i128,
    ) -> (r: Result<(i128, i128, i128), PoolError>)
        requires
            old(self).wf(),
            old(pos).wf(),
        ensures
            final(self).wf(),
            final(pos).wf(),
            final(self).config == old(self).config,
            ({
                let err = add_liquidity_for_amounts_error(old(self).state, lower, upper, desired_a, desired_b, min_a, min_b);
                let st = old(self).state;
                let lo = snapped(lower as int, st.tick_spacing as int) as i32;
                let up = snapped(upper as int, st.tick_spacing as int) as i32;
                let liquidity = liquidity_for_desired(st, lower, upper, desired_a, desired_b);
                let m = ticks_after_bounds(old(self).ticks@, lo, up, st.current_tick, liquidity, st.fee_growth_global_a, st.fee_growth_global_b);
                let inside = fee_growth_inside(m, lo, up, st.current_tick, st.fee_growth_global_a, st.fee_growth_global_b);
                let amounts = amounts_for_liquidity(liquidity, sqrt_price_at_tick(lo as int), sqrt_price_at_tick(up as int), st.sqrt_price_x64);
                match err {
                    Some(e) => {
                        &&& r == Err::<(i128, i128, i128), PoolError>(e)
                        &&& final(self).state == st
                        &&& final(self).ticks@ == old(self).ticks@
                        &&& *final(pos) == *old(pos)
                    },
                    None => {
                        &&& r == Ok::<(i128, i128, i128), PoolError>((liquidity, amounts.0, amounts.1))
                        &&& min_a <= amounts.0 <= desired_a
                        &&& min_b <= amounts.1 <= desired_b
                        &&& final(self).ticks@ == m
                        &&& final(self).state == (PoolState { liquidity: active_after(st, lo, up, liquidity), ..st })
                        &&& *final(pos) == (Position { liquidity: sat_add_i128(old(pos).liquidity, liquidity), ..accrued(*old(pos), inside.0, inside.1) })
                    },
                }
            }),
    {
        if lower < MIN_TICK || lower > MAX_TICK || upper < MIN_TICK || upper > MAX_TICK {
            return Err(PoolError::TickOutOfRange);
        }
        let spacing: i32 = self.state.tick_spacing;
        proof {
            lemma_snapped_fits(lower as int, spacing as int);
            lemma_snapped_fits(upper as int, spacing as int);
        }
        let lo: i32 = snap_tick_to_spacing(lower, spacing);
        let up: i32 = snap_tick_to_spacing(upper, spacing);
        if lo < MIN_TICK || up < MIN_TICK {
            return Err(PoolError::TickOutOfRange);
        }
        if lo >= up {
            return Err(PoolError::InvalidRange);
        }
        let sqrt_lo: u128 = get_sqrt_ratio_at_tick(lo);
        let sqrt_up: u128 = get_sqrt_ratio_at_tick(up);
        let liquidity: i128 = get_liquidity_for_amounts(self.state.sqrt_price_x64, sqrt_lo, sqrt_up, desired_a, desired_b);
        if liquidity < MIN_LIQUIDITY {
            return Err(PoolError::LiquidityBelowFloor);
        }
        let amounts = get_amounts_for_liquidity(liquidity, sqrt_lo, sqrt_up, self.state.sqrt_price_x64);
        if amounts.0 > desired_a || amounts.1 > desired_b || amounts.0 < min_a || amounts.1 < min_b {
            return Err(PoolError::SlippageExceeded);
        }
        proof {
            assert(snapped(lo as int, spacing as int) == lo as int);
            assert(snapped(up as int, spacing as int) == up as int);
        }
        match self.mint_liquidity(pos, lo, up, liquidity, desired_a, desired_b) {
            Ok(paid) => Ok((liquidity, paid.0, paid.1)),
            Err(e) => Err(e),
        }
    }

    /// Adds `liquidity` to `pos` over `[lower, upper)`, both bounds first snapped
    /// down to the spacing. The bound ticks are registered before the fee growth
    /// inside the range is read, the position accrues its fees at its old
    /// liquidity, and active liquidity grows only when the range holds the
    /// current tick. Returns the asset amounts the liquidity is worth at the
    /// current price, which the caller deposits; refused when either exceeds
    /// `max_a` or `max_b`.
    pub fn mint_liquidity(
        &mut self,
        pos: &mut Position,
        lower: i32,
        upper: i32,
        liquidity: i128,
        max_a: i128,
        max_b: i128,
    ) -> (r: Result<(i128, i128), PoolError>)
        requires
            old(self).wf(),
            old(pos).wf(),
        ensures
            final(self).wf(),
            final(pos).wf(),
            final(self).config == old(self).config,
            ({
                let err = add_liquidity_error(old(self).state, lower, upper, liquidity, max_a, max_b);
                let st = old(self).state;
                let lo = snapped(lower as int, st.tick_spacing as int) as i32;
                let up = snapped(upper as int, st.tick_spacing as int) as i32;
                let m = ticks_after_bounds(old(self).ticks@, lo, up, st.current_tick, liquidity, st.fee_growth_global_a, st.fee_growth_global_b);
                let inside = fee_growth_inside(m, lo, up, st.current_tick, st.fee_growth_global_a, st.fee_growth_global_b);
                match err {
                    Some(e) => {
                        &&& r == Err::<(i128, i128), PoolError>(e)
                        &&& final(self).state == st
                        &&& final(self).ticks@ == old(self).ticks@
                        &&& *final(pos) == *old(pos)
                    },
                    None => {
                        &&& r == Ok::<(i128, i128), PoolError>(amounts_for_liquidity(liquidity, sqrt_price_at_tick(lo as int), sqrt_price_at_tick(up as int), st.sqrt_price_x64))
                        &&& final(self).ticks@ == m
                        &&& final(self).state == (PoolState { liquidity: active_after(st, lo, up, liquidity), ..st })
                        &&& *final(pos) == (Position { liquidity: sat_add_i128(old(pos).liquidity, liquidity), ..accrued(*old(pos), inside.0, inside.1) })
                    },
                }
            }),
    {
        if lower < MIN_TICK || lower > MAX_TICK || upper < MIN_TICK || upper > MAX_TICK {
            return Err(PoolError::TickOutOfRange);
        }
        let spacing: i32 = self.state.tick_spacing;
        proof {
            lemma_snapped_fits(lower as int, spacing as int);
            lemma_snapped_fits(upper as int, spacing as int);
        }
        let lo: i32 = snap_tick_to_spacing(lower, spacing);
        let up: i32 = snap_tick_to_spacing(upper, spacing);
        if lo < MIN_TICK || up < MIN_TICK {
            return Err(PoolError::TickOutOfRange);
        }
        if lo >= up {
            return Err(PoolError::InvalidRange);
        }
        if liquidity < MIN_LIQUIDITY {
            return Err(PoolError::LiquidityBelowFloor);
        }
        let amounts = get_amounts_for_liquidity(
            liquidity,
            get_sqrt_ratio_at_tick(lo),
            get_sqrt_ratio_at_tick(up),
            self.state.sqrt_price_x64,
        );
        if amounts.0 > max_a || amounts.1 > max_b {
            return Err(PoolError::SlippageExceeded);
        }
        let current: i32 = self.state.current_tick;
        let ga: u128 = self.state.fee_growth_global_a;
        let gb: u128 = self.state.fee_growth_global_b;
        self.ticks.update(lo, current, liquidity, ga, gb, false);
        self.ticks.update(up, current, liquidity, ga, gb, true);
        let (inside_a, inside_b) = get_fee_growth_inside(&self.ticks, lo, up, current, ga, gb);
        let _ = modify_position(pos, liquidity, inside_a, inside_b);
        if lo <= current && current < up {
            self.state.liquidity = saturating_add_i128(self.state.liquidity, liquidity);
        }
        Ok(amounts)
    }

    /// Removes `liquidity` from `pos` over `[lower, upper)`: the position accrues
    /// its fees first, the bound ticks and (when the range holds the current tick)
    /// the active liquidity shrink, and the amounts the liquidity is worth at the
    /// current price are returned for the caller to pay out.
    pub fn remove_liquidity(
        &mut self,
        pos: &mut Position,
        lower: i32,
        upper: i32,
        liquidity: i128,
    ) -> (r: Result<(i128, i128), PoolError>)
        requires
            old(self).wf(),
            old(pos).wf(),
        ensures
            final(self).wf(),
            final(pos).wf(),
            final(self).config == old(self).config,
            ({
                let err = remove_liquidity_error(*old(pos), lower, upper, liquidity);
                let st = old(self).state;
                let inside = fee_growth_inside(old(self).ticks@, lower, upper, st.current_tick, st.fee_growth_global_a, st.fee_growth_global_b);
                match err {
                    Some(e) => {
                        &&& r == Err::<(i128, i128), PoolError>(e)
                        &&& final(self).state == st
                        &&& final(self).ticks@ == old(self).ticks@
                        &&& *final(pos) == *old(pos)
                    },
                    None => {
                        &&& r == Ok::<(i128, i128), PoolError>(amounts_for_liquidity(liquidity, sqrt_price_at_tick(lower as int), sqrt_price_at_tick(upper as int), st.sqrt_price_x64))
                        &&& final(self).ticks@ == ticks_after_bounds(old(self).ticks@, lower, upper, st.current_tick, -liquidity as i128, st.fee_growth_global_a, st.fee_growth_global_b)
                        &&& final(self).state == (PoolState { liquidity: active_after(st, lower, upper, -liquidity as i128), ..st })
                        &&& *final(pos) == (Position { liquidity: (old(pos).liquidity - liquidity) as i128, ..accrued(*old(pos), inside.0, inside.1) })
                    },
                }
            }),
    {
        if lower < MIN_TICK || lower > MAX_TICK || upper < MIN_TICK || upper > MAX_TICK {
            return Err(PoolError::TickOutOfRange);
        }
        if lower >= upper {
            return Err(PoolError::InvalidRange);
        }
        if liquidity <= 0 {
            return Err(PoolError::ZeroAmount);
        }
        if pos.liquidity < liquidity {
            return Err(PoolError::InsufficientLiquidity);
        }
        let current: i32 = self.state.current_tick;
        let ga: u128 = self.state.fee_growth_global_a;
        let gb: u128 = self.state.fee_growth_global_b;
        let (inside_a, inside_b) = get_fee_growth_inside(&self.ticks, lower, upper, current, ga, gb);
        let delta: i128 = -liquidity;
        let _ = modify_position(pos, delta, inside_a, inside_b);
        self.ticks.update(lower, current, delta, ga, gb, false);
        self.ticks.update(upper, current, delta, ga, gb, true);
        if lower <= current && current < upper {
            self.state.liquidity = saturating_add_i128(self.state.liquidity, delta);
        }
        Ok(get_amounts_for_liquidity(
            liquidity,
            get_sqrt_ratio_at_tick(lower),
            get_sqrt_ratio_at_tick(upper),
            self.state.sqrt_price_x64,
        ))
    }

    /// Accrues `pos`'s fees on `[lower, upper)` and pays them out, each capped at
    /// what the pool holds of that asset (`available_a`, `available_b`); what
    /// the cap holds back stays owed. Returns the amounts paid.
    pub fn collect(
        &self,
        pos: &mut Position,
        lower: i32,
        upper: i32,
        available_a: u128,
        available_b: u128,
    ) -> (r: (u128, u128))
        ensures
            ({
                let st = self.state;
                let inside = fee_growth_inside(self.ticks@, lower, upper, st.current_tick, st.fee_growth_global_a, st.fee_growth_global_b);
                let acc = accrued(*old(pos), inside.0, inside.1);
                &&& r == (payout(acc.tokens_owed_a, available_a), payout(acc.tokens_owed_b, available_b))
                &&& *final(pos) == (Position {
                    tokens_owed_a: (acc.tokens_owed_a - r.0) as u128,
                    tokens_owed_b: (acc.tokens_owed_b - r.1) as u128,
                    ..acc
                })
            }),
    {
        let st = self.state;
        let (inside_a, inside_b) = get_fee_growth_inside(
            &self.ticks,
            lower,
            upper,
            st.current_tick,
            st.fee_growth_global_a,
            st.fee_growth_global_b,
        );
        update_position_fees(pos, inside_a, inside_b);
        let amount_a: u128 = if pos.tokens_owed_a <= available_a { pos.tokens_owed_a } else { available_a };
        let amount_b: u128 = if pos.tokens_owed_b <= available_b { pos.tokens_owed_b } else { available_b };
        pos.tokens_owed_a = pos.tokens_owed_a - amount_a;
        pos.tokens_owed_b = pos.tokens_owed_b - amount_b;
        (amount_a, amount_b)
    }

    /// Runs the swap loop on copies of the state and ticks.
    fn run_swap(&self, amount_specified: i128, zero_for_one: bool, sqrt_price_limit_x64: u128) -> (r: (
        Result<SwapResult, PoolError>,
        PoolState,
        TickMap,
    ))
        requires
            self.wf(),
        ensures
            r.2.wf(),
            r.1.wf(),
            zero_for_one ==> r.1.sqrt_price_x64 <= self.state.sqrt_price_x64,
            !zero_for_one ==> r.1.sqrt_price_x64 >= self.state.sqrt_price_x64,
            sqrt_price_limit_x64 != 0 && zero_for_one ==> r.1.sqrt_price_x64 >= sqrt_price_limit_x64
                || r.1.sqrt_price_x64 == self.state.sqrt_price_x64,
            sqrt_price_limit_x64 != 0 && !zero_for_one ==> r.1.sqrt_price_x64 <= sqrt_price_limit_x64
                || r.1.sqrt_price_x64 == self.state.sqrt_price_x64,
            zero_for_one ==> r.1.fee_growth_global_b == self.state.fee_growth_global_b,
            !zero_for_one ==> r.1.fee_growth_global_a == self.state.fee_growth_global_a,
            match swap_error(self.state, amount_specified, zero_for_one, sqrt_price_limit_x64) {
                Some(e) => r.0 == Err::<SwapResult, PoolError>(e) && r.1 == self.state && r.2@ == self.ticks@,
                None => {
                    let o = swap_outcome(self.state, self.config, self.ticks@, amount_specified, zero_for_one, sqrt_price_limit_x64);
                    r.0 == Ok::<SwapResult, PoolError>(o.0) && r.1 == o.1 && r.2@ == o.2
                },
            },
    {
        let mut state: PoolState = self.state;
        let mut ticks: TickMap = self.ticks.clone_map();
        if amount_specified <= 0 {
            return (Err(PoolError::ZeroAmount), state, ticks);
        }
        if state.liquidity <= 0 {
            return (Err(PoolError::NoLiquidity), state, ticks);
        }
        if sqrt_price_limit_x64 != 0 && (if zero_for_one {
            sqrt_price_limit_x64 >= state.sqrt_price_x64
        } else {
            sqrt_price_limit_x64 <= state.sqrt_price_x64
        }) {
            return (Err(PoolError::PriceLimitExceeded), state, ticks);
        }
        let (amount_in, amount_out) = engine_swap(
            &mut state,
            &mut ticks,
            &self.config,
            amount_specified,
            zero_for_one,
            sqrt_price_limit_x64,
        );
        if amount_in <= 0 || amount_out <= 0 {
            let unchanged = SwapResult {
                amount_in: 0,
                amount_out: 0,
                current_tick: self.state.current_tick,
                sqrt_price_x64: self.state.sqrt_price_x64,
            };
            return (Ok(unchanged), self.state, self.ticks.clone_map());
        }
        let result = SwapResult {
            amount_in,
            amount_out,
            current_tick: state.current_tick,
            sqrt_price_x64: state.sqrt_price_x64,
        };
        (Ok(result), state, ticks)
    }

    /// Swaps `amount_specified` of asset 0 for asset 1 (`zero_for_one`) or the
    /// reverse, stopping at `sqrt_price_limit_x64` when it is not zero. Refused
    /// without a change when the amount is not positive, the pool has no active
    /// liquidity, or the limit is not beyond the current price in the trade
    /// direction. A run that takes no input or pays no output changes nothing
    /// and reports zero amounts.
    pub fn swap(&mut self, amount_specified: i128, zero_for_one: bool, sqrt_price_limit_x64: u128) -> (r: Result<SwapResult, PoolError>)
        requires
            old(self).wf(),
        ensures
            final(self).wf(),
            final(self).config == old(self).config,
            zero_for_one ==> final(self).state.sqrt_price_x64 <= old(self).state.sqrt_price_x64,
            !zero_for_one ==> final(self).state.sqrt_price_x64 >= old(self).state.sqrt_price_x64,
            sqrt_price_limit_x64 != 0 && zero_for_one ==> final(self).state.sqrt_price_x64 >= sqrt_price_limit_x64
                || final(self).state.sqrt_price_x64 == old(self).state.sqrt_price_x64,
            sqrt_price_limit_x64 != 0 && !zero_for_one ==> final(self).state.sqrt_price_x64 <= sqrt_price_limit_x64
                || final(self).state.sqrt_price_x64 == old(self).state.sqrt_price_x64,
            zero_for_one ==> final(self).state.fee_growth_global_b == old(self).state.fee_growth_global_b,
            !zero_for_one ==> final(self).state.fee_growth_global_a == old(self).state.fee_growth_global_a,
            match swap_error(old(self).state, amount_specified, zero_for_one, sqrt_price_limit_x64) {
                Some(e) => {
                    &&& r == Err::<SwapResult, PoolError>(e)
                    &&& final(self).state == old(self).state
                    &&& final(self).ticks@ == old(self).ticks@
                },
                None => {
                    let o = swap_outcome(old(self).state, old(self).config, old(self).ticks@, amount_specified, zero_for_one, sqrt_price_limit_x64);
                    &&& r == Ok::<SwapResult, PoolError>(o.0)
                    &&& final(self).state == o.1
                    &&& final(self).ticks@ == o.2
                },
            },
    {
        let (result, state, ticks) = self.run_swap(amount_specified, zero_for_one, sqrt_price_limit_x64);
        self.state = state;
        self.ticks = ticks;
        result
    }

    /// The result `swap` would give, computed by the same loop, with nothing changed.
    pub fn quote_swap(&self, amount_specified: i128, zero_for_one: bool, sqrt_price_limit_x64: u128) -> (r: Result<SwapResult, PoolError>)
        requires
            self.wf(),
        ensures
            match swap_error(self.state, amount_specified, zero_for_one, sqrt_price_limit_x64) {
                Some(e) => r == Err::<SwapResult, PoolError>(e),
                None => r == Ok::<SwapResult, PoolError>(
                    swap_outcome(self.state, self.config, self.ticks@, amount_specified, zero_for_one, sqrt_price_limit_x64).0,
                ),
            },
    {
        let (result, _state, _ticks) = self.run_swap(amount_specified, zero_for_one, sqrt_price_limit_x64);
        result
    }

    /// What `pos` on `[lower, upper)` is worth now: the asset amounts its
    /// liquidity holds at the current price, and its owed fees including those
    /// accrued since its checkpoint.
    pub fn get_position_value(&self, pos: &Position, lower: i32, upper: i32) -> (r: (i128, i128, u128, u128))
        requires
            pos.liquidity > 0 ==> tick_in_domain(lower as int) && tick_in_domain(upper as int),
        ensures
            ({
                let st = self.state;
                let inside = fee_growth_inside(self.ticks@, lower, upper, st.current_tick, st.fee_growth_global_a, st.fee_growth_global_b);
                let acc = accrued(*pos, inside.0, inside.1);
                let amounts = amounts_for_liquidity(pos.liquidity, sqrt_price_at_tick(lower as int), sqrt_price_at_tick(upper as int), st.sqrt_price_x64);
                r == (amounts.0, amounts.1, acc.tokens_owed_a, acc.tokens_owed_b)
            }),
    {
        let st = self.state;
        let amounts: (i128, i128) = if pos.liquidity <= 0 {
            (0, 0)
        } else {
            get_amounts_for_liquidity(
                pos.liquidity,
                get_sqrt_ratio_at_tick(lower),
                get_sqrt_ratio_at_tick(upper),
                st.sqrt_price_x64,
            )
        };
        let (inside_a, inside_b) = get_fee_growth_inside(
            &self.ticks,
            lower,
            upper,
            st.current_tick,
            st.fee_growth_global_a,
            st.fee_growth_global_b,
        );
        let mut acc: Position = *pos;
        update_position_fees(&mut acc, inside_a, inside_b);
        (amounts.0, amounts.1, acc.tokens_owed_a, acc.tokens_owed_b)
    }
}

} // verus!
