use vstd::prelude::*;
use std::collections::BTreeMap;

use crate::math::{lemma_snapped_fits, snap_tick_to_spacing, snapped, tick_in_domain, MIN_TICK, MAX_TICK};

verus! {

broadcast use vstd::laws_cmp::group_laws_cmp;

/// Subtraction modulo 2^128, the arithmetic of fee-growth counters.
pub open spec fn wrap_sub(x: u128, y: u128) -> u128 {
    if x >= y {
        (x - y) as u128
    } else {
        (x - y + 0x1_0000_0000_0000_0000_0000_0000_0000_0000) as u128
    }
}

/// Addition modulo 2^128, the arithmetic of fee-growth counters.
pub open spec fn wrap_add(x: u128, y: u128) -> u128 {
    if x + y <= u128::MAX {
        (x + y) as u128
    } else {
        (x + y - 0x1_0000_0000_0000_0000_0000_0000_0000_0000) as u128
    }
}

/// `x + y` for `i128`, saturated at both ends.
pub open spec fn sat_add_i128(x: i128, y: i128) -> i128 {
    if x + y > i128::MAX {
        i128::MAX
    } else if x + y < i128::MIN {
        i128::MIN
    } else {
        (x + y) as i128
    }
}

/// `x - y` for `i128`, saturated at both ends.
pub open spec fn sat_sub_i128(x: i128, y: i128) -> i128 {
    if x - y > i128::MAX {
        i128::MAX
    } else if x - y < i128::MIN {
        i128::MIN
    } else {
        (x - y) as i128
    }
}

pub fn saturating_add_i128(x: i128, y: i128) -> (r: i128)
    ensures
        r == sat_add_i128(x, y),
{
    if y >= 0 {
        if x > i128::MAX - y { i128::MAX } else { x + y }
    } else {
        if x < i128::MIN - y { i128::MIN } else { x + y }
    }
}

pub fn saturating_sub_i128(x: i128, y: i128) -> (r: i128)
    ensures
        r == sat_sub_i128(x, y),
{
    if y >= 0 {
        if x < i128::MIN + y { i128::MIN } else { x - y }
    } else {
        if x > i128::MAX + y { i128::MAX } else { x - y }
    }
}

/// The record of one tick boundary.
#[derive(Clone, Copy, Debug, PartialEq, Eq, Structural)]
pub struct TickInfo {
    /// Liquidity of all positions that use this tick as a bound.
    pub liquidity_gross: i128,
    /// Liquidity added to the active total when price crosses this tick upward.
    pub liquidity_net: i128,
    /// Fee growth of asset A on the side of this tick away from the price.
    pub fee_growth_outside_a: u128,
    /// Fee growth of asset B on the side of this tick away from the price.
    pub fee_growth_outside_b: u128,
}

/// The record that an absent tick reads as.
pub open spec fn empty_tick() -> TickInfo {
    TickInfo { liquidity_gross: 0, liquidity_net: 0, fee_growth_outside_a: 0, fee_growth_outside_b: 0 }
}

impl TickInfo {
    pub fn empty() -> (r: TickInfo)
        ensures
            r == empty_tick(),
    {
        TickInfo { liquidity_gross: 0, liquidity_net: 0, fee_growth_outside_a: 0, fee_growth_outside_b: 0 }
    }
}

/// The record of `tick` in `m`, or the empty record.
pub open spec fn tick_at(m: Map<i32, TickInfo>, tick: i32) -> TickInfo {
    if m.contains_key(tick) {
        m[tick]
    } else {
        empty_tick()
    }
}

/// `m` after writing `info` at `tick`: a record without gross liquidity is cleared.
pub open spec fn stored(m: Map<i32, TickInfo>, tick: i32, info: TickInfo) -> Map<i32, TickInfo> {
    if info.liquidity_gross <= 0 {
        m.remove(tick)
    } else {
        m.insert(tick, info)
    }
}

/// Whether `tick` holds a record with positive gross liquidity.
pub open spec fn is_initialized(m: Map<i32, TickInfo>, tick: i32) -> bool {
    m.contains_key(tick) && m[tick].liquidity_gross > 0
}

/// A record with each fee-growth-outside value inverted against the globals.
pub open spec fn flipped(info: TickInfo, global_a: u128, global_b: u128) -> TickInfo {
    TickInfo {
        fee_growth_outside_a: wrap_sub(global_a, info.fee_growth_outside_a),
        fee_growth_outside_b: wrap_sub(global_b, info.fee_growth_outside_b),
        ..info
    }
}

/// `m` after price crosses `tick`.
pub open spec fn crossed(m: Map<i32, TickInfo>, tick: i32, global_a: u128, global_b: u128) -> Map<i32, TickInfo> {
    stored(m, tick, flipped(tick_at(m, tick), global_a, global_b))
}

/// Active liquidity after crossing a tick with net liquidity `net`: subtracted
/// when moving down, added when moving up.
pub open spec fn liquidity_after_cross(liquidity: i128, net: i128, zero_for_one: bool) -> i128 {
    if zero_for_one {
        sat_sub_i128(liquidity, net)
    } else {
        sat_add_i128(liquidity, net)
    }
}

/// `tick + step`, saturated to the `i32` range.
pub open spec fn step_tick(tick: i32, step: i32) -> i32 {
    if tick + step > i32::MAX {
        i32::MAX
    } else if tick + step < i32::MIN {
        i32::MIN
    } else {
        (tick + step) as i32
    }
}

/// The first initialized tick among the next `n` steps from `tick`.
pub open spec fn scan_ticks(m: Map<i32, TickInfo>, tick: i32, step: i32, n: nat) -> Option<i32>
    decreases n,
{
    if n == 0 {
        None
    } else {
        let t = step_tick(tick, step);
        if is_initialized(m, t) {
            Some(t)
        } else {
            scan_ticks(m, t, step, (n - 1) as nat)
        }
    }
}

/// How many spacing steps the search for the next initialized tick walks at most.
pub const MAX_TICK_SCAN: u32 = 2000;

/// The next initialized tick from `current` in the trade direction: downward
/// (the snapped tick itself included) when asset 0 goes in, upward otherwise;
/// `current` itself when none lies within the scan bound.
pub open spec fn next_initialized_tick(m: Map<i32, TickInfo>, current: i32, spacing: i32, zero_for_one: bool) -> i32 {
    let start = snapped(current as int, spacing as int) as i32;
    let step: int = if zero_for_one { -spacing } else { spacing as int };
    if zero_for_one && is_initialized(m, start) {
        start
    } else {
        match scan_ticks(m, start, step as i32, MAX_TICK_SCAN as nat) {
            Some(t) => t,
            None => current,
        }
    }
}

/// Every stored record carries gross liquidity.
pub open spec fn records_in_use(m: Map<i32, TickInfo>) -> bool {
    forall|t: i32| #[trigger] m.contains_key(t) ==> m[t].liquidity_gross > 0
}

/// Crossing a tick twice with the same global fee growth, once in each
/// direction, gives back the tick map as it was: each fee-growth-outside value
/// is inverted and inverted back.
pub proof fn lemma_cross_twice(m: Map<i32, TickInfo>, tick: i32, global_a: u128, global_b: u128)
    requires
        records_in_use(m),
    ensures
        crossed(crossed(m, tick, global_a, global_b), tick, global_a, global_b) == m,
{
    let once = crossed(m, tick, global_a, global_b);
    if m.contains_key(tick) {
        assert(flipped(flipped(m[tick], global_a, global_b), global_a, global_b) == m[tick]);
        assert(once.insert(tick, m[tick]) =~= m);
    } else {
        assert(once =~= m);
        assert(m.remove(tick) =~= m);
    }
}

/// Crossing a tick and crossing it back moves the active liquidity by its net
/// liquidity and back, when neither move saturates.
pub proof fn lemma_cross_back_liquidity(liquidity: i128, net: i128, zero_for_one: bool)
    requires
        i128::MIN <= liquidity - net <= i128::MAX,
        i128::MIN <= liquidity + net <= i128::MAX,
    ensures
        liquidity_after_cross(liquidity_after_cross(liquidity, net, zero_for_one), net, !zero_for_one) == liquidity,
{
}

/// The sparse tick registry: a record per tick index that some position uses.
pub struct TickMap {
    map: BTreeMap<i32, TickInfo>,
}

impl View for TickMap {
    type V = Map<i32, TickInfo>;

    closed spec fn view(&self) -> Map<i32, TickInfo> {
        self.map@
    }
}

impl TickMap {
    /// Every stored tick lies in the price domain and carries gross liquidity.
    pub open spec fn wf(&self) -> bool {
        forall|t: i32| #[trigger] self@.contains_key(t) ==> tick_in_domain(t as int) && self@[t].liquidity_gross > 0
    }

    pub fn new() -> (r: TickMap)
        ensures
            r@ == Map::<i32, TickInfo>::empty(),
            r.wf(),
    {
        TickMap { map: BTreeMap::new() }
    }

    pub fn clone_map(&self) -> (r: TickMap)
        ensures
            r@ == self@,
    {
        TickMap { map: self.map.clone() }
    }

    /// The record of `tick`; an absent tick reads as the empty record.
    pub fn get(&self, tick: i32) -> (r: TickInfo)
        ensures
            r == tick_at(self@, tick),
    {
        match self.map.get(&tick) {
            Some(info) => *info,
            None => TickInfo::empty(),
        }
    }

    /// Writes the record of `tick`, clearing it when no gross liquidity is left.
    pub fn set(&mut self, tick: i32, info: TickInfo)
        ensures
            final(self)@ == stored(old(self)@, tick, info),
    {
        if info.liquidity_gross <= 0 {
            self.map.remove(&tick);
        } else {
            self.map.insert(tick, info);
        }
    }

    /// Whether `tick` holds a record with positive gross liquidity.
    pub fn is_initialized(&self, tick: i32) -> (r: bool)
        ensures
            r == is_initialized(self@, tick),
    {
        match self.map.get(&tick) {
            Some(info) => info.liquidity_gross > 0,
            None => false,
        }
    }
}

/// A tick record after a position bound on it changes by `delta`: gross liquidity
/// moves by `delta`, net liquidity moves up by it for a lower bound and down by it
/// for an upper bound, and a record coming into use seeds its fee-growth-outside
/// values with the globals when the price is at or above the tick, else with zero.
pub open spec fn updated_tick(
    info: TickInfo,
    tick: i32,
    current_tick: i32,
    delta: i128,
    global_a: u128,
    global_b: u128,
    upper: bool,
) -> TickInfo {
    let fresh = info.liquidity_gross <= 0;
    let below = current_tick >= tick;
    TickInfo {
        liquidity_gross: sat_add_i128(if fresh { 0 } else { info.liquidity_gross }, delta),
        liquidity_net: if upper {
            sat_sub_i128(info.liquidity_net, delta)
        } else {
            sat_add_i128(info.liquidity_net, delta)
        },
        fee_growth_outside_a: if fresh { if below { global_a } else { 0 } } else { info.fee_growth_outside_a },
        fee_growth_outside_b: if fresh { if below { global_b } else { 0 } } else { info.fee_growth_outside_b },
    }
}

impl TickMap {
    /// Applies a liquidity change of `delta` to the record of `tick` (see
    /// `updated_tick`); returns whether the tick went in or out of use.
    pub fn update(
        &mut self,
        tick: i32,
        current_tick: i32,
        delta: i128,
        fee_growth_global_a: u128,
        fee_growth_global_b: u128,
        upper: bool,
    ) -> (r: bool)
        requires
            old(self).wf(),
            tick_in_domain(tick as int),
        ensures
            final(self).wf(),
            final(self)@ == stored(
                old(self)@,
                tick,
                updated_tick(
                    tick_at(old(self)@, tick),
                    tick,
                    current_tick,
                    delta,
                    fee_growth_global_a,
                    fee_growth_global_b,
                    upper,
                ),
            ),
            r == (is_initialized(old(self)@, tick) != is_initialized(final(self)@, tick)),
    {
        let info: TickInfo = self.get(tick);
        let fresh: bool = info.liquidity_gross <= 0;
        let below: bool = current_tick >= tick;
        let gross_before: i128 = if fresh { 0 } else { info.liquidity_gross };
        let next = TickInfo {
            liquidity_gross: saturating_add_i128(gross_before, delta),
            liquidity_net: if upper {
                saturating_sub_i128(info.liquidity_net, delta)
            } else {
                saturating_add_i128(info.liquidity_net, delta)
            },
            fee_growth_outside_a: if fresh {
                if below { fee_growth_global_a } else { 0 }
            } else {
                info.fee_growth_outside_a
            },
            fee_growth_outside_b: if fresh {
                if below { fee_growth_global_b } else { 0 }
            } else {
                info.fee_growth_outside_b
            },
        };
        let was: bool = !fresh;
        self.set(tick, next);
        was != (next.liquidity_gross > 0)
    }
}

fn saturating_step(tick: i32, step: i32) -> (r: i32)
    ensures
        r == step_tick(tick, step),
{
    let s: i64 = tick as i64 + step as i64;
    if s > i32::MAX as i64 {
        i32::MAX
    } else if s < i32::MIN as i64 {
        i32::MIN
    } else {
        s as i32
    }
}

/// Walks spacing-aligned ticks from `current_tick` in the trade direction and
/// returns the first initialized one, or `current_tick` when the scan bound is
/// reached first.
pub fn find_next_initialized_tick(ticks: &TickMap, current_tick: i32, tick_spacing: i32, zero_for_one: bool) -> (r: i32)
    requires
        tick_spacing > 0,
        MIN_TICK - 1 <= current_tick <= MAX_TICK,
    ensures
        r == next_initialized_tick(ticks@, current_tick, tick_spacing, zero_for_one),
{
    let step: i32 = if zero_for_one { -tick_spacing } else { tick_spacing };
    proof {
        lemma_snapped_fits(current_tick as int, tick_spacing as int);
    }
    let start: i32 = snap_tick_to_spacing(current_tick, tick_spacing);
    if zero_for_one && ticks.is_initialized(start) {
        return start;
    }
    let mut tick: i32 = start;
    let mut k: u32 = 0;
    while k < MAX_TICK_SCAN
        invariant
            k <= MAX_TICK_SCAN,
            start == snapped(current_tick as int, tick_spacing as int) as i32,
            step == (if zero_for_one { -tick_spacing } else { tick_spacing as int }) as i32,
            !(zero_for_one && is_initialized(ticks@, start)),
            scan_ticks(ticks@, tick, step, (MAX_TICK_SCAN - k) as nat) == scan_ticks(
                ticks@,
                start,
                step,
                MAX_TICK_SCAN as nat,
            ),
        decreases MAX_TICK_SCAN - k,
    {
        let prev: i32 = tick;
        tick = saturating_step(prev, step);
        if ticks.is_initialized(tick) {
            assert(scan_ticks(ticks@, prev, step, (MAX_TICK_SCAN - k) as nat) == Some(tick));
            return tick;
        }
        k = k + 1;
    }
    current_tick
}

/// Crosses `tick`: inverts its fee-growth-outside values against the globals and
/// moves the active liquidity by its net liquidity.
pub fn cross_tick(
    ticks: &mut TickMap,
    tick: i32,
    liquidity: &mut i128,
    fee_growth_global_a: u128,
    fee_growth_global_b: u128,
    zero_for_one: bool,
)
    ensures
        old(ticks).wf() ==> final(ticks).wf(),
        final(ticks)@ == crossed(old(ticks)@, tick, fee_growth_global_a, fee_growth_global_b),
        *final(liquidity) == liquidity_after_cross(*old(liquidity), tick_at(old(ticks)@, tick).liquidity_net, zero_for_one),
{
    let mut info: TickInfo = ticks.get(tick);
    if zero_for_one {
        *liquidity = saturating_sub_i128(*liquidity, info.liquidity_net);
    } else {
        *liquidity = saturating_add_i128(*liquidity, info.liquidity_net);
    }
    info.fee_growth_outside_a = fee_growth_global_a.wrapping_sub(info.fee_growth_outside_a);
    info.fee_growth_outside_b = fee_growth_global_b.wrapping_sub(info.fee_growth_outside_b);
    ticks.set(tick, info);
}

} // verus!
