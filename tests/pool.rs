use clmm_pool::math::{get_sqrt_ratio_at_tick, ONE_X64};
use clmm_pool::pool::PoolError;
use clmm_pool::position::Position;
use clmm_pool::tick::TickInfo;
use clmm_pool::{ClmmPool, SwapResult};

fn pool_at_zero() -> ClmmPool {
    ClmmPool::initialize(30, 0, 0, 0, 60).unwrap()
}

fn pool_with_liquidity() -> (ClmmPool, Position) {
    let mut pool = pool_at_zero();
    let mut pos = Position::empty();
    let deposit = pool.mint_liquidity(&mut pos, -600, 600, 1_000_000, i128::MAX, i128::MAX);
    assert_eq!(deposit, Ok((29552, 29553)));
    (pool, pos)
}

#[test]
fn initialize_rejects_bad_parameters() {
    assert_eq!(ClmmPool::initialize(30, 0, 0, 0, 0).err(), Some(PoolError::InvalidSpacing));
    assert_eq!(ClmmPool::initialize(30, 0, 0, 0, -5).err(), Some(PoolError::InvalidSpacing));
    assert_eq!(ClmmPool::initialize(0, 0, 0, 0, 60).err(), Some(PoolError::InvalidFee));
    assert_eq!(ClmmPool::initialize(10000, 0, 0, 0, 60).err(), Some(PoolError::InvalidFee));
    assert_eq!(ClmmPool::initialize(30, 10001, 0, 0, 60).err(), Some(PoolError::InvalidFee));
    assert_eq!(ClmmPool::initialize(30, 0, 0, 900_000, 60).err(), Some(PoolError::TickOutOfRange));
    assert_eq!(ClmmPool::initialize(30, 0, 0, -887272, 60).err(), Some(PoolError::TickOutOfRange));
}

#[test]
fn initialize_snaps_the_tick_and_prices_it() {
    let pool = ClmmPool::initialize(30, 500, 12345, 7, 5).unwrap();
    let state = pool.get_pool_state();
    assert_eq!(state.current_tick, 5);
    assert_eq!(state.sqrt_price_x64, get_sqrt_ratio_at_tick(5));
    assert_eq!(state.liquidity, 0);
    assert_eq!(state.tick_spacing, 5);
    assert_eq!(state.fee_growth_global_a, 0);
    let config = pool.get_pool_config();
    assert_eq!(config.fee_bps, 30);
    assert_eq!(config.protocol_fee_bps, 500);
    assert_eq!(pool.get_tick_info(5), TickInfo::empty());
    assert_eq!(pool_at_zero().get_pool_state().sqrt_price_x64, ONE_X64);
}

#[test]
fn add_liquidity_in_range_registers_ticks_and_activates() {
    let (pool, pos) = pool_with_liquidity();
    assert_eq!(pool.get_pool_state().liquidity, 1_000_000);
    let lo = pool.get_tick_info(-600);
    assert_eq!((lo.liquidity_gross, lo.liquidity_net), (1_000_000, 1_000_000));
    let up = pool.get_tick_info(600);
    assert_eq!((up.liquidity_gross, up.liquidity_net), (1_000_000, -1_000_000));
    assert_eq!(pos.liquidity, 1_000_000);
}

#[test]
fn add_liquidity_out_of_range_leaves_active_liquidity() {
    let mut pool = pool_at_zero();
    let mut pos = Position::empty();
    let r = pool.mint_liquidity(&mut pos, 600, 1200, 1_000_000, i128::MAX, i128::MAX);
    let r = r.unwrap();
    assert!(r.0 > 0);
    assert_eq!(r.1, 0);
    assert_eq!(pool.get_pool_state().liquidity, 0);
    assert_eq!(pool.get_tick_info(600).liquidity_net, 1_000_000);
}

#[test]
fn add_liquidity_snaps_bounds_to_spacing() {
    let mut pool = pool_at_zero();
    let mut pos = Position::empty();
    assert!(pool.mint_liquidity(&mut pos, -599, 659, 5000, i128::MAX, i128::MAX).is_ok());
    assert_eq!(pool.get_tick_info(-600).liquidity_gross, 5000);
    assert_eq!(pool.get_tick_info(600).liquidity_gross, 5000);
}

#[test]
fn add_liquidity_refusals_change_nothing() {
    let mut pool = pool_at_zero();
    let mut pos = Position::empty();
    assert_eq!(pool.mint_liquidity(&mut pos, 600, -600, 5000, i128::MAX, i128::MAX), Err(PoolError::InvalidRange));
    assert_eq!(pool.mint_liquidity(&mut pos, 10, 50, 5000, i128::MAX, i128::MAX), Err(PoolError::InvalidRange));
    assert_eq!(pool.mint_liquidity(&mut pos, -900_000, 60, 5000, i128::MAX, i128::MAX), Err(PoolError::TickOutOfRange));
    assert_eq!(pool.mint_liquidity(&mut pos, -600, 600, 999, i128::MAX, i128::MAX), Err(PoolError::LiquidityBelowFloor));
    assert_eq!(pool.mint_liquidity(&mut pos, -600, 600, 1_000_000, 29551, i128::MAX), Err(PoolError::SlippageExceeded));
    assert_eq!(pool.mint_liquidity(&mut pos, -600, 600, 1_000_000, i128::MAX, 0), Err(PoolError::SlippageExceeded));
    assert_eq!(pos, Position::empty());
    assert_eq!(pool.get_pool_state().liquidity, 0);
    assert_eq!(pool.get_tick_info(-600), TickInfo::empty());
}

#[test]
fn add_then_remove_returns_the_deposit_without_fees() {
    let (mut pool, mut pos) = pool_with_liquidity();
    let back = pool.remove_liquidity(&mut pos, -600, 600, 1_000_000);
    assert_eq!(back, Ok((29552, 29553)));
    assert_eq!(pos.tokens_owed_a, 0);
    assert_eq!(pos.tokens_owed_b, 0);
    assert!(pos.is_clear());
    assert_eq!(pool.get_pool_state().liquidity, 0);
    assert_eq!(pool.get_tick_info(-600), TickInfo::empty());
    assert_eq!(pool.get_tick_info(600), TickInfo::empty());
}

#[test]
fn remove_liquidity_refusals() {
    let (mut pool, mut pos) = pool_with_liquidity();
    assert_eq!(pool.remove_liquidity(&mut pos, -600, 600, 1_000_001), Err(PoolError::InsufficientLiquidity));
    assert_eq!(pool.remove_liquidity(&mut pos, -600, 600, 0), Err(PoolError::ZeroAmount));
    assert_eq!(pool.remove_liquidity(&mut pos, 600, -600, 10), Err(PoolError::InvalidRange));
    assert_eq!(pool.remove_liquidity(&mut pos, -600, 900_000, 10), Err(PoolError::TickOutOfRange));
    assert_eq!(pos.liquidity, 1_000_000);
    assert_eq!(pool.get_pool_state().liquidity, 1_000_000);
}

#[test]
fn swap_refusals_change_nothing() {
    let mut empty = pool_at_zero();
    assert_eq!(empty.swap(1000, true, 0), Err(PoolError::NoLiquidity));
    let (mut pool, _pos) = pool_with_liquidity();
    let before = pool.get_pool_state();
    assert_eq!(pool.swap(0, true, 0), Err(PoolError::ZeroAmount));
    assert_eq!(pool.swap(-5, false, 0), Err(PoolError::ZeroAmount));
    assert_eq!(pool.swap(1000, true, ONE_X64), Err(PoolError::PriceLimitExceeded));
    assert_eq!(pool.swap(1000, false, ONE_X64 - 1), Err(PoolError::PriceLimitExceeded));
    assert_eq!(pool.get_pool_state(), before);
}

#[test]
fn swap_asset_zero_in_scenario() {
    let (mut pool, _pos) = pool_with_liquidity();
    let r = pool.swap(1000, true, 0).unwrap();
    assert!(r.amount_out < 997);
    assert!(r.amount_out > 0);
    assert_eq!(r.amount_out, 996);
    assert_eq!(r.amount_in, 1000);
    let state = pool.get_pool_state();
    assert!(state.current_tick < 0);
    assert!(state.current_tick > -60);
    assert_eq!(state.current_tick, -20);
    assert_eq!(r.current_tick, -20);
    assert_eq!(state.sqrt_price_x64, 18428370987834680439);
    assert_eq!(state.liquidity, 1_000_000);
    assert_eq!(state.fee_growth_global_a, 55340232221128);
    assert_eq!(state.fee_growth_global_b, 0);
}

#[test]
fn swap_asset_one_in_moves_price_up() {
    let (mut pool, _pos) = pool_with_liquidity();
    let r = pool.swap(1000, false, 0).unwrap();
    assert_eq!(r.amount_in, 1000);
    assert_eq!(r.amount_out, 997);
    assert_eq!(r.sqrt_price_x64, 18465135477551040038);
    assert_eq!(r.current_tick, 19);
    assert_eq!(pool.get_pool_state().fee_growth_global_b, 55340232221128);
}

#[test]
fn swap_crosses_the_lower_tick_and_stops_without_liquidity() {
    let (mut pool, _pos) = pool_with_liquidity();
    let r = pool.swap(1_000_000, true, 0).unwrap();
    assert_eq!(r, SwapResult { amount_in: 30544, amount_out: 29553, current_tick: -601, sqrt_price_x64: 17901587245415622640 });
    let state = pool.get_pool_state();
    assert_eq!(state.liquidity, 0);
    assert_eq!(state.fee_growth_global_a, 1697100454781278);
    assert_eq!(pool.get_tick_info(-600).fee_growth_outside_a, 1697100454781278);
}

#[test]
fn swap_crosses_the_upper_tick() {
    let (mut pool, _pos) = pool_with_liquidity();
    let r = pool.swap(1_000_000, false, 0).unwrap();
    assert_eq!(r, SwapResult { amount_in: 30544, amount_out: 29554, current_tick: 600, sqrt_price_x64: 19008502556558531547 });
    assert_eq!(pool.get_pool_state().liquidity, 0);
}

#[test]
fn swap_stops_at_price_limit() {
    let (mut pool, _pos) = pool_with_liquidity();
    let limit = get_sqrt_ratio_at_tick(-300);
    let r = pool.swap(1_000_000, true, limit).unwrap();
    assert_eq!(r, SwapResult { amount_in: 15159, amount_out: 14887, current_tick: -300, sqrt_price_x64: limit });
    assert_eq!(pool.get_pool_state().liquidity, 1_000_000);
}

#[test]
fn quote_matches_swap_and_changes_nothing() {
    let (mut pool, _pos) = pool_with_liquidity();
    let before = pool.get_pool_state();
    let quote = pool.quote_swap(1_000_000, true, 0);
    assert_eq!(pool.get_pool_state(), before);
    assert_eq!(pool.quote_swap(0, true, 0), Err(PoolError::ZeroAmount));
    let done = pool.swap(1_000_000, true, 0);
    assert_eq!(quote, done);
}

#[test]
fn protocol_share_is_kept_out_of_fee_growth() {
    let mut pool = ClmmPool::initialize(30, 5000, 0, 0, 60).unwrap();
    let mut pos = Position::empty();
    pool.mint_liquidity(&mut pos, -600, 600, 1_000_000, i128::MAX, i128::MAX).unwrap();
    pool.swap(1000, true, 0).unwrap();
    let state = pool.get_pool_state();
    assert_eq!(state.protocol_fees_a, 1);
    assert_eq!(state.protocol_fees_b, 0);
    assert_eq!(state.fee_growth_global_a, 36893488147419);
}

#[test]
fn earlier_position_earns_more_fees() {
    let (mut pool, mut early) = pool_with_liquidity();
    pool.swap(1000, true, 0).unwrap();
    let mut late = Position::empty();
    pool.mint_liquidity(&mut late, -600, 600, 1_000_000, i128::MAX, i128::MAX).unwrap();
    let early_value = pool.get_position_value(&early, -600, 600);
    let late_value = pool.get_position_value(&late, -600, 600);
    assert_eq!(early_value.2, 2);
    assert_eq!(late_value.2, 0);
    assert!(early_value.2 > late_value.2);
    assert_eq!(pool.collect(&mut early, -600, 600, u128::MAX, u128::MAX), (2, 0));
    assert_eq!(pool.collect(&mut late, -600, 600, u128::MAX, u128::MAX), (0, 0));
}

#[test]
fn position_value_after_swap() {
    let (mut pool, pos) = pool_with_liquidity();
    pool.swap(1000, true, 0).unwrap();
    assert_eq!(pool.get_position_value(&pos, -600, 600), (30549, 28557, 2, 0));
    assert_eq!(pool.get_position_value(&Position::empty(), -600, 600), (0, 0, 0, 0));
}

#[test]
fn collect_is_capped_by_the_pool_balance() {
    let (mut pool, mut pos) = pool_with_liquidity();
    pool.swap(1000, true, 0).unwrap();
    assert_eq!(pool.collect(&mut pos, -600, 600, 1, 0), (1, 0));
    assert_eq!(pos.tokens_owed_a, 1);
    assert_eq!(pool.collect(&mut pos, -600, 600, 100, 100), (1, 0));
    assert_eq!(pos.tokens_owed_a, 0);
}

#[test]
fn owed_fees_survive_full_removal() {
    let (mut pool, mut pos) = pool_with_liquidity();
    pool.swap(1000, true, 0).unwrap();
    assert!(pool.remove_liquidity(&mut pos, -600, 600, 1_000_000).is_ok());
    assert_eq!(pos.liquidity, 0);
    assert_eq!(pos.tokens_owed_a, 2);
    assert!(!pos.is_clear());
}

fn two_positions(a_first: bool) -> (ClmmPool, Position, Position) {
    let mut pool = pool_at_zero();
    let mut a = Position::empty();
    let mut b = Position::empty();
    if a_first {
        pool.mint_liquidity(&mut a, -600, 600, 1_000_000, i128::MAX, i128::MAX).unwrap();
        pool.mint_liquidity(&mut b, -120, 1200, 500_000, i128::MAX, i128::MAX).unwrap();
    } else {
        pool.mint_liquidity(&mut b, -120, 1200, 500_000, i128::MAX, i128::MAX).unwrap();
        pool.mint_liquidity(&mut a, -600, 600, 1_000_000, i128::MAX, i128::MAX).unwrap();
    }
    (pool, a, b)
}

#[test]
fn fees_do_not_depend_on_the_order_positions_were_opened() {
    let (mut x, mut xa, mut xb) = two_positions(true);
    let (mut y, mut ya, mut yb) = two_positions(false);
    for (amount, zero_for_one) in [(20_000, true), (60_000, false), (5_000, true)] {
        let rx = x.swap(amount, zero_for_one, 0);
        let ry = y.swap(amount, zero_for_one, 0);
        assert_eq!(rx, ry);
        assert!(rx.unwrap().amount_out > 0);
    }
    assert_eq!(x.get_pool_state(), y.get_pool_state());
    for t in [-600, -120, 600, 1200] {
        assert_eq!(x.get_tick_info(t), y.get_tick_info(t));
    }
    let fees_xa = x.collect(&mut xa, -600, 600, u128::MAX, u128::MAX);
    let fees_ya = y.collect(&mut ya, -600, 600, u128::MAX, u128::MAX);
    let fees_xb = x.collect(&mut xb, -120, 1200, u128::MAX, u128::MAX);
    let fees_yb = y.collect(&mut yb, -120, 1200, u128::MAX, u128::MAX);
    assert_eq!(fees_xa, fees_ya);
    assert_eq!(fees_xb, fees_yb);
    assert!(fees_xa.0 > 0 && fees_xa.1 > 0);
    assert!(fees_xb.0 > 0 && fees_xb.1 > 0);
}

#[test]
fn active_liquidity_matches_ticks_at_or_below_the_price() {
    let (mut pool, _a, _b) = two_positions(true);
    for (amount, zero_for_one) in [(20_000, true), (60_000, false), (5_000, true)] {
        pool.swap(amount, zero_for_one, 0).unwrap();
        let state = pool.get_pool_state();
        let mut sum: i128 = 0;
        for t in [-600, -120, 600, 1200] {
            if t <= state.current_tick {
                sum += pool.get_tick_info(t).liquidity_net;
            }
        }
        assert_eq!(state.liquidity, sum);
    }
}

#[test]
fn add_liquidity_from_desired_amounts() {
    let mut pool = pool_at_zero();
    let mut pos = Position::empty();
    let r = pool.add_liquidity(&mut pos, -600, 600, 30000, 30000, 0, 0);
    assert_eq!(r, Ok((1015105, 29998, 29999)));
    assert_eq!(pos.liquidity, 1015105);
    assert_eq!(pool.get_pool_state().liquidity, 1015105);
    let mut other = Position::empty();
    let r = pool.add_liquidity(&mut other, -600, 600, 30000, 10000, 0, 0);
    assert_eq!(r, Ok((338374, 9999, 9999)));
}

#[test]
fn add_liquidity_from_desired_amounts_refusals() {
    let mut pool = pool_at_zero();
    let mut pos = Position::empty();
    assert_eq!(pool.add_liquidity(&mut pos, -600, 600, 30000, 30000, 30000, 0), Err(PoolError::SlippageExceeded));
    assert_eq!(pool.add_liquidity(&mut pos, -600, 600, 1, 1, 0, 0), Err(PoolError::LiquidityBelowFloor));
    assert_eq!(pool.add_liquidity(&mut pos, 600, -600, 30000, 30000, 0, 0), Err(PoolError::InvalidRange));
    assert_eq!(pool.add_liquidity(&mut pos, -600, 900_000, 30000, 30000, 0, 0), Err(PoolError::TickOutOfRange));
    assert_eq!(pos, Position::empty());
    assert_eq!(pool.get_tick_info(-600), TickInfo::empty());
}

#[test]
fn position_value_without_liquidity_needs_no_price() {
    let pool = pool_at_zero();
    let pos = Position { tokens_owed_a: 4, tokens_owed_b: 5, ..Position::empty() };
    assert_eq!(pool.get_position_value(&pos, -900_000, 900_000), (0, 0, 4, 5));
}
