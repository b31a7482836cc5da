use clmm_pool::pool::{get_fee_growth_inside, PoolConfig, PoolState};
use clmm_pool::swap::engine_swap;
use clmm_pool::pool::PoolError;
use clmm_pool::position::{modify_position, update_position_fees, Position};
use clmm_pool::tick::{cross_tick, find_next_initialized_tick, TickInfo, TickMap};

fn record(gross: i128, net: i128, a: u128, b: u128) -> TickInfo {
    TickInfo { liquidity_gross: gross, liquidity_net: net, fee_growth_outside_a: a, fee_growth_outside_b: b }
}

#[test]
fn crossing_twice_restores_fee_growth_outside() {
    let mut ticks = TickMap::new();
    ticks.set(60, record(100, 100, 5, 7));
    let mut liquidity: i128 = 500;
    cross_tick(&mut ticks, 60, &mut liquidity, 1000, 2000, true);
    assert_eq!(ticks.get(60), record(100, 100, 995, 1993));
    assert_eq!(liquidity, 400);
    cross_tick(&mut ticks, 60, &mut liquidity, 1000, 2000, false);
    assert_eq!(ticks.get(60), record(100, 100, 5, 7));
    assert_eq!(liquidity, 500);
}

#[test]
fn crossing_wraps_fee_growth_modulo_two_to_128() {
    let mut ticks = TickMap::new();
    ticks.set(0, record(1, 1, 10, 0));
    let mut liquidity: i128 = 0;
    cross_tick(&mut ticks, 0, &mut liquidity, 3, 0, false);
    assert_eq!(ticks.get(0).fee_growth_outside_a, u128::MAX - 6);
    assert_eq!(liquidity, 1);
}

#[test]
fn crossing_an_unused_tick_leaves_the_map_empty() {
    let mut ticks = TickMap::new();
    let mut liquidity: i128 = 42;
    cross_tick(&mut ticks, 120, &mut liquidity, 9, 9, true);
    assert_eq!(ticks.get(120), TickInfo::empty());
    assert!(!ticks.is_initialized(120));
    assert_eq!(liquidity, 42);
}

#[test]
fn next_initialized_tick_in_each_direction() {
    let mut ticks = TickMap::new();
    ticks.set(-120, record(10, 10, 0, 0));
    ticks.set(180, record(10, -10, 0, 0));
    assert_eq!(find_next_initialized_tick(&ticks, 0, 60, true), -120);
    assert_eq!(find_next_initialized_tick(&ticks, 0, 60, false), 180);
    assert_eq!(find_next_initialized_tick(&ticks, -120, 60, true), -120);
    assert_eq!(find_next_initialized_tick(&ticks, -121, 60, true), -121);
    assert_eq!(find_next_initialized_tick(&ticks, 180, 60, false), 180);
    assert_eq!(find_next_initialized_tick(&ticks, 30, 60, false), 180);
}

#[test]
fn next_initialized_tick_gives_current_when_none_is_found() {
    let ticks = TickMap::new();
    assert_eq!(find_next_initialized_tick(&ticks, 17, 60, true), 17);
    assert_eq!(find_next_initialized_tick(&ticks, -17, 1, false), -17);
}

#[test]
fn tick_update_seeds_and_clears() {
    let mut ticks = TickMap::new();
    assert!(ticks.update(60, 100, 10, 5, 6, false));
    assert_eq!(ticks.get(60), record(10, 10, 5, 6));
    assert!(ticks.update(200, 100, 10, 5, 6, true));
    assert_eq!(ticks.get(200), record(10, -10, 0, 0));
    assert!(!ticks.update(60, 100, 4, 50, 60, true));
    assert_eq!(ticks.get(60), record(14, 6, 5, 6));
    assert!(ticks.update(60, 100, -14, 50, 60, false));
    assert_eq!(ticks.get(60), TickInfo::empty());
}

#[test]
fn fee_growth_inside_subtracts_both_sides() {
    let mut ticks = TickMap::new();
    ticks.set(-60, record(1, 1, 100, 10));
    ticks.set(60, record(1, -1, 30, 3));
    assert_eq!(get_fee_growth_inside(&ticks, -60, 60, 0, 1000, 100), (870, 87));
    assert_eq!(get_fee_growth_inside(&ticks, -60, 60, 60, 1000, 100), (u128::MAX - 69, u128::MAX - 6));
    assert_eq!(get_fee_growth_inside(&ticks, -60, 60, -61, 1000, 100), (70, 7));
}

#[test]
fn accrual_credits_share_and_moves_checkpoint() {
    let mut pos = Position { liquidity: 1000, ..Position::empty() };
    update_position_fees(&mut pos, 5u128 << 64, 1u128 << 63);
    assert_eq!(pos.tokens_owed_a, 5000);
    assert_eq!(pos.tokens_owed_b, 500);
    assert_eq!(pos.fee_growth_inside_last_a, 5u128 << 64);
    update_position_fees(&mut pos, 5u128 << 64, 1u128 << 63);
    assert_eq!(pos.tokens_owed_a, 5000);
    assert_eq!(pos.tokens_owed_b, 500);
}

#[test]
fn accrual_without_liquidity_only_moves_checkpoint() {
    let mut pos = Position::empty();
    update_position_fees(&mut pos, 77, 88);
    assert_eq!(pos, Position { fee_growth_inside_last_a: 77, fee_growth_inside_last_b: 88, ..Position::empty() });
    assert!(pos.is_clear());
}

#[test]
fn accrual_overflow_counts_as_no_fee() {
    let mut pos = Position { liquidity: i128::MAX, tokens_owed_a: 3, ..Position::empty() };
    update_position_fees(&mut pos, u128::MAX, 0);
    assert_eq!(pos.tokens_owed_a, 3);
    assert_eq!(pos.fee_growth_inside_last_a, u128::MAX);
    assert!(!pos.is_clear());
}

#[test]
fn modify_position_accrues_then_changes_liquidity() {
    let mut pos = Position { liquidity: 1000, ..Position::empty() };
    assert_eq!(modify_position(&mut pos, 500, 2u128 << 64, 0), Ok(()));
    assert_eq!(pos.liquidity, 1500);
    assert_eq!(pos.tokens_owed_a, 2000);
    assert_eq!(pos.fee_growth_inside_last_a, 2u128 << 64);
    let before = pos;
    assert_eq!(modify_position(&mut pos, -1501, 9u128 << 64, 0), Err(PoolError::InsufficientLiquidity));
    assert_eq!(pos, before);
    assert_eq!(modify_position(&mut pos, -1500, 2u128 << 64, 0), Ok(()));
    assert_eq!(pos.liquidity, 0);
    assert_eq!(pos.tokens_owed_a, 2000);
}

#[test]
fn engine_with_no_input_changes_nothing() {
    let mut state = PoolState {
        sqrt_price_x64: 1u128 << 64,
        current_tick: 0,
        liquidity: 1000,
        tick_spacing: 60,
        fee_growth_global_a: 0,
        fee_growth_global_b: 0,
        protocol_fees_a: 0,
        protocol_fees_b: 0,
    };
    let before = state;
    let mut ticks = TickMap::new();
    let config = PoolConfig { fee_bps: 30, protocol_fee_bps: 0 };
    assert_eq!(engine_swap(&mut state, &mut ticks, &config, 0, true, 0), (0, 0));
    assert_eq!(engine_swap(&mut state, &mut ticks, &config, -7, false, 0), (0, 0));
    assert_eq!(state, before);
}
