use clmm_pool::math::{
    compute_swap_step, compute_swap_step_with_target, div_q64, get_amounts_for_liquidity,
    get_liquidity_for_amount0, get_liquidity_for_amount1, get_liquidity_for_amounts,
    get_sqrt_ratio_at_tick, get_tick_at_sqrt_ratio, mul_div_floor, mul_q64, snap_tick_to_spacing,
    MAX_TICK, MIN_TICK, ONE_X64, SQRT_1_0001_X64,
};

#[test]
fn snap_floors_toward_negative_infinity() {
    assert_eq!(snap_tick_to_spacing(-1, 60), -60);
    assert_eq!(snap_tick_to_spacing(59, 60), 0);
    assert_eq!(snap_tick_to_spacing(-60, 60), -60);
    assert_eq!(snap_tick_to_spacing(125, 60), 120);
    assert_eq!(snap_tick_to_spacing(-121, 60), -180);
    assert_eq!(snap_tick_to_spacing(7, 1), 7);
}

#[test]
fn mul_q64_is_exact_when_it_fits() {
    assert_eq!(mul_q64(ONE_X64, ONE_X64), ONE_X64);
    assert_eq!(mul_q64(3 * ONE_X64, ONE_X64 / 2), 3 * ONE_X64 / 2);
    assert_eq!(mul_q64(5, 7), 0);
    assert_eq!(mul_q64(ONE_X64 + 1, ONE_X64 + 1), ONE_X64 + 2);
}

#[test]
fn mul_q64_saturates_instead_of_wrapping() {
    assert_eq!(mul_q64(u128::MAX, u128::MAX), u128::MAX);
    assert_eq!(mul_q64(1u128 << 100, 1u128 << 100), u128::MAX);
    assert_eq!(mul_q64(u128::MAX, 2 * ONE_X64), u128::MAX);
}

#[test]
fn div_q64_cases() {
    assert_eq!(div_q64(ONE_X64, 2 * ONE_X64), ONE_X64 / 2);
    assert_eq!(div_q64(7, 0), u128::MAX);
    assert_eq!(div_q64(3 * ONE_X64, 2 * ONE_X64), 3 * ONE_X64 / 2);
    assert_eq!(div_q64(u128::MAX, u128::MAX), ONE_X64);
    assert_eq!(div_q64(u128::MAX, 1), u128::MAX);
    assert_eq!(div_q64((1u128 << 127) + 5, (1u128 << 126) + 3), 36893488147419103231);
}

#[test]
fn mul_div_floor_has_no_intermediate_overflow() {
    assert_eq!(mul_div_floor(u128::MAX, 9999, 10000), 340248338684246369617028269971025034633);
    assert_eq!(mul_div_floor(1000, 9970, 10000), 997);
    assert_eq!(mul_div_floor(997, 30, 9970), 3);
    assert_eq!(mul_div_floor(996, 30, 9970), 2);
}

#[test]
fn sqrt_ratio_at_known_ticks() {
    assert_eq!(get_sqrt_ratio_at_tick(0), ONE_X64);
    assert_eq!(get_sqrt_ratio_at_tick(1), SQRT_1_0001_X64);
    assert_eq!(get_sqrt_ratio_at_tick(-1), 18445821805675394146);
    assert_eq!(get_sqrt_ratio_at_tick(2), 18448588748116918901);
    assert_eq!(get_sqrt_ratio_at_tick(60), 18502164624211651011);
    assert_eq!(get_sqrt_ratio_at_tick(-60), 18391489527428057658);
    assert_eq!(get_sqrt_ratio_at_tick(MAX_TICK), 340269576608253066300618355458105115346);
    assert_eq!(get_sqrt_ratio_at_tick(MIN_TICK), 1);
}

#[test]
fn tick_price_round_trip() {
    for t in [0, 1, -1, 60, -60, 600, -600, 12345, -12345, 100000, -100000, 887271, MAX_TICK] {
        assert_eq!(get_tick_at_sqrt_ratio(get_sqrt_ratio_at_tick(t)), Some(t));
    }
    assert_eq!(get_tick_at_sqrt_ratio(ONE_X64 - 1), Some(-1));
    assert_eq!(get_tick_at_sqrt_ratio(0), None);
}

#[test]
fn liquidity_for_single_amounts() {
    assert_eq!(get_liquidity_for_amount1(1000, ONE_X64, 2 * ONE_X64), 1000);
    assert_eq!(get_liquidity_for_amount0(1000, ONE_X64, 2 * ONE_X64), 2000);
    assert_eq!(get_liquidity_for_amount0(0, ONE_X64, 2 * ONE_X64), 0);
    assert_eq!(get_liquidity_for_amount1(-5, ONE_X64, 2 * ONE_X64), 0);
    assert_eq!(get_liquidity_for_amount1(1000, ONE_X64, ONE_X64), 0);
}

#[test]
fn liquidity_for_amounts_takes_the_smaller_side() {
    let (lo, up) = (ONE_X64, 4 * ONE_X64);
    assert_eq!(get_liquidity_for_amounts(ONE_X64 / 2, lo, up, 1000, 1), get_liquidity_for_amount0(1000, lo, up));
    assert_eq!(get_liquidity_for_amounts(8 * ONE_X64, lo, up, 1, 1000), get_liquidity_for_amount1(1000, lo, up));
    let p = 2 * ONE_X64;
    let l0 = get_liquidity_for_amount0(1000, p, up);
    let l1 = get_liquidity_for_amount1(1000, lo, p);
    assert_eq!(get_liquidity_for_amounts(p, lo, up, 1000, 1000), l0.min(l1));
}

#[test]
fn amounts_for_liquidity_inside_and_outside_the_range() {
    assert_eq!(get_amounts_for_liquidity(1000, ONE_X64, 2 * ONE_X64, 3 * ONE_X64 / 2), (166, 500));
    assert_eq!(get_amounts_for_liquidity(0, ONE_X64, 2 * ONE_X64, 3 * ONE_X64 / 2), (0, 0));
    let below = get_amounts_for_liquidity(1000, ONE_X64, 2 * ONE_X64, ONE_X64 / 2);
    assert!(below.0 > 0);
    assert_eq!(below.1, 0);
    let above = get_amounts_for_liquidity(1000, ONE_X64, 2 * ONE_X64, 3 * ONE_X64);
    assert_eq!(above, (0, 1000));
}

#[test]
fn swap_step_moves_price_down_for_asset_zero_in() {
    assert_eq!(compute_swap_step(ONE_X64, 1_000_000, 997, true), (18428370987834680439, 997, 996));
}

#[test]
fn swap_step_moves_price_up_for_asset_one_in() {
    assert_eq!(compute_swap_step(ONE_X64, 1_000_000, 997, false), (18465135477551040038, 997, 997));
}

#[test]
fn swap_step_without_liquidity_or_input_does_nothing() {
    assert_eq!(compute_swap_step(ONE_X64, 0, 997, true), (ONE_X64, 0, 0));
    assert_eq!(compute_swap_step(ONE_X64, 1000, 0, false), (ONE_X64, 0, 0));
}

#[test]
fn swap_step_stops_at_target() {
    let target = get_sqrt_ratio_at_tick(-600);
    let (price, amount_in, amount_out) = compute_swap_step_with_target(ONE_X64, 1_000_000, 1_000_000, true, target);
    assert_eq!(price, target);
    assert!(amount_in > 0 && amount_in < 1_000_000);
    assert!(amount_out > 0 && amount_out < amount_in);
    let free = compute_swap_step_with_target(ONE_X64, 1_000_000, 997, true, target);
    assert_eq!(free, compute_swap_step(ONE_X64, 1_000_000, 997, true));
}

#[test]
fn swap_step_with_large_liquidity_moves_price_down() {
    let price = 1u128 << 63;
    let (next, amount_in, _out) = compute_swap_step(price, 1i128 << 100, 1, true);
    assert!(next <= price);
    assert_eq!(next, price - 1);
    assert_eq!(amount_in, 1);
}

#[test]
fn swap_step_with_large_liquidity_stays_between_price_and_target() {
    let price = 1u128 << 70;
    let (next, amount_in, _out) = compute_swap_step_with_target(price, 1i128 << 100, 1, true, 1u128 << 64);
    assert!(next <= price && next > 1u128 << 64);
    assert!(amount_in <= 1);
    let (next, amount_in, _out) = compute_swap_step_with_target(1u128 << 63, 1i128 << 100, 1, true, 1);
    assert!(next <= 1u128 << 63 && next >= 1);
    assert!(amount_in <= 1);
}

#[test]
fn swap_step_toward_a_target_behind_the_price_does_nothing() {
    assert_eq!(compute_swap_step_with_target(ONE_X64, 1_000_000, 1000, true, 2 * ONE_X64), (ONE_X64, 0, 0));
    assert_eq!(compute_swap_step_with_target(ONE_X64, 1_000_000, 1000, false, ONE_X64 / 2), (ONE_X64, 0, 0));
}
