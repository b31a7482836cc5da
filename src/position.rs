use vstd::prelude::*;

use crate::math::{clamp_to_u128, q64};
use crate::pool::PoolError;
use crate::tick::{sat_add_i128, saturating_add_i128, wrap_sub};

verus! {

/// The ledger record of one (owner, lower tick, upper tick) position.
#[derive(Clone, Copy, Debug, PartialEq, Eq, Structural)]
pub struct Position {
    /// Liquidity the position supplies over its range.
    pub liquidity: i128,
    /// Fee growth of asset A inside the range when fees were last accrued.
    pub fee_growth_inside_last_a: u128,
    /// Fee growth of asset B inside the range when fees were last accrued.
    pub fee_growth_inside_last_b: u128,
    /// Fees of asset A accrued and not yet collected.
    pub tokens_owed_a: u128,
    /// Fees of asset B accrued and not yet collected.
    pub tokens_owed_b: u128,
}

/// The record that an absent position reads as.
pub open spec fn empty_position() -> Position {
    Position {
        liquidity: 0,
        fee_growth_inside_last_a: 0,
        fee_growth_inside_last_b: 0,
        tokens_owed_a: 0,
        tokens_owed_b: 0,
    }
}

/// The fee earned by `liquidity` over a fee-growth `delta`: `(L * delta) >> 64`,
/// where a product that overflows counts as no fee.
pub open spec fn fee_share(liquidity: i128, delta: u128) -> u128 {
    let l = clamp_to_u128(liquidity);
    if l * delta > u128::MAX {
        0
    } else {
        (l * delta / q64()) as u128
    }
}

/// `owed + fee`, where a sum that overflows leaves `owed` as it was.
pub open spec fn credited(owed: u128, fee: u128) -> u128 {
    if owed + fee > u128::MAX {
        owed
    } else {
        (owed + fee) as u128
    }
}

/// A position after accruing fees up to the fee growth inside its range
/// `(inside_a, inside_b)`: owed fees grow by the share of the growth since the
/// checkpoint, and the checkpoint moves to the new values.
pub open spec fn accrued(pos: Position, inside_a: u128, inside_b: u128) -> Position {
    Position {
        tokens_owed_a: credited(pos.tokens_owed_a, fee_share(pos.liquidity, wrap_sub(inside_a, pos.fee_growth_inside_last_a))),
        tokens_owed_b: credited(pos.tokens_owed_b, fee_share(pos.liquidity, wrap_sub(inside_b, pos.fee_growth_inside_last_b))),
        fee_growth_inside_last_a: inside_a,
        fee_growth_inside_last_b: inside_b,
        ..pos
    }
}

/// Of two positions with the same liquidity and no fees owed, one checkpointed
/// before fee growth `delta` accrued and one checkpointed after it, the earlier
/// one is owed strictly more once both accrue up to the same fee growth
/// `inside`, provided the growth is worth at least one unit to that liquidity
/// (`L * delta >= 2^64`) and the product does not overflow.
pub proof fn lemma_earlier_position_earns_more(liquidity: i128, before: u128, inside: u128)
    requires
        liquidity > 0,
        liquidity * wrap_sub(inside, before) >= q64(),
        liquidity * wrap_sub(inside, before) <= u128::MAX,
    ensures
        ({
            let earlier = Position { liquidity, fee_growth_inside_last_a: before, ..empty_position() };
            let later = Position { liquidity, fee_growth_inside_last_a: inside, ..empty_position() };
            accrued(earlier, inside, 0).tokens_owed_a > accrued(later, inside, 0).tokens_owed_a
        }),
{
    let d = wrap_sub(inside, before);
    assert(wrap_sub(inside, inside) == 0);
    assert(liquidity * 0 == 0);
    assert((liquidity * d) / q64() >= 1) by (nonlinear_arith)
        requires liquidity * d >= q64(), q64() > 0;
}

impl Position {
    /// A position never holds negative liquidity.
    pub open spec fn wf(&self) -> bool {
        self.liquidity >= 0
    }

    pub fn empty() -> (r: Position)
        ensures
            r == empty_position(),
            r.wf(),
    {
        Position {
            liquidity: 0,
            fee_growth_inside_last_a: 0,
            fee_growth_inside_last_b: 0,
            tokens_owed_a: 0,
            tokens_owed_b: 0,
        }
    }

    /// Whether the record can be dropped from the store: no liquidity and no
    /// fees owed (an owed balance alone keeps it).
    pub fn is_clear(&self) -> (r: bool)
        ensures
            r == (self.liquidity == 0 && self.tokens_owed_a == 0 && self.tokens_owed_b == 0),
    {
        self.liquidity == 0 && self.tokens_owed_a == 0 && self.tokens_owed_b == 0
    }
}

/// `fee_share` computed with an overflow-checked product.
pub fn fee_for_growth(liquidity: i128, delta: u128) -> (r: u128)
    ensures
        r == fee_share(liquidity, delta),
{
    let l: u128 = if liquidity <= 0 { 0 } else { liquidity as u128 };
    match l.checked_mul(delta) {
        Some(product) => product / 0x1_0000_0000_0000_0000u128,
        None => 0,
    }
}

/// Accrues the fees a position earned since its checkpoint and moves the
/// checkpoint to `(inside_a, inside_b)`, whatever the liquidity.
pub fn update_position_fees(pos: &mut Position, inside_a: u128, inside_b: u128)
    ensures
        *final(pos) == accrued(*old(pos), inside_a, inside_b),
{
    let fee_a: u128 = fee_for_growth(pos.liquidity, inside_a.wrapping_sub(pos.fee_growth_inside_last_a));
    let fee_b: u128 = fee_for_growth(pos.liquidity, inside_b.wrapping_sub(pos.fee_growth_inside_last_b));
    pos.tokens_owed_a = match pos.tokens_owed_a.checked_add(fee_a) {
        Some(v) => v,
        None => pos.tokens_owed_a,
    };
    pos.tokens_owed_b = match pos.tokens_owed_b.checked_add(fee_b) {
        Some(v) => v,
        None => pos.tokens_owed_b,
    };
    pos.fee_growth_inside_last_a = inside_a;
    pos.fee_growth_inside_last_b = inside_b;
}


/// Changes a position's liquidity by `delta` after accruing its fees at the old
/// liquidity; refused, with nothing changed, when the liquidity would fall
/// below zero.
pub fn modify_position(pos: &mut Position, delta: i128, inside_a: u128, inside_b: u128) -> (r: Result<(), PoolError>)
    ensures
        sat_add_i128(old(pos).liquidity, delta) < 0 ==> {
            &&& r == Err::<(), PoolError>(PoolError::InsufficientLiquidity)
            &&& *final(pos) == *old(pos)
        },
        sat_add_i128(old(pos).liquidity, delta) >= 0 ==> {
            &&& r == Ok::<(), PoolError>(())
            &&& *final(pos) == (Position {
                liquidity: sat_add_i128(old(pos).liquidity, delta),
                ..accrued(*old(pos), inside_a, inside_b)
            })
        },
{
    let liquidity: i128 = saturating_add_i128(pos.liquidity, delta);
    if liquidity < 0 {
        return Err(PoolError::InsufficientLiquidity);
    }
    update_position_fees(pos, inside_a, inside_b);
    pos.liquidity = liquidity;
    Ok(())
}

} // verus!
