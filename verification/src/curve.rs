//! The linear price curve: what a run of units costs, in closed form, and the
//! laws that the closed form obeys.
//!
//! The unit that takes the supply from `i` to `i + 1` is priced at
//! `base_price + slope * i`. A trade of `amount` units whose lowest unit has
//! index `base_index` is worth the sum of those prices, which `cost` gives
//! without a loop.

use vstd::prelude::*;
use crate::checked::{checked_add, checked_div, checked_mul, checked_sub};
use crate::error::CustomError;

verus! {

/// Price of the unit with the given index, counting from zero.
pub open spec fn marginal_price(index: int, base_price: int, slope: int) -> int {
    base_price + slope * index
}

/// The prices of the `amount` units from `base_index` upwards, added one by one.
pub open spec fn sum_of_prices(amount: int, base_index: int, base_price: int, slope: int) -> int
    decreases amount,
{
    if amount <= 0 {
        0
    } else {
        sum_of_prices(amount - 1, base_index, base_price, slope) + marginal_price(
            base_index + amount - 1,
            base_price,
            slope,
        )
    }
}

/// Closed form of the value of `amount` units whose lowest index is `base_index`.
pub open spec fn cost(amount: int, base_index: int, base_price: int, slope: int) -> int {
    amount * base_price + slope * (amount * base_index + amount * (amount - 1) / 2)
}

/// Whether every step of evaluating `cost` stays within unsigned 64 bits.
///
/// The steps are the two products with `amount`, the product
/// `amount * (amount - 1)` before it is halved, the sum inside the bracket,
/// its product with `slope`, and the final sum.
pub open spec fn cost_fits(amount: int, base_index: int, base_price: int, slope: int) -> bool {
    &&& amount * base_price <= u64::MAX
    &&& amount * base_index <= u64::MAX
    &&& amount * (amount - 1) <= u64::MAX
    &&& amount * base_index + amount * (amount - 1) / 2 <= u64::MAX
    &&& slope * (amount * base_index + amount * (amount - 1) / 2) <= u64::MAX
    &&& cost(amount, base_index, base_price, slope) <= u64::MAX
}

/// What `price` answers: a trade of nothing is refused, a computation that
/// leaves the range is refused, and anything else is worth `cost`.
pub open spec fn quote(amount: u64, base_index: u64, base_price: u64, slope: u64) -> Result<
    u64,
    CustomError,
> {
    if amount == 0 {
        Err(CustomError::InvalidAmount)
    } else if !cost_fits(amount as int, base_index as int, base_price as int, slope as int) {
        Err(CustomError::ArithmeticOverflow)
    } else {
        Ok(cost(amount as int, base_index as int, base_price as int, slope as int) as u64)
    }
}

/// Value of `amount` units whose lowest index is `base_index`.
///
/// For a purchase `base_index` is the supply before the trade; for a sale it
/// is the supply after it.
pub fn price(amount: u64, base_index: u64, base_price: u64, slope: u64) -> (r: Result<
    u64,
    CustomError,
>)
    ensures
        r == quote(amount, base_index, base_price, slope),
{
    if amount == 0 {
        return Err(CustomError::InvalidAmount);
    }
    let base_cost = checked_mul(amount, base_price)?;
    let part1 = checked_mul(amount, base_index)?;
    let below = checked_sub(amount, 1)?;
    let doubled = checked_mul(amount, below)?;
    let part2 = checked_div(doubled, 2)?;
    let units = checked_add(part1, part2)?;
    let slope_cost = checked_mul(slope, units)?;
    checked_add(base_cost, slope_cost)
}

/// Value that must be in reserve when `supply` units are in circulation:
/// what it costs to bring the supply from zero to `supply`.
pub open spec fn reserve_for(supply: int, base_price: int, slope: int) -> int {
    base_price * supply + slope * supply * (supply - 1) / 2
}

/// The reserve that `supply` units call for, or `None` when it is more than
/// 64 bits hold.
///
/// Unlike `price` this never gives up on an intermediate product: it answers
/// `None` only when the reserve itself is out of range.
pub fn required_reserve(supply: u64, base_price: u64, slope: u64) -> (r: Option<u64>)
    ensures
        match r {
            Some(v) => v == reserve_for(supply as int, base_price as int, slope as int),
            None => reserve_for(supply as int, base_price as int, slope as int) > u64::MAX,
        },
{
    proof {
        lemma_reserve_is_cost_from_zero(supply as int, base_price as int, slope as int);
        lemma_half_product(supply as int);
    }
    if supply == 0 {
        assert(0 * base_price + slope * (0 * 0 + 0int * (0 - 1) / 2) == 0) by (nonlinear_arith);
        return Some(0);
    }
    let limit: u128 = 0xffff_ffff_ffff_ffff;
    let units: u128 = supply as u128;
    assert(units * (units - 1) <= 0xffff_ffff_ffff_ffff * 0xffff_ffff_ffff_ffff) by (nonlinear_arith)
        requires
            1 <= units <= 0xffff_ffff_ffff_ffff,
    ;
    let half: u128 = units * (units - 1) / 2;
    assert(base_price * units <= 0xffff_ffff_ffff_ffff * 0xffff_ffff_ffff_ffff) by (nonlinear_arith)
        requires
            base_price <= 0xffff_ffff_ffff_ffff,
            units <= 0xffff_ffff_ffff_ffff,
    ;
    let base_part: u128 = (base_price as u128) * units;
    assert(base_part == supply * base_price) by (nonlinear_arith)
        requires
            base_part == base_price * units,
            units == supply,
    ;
    if base_part > limit {
        return None;
    }
    if slope == 0 {
        assert(slope * half == 0) by (nonlinear_arith)
            requires
                slope == 0,
        ;
        return Some(base_part as u64);
    }
    if half > limit {
        assert(slope * half >= half) by (nonlinear_arith)
            requires
                slope >= 1,
                half >= 0,
        ;
        return None;
    }
    assert(slope * half <= 0xffff_ffff_ffff_ffff * 0xffff_ffff_ffff_ffff) by (nonlinear_arith)
        requires
            slope <= 0xffff_ffff_ffff_ffff,
            half <= 0xffff_ffff_ffff_ffff,
    ;
    let slope_part: u128 = (slope as u128) * half;
    if slope_part > limit {
        return None;
    }
    let total: u128 = base_part + slope_part;
    if total > limit {
        None
    } else {
        Some(total as u64)
    }
}

/// Halving `n * (n - 1)` loses nothing, and the next such half is `n` larger.
proof fn lemma_half_product(n: int)
    ensures
        n * (n - 1) == 2 * (n * (n - 1) / 2),
        (n + 1) * n / 2 == n * (n - 1) / 2 + n,
        0 <= n ==> 0 <= n * (n - 1) / 2,
    decreases
            if n >= 0 {
                n
            } else {
                -n
            },
{
    assert((n + 1) * n == n * (n - 1) + 2 * n) by (nonlinear_arith);
    if n > 0 {
        lemma_half_product(n - 1);
        assert((n - 1) * (n - 2) == n * (n - 1) - 2 * (n - 1)) by (nonlinear_arith);
    } else if n < 0 {
        lemma_half_product(n + 1);
        assert((n + 1) * (n + 1 - 1) == (n + 1) * n);
    } else {
        assert(n * (n - 1) == 0) by (nonlinear_arith)
            requires
                n == 0,
        ;
    }
}

/// One unit more costs the marginal price of that unit more.
pub proof fn lemma_cost_step(amount: int, base_index: int, base_price: int, slope: int)
    ensures
        cost(amount + 1, base_index, base_price, slope) == cost(
            amount,
            base_index,
            base_price,
            slope,
        ) + marginal_price(base_index + amount, base_price, slope),
{
    lemma_half_product(amount);
    let half = amount * (amount - 1) / 2;
    let inner = amount * base_index + half;
    assert((amount + 1) * (amount + 1 - 1) / 2 == half + amount);
    assert((amount + 1) * base_price == amount * base_price + base_price) by (nonlinear_arith);
    assert((amount + 1) * base_index == amount * base_index + base_index) by (nonlinear_arith);
    assert(slope * (inner + (base_index + amount)) == slope * inner + slope * (base_index
        + amount)) by (nonlinear_arith);
}

/// The closed form is the sum of the marginal prices of the units traded.
pub proof fn lemma_cost_is_sum_of_prices(
    amount: int,
    base_index: int,
    base_price: int,
    slope: int,
)
    requires
        0 <= amount,
    ensures
        cost(amount, base_index, base_price, slope) == sum_of_prices(
            amount,
            base_index,
            base_price,
            slope,
        ),
    decreases amount,
{
    if amount == 0 {
        assert(cost(0, base_index, base_price, slope) == 0) by (nonlinear_arith);
    } else {
        lemma_cost_is_sum_of_prices(amount - 1, base_index, base_price, slope);
        lemma_cost_step(amount - 1, base_index, base_price, slope);
    }
}

/// Trading `first` units and then `second` units is worth what trading
/// `first + second` units at once is worth.
pub proof fn lemma_cost_splits(
    first: int,
    second: int,
    base_index: int,
    base_price: int,
    slope: int,
)
    requires
        0 <= second,
    ensures
        cost(first + second, base_index, base_price, slope) == cost(
            first,
            base_index,
            base_price,
            slope,
        ) + cost(second, base_index + first, base_price, slope),
    decreases second,
{
    if second == 0 {
        assert(cost(0, base_index + first, base_price, slope) == 0) by (nonlinear_arith);
    } else {
        lemma_cost_splits(first, second - 1, base_index, base_price, slope);
        lemma_cost_step(first + second - 1, base_index, base_price, slope);
        lemma_cost_step(second - 1, base_index + first, base_price, slope);
    }
}

/// The reserve that a supply calls for is the cost of that supply bought from
/// nothing.
pub proof fn lemma_reserve_is_cost_from_zero(supply: int, base_price: int, slope: int)
    ensures
        reserve_for(supply, base_price, slope) == cost(supply, 0, base_price, slope),
{
    lemma_half_product(supply);
    let half = supply * (supply - 1) / 2;
    assert(slope * supply * (supply - 1) == 2 * (slope * half)) by (nonlinear_arith)
        requires
            supply * (supply - 1) == 2 * half,
    ;
    assert(supply * 0 == 0) by (nonlinear_arith);
    assert(base_price * supply == supply * base_price) by (nonlinear_arith);
}

/// The reserve for a larger supply is the reserve for the smaller one plus
/// the cost of the units between them.
pub proof fn lemma_reserve_grows_by_cost(
    supply: int,
    amount: int,
    base_price: int,
    slope: int,
)
    requires
        0 <= amount,
    ensures
        reserve_for(supply + amount, base_price, slope) == reserve_for(supply, base_price, slope)
            + cost(amount, supply, base_price, slope),
{
    lemma_reserve_is_cost_from_zero(supply, base_price, slope);
    lemma_reserve_is_cost_from_zero(supply + amount, base_price, slope);
    lemma_cost_splits(supply, amount, 0, base_price, slope);
}

/// Along a rising curve a larger trade is worth strictly more: one unit more
/// adds its marginal price, which is positive as soon as the slope is and the
/// unit is not the very first of a curve that starts at zero.
pub proof fn lemma_cost_strictly_increasing(
    amount: int,
    base_index: int,
    base_price: int,
    slope: int,
)
    requires
        0 <= amount,
        0 <= base_index,
        0 <= base_price,
        0 < slope,
        0 < amount || 0 < base_index || 0 < base_price,
    ensures
        cost(amount + 1, base_index, base_price, slope) > cost(
            amount,
            base_index,
            base_price,
            slope,
        ),
{
    lemma_cost_step(amount, base_index, base_price, slope);
    assert(0 < base_price + slope * (base_index + amount)) by (nonlinear_arith)
        requires
            0 <= amount,
            0 <= base_index,
            0 <= base_price,
            0 < slope,
            0 < amount || 0 < base_index || 0 < base_price,
    ;
}

/// Along a flat curve every unit is worth the base price.
pub proof fn lemma_cost_flat_is_linear(amount: int, base_index: int, base_price: int)
    ensures
        cost(amount, base_index, base_price, 0) == amount * base_price,
{
    assert(0 * (amount * base_index + amount * (amount - 1) / 2) == 0) by (nonlinear_arith);
}

/// Units never have a negative value when neither the base price nor the
/// slope is negative.
pub proof fn lemma_cost_is_not_negative(
    amount: int,
    base_index: int,
    base_price: int,
    slope: int,
)
    requires
        0 <= amount,
        0 <= base_index,
        0 <= base_price,
        0 <= slope,
    ensures
        0 <= cost(amount, base_index, base_price, slope),
{
    lemma_half_product(amount);
    let half = amount * (amount - 1) / 2;
    assert(0 <= amount * base_price + slope * (amount * base_index + half)) by (nonlinear_arith)
        requires
            0 <= amount,
            0 <= base_index,
            0 <= base_price,
            0 <= slope,
            0 <= half,
    ;
}

} // verus!
