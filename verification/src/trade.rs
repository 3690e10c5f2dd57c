//! Buying from and selling to a pool.
//!
//! A trade touches three ledgers at once: the pool's own record, the value
//! balances of the trader and of the pool's escrow, and the trader's holding
//! of the asset. `Trade` holds all of them, and `buy` and `sell` either
//! rewrite them together or refuse and leave every one as it was.
//!
//! The price of a trade depends on the supply at that very moment. Whoever
//! calls `buy` or `sell` hands in the ledgers as they stand and stores what
//! comes back before another trade on the same pool reads them: two trades
//! on one pool are never applied side by side.

use vstd::prelude::*;
use crate::checked::{checked_add, checked_sub};
use crate::curve::{
    cost, cost_fits, lemma_cost_is_not_negative, lemma_reserve_grows_by_cost,
    lemma_reserve_is_cost_from_zero, price,
};
use crate::error::CustomError;
use crate::state::State;

verus! {

/// What one trade reads and rewrites.
#[derive(Debug, PartialEq, Eq)]
pub struct Trade {
    /// The pool traded against.
    pub state: State,
    /// Value that the trader owns.
    pub user_lamports: u64,
    /// Value that the pool's escrow holds.
    pub reserve_lamports: u64,
    /// Units of the asset that the trader holds.
    pub user_tokens: u64,
}

impl Clone for Trade {
    fn clone(&self) -> (copy: Self)
        ensures
            copy == *self,
    {
        Trade {
            state: self.state.clone(),
            user_lamports: self.user_lamports,
            reserve_lamports: self.reserve_lamports,
            user_tokens: self.user_tokens,
        }
    }
}

impl Trade {
    /// What buying `amount` units makes of these ledgers, or why it is refused.
    ///
    /// The units are priced from the present supply upwards. The trader pays
    /// the cost into the escrow and receives the units; the pool's supply and
    /// reserve grow by the same two numbers.
    pub open spec fn bought(self, amount: u64) -> Result<Trade, CustomError> {
        let pool = self.state;
        let due = cost(
            amount as int,
            pool.supply as int,
            pool.base_price as int,
            pool.slope as int,
        );
        if amount == 0 {
            Err(CustomError::InvalidAmount)
        } else if pool.supply + amount > u64::MAX {
            Err(CustomError::ArithmeticOverflow)
        } else if !cost_fits(
            amount as int,
            pool.supply as int,
            pool.base_price as int,
            pool.slope as int,
        ) {
            Err(CustomError::ArithmeticOverflow)
        } else if self.user_lamports < due {
            Err(CustomError::InsufficientFunds)
        } else if self.reserve_lamports + due > u64::MAX || self.user_tokens + amount > u64::MAX
            || pool.reserve + due > u64::MAX {
            Err(CustomError::ArithmeticOverflow)
        } else {
            Ok(
                Trade {
                    state: pool.with_balances(
                        (pool.supply + amount) as u64,
                        (pool.reserve + due) as u64,
                    ),
                    user_lamports: (self.user_lamports - due) as u64,
                    reserve_lamports: (self.reserve_lamports + due) as u64,
                    user_tokens: (self.user_tokens + amount) as u64,
                },
            )
        }
    }

    /// What selling `amount` units makes of these ledgers, or why it is refused.
    ///
    /// The units sold are the topmost in circulation, so they are priced from
    /// the supply that remains. The trader gives up the units and is paid the
    /// refund out of the escrow; the pool's supply and reserve shrink by the
    /// same two numbers.
    pub open spec fn sold(self, amount: u64) -> Result<Trade, CustomError> {
        let pool = self.state;
        let back = cost(
            amount as int,
            pool.supply - amount,
            pool.base_price as int,
            pool.slope as int,
        );
        if amount == 0 {
            Err(CustomError::InvalidAmount)
        } else if amount > pool.supply {
            Err(CustomError::InsufficientSupply)
        } else if !cost_fits(
            amount as int,
            pool.supply - amount,
            pool.base_price as int,
            pool.slope as int,
        ) {
            Err(CustomError::ArithmeticOverflow)
        } else if self.user_tokens < amount || self.reserve_lamports < back {
            Err(CustomError::InsufficientFunds)
        } else if self.user_lamports + back > u64::MAX || pool.reserve < back {
            Err(CustomError::ArithmeticOverflow)
        } else {
            Ok(
                Trade {
                    state: pool.with_balances(
                        (pool.supply - amount) as u64,
                        (pool.reserve - back) as u64,
                    ),
                    user_lamports: (self.user_lamports + back) as u64,
                    reserve_lamports: (self.reserve_lamports - back) as u64,
                    user_tokens: (self.user_tokens - amount) as u64,
                },
            )
        }
    }
}

/// Takes `amount` out of `balance`, or reports `InsufficientFunds` when the
/// balance is smaller.
pub fn debit(balance: u64, amount: u64) -> (r: Result<u64, CustomError>)
    ensures
        amount <= balance ==> r == Ok::<u64, CustomError>((balance - amount) as u64),
        amount > balance ==> r == Err::<u64, CustomError>(CustomError::InsufficientFunds),
{
    if balance < amount {
        Err(CustomError::InsufficientFunds)
    } else {
        Ok(balance - amount)
    }
}

/// Buys `amount` units of the asset that the pool manages.
///
/// On success the ledgers are as `bought` gives them. On refusal nothing
/// has changed. A consistent pool stays consistent either way.
///
/// An amount of zero is always refused as invalid, whatever else is wrong,
/// and an amount whose cost cannot be computed within 64 bits is refused as
/// an overflow.
pub fn buy(ctx: &mut Trade, amount: u64) -> (r: Result<(), CustomError>)
    ensures
        match old(ctx).bought(amount) {
            Ok(after) => r is Ok && *final(ctx) == after,
            Err(why) => r == Err::<(), CustomError>(why) && *final(ctx) == *old(ctx),
        },
        amount == 0 ==> r == Err::<(), CustomError>(CustomError::InvalidAmount),
        amount > 0 && !cost_fits(
            amount as int,
            old(ctx).state.supply as int,
            old(ctx).state.base_price as int,
            old(ctx).state.slope as int,
        ) ==> r == Err::<(), CustomError>(CustomError::ArithmeticOverflow),
        r is Err ==> *final(ctx) == *old(ctx),
        old(ctx).state.reserve_matches_supply() ==> final(ctx).state.reserve_matches_supply(),
        old(ctx).state.wf() ==> final(ctx).state.wf(),
{
    if amount == 0 {
        return Err(CustomError::InvalidAmount);
    }
    let old_supply = ctx.state.supply;
    let new_supply = checked_add(old_supply, amount)?;
    let due = price(amount, old_supply, ctx.state.base_price, ctx.state.slope)?;
    let user_lamports = debit(ctx.user_lamports, due)?;
    let reserve_lamports = checked_add(ctx.reserve_lamports, due)?;
    let user_tokens = checked_add(ctx.user_tokens, amount)?;
    let reserve = checked_add(ctx.state.reserve, due)?;
    proof {
        if ctx.state.reserve_matches_supply() {
            lemma_reserve_grows_by_cost(
                old_supply as int,
                amount as int,
                ctx.state.base_price as int,
                ctx.state.slope as int,
            );
        }
    }
    ctx.user_lamports = user_lamports;
    ctx.reserve_lamports = reserve_lamports;
    ctx.user_tokens = user_tokens;
    ctx.state.supply = new_supply;
    ctx.state.reserve = reserve;
    Ok(())
}

/// Sells `amount` units of the asset back to the pool.
///
/// On success the ledgers are as `sold` gives them. On refusal nothing has
/// changed. A consistent pool stays consistent either way.
///
/// An amount of zero is always refused as invalid, and an amount above the
/// supply as more than the supply allows, whatever else is wrong.
pub fn sell(ctx: &mut Trade, amount: u64) -> (r: Result<(), CustomError>)
    ensures
        match old(ctx).sold(amount) {
            Ok(after) => r is Ok && *final(ctx) == after,
            Err(why) => r == Err::<(), CustomError>(why) && *final(ctx) == *old(ctx),
        },
        amount == 0 ==> r == Err::<(), CustomError>(CustomError::InvalidAmount),
        amount > old(ctx).state.supply ==> r == Err::<(), CustomError>(
            CustomError::InsufficientSupply,
        ),
        r is Err ==> *final(ctx) == *old(ctx),
        old(ctx).state.reserve_matches_supply() ==> final(ctx).state.reserve_matches_supply(),
        old(ctx).state.wf() ==> final(ctx).state.wf(),
{
    if amount == 0 {
        return Err(CustomError::InvalidAmount);
    }
    let old_supply = ctx.state.supply;
    if amount > old_supply {
        return Err(CustomError::InsufficientSupply);
    }
    let new_supply = checked_sub(old_supply, amount)?;
    let back = price(amount, new_supply, ctx.state.base_price, ctx.state.slope)?;
    let user_tokens = debit(ctx.user_tokens, amount)?;
    let reserve_lamports = debit(ctx.reserve_lamports, back)?;
    let user_lamports = checked_add(ctx.user_lamports, back)?;
    let reserve = checked_sub(ctx.state.reserve, back)?;
    proof {
        if ctx.state.reserve_matches_supply() {
            lemma_reserve_grows_by_cost(
                new_supply as int,
                amount as int,
                ctx.state.base_price as int,
                ctx.state.slope as int,
            );
        }
    }
    ctx.user_tokens = user_tokens;
    ctx.reserve_lamports = reserve_lamports;
    ctx.user_lamports = user_lamports;
    ctx.state.supply = new_supply;
    ctx.state.reserve = reserve;
    Ok(())
}

/// One request made of a pool.
pub enum Order {
    /// Buy this many units.
    Buy(u64),
    /// Sell this many units.
    Sell(u64),
}

impl Trade {
    /// The ledgers after one order: as the trade leaves them when it goes
    /// through, untouched when it is refused.
    pub open spec fn after(self, order: Order) -> Trade {
        let outcome = match order {
            Order::Buy(amount) => self.bought(amount),
            Order::Sell(amount) => self.sold(amount),
        };
        match outcome {
            Ok(next) => next,
            Err(_) => self,
        }
    }

    /// The ledgers after a run of orders, taken in turn.
    pub open spec fn after_all(self, orders: Seq<Order>) -> Trade
        decreases orders.len(),
    {
        if orders.len() == 0 {
            self
        } else {
            self.after_all(orders.drop_last()).after(orders.last())
        }
    }
}

/// One order, whether it goes through or is refused, leaves the reserve
/// matching the supply wherever it matched before.
pub proof fn lemma_order_keeps_reserve(before: Trade, order: Order)
    requires
        before.state.reserve_matches_supply(),
    ensures
        before.after(order).state.reserve_matches_supply(),
        before.state.wf() ==> before.after(order).state.wf(),
{
    let pool = before.state;
    match order {
        Order::Buy(amount) => {
            lemma_reserve_grows_by_cost(
                pool.supply as int,
                amount as int,
                pool.base_price as int,
                pool.slope as int,
            );
        },
        Order::Sell(amount) => {
            if amount <= pool.supply {
                lemma_reserve_grows_by_cost(
                    pool.supply - amount,
                    amount as int,
                    pool.base_price as int,
                    pool.slope as int,
                );
            }
        },
    }
}

/// However many purchases and sales follow one another, and whichever of
/// them are refused, the reserve of a pool that matched its supply at the
/// start matches it after every one of them.
pub proof fn lemma_reserve_matches_supply_throughout(start: Trade, orders: Seq<Order>)
    requires
        start.state.reserve_matches_supply(),
    ensures
        start.after_all(orders).state.reserve_matches_supply(),
        start.state.wf() ==> start.after_all(orders).state.wf(),
    decreases orders.len(),
{
    if orders.len() > 0 {
        lemma_reserve_matches_supply_throughout(start, orders.drop_last());
        lemma_order_keeps_reserve(start.after_all(orders.drop_last()), orders.last());
    }
}

/// The reserve of a consistent pool covers the refund of any sale that the
/// supply allows: such a sale is never refused for want of reserve.
pub proof fn lemma_reserve_covers_refund(pool: State, amount: u64)
    requires
        pool.reserve_matches_supply(),
        amount <= pool.supply,
    ensures
        cost(
            amount as int,
            pool.supply - amount,
            pool.base_price as int,
            pool.slope as int,
        ) <= pool.reserve,
{
    let rest = pool.supply - amount;
    lemma_reserve_grows_by_cost(rest, amount as int, pool.base_price as int, pool.slope as int);
    lemma_reserve_is_cost_from_zero(rest, pool.base_price as int, pool.slope as int);
    lemma_cost_is_not_negative(rest, 0, pool.base_price as int, pool.slope as int);
}

/// Buying some units and at once selling as many undoes the purchase: the
/// sale goes through, the refund is the price that was paid, and every
/// ledger is as it was before.
pub proof fn lemma_buy_then_sell_restores(before: Trade, amount: u64)
    requires
        before.bought(amount) is Ok,
    ensures
        before.bought(amount)->Ok_0.sold(amount) == Ok::<Trade, CustomError>(before),
        cost(
            amount as int,
            before.bought(amount)->Ok_0.state.supply - amount,
            before.state.base_price as int,
            before.state.slope as int,
        ) == before.user_lamports - before.bought(amount)->Ok_0.user_lamports,
{
}

} // verus!
