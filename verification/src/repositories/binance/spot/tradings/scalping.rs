//! Spot scalping trades: which plans may be placed, at which buy and sell
//! prices and for which quantity.
//!
//! Prices and quantities are held as whole numbers of 10^-8 units, the
//! finest step that the exchange quotes.
use vstd::prelude::*;
use crate::text::str_eq;
use crate::repositories::binance::{PRICE_SCALE, ceil_div, ceil_div_u128, lemma_ceil_div_covers};

verus! {

/// Spot scalping trades repository.
#[derive(Default)]
pub struct ScalpingRepository {}

/// Why a plan is not placed (and is deleted).
#[derive(Debug, PartialEq, Eq, Structural)]
pub enum PlanError {
    /// Only long plans (side 1) are placed.
    OnlyLong,
    /// The plan is older than its interval allows.
    Expired,
}

/// Seconds a plan of `interval` stays valid; intervals without a limit
/// never expire.
pub open spec fn plan_lifetime(interval: Seq<char>) -> Option<int> {
    if interval == "1m"@ {
        Some(900)
    } else if interval == "15m"@ {
        Some(2700)
    } else if interval == "4h"@ {
        Some(5400)
    } else if interval == "1d"@ {
        Some(21600)
    } else {
        None
    }
}

/// Whether a plan created at `created_at` (seconds) has expired at `now`.
pub open spec fn plan_expired(interval: Seq<char>, created_at: int, now: int) -> bool {
    match plan_lifetime(interval) {
        Some(life) => created_at < now - life,
        None => false,
    }
}

/// Whether a plan may be placed: it must be long and not expired.
pub open spec fn spec_check_plan(side: i32, interval: Seq<char>, created_at: int, now: int) -> Result<(), PlanError> {
    if side != 1 {
        Err(PlanError::OnlyLong)
    } else if plan_expired(interval, created_at, now) {
        Err(PlanError::Expired)
    } else {
        Ok(())
    }
}

/// The sell price's factor over the buy price in ten-thousandths, by
/// interval, larger for plans of more than 15; zero for other intervals.
pub open spec fn spec_sell_factor(interval: Seq<char>, large: bool) -> int {
    if large {
        if interval == "1m"@ { 10105 }
        else if interval == "15m"@ { 10125 }
        else if interval == "4h"@ { 10185 }
        else if interval == "1d"@ { 10385 }
        else { 0 }
    } else {
        if interval == "1m"@ { 10085 }
        else if interval == "15m"@ { 10105 }
        else if interval == "4h"@ { 10120 }
        else if interval == "1d"@ { 10135 }
        else { 0 }
    }
}

/// The quote amount of one order (10), in 10^-8 units.
pub const NOTIONAL_UNITS: u128 = 1000000000;

/// Why a plan is not placed at the current prices.
#[derive(Debug, PartialEq, Eq, Structural)]
pub enum PriceError {
    /// The plan's price is above the scalping's price; the plan is deleted.
    AboveScalping,
    /// The current price is above the buy price that the plan allows.
    AboveBuy,
    /// The current price is above the position's entry price; the plan is
    /// deleted.
    AboveEntry,
}

/// The prices and quantity of a buy order, in 10^-8 units.
#[derive(Debug, PartialEq, Eq, Structural)]
pub struct OrderPrices {
    pub buy: u128,
    pub sell: u128,
    pub quantity: u128,
}

/// The buy price: the lower of the plan's price and the current price,
/// rounded down to a multiple of the tick size.
pub open spec fn spec_buy_units(plan: int, price: int, tick: int) -> int {
    let capped = if plan > price { price } else { plan };
    capped / tick * tick
}

/// The sell price: the buy price times the factor (in ten-thousandths),
/// rounded up to a multiple of the tick size.
pub open spec fn spec_sell_units(buy: int, factor: int, tick: int) -> int {
    ceil_div(buy * factor, 10000 * tick) * tick
}

/// The quantity bought for the order's quote amount at the buy price,
/// rounded up to a multiple of the step size.
pub open spec fn spec_quantity_units(buy: int, step: int) -> int {
    ceil_div(NOTIONAL_UNITS * PRICE_SCALE, buy * step) * step
}

/// The inputs on which placing does not divide by zero: a plan above the
/// scalping's price is refused before any division; otherwise the tick size
/// is positive, and, where no price check refuses the plan, the buy price and
/// the step size are positive.
pub open spec fn order_defined(plan: int, scalping: int, price: int, entry: int, tick: int, step: int) -> bool {
    plan > scalping || (tick > 0 && {
        let buy = spec_buy_units(plan, price, tick);
        price > buy || (entry > 0 && price > entry) || (buy > 0 && step > 0)
    })
}

/// The checks and prices of placing a plan: the plan's price against the
/// scalping's price, the current price against the buy price and against
/// the position's entry price (zero when the position holds nothing), then
/// the sell price and the quantity.
pub open spec fn spec_order_prices(
    plan: int,
    scalping: int,
    price: int,
    entry: int,
    tick: int,
    step: int,
    interval: Seq<char>,
    large: bool,
) -> Result<OrderPrices, PriceError> {
    if plan > scalping {
        Err(PriceError::AboveScalping)
    } else {
        let buy = spec_buy_units(plan, price, tick);
        if price > buy {
            Err(PriceError::AboveBuy)
        } else if entry > 0 && price > entry {
            Err(PriceError::AboveEntry)
        } else {
            Ok(OrderPrices {
                buy: buy as u128,
                sell: spec_sell_units(buy, spec_sell_factor(interval, large), tick) as u128,
                quantity: spec_quantity_units(buy, step) as u128,
            })
        }
    }
}

impl ScalpingRepository {
    /// Decides whether a plan of `side` and `interval`, created at
    /// `created_at`, may be placed at `now` (both in seconds).
    pub fn check_plan(side: i32, interval: &str, created_at: i64, now: i64) -> (r: Result<(), PlanError>)
        requires
            -10000000000000000 < now < 10000000000000000,
        ensures
            r == spec_check_plan(side, interval@, created_at as int, now as int),
    {
        if side != 1 {
            return Err(PlanError::OnlyLong);
        }
        let expired = if str_eq(interval, "1m") {
            created_at < now - 900
        } else if str_eq(interval, "15m") {
            created_at < now - 2700
        } else if str_eq(interval, "4h") {
            created_at < now - 5400
        } else if str_eq(interval, "1d") {
            created_at < now - 21600
        } else {
            false
        };
        if expired {
            Err(PlanError::Expired)
        } else {
            Ok(())
        }
    }

    /// Decides the order of a plan at the current prices, all in 10^-8
    /// units: `plan_price` and `scalping_price` from the plan and its
    /// scalping, `price` the current price, `entry_price` the position's
    /// entry price, `tick` and `step` the symbol's price and quantity steps;
    /// the plan's interval and size pick the sell price's factor.
    pub fn order_prices(
        plan_price: u64,
        scalping_price: u64,
        price: u64,
        entry_price: u64,
        tick: u64,
        step: u64,
        interval: &str,
        large: bool,
    ) -> (r: Result<OrderPrices, PriceError>)
        requires
            order_defined(plan_price as int, scalping_price as int, price as int, entry_price as int, tick as int, step as int),
        ensures
            r == spec_order_prices(
                plan_price as int,
                scalping_price as int,
                price as int,
                entry_price as int,
                tick as int,
                step as int,
                interval@,
                large,
            ),
    {
        if plan_price > scalping_price {
            return Err(PriceError::AboveScalping);
        }
        let capped = if plan_price > price { price } else { plan_price };
        assert(capped / tick * tick <= capped) by {
            vstd::arithmetic::div_mod::lemma_fundamental_div_mod(capped as int, tick as int);
        }
        let buy: u64 = capped / tick * tick;
        if price > buy {
            return Err(PriceError::AboveBuy);
        }
        if entry_price > 0 && price > entry_price {
            return Err(PriceError::AboveEntry);
        }
        let factor = Self::sell_factor(interval, large) as u64;
        let buy_w = buy as u128;
        let tick_w = tick as u128;
        let step_w = step as u128;
        assert(buy_w * (factor as u128) <= 0xffff_ffff_ffff_ffff * 100000) by (nonlinear_arith)
            requires buy_w <= 0xffff_ffff_ffff_ffff, factor <= 100000;
        assert(buy_w * step_w <= 0xffff_ffff_ffff_ffff * 0xffff_ffff_ffff_ffff) by (nonlinear_arith)
            requires buy_w <= 0xffff_ffff_ffff_ffff, step_w <= 0xffff_ffff_ffff_ffff;
        let scaled = buy_w * (factor as u128);
        let sell_steps = ceil_div_u128(scaled, 10000 * tick_w);
        proof {
            lemma_ceil_div_covers(scaled as int, 10000 * tick_w as int);
            assert(sell_steps * (10000 * tick_w) < scaled + 10000 * tick_w);
            assert(sell_steps * tick_w <= scaled + tick_w) by (nonlinear_arith)
                requires sell_steps * (10000 * tick_w) < scaled + 10000 * tick_w, tick_w > 0, sell_steps >= 0;
        }
        let sell = sell_steps * tick_w;
        let amount = NOTIONAL_UNITS * PRICE_SCALE;
        assert(buy_w * step_w > 0) by (nonlinear_arith) requires buy_w > 0, step_w > 0;
        let quantity_steps = ceil_div_u128(amount, buy_w * step_w);
        proof {
            lemma_ceil_div_covers(amount as int, buy_w * step_w as int);
            assert(quantity_steps * step_w <= amount + step_w) by (nonlinear_arith)
                requires
                    quantity_steps * (buy_w * step_w) < amount + buy_w * step_w,
                    buy_w >= 1,
                    step_w > 0,
                    quantity_steps >= 0;
        }
        let quantity = quantity_steps * step_w;
        Ok(OrderPrices { buy: buy_w, sell, quantity })
    }

    /// The sell price's factor over the buy price, in ten-thousandths.
    pub fn sell_factor(interval: &str, large: bool) -> (f: i64)
        ensures
            f == spec_sell_factor(interval@, large),
    {
        if large {
            if str_eq(interval, "1m") { 10105 }
            else if str_eq(interval, "15m") { 10125 }
            else if str_eq(interval, "4h") { 10185 }
            else if str_eq(interval, "1d") { 10385 }
            else { 0 }
        } else {
            if str_eq(interval, "1m") { 10085 }
            else if str_eq(interval, "15m") { 10105 }
            else if str_eq(interval, "4h") { 10120 }
            else if str_eq(interval, "1d") { 10135 }
            else { 0 }
        }
    }
}

/// An expired plan stays expired: if it is refused as expired at `now`,
/// it is refused as expired at every later time.
pub proof fn law_expiry_is_permanent(side: i32, interval: Seq<char>, created_at: int, now: int, later: int)
    requires
        now <= later,
        spec_check_plan(side, interval, created_at, now) == Err::<(), PlanError>(PlanError::Expired),
    ensures
        spec_check_plan(side, interval, created_at, later) == Err::<(), PlanError>(PlanError::Expired),
{
}

/// A long plan at most fifteen minutes old is never refused, whatever
/// its interval.
pub proof fn law_young_plan_accepted(interval: Seq<char>, created_at: int, now: int)
    requires
        now <= created_at + 900,
    ensures
        spec_check_plan(1, interval, created_at, now) is Ok,
{
}

/// The sell factor is a mark-up: for the known intervals it exceeds one,
/// and a large plan's factor is at least a small plan's.
pub proof fn law_sell_factor_markup(interval: Seq<char>)
    requires
        plan_lifetime(interval) is Some,
    ensures
        spec_sell_factor(interval, false) > 10000,
        spec_sell_factor(interval, true) >= spec_sell_factor(interval, false),
{
}

/// An order is only ever placed at the current price: that price is on the
/// tick grid, no higher than the plan's price, the scalping's price or the
/// position's entry price; the quantity buys at least the order's quote
/// amount, and for the known intervals the sell price is at or above the buy
/// price.
pub proof fn law_order_at_current_price(
    plan: u64,
    scalping: u64,
    price: u64,
    entry: u64,
    tick: u64,
    step: u64,
    interval: Seq<char>,
    large: bool,
)
    requires
        order_defined(plan as int, scalping as int, price as int, entry as int, tick as int, step as int),
        spec_order_prices(plan as int, scalping as int, price as int, entry as int, tick as int, step as int, interval, large) is Ok,
    ensures
        ({
            let o = spec_order_prices(plan as int, scalping as int, price as int, entry as int, tick as int, step as int, interval, large)->Ok_0;
            &&& o.buy == price
            &&& price % tick == 0
            &&& price <= plan <= scalping
            &&& (entry == 0 || price <= entry)
            &&& o.quantity * o.buy >= NOTIONAL_UNITS * PRICE_SCALE
            &&& (plan_lifetime(interval) is Some ==> o.sell >= o.buy)
        }),
{
    let capped = if plan > price { price as int } else { plan as int };
    let t = tick as int;
    let buy = spec_buy_units(plan as int, price as int, t);
    vstd::arithmetic::div_mod::lemma_fundamental_div_mod(capped, t);
    assert(0 <= buy <= capped) by (nonlinear_arith)
        requires
            capped == t * (capped / t) + capped % t,
            capped % t >= 0,
            capped >= 0,
            t > 0,
            buy == capped / t * t;
    assert(buy == price);
    vstd::arithmetic::div_mod::lemma_mod_multiples_basic(capped / tick as int, tick as int);
    assert(price % tick == 0);
    let o = spec_order_prices(plan as int, scalping as int, price as int, entry as int, tick as int, step as int, interval, large)->Ok_0;
    assert(buy > 0 && step > 0);
    assert(buy * step > 0) by (nonlinear_arith) requires buy > 0, step > 0;
    lemma_ceil_div_covers((NOTIONAL_UNITS * PRICE_SCALE) as int, buy * step);
    let qs = ceil_div((NOTIONAL_UNITS * PRICE_SCALE) as int, buy * step);
    assert(qs * step * buy >= NOTIONAL_UNITS * PRICE_SCALE) by (nonlinear_arith)
        requires qs * (buy * step) >= NOTIONAL_UNITS * PRICE_SCALE;
    assert(0 <= qs * step < NOTIONAL_UNITS * PRICE_SCALE + step) by (nonlinear_arith)
        requires
            qs * (buy * step) < NOTIONAL_UNITS * PRICE_SCALE + buy * step,
            qs >= 0,
            buy >= 1,
            step >= 1;
    assert(o.quantity == qs * step);
    let f = spec_sell_factor(interval, large);
    assert(0 <= f <= 10385);
    assert(10000 * tick > 0);
    lemma_ceil_div_covers(buy * f, 10000 * tick);
    let ss = ceil_div(buy * f, 10000 * tick);
    assert(0 <= ss * tick <= buy * f + tick) by (nonlinear_arith)
        requires
            ss * (10000 * tick) < buy * f + 10000 * tick,
            ss >= 0,
            tick > 0,
            buy >= 0,
            f >= 0;
    assert(buy * f <= 0xffff_ffff_ffff_ffff * 10385) by (nonlinear_arith)
        requires 0 <= buy <= 0xffff_ffff_ffff_ffff, 0 <= f <= 10385;
    assert(o.sell == ss * tick);
    if plan_lifetime(interval) is Some {
        assert(f >= 10000);
        assert(ss * tick >= buy) by (nonlinear_arith)
            requires ss * (10000 * tick) >= buy * f, f >= 10000, buy >= 0, tick > 0;
    }
}

/// The known intervals are four distinct texts.
proof fn lemma_intervals_distinct()
    ensures
        "1m"@ != "15m"@,
        "1m"@ != "4h"@,
        "1m"@ != "1d"@,
        "15m"@ != "4h"@,
        "15m"@ != "1d"@,
        "4h"@ != "1d"@,
{
    reveal_strlit("1m");
    reveal_strlit("15m");
    reveal_strlit("4h");
    reveal_strlit("1d");
    assert("1m"@.len() == 2 && "15m"@.len() == 3 && "4h"@.len() == 2 && "1d"@.len() == 2);
    assert("1m"@[0] == '1' && "4h"@[0] == '4' && "1d"@[1] == 'd' && "1m"@[1] == 'm');
    assert("4h"@[0] != "1d"@[0]);
}

/// A long plan expires after a fixed lifetime by interval: 15 minutes for
/// 1m, 45 minutes for 15m, an hour and a half for 4h and six hours for 1d;
/// it is refused as expired exactly when it was created before `now` minus
/// that lifetime. A plan of any other interval never expires, and a plan of
/// any other side is refused as not long, whatever its age.
pub proof fn law_plan_lifetimes(side: i32, interval: Seq<char>, created_at: int, now: int)
    ensures
        side != 1 ==> spec_check_plan(side, interval, created_at, now) == Err::<(), PlanError>(PlanError::OnlyLong),
        side == 1 && interval == "1m"@ ==> (spec_check_plan(side, interval, created_at, now)
            == if created_at < now - 900 { Err::<(), PlanError>(PlanError::Expired) } else { Ok(()) }),
        side == 1 && interval == "15m"@ ==> (spec_check_plan(side, interval, created_at, now)
            == if created_at < now - 2700 { Err::<(), PlanError>(PlanError::Expired) } else { Ok(()) }),
        side == 1 && interval == "4h"@ ==> (spec_check_plan(side, interval, created_at, now)
            == if created_at < now - 5400 { Err::<(), PlanError>(PlanError::Expired) } else { Ok(()) }),
        side == 1 && interval == "1d"@ ==> (spec_check_plan(side, interval, created_at, now)
            == if created_at < now - 21600 { Err::<(), PlanError>(PlanError::Expired) } else { Ok(()) }),
        side == 1 && interval != "1m"@ && interval != "15m"@ && interval != "4h"@ && interval != "1d"@
            ==> spec_check_plan(side, interval, created_at, now) == Ok::<(), PlanError>(()),
{
    lemma_intervals_distinct();
}

/// The sell factors, in ten-thousandths, of each known interval: for a plan
/// of more than 15, 1.0105 (1m), 1.0125 (15m), 1.0185 (4h) and 1.0385 (1d);
/// for a smaller plan, 1.0085, 1.0105, 1.0120 and 1.0135.
pub proof fn law_sell_factor_by_interval(interval: Seq<char>, large: bool)
    ensures
        interval == "1m"@ ==> spec_sell_factor(interval, large) == if large { 10105int } else { 10085int },
        interval == "15m"@ ==> spec_sell_factor(interval, large) == if large { 10125int } else { 10105int },
        interval == "4h"@ ==> spec_sell_factor(interval, large) == if large { 10185int } else { 10120int },
        interval == "1d"@ ==> spec_sell_factor(interval, large) == if large { 10385int } else { 10135int },
{
    lemma_intervals_distinct();
}

/// `sell` is the lowest price on the tick grid at or above `buy` times
/// `factor` ten-thousandths.
pub open spec fn lowest_tick_at_or_above(sell: int, buy: int, factor: int, tick: int) -> bool {
    &&& sell % tick == 0
    &&& sell * 10000 >= buy * factor
    &&& sell * 10000 < buy * factor + 10000 * tick
}

/// A placed order sells at the buy price marked up by its interval and
/// size, rounded up to the tick grid: a large 15m plan bought at 100.0 with
/// a tick of 0.01 sells at 101.25, a large 4h plan at 101.85.
pub proof fn law_sell_price_markup(
    plan: u64,
    scalping: u64,
    price: u64,
    entry: u64,
    tick: u64,
    step: u64,
    interval: Seq<char>,
    large: bool,
)
    requires
        order_defined(plan as int, scalping as int, price as int, entry as int, tick as int, step as int),
        spec_order_prices(plan as int, scalping as int, price as int, entry as int, tick as int, step as int, interval, large) is Ok,
    ensures
        ({
            let o = spec_order_prices(plan as int, scalping as int, price as int, entry as int, tick as int, step as int, interval, large)->Ok_0;
            &&& interval == "1m"@ ==> lowest_tick_at_or_above(o.sell as int, o.buy as int, if large { 10105 } else { 10085 }, tick as int)
            &&& interval == "15m"@ ==> lowest_tick_at_or_above(o.sell as int, o.buy as int, if large { 10125 } else { 10105 }, tick as int)
            &&& interval == "4h"@ ==> lowest_tick_at_or_above(o.sell as int, o.buy as int, if large { 10185 } else { 10120 }, tick as int)
            &&& interval == "1d"@ ==> lowest_tick_at_or_above(o.sell as int, o.buy as int, if large { 10385 } else { 10135 }, tick as int)
        }),
{
    law_order_at_current_price(plan, scalping, price, entry, tick, step, interval, large);
    law_sell_factor_by_interval(interval, large);
    let o = spec_order_prices(plan as int, scalping as int, price as int, entry as int, tick as int, step as int, interval, large)->Ok_0;
    let buy = price as int;
    let t = tick as int;
    let capped = if plan > price { price as int } else { plan as int };
    vstd::arithmetic::div_mod::lemma_fundamental_div_mod(capped, t);
    assert(0 <= capped / t * t <= capped) by (nonlinear_arith)
        requires
            capped == t * (capped / t) + capped % t,
            capped % t >= 0,
            capped >= 0,
            t > 0;
    assert(spec_buy_units(plan as int, price as int, t) == buy);
    let f = spec_sell_factor(interval, large);
    assert(0 <= f <= 10385);
    lemma_ceil_div_covers(buy * f, 10000 * t);
    let ss = ceil_div(buy * f, 10000 * t);
    assert(0 <= ss * t <= buy * f + t) by (nonlinear_arith)
        requires
            ss * (10000 * t) < buy * f + 10000 * t,
            ss >= 0,
            t > 0,
            buy >= 0,
            f >= 0;
    assert(buy * f <= 0xffff_ffff_ffff_ffff * 10385) by (nonlinear_arith)
        requires 0 <= buy <= 0xffff_ffff_ffff_ffff, 0 <= f <= 10385;
    assert(o.sell == ss * t);
    assert(o.buy == buy);
    vstd::arithmetic::div_mod::lemma_mod_multiples_basic(ss, t);
    assert(ss * t * 10000 == ss * (10000 * t)) by (nonlinear_arith);
    assert(lowest_tick_at_or_above(o.sell as int, o.buy as int, f, t));
}

} // verus!
