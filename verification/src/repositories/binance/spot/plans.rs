//! Spot plans: the amount a plan invests, from the strategies that confirm
//! its signal, and the time windows in which strategies are looked up.
use vstd::prelude::*;
use crate::timing::{spec_open_time, spec_timestep, timestep, current_open_time, open_time_at, LATEST_MS};
use crate::text::str_eq;
use crate::repositories::binance::{
    PRICE_SCALE, ceil_div, ceil_div_u128, lemma_ceil_div_covers, lemma_floor_div_covers,
};

verus! {

/// Spot plans repository.
#[derive(Default)]
pub struct PlansRepository {}

/// What one confirming strategy adds to a plan's amount: 10 for Bollinger
/// bands, 5 for either zero-lag moving average, nothing for any other
/// indicator or for a signal other than the plan's.
pub open spec fn confirmation_bonus(signal: i32, entity: Option<(Seq<char>, i32)>) -> int {
    match entity {
        None => 0,
        Some((indicator, s)) => if s != signal {
            0
        } else if indicator == "bbands"@ {
            10
        } else if indicator == "zlema"@ || indicator == "ha_zlema"@ {
            5
        } else {
            0
        },
    }
}

/// The amount of a plan: a base of 10 and the bonus of each confirming
/// strategy found.
pub open spec fn spec_plan_amount(signal: i32, entities: Seq<Option<(Seq<char>, i32)>>) -> int
    decreases entities.len(),
{
    if entities.len() == 0 {
        10
    } else {
        spec_plan_amount(signal, entities.drop_last()) + confirmation_bonus(signal, entities.last())
    }
}

/// The views of the confirming strategies.
pub open spec fn entity_views(entities: Seq<Option<(String, i32)>>) -> Seq<Option<(Seq<char>, i32)>> {
    entities.map_values(|e: Option<(String, i32)>| match e {
        None => None,
        Some((i, s)) => Some((i@, s)),
    })
}

/// The price of a plan: the strategy's price rounded down to a multiple of
/// the tick size (all prices in 10^-8 units).
pub open spec fn spec_plan_price(strategy_price: int, tick: int) -> int {
    strategy_price / tick * tick
}

/// The quantity of a plan: its amount (whole quote units) over its price,
/// rounded up to a multiple of the step size (10^-8 units).
pub open spec fn spec_plan_quantity(amount: int, price: int, step: int) -> int {
    ceil_div(amount * PRICE_SCALE * PRICE_SCALE, price * step) * step
}

impl PlansRepository {
    /// Milliseconds between two consecutive candles of `interval`.
    pub fn timestep(interval: &str) -> (step: i64)
        ensures
            step == spec_timestep(interval@),
    {
        timestep(interval)
    }

    /// Opening time of the current candle of `interval`, from the clock.
    pub fn timestamp(interval: &str) -> (t: i64)
        ensures
            exists|now: int| 0 <= now <= LATEST_MS && t == spec_open_time(now, interval@),
    {
        current_open_time(interval)
    }

    /// Opening time of the candle of `interval` that holds the instant `now`.
    pub fn timestamp_at(now: i64, interval: &str) -> (t: i64)
        requires
            -10000000000000000 < now < 10000000000000000,
        ensures
            t == spec_open_time(now as int, interval@),
    {
        open_time_at(now, interval)
    }

    /// The earliest time of a strategy that can start a plan: one minute
    /// before the current candle of `interval` opened at `open_time`.
    pub fn strategy_since(open_time: i64) -> (t: i64)
        requires
            open_time - 60000 >= i64::MIN,
        ensures
            t == open_time - 60000,
    {
        open_time - 60000
    }

    /// The earliest time of a strategy that confirms one recorded at
    /// `strategy_time`: fourteen candles of `interval` earlier.
    pub fn confirm_since(strategy_time: i64, interval: &str) -> (t: i64)
        requires
            strategy_time - 14 * spec_timestep(interval@) >= i64::MIN,
        ensures
            t == strategy_time - 14 * spec_timestep(interval@),
    {
        strategy_time - 14 * timestep(interval)
    }

    /// The price and quantity of a plan investing `amount` at the strategy's
    /// price `strategy_price`, with the symbol's `tick` and `step` sizes.
    pub fn order(amount: u128, strategy_price: u64, tick: u64, step: u64) -> (r: (u128, u128))
        requires
            tick > 0,
            step > 0,
            strategy_price / tick * tick > 0,
            amount <= u64::MAX * 16,
        ensures
            r.0 == spec_plan_price(strategy_price as int, tick as int),
            r.1 == spec_plan_quantity(amount as int, r.0 as int, step as int),
    {
        proof {
            lemma_floor_div_covers(strategy_price as int, tick as int);
        }
        let price = (strategy_price / tick * tick) as u128;
        let step_w = step as u128;
        assert(amount * PRICE_SCALE * PRICE_SCALE <= (u64::MAX as u128) * 16 * PRICE_SCALE * PRICE_SCALE) by (nonlinear_arith)
            requires amount <= u64::MAX * 16;
        assert(price * step_w <= (u64::MAX as u128) * (u64::MAX as u128)) by (nonlinear_arith)
            requires price <= u64::MAX, step_w <= u64::MAX;
        assert(price * step_w > 0) by (nonlinear_arith) requires price > 0, step_w > 0;
        let total = amount * PRICE_SCALE * PRICE_SCALE;
        let steps = ceil_div_u128(total, price * step_w);
        proof {
            lemma_ceil_div_covers(total as int, (price * step_w) as int);
        }
        assert(steps * step_w <= total + step_w) by (nonlinear_arith)
            requires steps * (price * step_w) < total + price * step_w, price >= 1, step_w > 0, steps >= 0;
        (price, steps * step_w)
    }

    /// The amount of a plan with signal `signal`, given the latest strategy
    /// found (if any) for each group of confirming indicators.
    pub fn amount(signal: i32, entities: &Vec<Option<(String, i32)>>) -> (amount: u128)
        ensures
            amount == spec_plan_amount(signal, entity_views(entities@)),
    {
        let ghost views = entity_views(entities@);
        let mut amount: u128 = 10;
        let mut i: usize = 0;
        while i < entities.len()
            invariant
                i <= entities.len(),
                views == entity_views(entities@),
                amount == spec_plan_amount(signal, views.take(i as int)),
                amount <= 10 + 10 * i,
            decreases entities.len() - i,
        {
            assert(views.take(i + 1).drop_last() =~= views.take(i as int));
            match &entities[i] {
                None => {},
                Some((indicator, s)) => {
                    if *s == signal {
                        if str_eq(indicator.as_str(), "bbands") {
                            amount = amount + 10;
                        } else if str_eq(indicator.as_str(), "zlema") || str_eq(indicator.as_str(), "ha_zlema") {
                            amount = amount + 5;
                        }
                    }
                },
            }
            i = i + 1;
        }
        assert(views.take(entities.len() as int) =~= views);
        amount
    }
}

/// A plan's amount is at least the base of 10 and grows by at most 10
/// for each confirming strategy.
pub proof fn law_plan_amount_bounds(signal: i32, entities: Seq<Option<(Seq<char>, i32)>>)
    ensures
        10 <= spec_plan_amount(signal, entities) <= 10 + 10 * entities.len(),
    decreases entities.len(),
{
    if entities.len() > 0 {
        law_plan_amount_bounds(signal, entities.drop_last());
    }
}

/// A plan never pays more than the strategy's price, is priced on the tick
/// grid, and buys at least its amount.
pub proof fn law_plan_order_covers_amount(amount: u128, strategy_price: u64, tick: u64, step: u64)
    requires
        tick > 0,
        step > 0,
        strategy_price / tick * tick > 0,
    ensures
        ({
            let price = spec_plan_price(strategy_price as int, tick as int);
            let quantity = spec_plan_quantity(amount as int, price, step as int);
            &&& 0 < price <= strategy_price
            &&& price % (tick as int) == 0
            &&& quantity * price >= amount * PRICE_SCALE * PRICE_SCALE
            &&& quantity % (step as int) == 0
        }),
{
    let price = spec_plan_price(strategy_price as int, tick as int);
    lemma_floor_div_covers(strategy_price as int, tick as int);
    vstd::arithmetic::div_mod::lemma_mod_multiples_basic(strategy_price as int / tick as int, tick as int);
    let total = amount * PRICE_SCALE * PRICE_SCALE;
    assert(total >= 0) by (nonlinear_arith) requires amount >= 0, total == amount * PRICE_SCALE * PRICE_SCALE;
    assert(price * step > 0) by (nonlinear_arith) requires price > 0, step > 0;
    lemma_ceil_div_covers(total, price * step);
    let steps = ceil_div(total, price * step);
    assert(steps * step * price >= total) by (nonlinear_arith)
        requires steps * (price * step) >= total;
    vstd::arithmetic::div_mod::lemma_mod_multiples_basic(steps, step as int);
}

/// Each strategy found changes a plan's amount by what it confirms, for
/// every signal: one with the plan's signal adds 10 for Bollinger bands and
/// 5 for either zero-lag moving average; any other indicator, a strategy of
/// another signal, or none found adds nothing.
pub proof fn law_confirmation_adds(
    signal: i32,
    entities: Seq<Option<(Seq<char>, i32)>>,
    indicator: Seq<char>,
    other_signal: i32,
)
    ensures
        spec_plan_amount(signal, entities.push(Some(("bbands"@, signal)))) == spec_plan_amount(signal, entities) + 10,
        spec_plan_amount(signal, entities.push(Some(("zlema"@, signal)))) == spec_plan_amount(signal, entities) + 5,
        spec_plan_amount(signal, entities.push(Some(("ha_zlema"@, signal)))) == spec_plan_amount(signal, entities) + 5,
        indicator != "bbands"@ && indicator != "zlema"@ && indicator != "ha_zlema"@
            ==> spec_plan_amount(signal, entities.push(Some((indicator, signal)))) == spec_plan_amount(signal, entities),
        other_signal != signal
            ==> spec_plan_amount(signal, entities.push(Some((indicator, other_signal)))) == spec_plan_amount(signal, entities),
        spec_plan_amount(signal, entities.push(None)) == spec_plan_amount(signal, entities),
{
    reveal_strlit("bbands");
    reveal_strlit("zlema");
    reveal_strlit("ha_zlema");
    assert("bbands"@.len() == 6 && "zlema"@.len() == 5 && "ha_zlema"@.len() == 8);
    assert(entities.push(Some(("bbands"@, signal))).drop_last() =~= entities);
    assert(entities.push(Some(("zlema"@, signal))).drop_last() =~= entities);
    assert(entities.push(Some(("ha_zlema"@, signal))).drop_last() =~= entities);
    assert(entities.push(Some((indicator, signal))).drop_last() =~= entities);
    assert(entities.push(Some((indicator, other_signal))).drop_last() =~= entities);
    assert(entities.push(None).drop_last() =~= entities);
}

/// A plan confirmed by no strategy invests the base amount of 10.
pub proof fn law_unconfirmed_plan_amount(signal: i32)
    ensures
        spec_plan_amount(signal, Seq::empty()) == 10,
{
}

} // verus!
