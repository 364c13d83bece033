//! Futures take-profit plans: the price and quantity factors by the size of
//! the position, the take-profit and stop prices, and the plans that close a
//! position in parts.
//!
//! Prices and quantities are whole numbers of 10^-8 units; factors are in
//! ten-thousandths.
use vstd::prelude::*;
use crate::repositories::binance::{
    PRICE_SCALE, FACTOR_SCALE, ceil_div, ceil_div_u128, lemma_ceil_div_covers, tick_round, round_to_tick,
    lemma_tick_round_bounds, lemma_tick_round_vs_price,
};

verus! {

/// Futures take-profit plans repository.
#[derive(Default)]
pub struct GamblingRepository {}

/// One take-profit order: its price and quantity (10^-8 units) and its
/// amount, price times quantity, in 10^-16 units.
#[derive(Debug, PartialEq, Eq, Structural)]
pub struct GamblingPlan {
    pub take_price: u128,
    pub take_quantity: u128,
    pub take_amount: u128,
}

/// The (price factor, quantity factor) pairs of a position of `side` whose
/// amount is `entry_amount` (10^-16 units): one plan below an amount of 2000,
/// two above; prices above the entry for a long position (`side` 1), below
/// for a short one.
pub open spec fn spec_factors(side: i32, entry_amount: int) -> Seq<(u64, u64)> {
    if entry_amount < 2000 * PRICE_SCALE * PRICE_SCALE {
        if side == 1 { seq![(10105u64, 2500u64)] } else { seq![(9895u64, 2500u64)] }
    } else if side == 1 {
        seq![(10085u64, 2500u64), (10105u64, 5000u64)]
    } else {
        seq![(9915u64, 2500u64), (9895u64, 5000u64)]
    }
}

/// The take-profit price: 3.44% beyond the entry in the position's favour,
/// rounded away from the entry to the tick grid.
pub open spec fn spec_take_price(side: i32, entry_price: int, tick: int) -> int {
    if side == 1 {
        tick_round(entry_price, 10344, tick, true)
    } else {
        tick_round(entry_price, 9656, tick, false)
    }
}

/// The stop price: 1.72% beyond the entry against the position, rounded away
/// from the entry to the tick grid.
pub open spec fn spec_stop_price(side: i32, entry_price: int, tick: int) -> int {
    if side == 1 {
        tick_round(entry_price, 9828, tick, false)
    } else {
        tick_round(entry_price, 10172, tick, true)
    }
}

/// The plans for the remaining quantity `quantity` and the factors `fs`:
/// each takes its share of what remains, rounded up to the step; the plans
/// stop at the first one that would take all that remains.
pub open spec fn spec_plans(
    side: i32,
    price: int,
    quantity: int,
    tick: int,
    step: int,
    fs: Seq<(u64, u64)>,
) -> Seq<GamblingPlan>
    decreases fs.len(),
{
    if fs.len() == 0 {
        Seq::empty()
    } else {
        let take_quantity = ceil_div(quantity * fs[0].1, FACTOR_SCALE * step) * step;
        let take_price = tick_round(price, fs[0].0 as int, tick, side == 1);
        if quantity <= take_quantity {
            Seq::empty()
        } else {
            seq![GamblingPlan {
                take_price: take_price as u128,
                take_quantity: take_quantity as u128,
                take_amount: (take_price * take_quantity) as u128,
            }] + spec_plans(side, price, quantity - take_quantity, tick, step, fs.drop_first())
        }
    }
}

/// The take-profit plans of a position of `side` entered at `entry_price`
/// for `entry_quantity`.
pub open spec fn spec_calc(side: i32, entry_price: int, entry_quantity: int, tick: int, step: int) -> Seq<GamblingPlan> {
    spec_plans(side, entry_price, entry_quantity, tick, step, spec_factors(side, entry_price * entry_quantity))
}

/// Sum of the plans' quantities.
pub open spec fn total_quantity(plans: Seq<GamblingPlan>) -> int
    decreases plans.len(),
{
    if plans.len() == 0 {
        0
    } else {
        plans[0].take_quantity + total_quantity(plans.drop_first())
    }
}

impl GamblingRepository {
    /// The (price factor, quantity factor) pairs, in ten-thousandths, of a
    /// position of `side` with amount `entry_amount` (10^-16 units).
    pub fn factors(side: i32, entry_amount: u128) -> (fs: Vec<(u64, u64)>)
        ensures
            fs@ == spec_factors(side, entry_amount as int),
    {
        let mut fs: Vec<(u64, u64)> = Vec::new();
        if entry_amount < 2000 * PRICE_SCALE * PRICE_SCALE {
            if side == 1 {
                fs.push((10105, 2500));
            } else {
                fs.push((9895, 2500));
            }
        } else {
            if side == 1 {
                fs.push((10085, 2500));
                fs.push((10105, 5000));
            } else {
                fs.push((9915, 2500));
                fs.push((9895, 5000));
            }
        }
        assert(fs@ =~= spec_factors(side, entry_amount as int));
        fs
    }

    /// The take-profit price of a position of `side` entered at
    /// `entry_price`.
    pub fn take_price(side: i32, entry_price: u64, tick: u64) -> (p: u128)
        requires
            0 < tick,
        ensures
            p == spec_take_price(side, entry_price as int, tick as int),
    {
        if side == 1 {
            round_to_tick(entry_price, 10344, tick, true)
        } else {
            round_to_tick(entry_price, 9656, tick, false)
        }
    }

    /// The stop price of a position of `side` entered at `entry_price`.
    pub fn stop_price(side: i32, entry_price: u64, tick: u64) -> (p: u128)
        requires
            0 < tick,
        ensures
            p == spec_stop_price(side, entry_price as int, tick as int),
    {
        if side == 1 {
            round_to_tick(entry_price, 9828, tick, false)
        } else {
            round_to_tick(entry_price, 10172, tick, true)
        }
    }

    /// The take-profit plans that close a position of `side` entered at
    /// `entry_price` for `entry_quantity`, with the symbol's `tick` and
    /// `step`.
    pub fn calc(side: i32, entry_price: u64, entry_quantity: u64, tick: u64, step: u64) -> (plans: Vec<GamblingPlan>)
        requires
            entry_price <= i64::MAX,
            entry_quantity <= i64::MAX,
            0 < tick <= i64::MAX,
            0 < step,
        ensures
            plans@ == spec_calc(side, entry_price as int, entry_quantity as int, tick as int, step as int),
    {
        assert((entry_price as u128) * (entry_quantity as u128) <= (i64::MAX as u128) * (i64::MAX as u128)) by (nonlinear_arith)
            requires entry_price <= i64::MAX, entry_quantity <= i64::MAX;
        let amount = (entry_price as u128) * (entry_quantity as u128);
        let fs = Self::factors(side, amount);
        let ghost all = fs@;
        let mut plans: Vec<GamblingPlan> = Vec::new();
        let mut quantity: u128 = entry_quantity as u128;
        let mut i: usize = 0;
        let step_w = step as u128;
        assert(all.skip(0) =~= all);
        while i < fs.len()
            invariant_except_break
                i <= fs.len(),
                all == fs@,
                all.len() <= 2,
                forall|k: int| 0 <= k < all.len() ==> (#[trigger] all[k]).0 <= 20000 && all[k].1 <= 10000,
                entry_price <= i64::MAX,
                0 < tick <= i64::MAX,
                step_w == step,
                0 < step,
                quantity <= entry_quantity,
                entry_quantity <= i64::MAX,
                plans@ + spec_plans(side, entry_price as int, quantity as int, tick as int, step as int, all.skip(i as int))
                    == spec_plans(side, entry_price as int, entry_quantity as int, tick as int, step as int, all),
            ensures
                plans@ == spec_plans(side, entry_price as int, entry_quantity as int, tick as int, step as int, all),
            decreases fs.len() - i,
        {
            let (pf, qf) = fs[i];
            let ghost rest = all.skip(i as int);
            assert(rest[0] == (pf, qf));
            assert(rest.drop_first() =~= all.skip(i + 1));
            assert(quantity * (qf as u128) <= (i64::MAX as u128) * 10000) by (nonlinear_arith)
                requires quantity <= i64::MAX, qf <= 10000;
            let scaled = quantity * (qf as u128);
            let steps = ceil_div_u128(scaled, FACTOR_SCALE * step_w);
            proof {
                lemma_ceil_div_covers(scaled as int, (FACTOR_SCALE * step_w) as int);
            }
            assert(steps * step_w <= scaled + step_w) by (nonlinear_arith)
                requires steps * (FACTOR_SCALE * step_w) < scaled + FACTOR_SCALE * step_w, steps >= 0, step_w > 0, scaled >= 0;
            let take_quantity = steps * step_w;
            let take_price = round_to_tick(entry_price, pf, tick, side == 1);
            assert(take_price <= 3 * (i64::MAX as int)) by (nonlinear_arith)
                requires
                    take_price <= entry_price * pf / 10000 + tick,
                    entry_price <= i64::MAX,
                    pf <= 20000,
                    tick <= i64::MAX;
            if quantity <= take_quantity {
                assert(spec_plans(side, entry_price as int, quantity as int, tick as int, step as int, rest) =~= Seq::<GamblingPlan>::empty());
                assert(plans@ =~= plans@ + Seq::<GamblingPlan>::empty());
                break;
            }
            assert(take_price * take_quantity <= 3 * (i64::MAX as u128) * (i64::MAX as u128)) by (nonlinear_arith)
                requires take_price <= 3 * (i64::MAX as int), take_quantity < quantity, quantity <= i64::MAX;
            let plan = GamblingPlan {
                take_price,
                take_quantity,
                take_amount: take_price * take_quantity,
            };
            let ghost before = plans@;
            plans.push(plan);
            quantity = quantity - take_quantity;
            assert(plans@ + spec_plans(side, entry_price as int, quantity as int, tick as int, step as int, all.skip(i + 1))
                =~= before + spec_plans(side, entry_price as int, (quantity + take_quantity) as int, tick as int, step as int, rest));
            i = i + 1;
        }
        plans
    }
}

proof fn lemma_plans_shape(side: i32, price: int, quantity: int, tick: int, step: int, fs: Seq<(u64, u64)>)
    requires
        0 <= price <= u64::MAX,
        quantity >= 0,
        0 < tick <= u64::MAX,
        step > 0,
        forall|k: int| 0 <= k < fs.len() ==> (side == 1 ==> (#[trigger] fs[k]).0 >= 10000) && (side != 1 ==> fs[k].0 <= 10000) && fs[k].0 <= 20000,
    ensures
        spec_plans(side, price, quantity, tick, step, fs).len() <= fs.len(),
        total_quantity(spec_plans(side, price, quantity, tick, step, fs)) <= quantity,
        spec_plans(side, price, quantity, tick, step, fs).len() > 0
            ==> total_quantity(spec_plans(side, price, quantity, tick, step, fs)) < quantity,
        forall|i: int| 0 <= i < spec_plans(side, price, quantity, tick, step, fs).len() ==> {
            let t = #[trigger] spec_plans(side, price, quantity, tick, step, fs)[i].take_price;
            &&& side == 1 ==> t >= price
            &&& side != 1 ==> t <= price
        },
    decreases fs.len(),
{
    if fs.len() > 0 {
        let scaled = quantity * fs[0].1;
        assert(scaled >= 0) by (nonlinear_arith) requires quantity >= 0, fs[0].1 >= 0, scaled == quantity * fs[0].1;
        lemma_ceil_div_covers(scaled, FACTOR_SCALE * step);
        let steps = ceil_div(scaled, FACTOR_SCALE * step);
        let take_quantity = steps * step;
        assert(take_quantity >= 0) by (nonlinear_arith) requires steps >= 0, step > 0, take_quantity == steps * step;
        let take_price = tick_round(price, fs[0].0 as int, tick, side == 1);
        lemma_tick_round_vs_price(price, fs[0].0 as int, tick, side == 1);
        lemma_tick_round_bounds(price, fs[0].0 as int, tick, side == 1);
        let f0 = fs[0].0 as int;
        assert(take_price <= 3 * (u64::MAX as int)) by (nonlinear_arith)
            requires
                take_price <= price * f0 / 10000 + tick,
                0 <= price <= u64::MAX,
                0 <= f0 <= 20000,
                tick <= u64::MAX;
        if quantity > take_quantity {
            let rest = fs.drop_first();
            assert forall|k: int| 0 <= k < rest.len() implies
                (side == 1 ==> (#[trigger] rest[k]).0 >= 10000) && (side != 1 ==> rest[k].0 <= 10000) && rest[k].0 <= 20000 by {
                assert(rest[k] == fs[k + 1]);
            }
            lemma_plans_shape(side, price, quantity - take_quantity, tick, step, rest);
            let tail = spec_plans(side, price, quantity - take_quantity, tick, step, rest);
            let all = spec_plans(side, price, quantity, tick, step, fs);
            assert(all[0].take_price == take_price);
            assert(all.drop_first() =~= tail);
            assert forall|i: int| 0 <= i < all.len() implies {
                let t = #[trigger] all[i].take_price;
                &&& side == 1 ==> t >= price
                &&& side != 1 ==> t <= price
            } by {
                if i > 0 {
                    assert(all[i] == tail[i - 1]);
                }
            }
        }
    }
}

/// The take-profit plans never close the whole position: there are at most
/// two, their quantities add up to less than the entry quantity, and each
/// take-profit price lies at or beyond the entry price in the position's
/// favour (above it for a long position, below it for a short one).
pub proof fn law_plans_take_profit(side: i32, entry_price: u64, entry_quantity: u64, tick: u64, step: u64)
    requires
        0 < tick,
        0 < step,
    ensures
        ({
            let plans = spec_calc(side, entry_price as int, entry_quantity as int, tick as int, step as int);
            &&& plans.len() <= 2
            &&& total_quantity(plans) <= entry_quantity
            &&& (plans.len() > 0 ==> total_quantity(plans) < entry_quantity)
            &&& forall|i: int| 0 <= i < plans.len() ==> {
                &&& side == 1 ==> (#[trigger] plans[i]).take_price >= entry_price
                &&& side != 1 ==> plans[i].take_price <= entry_price
            }
        }),
{
    let fs = spec_factors(side, entry_price * entry_quantity);
    lemma_plans_shape(side, entry_price as int, entry_quantity as int, tick as int, step as int, fs);
    let plans = spec_calc(side, entry_price as int, entry_quantity as int, tick as int, step as int);
    assert forall|i: int| 0 <= i < plans.len() implies {
        &&& side == 1 ==> (#[trigger] plans[i]).take_price >= entry_price
        &&& side != 1 ==> plans[i].take_price <= entry_price
    } by {
        let t = plans[i].take_price;
        assert(side == 1 ==> t >= entry_price);
    }
}

/// The take-profit price lies at or beyond the entry in the position's
/// favour and the stop price at or beyond it against the position.
pub proof fn law_take_and_stop_around_entry(side: i32, entry_price: u64, tick: u64)
    requires
        0 < tick,
    ensures
        side == 1 ==> spec_stop_price(side, entry_price as int, tick as int) <= entry_price <= spec_take_price(side, entry_price as int, tick as int),
        side != 1 ==> spec_take_price(side, entry_price as int, tick as int) <= entry_price <= spec_stop_price(side, entry_price as int, tick as int),
{
    lemma_tick_round_vs_price(entry_price as int, 10344, tick as int, true);
    lemma_tick_round_vs_price(entry_price as int, 9828, tick as int, false);
    lemma_tick_round_vs_price(entry_price as int, 9656, tick as int, false);
    lemma_tick_round_vs_price(entry_price as int, 10172, tick as int, true);
}

/// The factors depend on the side only through whether the position is
/// long (side 1): every other side is priced as a short position. A short
/// position below an amount of 2000 takes a quarter at 98.95% of the entry;
/// from 2000 on, a quarter at 99.15% and then half of the rest at 98.95%. A
/// long position takes a quarter at 101.05% below 2000; from 2000 on, a
/// quarter at 100.85% and then half of the rest at 101.05%.
pub proof fn law_factors_by_side_and_amount(side: i32, other_side: i32, entry_amount: int)
    ensures
        side != 1 && other_side != 1 ==> spec_factors(side, entry_amount) == spec_factors(other_side, entry_amount),
        side != 1 && entry_amount >= 2000 * PRICE_SCALE * PRICE_SCALE
            ==> spec_factors(side, entry_amount) == seq![(9915u64, 2500u64), (9895u64, 5000u64)],
        side != 1 && entry_amount < 2000 * PRICE_SCALE * PRICE_SCALE
            ==> spec_factors(side, entry_amount) == seq![(9895u64, 2500u64)],
        side == 1 && entry_amount >= 2000 * PRICE_SCALE * PRICE_SCALE
            ==> spec_factors(side, entry_amount) == seq![(10085u64, 2500u64), (10105u64, 5000u64)],
        side == 1 && entry_amount < 2000 * PRICE_SCALE * PRICE_SCALE
            ==> spec_factors(side, entry_amount) == seq![(10105u64, 2500u64)],
{
}

/// Plans depend on the side only through whether it is long.
proof fn lemma_plans_short_sides_agree(side: i32, other_side: i32, price: int, quantity: int, tick: int, step: int, fs: Seq<(u64, u64)>)
    requires
        side != 1,
        other_side != 1,
    ensures
        spec_plans(side, price, quantity, tick, step, fs) == spec_plans(other_side, price, quantity, tick, step, fs),
    decreases fs.len(),
{
    if fs.len() > 0 {
        let take_quantity = ceil_div(quantity * fs[0].1, FACTOR_SCALE * step) * step;
        lemma_plans_short_sides_agree(side, other_side, price, quantity - take_quantity, tick, step, fs.drop_first());
    }
}

/// Every side other than 1 is a short position: two positions entered
/// alike, neither of side 1, get the same take-profit plans.
pub proof fn law_short_sides_get_same_plans(side: i32, other_side: i32, entry_price: u64, entry_quantity: u64, tick: u64, step: u64)
    requires
        side != 1,
        other_side != 1,
    ensures
        spec_calc(side, entry_price as int, entry_quantity as int, tick as int, step as int)
            == spec_calc(other_side, entry_price as int, entry_quantity as int, tick as int, step as int),
{
    let a = entry_price * entry_quantity;
    law_factors_by_side_and_amount(side, other_side, a);
    lemma_plans_short_sides_agree(side, other_side, entry_price as int, entry_quantity as int, tick as int, step as int, spec_factors(side, a));
}

} // verus!
