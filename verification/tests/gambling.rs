use cryptos::repositories::binance::spot::positions::PositionsRepository;
use cryptos::repositories::binance::futures::gambling::{GamblingRepository, GamblingPlan};

const UNIT: u128 = 100_000_000;

#[test]
fn factors_by_side_and_amount() {
    assert_eq!(GamblingRepository::factors(1, 1999 * UNIT * UNIT), vec![(10105, 2500)]);
    assert_eq!(GamblingRepository::factors(2, 0), vec![(9895, 2500)]);
    assert_eq!(GamblingRepository::factors(1, 2000 * UNIT * UNIT), vec![(10085, 2500), (10105, 5000)]);
    assert_eq!(GamblingRepository::factors(-1, 5000 * UNIT * UNIT), vec![(9915, 2500), (9895, 5000)]);
}

#[test]
fn take_and_stop_prices() {
    assert_eq!(GamblingRepository::take_price(1, 10_000_000_000, 1_000_000), 10_344_000_000);
    assert_eq!(GamblingRepository::stop_price(1, 10_000_000_000, 1_000_000), 9_828_000_000);
    assert_eq!(GamblingRepository::take_price(2, 10_000_000_000, 1_000_000), 9_656_000_000);
    assert_eq!(GamblingRepository::stop_price(2, 10_000_000_000, 1_000_000), 10_172_000_000);
    // 1.23456789 * 1.0344 = 1.2770370...: rounded up to the 0.01 grid
    assert_eq!(GamblingRepository::take_price(1, 123_456_789, 1_000_000), 128_000_000);
}

#[test]
fn plans_of_a_large_long_position() {
    let plans = GamblingRepository::calc(1, 10_000_000_000, 5_000_000_000, 1_000_000, 1_000_000);
    assert_eq!(plans, vec![
        GamblingPlan { take_price: 10_085_000_000, take_quantity: 1_250_000_000, take_amount: 12_606_250_000_000_000_000 },
        GamblingPlan { take_price: 10_105_000_000, take_quantity: 1_875_000_000, take_amount: 18_946_875_000_000_000_000 },
    ]);
}

#[test]
fn plans_of_a_small_short_position() {
    let plans = GamblingRepository::calc(2, 10_000_000_000, 100_000_000, 1_000_000, 1_000_000);
    assert_eq!(plans, vec![
        GamblingPlan { take_price: 9_895_000_000, take_quantity: 25_000_000, take_amount: 247_375_000_000_000_000 },
    ]);
}

#[test]
fn no_plan_takes_the_whole_position() {
    assert_eq!(GamblingRepository::calc(1, 10_000_000_000, 100_000_000, 1_000_000, 100_000_000), vec![]);
    assert_eq!(GamblingRepository::calc(1, 10_000_000_000, 0, 1_000_000, 1_000_000), vec![]);
}

#[test]
fn spot_take_price_is_two_percent_up() {
    assert_eq!(PositionsRepository::take_price(10_000_000_000, 1_000_000), 10_200_000_000);
    // 1.23456789 * 1.02 = 1.2592592478: rounded up to the 0.001 grid
    assert_eq!(PositionsRepository::take_price(123_456_789, 100_000), 126_000_000);
    assert_eq!(PositionsRepository::take_price(0, 1), 0);
}
