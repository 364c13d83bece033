use cryptos::repositories::binance::spot::strategies::{StrategiesRepository, StrategyError};
use cryptos::repositories::binance::spot::plans::PlansRepository;
use cryptos::repositories::binance::spot::tradings::scalping::{ScalpingRepository, PlanError, PriceError, OrderPrices};
use cryptos::repositories::binance::futures::tickers::{TickersRepository, TickerError};
use cryptos::repositories::binance::futures::symbols::{SymbolsRepository, SymbolsError};
use cryptos::repositories::auth::token::{TokenRepository, Claim, TokenError};
use cryptos::repositories::binance::{ApiError, StatusError, check_status, check_order_status};
use cryptos::replies::Reply;
use cryptos::text::{format_i64, join_strings, str_eq, integer_places};

#[test]
fn strategy_first_signal_is_recorded() {
    assert!(StrategiesRepository::accept(None, 1, 100) == Ok(()));
}

#[test]
fn strategy_same_signal_waits() {
    assert!(StrategiesRepository::accept(Some((1, 100)), 1, 200) == Err(StrategyError::WaitingForChange));
}

#[test]
fn strategy_changed_signal_needs_newer_time() {
    assert!(StrategiesRepository::accept(Some((1, 200)), 2, 200) == Err(StrategyError::Exists));
    assert!(StrategiesRepository::accept(Some((1, 200)), 2, 201) == Ok(()));
}

#[test]
fn ichimoku_zero_signal_is_invalid() {
    assert!(StrategiesRepository::accept_ichimoku(None, 0, 1) == Err(StrategyError::Invalid));
    assert!(StrategiesRepository::accept_ichimoku(Some((2, 0)), 1, 1) == Ok(()));
}

#[test]
fn ichimoku_record_fields() {
    assert_eq!(
        StrategiesRepository::ichimoku_fields("1,0.5,0.4,0.3,0.2,0.1,123.45,1700000000000"),
        Some((1, "123.45".to_string(), 1700000000000))
    );
    assert_eq!(
        StrategiesRepository::ichimoku_fields("-2,,,,,,,5,extra"),
        Some((-2, String::new(), 5))
    );
    assert_eq!(StrategiesRepository::ichimoku_fields("1,2"), None);
    assert_eq!(StrategiesRepository::ichimoku_fields("x,1,2,3,4,5,6,7"), None);
    assert_eq!(StrategiesRepository::ichimoku_fields("1,,,,,,,"), None);
    assert_eq!(StrategiesRepository::ichimoku_fields("3000000000,1,2,3,4,5,6,7"), None);
}

#[test]
fn plan_amount_counts_confirmations() {
    let entities = vec![
        Some(("bbands".to_string(), 1)),
        Some(("ha_zlema".to_string(), 1)),
    ];
    assert_eq!(PlansRepository::amount(1, &entities), 25);
    assert_eq!(PlansRepository::amount(2, &entities), 10);
    let entities = vec![None, Some(("zlema".to_string(), 2)), Some(("kdj".to_string(), 2))];
    assert_eq!(PlansRepository::amount(2, &entities), 15);
    assert_eq!(PlansRepository::amount(1, &vec![]), 10);
}

#[test]
fn plan_order_price_and_quantity() {
    assert_eq!(PlansRepository::order(25, 123_456_789, 1_000_000, 100_000), (123_000_000, 2_032_600_000));
    assert_eq!(PlansRepository::order(10, 10_000_000_000, 1_000_000, 1_000_000), (10_000_000_000, 10_000_000));
}

#[test]
fn plan_windows() {
    assert_eq!(PlansRepository::strategy_since(1700000100000), 1700000040000);
    assert_eq!(PlansRepository::confirm_since(1700000100000, "15m"), 1700000100000 - 14 * 900000);
}

#[test]
fn scalping_only_long_plans() {
    assert!(ScalpingRepository::check_plan(2, "1m", 100, 100) == Err(PlanError::OnlyLong));
}

#[test]
fn scalping_plan_expiry_by_interval() {
    assert!(ScalpingRepository::check_plan(1, "1m", 1000, 1900) == Ok(()));
    assert!(ScalpingRepository::check_plan(1, "1m", 1000, 1901) == Err(PlanError::Expired));
    assert!(ScalpingRepository::check_plan(1, "15m", 1000, 3701) == Err(PlanError::Expired));
    assert!(ScalpingRepository::check_plan(1, "4h", 1000, 6400) == Ok(()));
    assert!(ScalpingRepository::check_plan(1, "1d", 1000, 22601) == Err(PlanError::Expired));
    assert!(ScalpingRepository::check_plan(1, "1h", 0, 1_000_000_000) == Ok(()));
}

#[test]
fn scalping_sell_factors() {
    assert_eq!(ScalpingRepository::sell_factor("1m", true), 10105);
    assert_eq!(ScalpingRepository::sell_factor("1d", true), 10385);
    assert_eq!(ScalpingRepository::sell_factor("4h", false), 10120);
    assert_eq!(ScalpingRepository::sell_factor("15m", false), 10105);
    assert_eq!(ScalpingRepository::sell_factor("1w", false), 0);
}

#[test]
fn order_at_current_price() {
    let r = ScalpingRepository::order_prices(10_000_000_000, 12_000_000_000, 10_000_000_000, 0, 1_000_000, 100_000, "1m", false);
    assert_eq!(r, Ok(OrderPrices { buy: 10_000_000_000, sell: 10_085_000_000, quantity: 10_000_000 }));
}

#[test]
fn order_rounds_sell_and_quantity_up() {
    let r = ScalpingRepository::order_prices(400_000_000, 400_000_000, 300_000_000, 310_000_000, 1_000_000, 1_000_000, "1d", true);
    assert_eq!(r, Ok(OrderPrices { buy: 300_000_000, sell: 312_000_000, quantity: 334_000_000 }));
}

#[test]
fn order_refusals() {
    assert_eq!(
        ScalpingRepository::order_prices(13_000_000_000, 12_000_000_000, 10_000_000_000, 0, 1_000_000, 100_000, "1m", false),
        Err(PriceError::AboveScalping)
    );
    // current price not on the tick grid
    assert_eq!(
        ScalpingRepository::order_prices(10_100_000_000, 12_000_000_000, 10_000_500_000, 0, 1_000_000, 100_000, "1m", false),
        Err(PriceError::AboveBuy)
    );
    // current price above the plan's price
    assert_eq!(
        ScalpingRepository::order_prices(9_000_000_000, 12_000_000_000, 10_000_000_000, 0, 1_000_000, 100_000, "1m", false),
        Err(PriceError::AboveBuy)
    );
    assert_eq!(
        ScalpingRepository::order_prices(10_000_000_000, 12_000_000_000, 10_000_000_000, 9_900_000_000, 1_000_000, 100_000, "1m", false),
        Err(PriceError::AboveEntry)
    );
    // unknown interval: no mark-up
    assert_eq!(
        ScalpingRepository::order_prices(10_000_000_000, 12_000_000_000, 10_000_000_000, 0, 1_000_000, 100_000, "1w", false),
        Ok(OrderPrices { buy: 10_000_000_000, sell: 0, quantity: 10_000_000 })
    );
}

#[test]
fn ticker_freshness() {
    assert!(TickersRepository::check_fresh(100000, 70000) == Ok(()));
    assert!(TickersRepository::check_fresh(100001, 70000) == Err(TickerError::Expired));
}

#[test]
fn ticker_ranking_rows() {
    let replies = vec![
        Reply::Bulk(vec![Some("1".to_string()), Some("2".to_string())]),
        Reply::Other,
        Reply::Bulk(vec![None, Some("x".to_string())]),
    ];
    assert_eq!(TickersRepository::ranking(&replies), vec!["1,2".to_string(), "x".to_string()]);
}

#[test]
fn symbols_flush_fails() {
    assert!(SymbolsRepository::flush(()) == Err(SymbolsError::FlushFailed));
}

#[test]
fn token_uid_from_claims() {
    let text = || Some(Claim::Text("u1".to_string()));
    // expiry 200 s is 200_000_000_000 ns
    let r = TokenRepository::uid_from_claims(Some(200), Some(199_999_999_999), text());
    assert!(matches!(r, Ok(ref s) if s == "u1"));
    assert!(matches!(TokenRepository::uid_from_claims(Some(200), Some(200_000_000_000), text()), Err(TokenError::Expired)));
    assert!(matches!(TokenRepository::uid_from_claims(Some(0), None, text()), Ok(_)));
    assert!(matches!(TokenRepository::uid_from_claims(None, Some(100), text()), Err(TokenError::Invalid)));
    assert!(matches!(TokenRepository::uid_from_claims(Some(200), Some(100), Some(Claim::Other)), Err(TokenError::Invalid)));
    assert!(matches!(TokenRepository::uid_from_claims(Some(200), Some(100), None), Err(TokenError::Invalid)));
    assert!(matches!(TokenRepository::uid_from_claims(Some(u64::MAX), Some(u128::MAX), text()), Err(TokenError::Expired)));
}

#[test]
fn api_error_describes_itself() {
    let e = ApiError::new(-1021, "Timestamp outside of recvWindow".to_string());
    assert_eq!(e.describe(), "code: -1021 message: Timestamp outside of recvWindow");
    assert_eq!(e.code(), -1021);
    assert_eq!(e.message(), "Timestamp outside of recvWindow");
    let e = ApiError::of_status(418);
    assert_eq!(e.describe(), "code: 418 message: ");
}

#[test]
fn response_status_classes() {
    assert_eq!(check_status(200), Ok(()));
    assert_eq!(check_status(299), Ok(()));
    assert_eq!(check_status(400), Err(StatusError::BadRequest(400)));
    assert_eq!(check_status(429), Err(StatusError::BadRequest(429)));
    assert_eq!(check_status(499), Err(StatusError::BadRequest(499)));
    assert_eq!(check_status(500), Err(StatusError::Failed(500)));
    assert_eq!(check_status(302), Err(StatusError::Failed(302)));
    assert_eq!(check_status(100), Err(StatusError::Failed(100)));
    assert_eq!(check_order_status(503), Err(StatusError::ServerError(503)));
    assert_eq!(check_order_status(404), Err(StatusError::BadRequest(404)));
    assert_eq!(check_order_status(600), Err(StatusError::Failed(600)));
    assert_eq!(check_order_status(201), Ok(()));
}

#[test]
fn decimal_rendering() {
    assert_eq!(format_i64(0), "0");
    assert_eq!(format_i64(7), "7");
    assert_eq!(format_i64(1700000000000), "1700000000000");
    assert_eq!(format_i64(-42), "-42");
    assert_eq!(format_i64(i64::MIN), "-9223372036854775808");
    assert_eq!(format_i64(i64::MAX), "9223372036854775807");
}

#[test]
fn joining_and_comparing() {
    let parts = vec!["a".to_string(), "".to_string(), "c".to_string()];
    assert_eq!(join_strings(&parts, ","), "a,,c");
    assert_eq!(join_strings(&vec![], ","), "");
    assert!(str_eq("15m", "15m"));
    assert!(!str_eq("15m", "1m"));
    assert!(!str_eq("ab", "ac"));
}

#[test]
fn places_of_integer_parts() {
    assert_eq!(integer_places(0), 1);
    assert_eq!(integer_places(9), 1);
    assert_eq!(integer_places(10), 2);
    assert_eq!(integer_places(1999), 4);
    assert_eq!(integer_places(-5), 1);
    assert_eq!(integer_places(i64::MAX), 19);
}
