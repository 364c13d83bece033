use cryptos::timing::{open_time_at, open_time_keep_millis_at, timestep, floor_div_mod};
use cryptos::repositories::binance::spot::klines::KlinesRepository;
use cryptos::repositories::binance::spot::plans::PlansRepository;
use cryptos::repositories::binance::spot::indicators::IndicatorsRepository;
use cryptos::repositories::binance::futures::klines::KlinesRepository as FuturesKlinesRepository;

const NOW: i64 = 1700000123456; // 2023-11-14 22:15:23.456 UTC

#[test]
fn timestep_of_known_intervals() {
    assert_eq!(timestep("1m"), 60000);
    assert_eq!(timestep("15m"), 900000);
    assert_eq!(timestep("4h"), 14400000);
    assert_eq!(timestep("1d"), 86400000);
}

#[test]
fn timestep_of_other_intervals_is_a_day() {
    assert_eq!(timestep("1h"), 86400000);
    assert_eq!(timestep(""), 86400000);
    assert_eq!(KlinesRepository::timestep("1w"), 86400000);
    assert_eq!(PlansRepository::timestep("15m"), 900000);
    assert_eq!(IndicatorsRepository::timestep("4h"), 14400000);
}

#[test]
fn open_time_truncates_to_interval_boundary() {
    assert_eq!(open_time_at(NOW, "1m"), 1700000100000);
    assert_eq!(open_time_at(NOW, "15m"), 1700000100000);
    assert_eq!(open_time_at(NOW, "4h"), 1699992000000);
    assert_eq!(open_time_at(NOW, "1d"), 1699920000000);
    assert_eq!(open_time_at(NOW, "1h"), 1700000100000);
}

#[test]
fn open_time_before_the_epoch() {
    assert_eq!(open_time_at(-1, "15m"), -900000);
    assert_eq!(open_time_at(-1, "1m"), -60000);
    assert_eq!(open_time_at(-86400000, "1d"), -86400000);
}

#[test]
fn open_time_on_a_boundary_is_unchanged() {
    assert_eq!(open_time_at(1699992000000, "4h"), 1699992000000);
    assert_eq!(open_time_at(0, "1d"), 0);
}

#[test]
fn futures_open_time_keeps_milliseconds() {
    assert_eq!(open_time_keep_millis_at(NOW, "15m"), 1700000100456);
    assert_eq!(open_time_keep_millis_at(NOW, "1d"), 1699920000456);
    let repo = FuturesKlinesRepository::default();
    assert_eq!(repo.timestamp_at(NOW, "4h"), 1699992000456);
}

#[test]
fn clock_reading_is_aligned() {
    let t = KlinesRepository::timestamp("15m");
    assert_eq!(t % 900000, 0);
    let t = PlansRepository::timestamp("1d");
    assert_eq!(t % 86400000, 0);
    let t = IndicatorsRepository::timestamp("1m");
    assert_eq!(t % 60000, 0);
    let t = FuturesKlinesRepository::default().timestamp("15m".to_string());
    assert_eq!((t - t % 1000) % 900000, 0);
}

#[test]
fn floor_division_rounds_down() {
    assert_eq!(floor_div_mod(7, 2), (3, 1));
    assert_eq!(floor_div_mod(-7, 2), (-4, 1));
    assert_eq!(floor_div_mod(-6, 3), (-2, 0));
}

#[test]
fn repository_timestamps_agree() {
    assert_eq!(KlinesRepository::timestamp_at(NOW, "4h"), 1699992000000);
    assert_eq!(PlansRepository::timestamp_at(NOW, "15m"), 1700000100000);
    assert_eq!(IndicatorsRepository::timestamp_at(NOW, "1d"), 1699920000000);
}
