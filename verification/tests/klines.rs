use cryptos::repositories::binance::spot::klines::KlinesRepository;
use cryptos::repositories::binance::spot::indicators::{IndicatorsRepository, SeriesError};
use cryptos::replies::Reply;

const TS: i64 = 1_000_020_000_000;
const STEP: i64 = 60000;

fn at(k: i64) -> i64 {
    TS - k * STEP
}

#[test]
fn fix_plan_complete_series_needs_nothing() {
    let values: Vec<i64> = (0..5).map(at).collect();
    assert_eq!(KlinesRepository::fix_plan(TS, STEP, 5, &values), None);
}

#[test]
fn fix_plan_fetches_missing_tail() {
    let values = vec![at(0), at(1), at(2)];
    assert_eq!(KlinesRepository::fix_plan(TS, STEP, 5, &values), Some((TS - 3 * STEP, 2)));
}

#[test]
fn fix_plan_empty_series_fetches_all() {
    let values: Vec<i64> = vec![];
    assert_eq!(KlinesRepository::fix_plan(TS, STEP, 3, &values), Some((TS, 3)));
}

#[test]
fn fix_plan_hole_then_run() {
    let values = vec![at(0), at(1), at(3), at(4)];
    assert_eq!(KlinesRepository::fix_plan(TS, STEP, 10, &values), Some((TS + 97 * STEP, 100)));
}

#[test]
fn fix_plan_hole_at_the_end() {
    let values = vec![at(0), at(2)];
    assert_eq!(KlinesRepository::fix_plan(TS, STEP, 5, &values), Some((TS + 98 * STEP, 100)));
}

#[test]
fn fix_plan_newest_missing() {
    let values = vec![at(1), at(2)];
    assert_eq!(KlinesRepository::fix_plan(TS, STEP, 3, &values), Some((TS + 99 * STEP, 100)));
}

#[test]
fn fix_plan_long_run_after_hole() {
    // a hole at 1, then candles 2 to 151 with a second hole after 151
    let mut values = vec![at(0)];
    for k in 2..152 {
        values.push(at(k));
    }
    values.push(at(160));
    // the scan stops at the first consecutive pair after the hole: (2, 3)
    assert_eq!(KlinesRepository::fix_plan(TS, STEP, 200, &values), Some((TS - (2 - 100) * STEP, 100)));
}

#[test]
fn fix_plan_window_covers_hole() {
    let values = vec![at(0), at(1), at(5), at(6)];
    let (endtime, limit) = KlinesRepository::fix_plan(TS, STEP, 7, &values).unwrap();
    // candles 5 - limit .. 4 are fetched, which include the missing 2, 3, 4
    assert_eq!(endtime, TS - (5 - limit) * STEP);
    assert!(limit >= 100);
}

#[test]
fn flush_params_include_endtime_only_when_positive() {
    let p = KlinesRepository::flush_params("BTCUSDT", "15m", 1700000000000, 100);
    assert_eq!(p, vec![
        ("symbol".to_string(), "BTCUSDT".to_string()),
        ("interval".to_string(), "15m".to_string()),
        ("endTime".to_string(), "1700000000000".to_string()),
        ("limit".to_string(), "100".to_string()),
    ]);
    let p = KlinesRepository::flush_params("BTCUSDT", "15m", 0, 100);
    assert_eq!(p.len(), 3);
    assert_eq!(KlinesRepository::flush_query("BTCUSDT", "1d", -5, 7), "symbol=BTCUSDT&interval=1d&limit=7");
    assert_eq!(KlinesRepository::flush_query("ETHUSDT", "4h", 12, 1), "symbol=ETHUSDT&interval=4h&endTime=12&limit=1");
}

#[test]
fn rows_of_script_replies() {
    let replies = vec![
        Reply::Bulk(vec![Some("1.5".to_string()), None, Some("2".to_string())]),
        Reply::Other,
        Reply::Bulk(vec![]),
    ];
    let rows = KlinesRepository::rows(&replies);
    assert_eq!(rows, vec![
        vec!["1.5".to_string(), "2".to_string()],
        vec![],
        vec![],
    ]);
}

#[test]
fn series_ok_returns_first_opening_time() {
    let ts = vec![TS, TS - STEP, TS - 2 * STEP];
    assert_eq!(IndicatorsRepository::check_series(&ts, 3, TS, STEP), Ok(TS));
}

#[test]
fn series_not_enough() {
    let ts = vec![TS, TS - STEP];
    assert!(IndicatorsRepository::check_series(&ts, 3, TS, STEP) == Err(SeriesError::NotEnough));
    assert!(IndicatorsRepository::check_series(&ts, -1, TS, STEP) == Err(SeriesError::NotEnough));
}

#[test]
fn series_waiting_for_flush() {
    let ts = vec![TS - 60001, TS - 60001 - STEP];
    assert!(IndicatorsRepository::check_series(&ts, 2, TS, STEP) == Err(SeriesError::Waiting));
    let ts = vec![TS - 60000];
    assert_eq!(IndicatorsRepository::check_series(&ts, 1, TS, STEP), Ok(TS - 60000));
}

#[test]
fn series_lost_kline() {
    let ts = vec![TS, TS - 2 * STEP, TS - 3 * STEP];
    assert!(IndicatorsRepository::check_series(&ts, 3, TS, STEP) == Err(SeriesError::Lost));
}

#[test]
fn series_zero_opening_time_is_not_a_first() {
    let ts = vec![0, TS];
    assert!(IndicatorsRepository::check_series(&ts, 2, TS, STEP) == Err(SeriesError::Waiting));
    let ts = vec![0, TS];
    assert_eq!(IndicatorsRepository::check_series(&ts, 2, 0, STEP), Ok(TS));
}

#[test]
fn volume_slots() {
    assert_eq!(IndicatorsRepository::volume_slot(1700000123456), 45);
    assert_eq!(IndicatorsRepository::volume_slot(1700001923456), 46);
    assert_eq!(IndicatorsRepository::volume_slot(1700003400000), 47);
    assert_eq!(IndicatorsRepository::volume_slot(0), 1);
}

#[test]
fn day_check_compares_month_and_day() {
    assert_eq!(IndicatorsRepository::check_day((11, 14), (11, 14)), Ok(()));
    assert_eq!(IndicatorsRepository::check_day((11, 14), (11, 15)), Err(SeriesError::NotToday));
    assert_eq!(IndicatorsRepository::check_day((10, 14), (11, 14)), Err(SeriesError::NotToday));
    assert_eq!(IndicatorsRepository::check_today(1700000000000, 1699920000000), Ok(()));
    assert_eq!(IndicatorsRepository::check_today(1668384000000, 1700000000000), Ok(()));
    assert_eq!(IndicatorsRepository::check_today(1700000000000, 1700006400000), Err(SeriesError::NotToday));
    assert_eq!(IndicatorsRepository::check_today(-1, 0), Err(SeriesError::NotToday));
}

#[test]
fn klines_checked_against_the_clock() {
    let ts = vec![1, 2, 3];
    assert_eq!(IndicatorsRepository::check_klines(&ts, 4, "1m"), Err(SeriesError::NotEnough));
    let old = vec![1700000000000, 1700000000000 - 60000];
    assert_eq!(IndicatorsRepository::check_klines(&old, 2, "1m"), Err(SeriesError::Waiting));
    let mut done = false;
    for _ in 0..3 {
        let now = std::time::SystemTime::now()
            .duration_since(std::time::UNIX_EPOCH)
            .unwrap()
            .as_millis() as i64;
        let current = now - now % 60000;
        let ts = vec![current, current - 60000, current - 120000];
        if let Ok((first, at)) = IndicatorsRepository::check_klines(&ts, 3, "1m") {
            if at == current {
                assert_eq!(first, current);
                done = true;
                break;
            }
        }
        let lost = vec![current, current - 120000];
        let r = IndicatorsRepository::check_klines(&lost, 2, "1m");
        if r != Err(SeriesError::Waiting) {
            assert_eq!(r, Err(SeriesError::Lost));
        }
    }
    assert!(done);
}
