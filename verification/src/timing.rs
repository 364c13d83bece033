//! Candle intervals, the wall clock, and the calendar date of an instant.
//!
//! An interval name (`"1m"`, `"15m"`, `"4h"`, `"1d"`, ...) fixes two things:
//! the step between consecutive candles in milliseconds, and the boundary
//! that the opening time of the current candle is truncated to.
use vstd::prelude::*;
use chrono::Datelike;
use crate::text::str_eq;

verus! {

pub const MINUTE_MS: i64 = 60000;
pub const QUARTER_MS: i64 = 900000;
pub const FOUR_HOURS_MS: i64 = 14400000;
pub const DAY_MS: i64 = 86400000;

/// The earliest instant that chrono represents, -262143-01-01 00:00 UTC, in
/// milliseconds since the epoch.
pub const EARLIEST_MS: i64 = -8334601315200000;

/// The latest instant that chrono represents, 262142-12-31 23:59:59.999 UTC,
/// in milliseconds since the epoch.
pub const LATEST_MS: i64 = 8210266876799999;

/// The month (1 to 12) and the day of the month (1 to 31) of the instant
/// `ms` (milliseconds since the epoch) in the proleptic Gregorian calendar,
/// in UTC, as chrono's `DateTime<Utc>` gives them.
pub uninterp spec fn utc_month_day(ms: i64) -> (u32, u32);

/// Milliseconds between two consecutive candles of `interval`; any name other
/// than `"1m"`, `"15m"` and `"4h"` counts as a day.
pub open spec fn spec_timestep(interval: Seq<char>) -> int {
    if interval == "1m"@ {
        60000
    } else if interval == "15m"@ {
        900000
    } else if interval == "4h"@ {
        14400000
    } else {
        86400000
    }
}

/// The unit that the current candle's opening time is truncated to: quarter
/// hours for `"15m"`, four hours for `"4h"`, days for `"1d"`, and whole
/// minutes for every other name.
pub open spec fn open_unit(interval: Seq<char>) -> int {
    if interval == "15m"@ {
        900000
    } else if interval == "4h"@ {
        14400000
    } else if interval == "1d"@ {
        86400000
    } else {
        60000
    }
}

/// Opening time (UTC, milliseconds) of the candle of `interval` that holds
/// the instant `now`: `now` rounded down to a multiple of the interval's unit.
pub open spec fn spec_open_time(now: int, interval: Seq<char>) -> int {
    now - now % open_unit(interval)
}

/// As `spec_open_time`, but only whole seconds are removed below the minute:
/// the milliseconds within the current second are kept.
pub open spec fn spec_open_time_keep_millis(now: int, interval: Seq<char>) -> int {
    spec_open_time(now, interval) + now % 1000
}

/// Milliseconds between two consecutive candles of `interval`.
pub fn timestep(interval: &str) -> (step: i64)
    ensures
        step == spec_timestep(interval@),
{
    if str_eq(interval, "1m") {
        MINUTE_MS
    } else if str_eq(interval, "15m") {
        QUARTER_MS
    } else if str_eq(interval, "4h") {
        FOUR_HOURS_MS
    } else {
        DAY_MS
    }
}

/// `chrono::Utc::now().timestamp_millis()`: the current time in milliseconds
/// since the Unix epoch. Only the range is promised: `Utc::now` panics on a
/// clock before the epoch and builds a `DateTime`, which lies within chrono's
/// range; which instant is returned depends on the clock.
#[verifier::external_body]
pub(crate) fn now_millis() -> (ms: i64)
    ensures
        0 <= ms <= LATEST_MS,
{
    chrono::Utc::now().timestamp_millis()
}

/// `chrono::DateTime::from_timestamp_millis(ms)`, then `month()` and `day()`
/// (`Datelike`). `from_timestamp_millis` gives `Some` for every instant within
/// chrono's range, which `requires` asks for.
#[verifier::external_body]
pub(crate) fn utc_month_day_of(ms: i64) -> (md: (u32, u32))
    requires
        EARLIEST_MS <= ms <= LATEST_MS,
    ensures
        md == utc_month_day(ms),
        1 <= md.0 <= 12,
        1 <= md.1 <= 31,
{
    let dt = chrono::DateTime::from_timestamp_millis(ms).unwrap();
    (dt.month(), dt.day())
}

/// Euclidean quotient and remainder of `x` by a positive `d`.
pub fn floor_div_mod(x: i64, d: i64) -> (qr: (i64, i64))
    requires
        d > 0,
    ensures
        qr.0 == x / d,
        qr.1 == x % d,
        0 <= qr.1 < d,
        x == d * qr.0 + qr.1,
{
    if x >= 0 {
        let q = x / d;
        let r = x % d;
        assert(x == d * q + r) by {
            vstd::arithmetic::div_mod::lemma_fundamental_div_mod(x as int, d as int);
        }
        (q, r)
    } else {
        let y: i64 = -(x + 1);
        let qy = y / d;
        let ry = y % d;
        assert(y == d * qy + ry) by {
            vstd::arithmetic::div_mod::lemma_fundamental_div_mod(y as int, d as int);
        }
        assert(0 <= ry < d);
        let q: i64 = -qy - 1;
        let r: i64 = d - 1 - ry;
        assert(x == q * d + r) by (nonlinear_arith)
            requires
                y == -(x + 1),
                y == d * qy + ry,
                q == -qy - 1,
                r == d - 1 - ry;
        proof {
            vstd::arithmetic::div_mod::lemma_fundamental_div_mod_converse_mod(x as int, d as int, q as int, r as int);
            vstd::arithmetic::div_mod::lemma_fundamental_div_mod_converse_div(x as int, d as int, q as int, r as int);
        }
        (q, r)
    }
}

/// `x % (a * b) == a * ((x / a) % b) + x % a` for every integer `x`.
proof fn lemma_breakdown_any(x: int, a: int, b: int)
    requires
        a > 0,
        b > 0,
    ensures
        a * b > 0,
        x % (a * b) == a * ((x / a) % b) + x % a,
        x / (a * b) == (x / a) / b,
{
    let q1 = x / a;
    let r1 = x % a;
    let q2 = q1 / b;
    let r2 = q1 % b;
    vstd::arithmetic::div_mod::lemma_fundamental_div_mod(x, a);
    vstd::arithmetic::div_mod::lemma_fundamental_div_mod(q1, b);
    assert(a * b > 0) by (nonlinear_arith)
        requires a > 0, b > 0;
    assert(0 <= r1 < a);
    assert(0 <= r2 < b);
    assert(x == q2 * (a * b) + (a * r2 + r1)) by (nonlinear_arith)
        requires
            x == a * q1 + r1,
            q1 == b * q2 + r2;
    assert(0 <= a * r2 + r1 < a * b) by (nonlinear_arith)
        requires 0 <= r1 < a, 0 <= r2 < b, a > 0;
    vstd::arithmetic::div_mod::lemma_fundamental_div_mod_converse_mod(x, a * b, q2, a * r2 + r1);
    vstd::arithmetic::div_mod::lemma_fundamental_div_mod_converse_div(x, a * b, q2, a * r2 + r1);
}

/// Minutes truncated off the current minute for `interval`, from the minute
/// count `m` since the epoch: `m % (unit / 60000)`.
proof fn lemma_minutes_within_unit(m: int)
    ensures
        m % 15 == (m % 60) % 15,
        m % 240 == ((m / 60) % 24) % 4 * 60 + m % 60,
        m % 1440 == ((m / 60) % 24) * 60 + m % 60,
{
    lemma_breakdown_any(m, 15, 4);
    assert(15 * 4 == 60);
    vstd::arithmetic::div_mod::lemma_mod_mod(m, 15, 4);
    lemma_breakdown_any(m, 60, 4);
    assert(60 * 4 == 240);
    lemma_breakdown_any(m, 60, 24);
    assert(60 * 24 == 1440);
    lemma_breakdown_any(m / 60, 4, 6);
    assert(4 * 6 == 24);
    vstd::arithmetic::div_mod::lemma_mod_mod(m / 60, 4, 6);
}

/// `now % (60000 * k) == 60000 * ((now / 60000) % k) + now % 60000`.
proof fn lemma_unit_split(now: int, k: int)
    requires
        k > 0,
    ensures
        now % (60000 * k) == 60000 * ((now / 60000) % k) + now % 60000,
{
    lemma_breakdown_any(now, 60000, k);
}

/// Opening time of the candle of `interval` that holds the instant `now`
/// (milliseconds since the epoch): seconds and sub-second parts are dropped,
/// then minutes (and hours) down to the interval's boundary.
pub fn open_time_at(now: i64, interval: &str) -> (t: i64)
    requires
        -10000000000000000 < now < 10000000000000000,
    ensures
        t == spec_open_time(now as int, interval@),
{
    let (minutes_total, below_minute) = floor_div_mod(now, MINUTE_MS);
    let (hours_total, minute) = floor_div_mod(minutes_total, 60);
    let (_days, hour) = floor_div_mod(hours_total, 24);
    let truncated = now - below_minute;
    proof {
        lemma_minutes_within_unit(minutes_total as int);
        vstd::arithmetic::div_mod::lemma_fundamental_div_mod(now as int, 60000);
    }
    if str_eq(interval, "15m") {
        let minutes = minute % 15;
        assert(minutes == (minutes_total as int) % 15);
        proof { lemma_unit_split(now as int, 15); }
        truncated - minutes * 60000
    } else if str_eq(interval, "4h") {
        let hours = hour % 4;
        proof { lemma_unit_split(now as int, 240); }
        truncated - (hours * 3600 + minute * 60) * 1000
    } else if str_eq(interval, "1d") {
        proof { lemma_unit_split(now as int, 1440); }
        truncated - (hour * 3600 + minute * 60) * 1000
    } else {
        truncated
    }
}

/// As `open_time_at`, but only whole seconds are taken off below the minute,
/// so the milliseconds of the current second remain.
pub fn open_time_keep_millis_at(now: i64, interval: &str) -> (t: i64)
    requires
        -10000000000000000 < now < 10000000000000000,
    ensures
        t == spec_open_time_keep_millis(now as int, interval@),
{
    let (_seconds, millis) = floor_div_mod(now, 1000);
    proof {
        lemma_breakdown_any(now as int, 1000, 60);
        assert(1000 * 60 == 60000);
    }
    open_time_at(now, interval) + millis
}

/// Opening time of the current candle of `interval`, read from the clock.
/// Whatever the clock returns, the result is on a boundary of the interval's
/// unit and within one unit of that reading.
pub fn current_open_time(interval: &str) -> (t: i64)
    ensures
        exists|now: int| 0 <= now <= LATEST_MS && t == spec_open_time(now, interval@),
{
    let now = now_millis();
    open_time_at(now, interval)
}

/// As `current_open_time`, keeping the milliseconds of the current second.
pub fn current_open_time_keep_millis(interval: &str) -> (t: i64)
    ensures
        exists|now: int| 0 <= now <= LATEST_MS && t == spec_open_time_keep_millis(now, interval@),
{
    let now = now_millis();
    open_time_keep_millis_at(now, interval)
}

/// The opening time of the candle that holds `now` is at or before `now`,
/// less than one unit before it, on a boundary of the unit, and is its own
/// opening time.
pub proof fn law_open_time_bracket(now: int, interval: Seq<char>)
    ensures
        spec_open_time(now, interval) <= now < spec_open_time(now, interval) + open_unit(interval),
        spec_open_time(now, interval) % open_unit(interval) == 0,
        spec_open_time(spec_open_time(now, interval), interval) == spec_open_time(now, interval),
{
    let u = open_unit(interval);
    assert(u > 0);
    vstd::arithmetic::div_mod::lemma_fundamental_div_mod(now, u);
    assert(now - now % u == (now / u) * u) by (nonlinear_arith)
        requires now == u * (now / u) + now % u;
    vstd::arithmetic::div_mod::lemma_mod_multiples_basic(now / u, u);
}

/// For the intervals whose candles the exchange is asked for (`"1m"`,
/// `"15m"`, `"4h"` and `"1d"`), the truncation unit is the candle step, so
/// every opening time lies on the grid of candle steps.
pub proof fn law_open_time_on_candle_grid(now: int, interval: Seq<char>)
    requires
        interval == "1m"@ || interval == "15m"@ || interval == "4h"@ || interval == "1d"@,
    ensures
        open_unit(interval) == spec_timestep(interval),
        spec_open_time(now, interval) % spec_timestep(interval) == 0,
{
    reveal_strlit("1m");
    reveal_strlit("15m");
    reveal_strlit("4h");
    reveal_strlit("1d");
    assert("1m"@.len() != "15m"@.len() && "15m"@.len() != "4h"@.len() && "15m"@.len() != "1d"@.len());
    assert("1m"@[1] != "4h"@[1] && "1m"@[1] != "1d"@[1] && "4h"@[1] != "1d"@[1]);
    law_open_time_bracket(now, interval);
}

} // verus!
