//! Spot indicators: the checks that a loaded kline series is complete and
//! current before an indicator is computed from it, and the half-hour slot
//! of a candle used by the volume profile.
use vstd::prelude::*;
use crate::timing::{
    spec_open_time, spec_timestep, timestep, current_open_time, open_time_at, floor_div_mod,
    utc_month_day, utc_month_day_of, now_millis, EARLIEST_MS, LATEST_MS,
};

verus! {

/// Spot indicators repository.
#[derive(Default)]
pub struct IndicatorsRepository {}

/// Why a loaded series cannot be used.
#[derive(Debug, PartialEq, Eq, Structural)]
pub enum SeriesError {
    /// Fewer klines than asked for were stored.
    NotEnough,
    /// The newest kline is older than one minute before the current candle:
    /// the klines are waiting to be flushed.
    Waiting,
    /// Two consecutive klines are not one step apart: a kline is missing.
    Lost,
    /// The first kline kept does not fall on today's date (month and day,
    /// UTC).
    NotToday,
}

/// The series check fails at position `n` because the kline there is still
/// treated as the first one (all earlier opening times are zero) and is too
/// old.
pub open spec fn waiting_at(ts: Seq<i64>, current: int, n: int) -> bool {
    &&& forall|m: int| 0 <= m < n ==> #[trigger] ts[m] == 0
    &&& ts[n] < current - 60000
}

/// The series check fails at position `n` because the previous kline has a
/// positive opening time that is not one step after this one.
pub open spec fn lost_at(ts: Seq<i64>, step: int, n: int) -> bool {
    n > 0 && ts[n - 1] > 0 && ts[n - 1] != ts[n] + step
}

pub open spec fn fails_at(ts: Seq<i64>, current: int, step: int, n: int) -> bool {
    waiting_at(ts, current, n) || lost_at(ts, step, n)
}

/// The opening time kept as the series' first: the first non-zero one, or
/// zero when there is none.
pub open spec fn first_nonzero(ts: Seq<i64>) -> int
    decreases ts.len(),
{
    if ts.len() == 0 {
        0
    } else if ts[0] != 0 {
        ts[0] as int
    } else {
        first_nonzero(ts.subrange(1, ts.len() as int))
    }
}

/// The outcome of checking a series loaded newest first with `limit` asked
/// for: not enough klines; otherwise the error at the first failing position
/// (waiting before lost at the same position); otherwise the first non-zero
/// opening time.
pub open spec fn spec_check_series(ts: Seq<i64>, limit: int, current: int, step: int) -> Result<int, SeriesError> {
    if limit < 0 || ts.len() < limit {
        Err(SeriesError::NotEnough)
    } else if exists|n: int| 0 <= n < ts.len() && fails_at(ts, current, step, n) {
        let n = choose|n: int| 0 <= n < ts.len() && fails_at(ts, current, step, n)
            && forall|m: int| 0 <= m < n ==> !fails_at(ts, current, step, m);
        if waiting_at(ts, current, n) {
            Err(SeriesError::Waiting)
        } else {
            Err(SeriesError::Lost)
        }
    } else {
        Ok(first_nonzero(ts))
    }
}

pub open spec fn series_in_range(ts: Seq<i64>, current: int, step: int) -> bool {
    &&& 0 < step <= 1000000000
    &&& -10000000000000000 <= current <= 10000000000000000
    &&& forall|n: int| 0 <= n < ts.len() ==> -10000000000000000 <= #[trigger] ts[n] <= 10000000000000000
}

/// The half-hour slot of a candle opening at `ts` (UTC): `2 * hour + 1`,
/// plus one more after the 30th minute of the hour.
pub open spec fn spec_volume_slot(ts: int) -> int {
    let hour = (ts / 3600000) % 24;
    let minute = (ts / 60000) % 60;
    2 * hour + 1 + if minute > 30 { 1int } else { 0int }
}

proof fn lemma_first_nonzero_prefix(ts: Seq<i64>, n: int)
    requires
        0 <= n <= ts.len(),
        forall|m: int| 0 <= m < n ==> #[trigger] ts[m] == 0,
    ensures
        first_nonzero(ts) == first_nonzero(ts.subrange(n, ts.len() as int)),
    decreases n,
{
    if n > 0 {
        let rest = ts.subrange(1, ts.len() as int);
        assert(ts[0] == 0);
        assert(first_nonzero(ts) == first_nonzero(rest));
        assert forall|m: int| 0 <= m < n - 1 implies #[trigger] rest[m] == 0 by {
            assert(rest[m] == ts[m + 1]);
        }
        lemma_first_nonzero_prefix(rest, n - 1);
        assert(rest.subrange(n - 1, rest.len() as int) =~= ts.subrange(n, ts.len() as int));
    } else {
        assert(ts.subrange(0, ts.len() as int) =~= ts);
    }
}

impl IndicatorsRepository {
    /// Milliseconds between two consecutive candles of `interval`.
    pub fn timestep(interval: &str) -> (step: i64)
        ensures
            step == spec_timestep(interval@),
    {
        timestep(interval)
    }

    /// Opening time of the current candle of `interval`, from the clock.
    pub fn timestamp(interval: &str) -> (t: i64)
        ensures
            exists|now: int| 0 <= now <= LATEST_MS && t == spec_open_time(now, interval@),
    {
        current_open_time(interval)
    }

    /// Opening time of the candle of `interval` that holds the instant `now`.
    pub fn timestamp_at(now: i64, interval: &str) -> (t: i64)
        requires
            -10000000000000000 < now < 10000000000000000,
        ensures
            t == spec_open_time(now as int, interval@),
    {
        open_time_at(now, interval)
    }

    /// Checks a kline series loaded newest first (`ts` are the opening times)
    /// against the current candle's opening time `current` and the interval's
    /// `step`; on success returns the first opening time kept.
    pub fn check_series(ts: &Vec<i64>, limit: i64, current: i64, step: i64) -> (r: Result<i64, SeriesError>)
        requires
            series_in_range(ts@, current as int, step as int),
        ensures
            match r {
                Ok(first) => spec_check_series(ts@, limit as int, current as int, step as int) == Ok::<int, SeriesError>(first as int),
                Err(e) => spec_check_series(ts@, limit as int, current as int, step as int) == Err::<int, SeriesError>(e),
            },
    {
        if limit < 0 || (ts.len() as u64) < (limit as u64) {
            return Err(SeriesError::NotEnough);
        }
        let mut first: i64 = 0;
        let mut last: i64 = 0;
        let mut n: usize = 0;
        while n < ts.len()
            invariant
                series_in_range(ts@, current as int, step as int),
                !(limit < 0 || ts@.len() < limit),
                n <= ts.len(),
                forall|m: int| 0 <= m < n ==> !fails_at(ts@, current as int, step as int, m),
                first == 0 <==> (forall|m: int| 0 <= m < n ==> #[trigger] ts@[m] == 0),
                first != 0 ==> first == first_nonzero(ts@),
                n == 0 ==> last == 0,
                n > 0 ==> last == ts@[n - 1],
            decreases ts.len() - n,
        {
            let t = ts[n];
            let ghost all_zero_before = first == 0;
            if first == 0 {
                if t < current - 60000 {
                    proof {
                        assert(waiting_at(ts@, current as int, n as int));
                        choose_first_failure(ts@, current as int, step as int, n as int);
                        assert(spec_check_series(ts@, limit as int, current as int, step as int) == Err::<int, SeriesError>(SeriesError::Waiting));
                    }
                    return Err(SeriesError::Waiting);
                }
                proof {
                    lemma_first_nonzero_prefix(ts@, n as int);
                    reveal_with_fuel(first_nonzero, 2);
                }
                first = t;
            }
            if last > 0 && last != t + step {
                proof {
                    assert(lost_at(ts@, step as int, n as int));
                    if all_zero_before {
                        assert(!(ts@[n as int] < current - 60000));
                    } else {
                        let m = choose|m: int| 0 <= m < n && ts@[m] != 0;
                        assert(!(forall|m: int| 0 <= m < n ==> #[trigger] ts@[m] == 0));
                    }
                    assert(!waiting_at(ts@, current as int, n as int));
                    assert(fails_at(ts@, current as int, step as int, n as int));
                    assert(exists|k: int| 0 <= k < ts@.len() && fails_at(ts@, current as int, step as int, k));
                    choose_first_failure(ts@, current as int, step as int, n as int);
                    assert(spec_check_series(ts@, limit as int, current as int, step as int) == Err::<int, SeriesError>(SeriesError::Lost));
                }
                return Err(SeriesError::Lost);
            }
            assert(!fails_at(ts@, current as int, step as int, n as int));
            last = t;
            n = n + 1;
        }
        assert forall|m: int| 0 <= m < ts@.len() implies !fails_at(ts@, current as int, step as int, m) by {}
        if first == 0 {
            proof {
                lemma_first_nonzero_prefix(ts@, ts@.len() as int);
                assert(ts@.subrange(ts@.len() as int, ts@.len() as int).len() == 0);
            }
        }
        Ok(first)
    }

    /// Compares the month and day (UTC) of the series' first kline with those
    /// of the current instant.
    pub fn check_day(first: (u32, u32), now: (u32, u32)) -> (r: Result<(), SeriesError>)
        ensures
            r == (if first == now { Ok::<(), SeriesError>(()) } else { Err(SeriesError::NotToday) }),
    {
        if first.0 == now.0 && first.1 == now.1 {
            Ok(())
        } else {
            Err(SeriesError::NotToday)
        }
    }

    /// Whether the instants `first` and `now` fall on the same month and day
    /// of the month (UTC); the year is not compared.
    pub fn check_today(first: i64, now: i64) -> (r: Result<(), SeriesError>)
        requires
            EARLIEST_MS <= first <= LATEST_MS,
            EARLIEST_MS <= now <= LATEST_MS,
        ensures
            r == (if utc_month_day(first) == utc_month_day(now) {
                Ok::<(), SeriesError>(())
            } else {
                Err(SeriesError::NotToday)
            }),
    {
        let a = utc_month_day_of(first);
        let b = utc_month_day_of(now);
        Self::check_day(a, b)
    }

    /// Checks a kline series of `interval` loaded newest first against the
    /// clock: the series check against the current candle's opening time,
    /// then that the first kline kept falls on today's date. On success
    /// returns the first opening time kept and the current candle's opening
    /// time.
    pub fn check_klines(ts: &Vec<i64>, limit: i64, interval: &str) -> (r: Result<(i64, i64), SeriesError>)
        requires
            forall|n: int| 0 <= n < ts@.len() ==> EARLIEST_MS <= #[trigger] ts@[n] <= LATEST_MS,
        ensures
            (r == Err::<(i64, i64), SeriesError>(SeriesError::NotEnough)) <==> (limit < 0 || ts@.len() < limit),
            match r {
                Ok((first, current)) => {
                    &&& exists|clock: int| 0 <= clock <= LATEST_MS && current == #[trigger] spec_open_time(clock, interval@)
                    &&& spec_check_series(ts@, limit as int, current as int, spec_timestep(interval@)) == Ok::<int, SeriesError>(first as int)
                    &&& exists|later: i64| 0 <= later <= LATEST_MS && utc_month_day(first) == #[trigger] utc_month_day(later)
                },
                Err(SeriesError::NotToday) => exists|clock: int, first: i64|
                    #![trigger spec_open_time(clock, interval@), utc_month_day(first)]
                    {
                        &&& 0 <= clock <= LATEST_MS
                        &&& spec_check_series(ts@, limit as int, spec_open_time(clock, interval@), spec_timestep(interval@)) == Ok::<int, SeriesError>(first as int)
                        &&& exists|later: i64| 0 <= later <= LATEST_MS && utc_month_day(first) != #[trigger] utc_month_day(later)
                    },
                Err(e) => exists|clock: int| {
                    &&& 0 <= clock <= LATEST_MS
                    &&& spec_check_series(ts@, limit as int, #[trigger] spec_open_time(clock, interval@), spec_timestep(interval@)) == Err::<int, SeriesError>(e)
                },
            },
    {
        let current = Self::timestamp(interval);
        let ghost clock = choose|now: int| 0 <= now <= LATEST_MS && current == spec_open_time(now, interval@);
        let step = Self::timestep(interval);
        let first = match Self::check_series(ts, limit, current, step) {
            Ok(first) => first,
            Err(e) => {
                assert(spec_open_time(clock, interval@) == current);
                return Err(e);
            },
        };
        proof {
            if first != 0 {
                lemma_first_nonzero_is_element(ts@);
            }
        }
        let now = now_millis();
        match Self::check_today(first, now) {
            Ok(()) => {
                assert(spec_open_time(clock, interval@) == current);
                assert(utc_month_day(now) == utc_month_day(first));
                Ok((first, current))
            },
            Err(e) => {
                assert(spec_open_time(clock, interval@) == current);
                assert(utc_month_day(now) != utc_month_day(first));
                Err(e)
            },
        }
    }

    /// The half-hour slot of a candle opening at `ts`.
    pub fn volume_slot(ts: i64) -> (slot: i64)
        ensures
            slot == spec_volume_slot(ts as int),
    {
        let (hours_total, _) = floor_div_mod(ts, 3600000);
        let (_, hour) = floor_div_mod(hours_total, 24);
        let (minutes_total, _) = floor_div_mod(ts, 60000);
        let (_, minute) = floor_div_mod(minutes_total, 60);
        let mut slot = hour * 2 + 1;
        if minute > 30 {
            slot = slot + 1;
        }
        slot
    }
}

/// A non-zero first opening time is one of the series' opening times.
proof fn lemma_first_nonzero_is_element(ts: Seq<i64>)
    requires
        first_nonzero(ts) != 0,
    ensures
        exists|n: int| 0 <= n < ts.len() && ts[n] as int == first_nonzero(ts),
    decreases ts.len(),
{
    if ts[0] != 0 {
        assert(ts[0] as int == first_nonzero(ts));
    } else {
        let rest = ts.subrange(1, ts.len() as int);
        lemma_first_nonzero_is_element(rest);
        let n = choose|n: int| 0 <= n < rest.len() && rest[n] as int == first_nonzero(rest);
        assert(ts[n + 1] == rest[n]);
    }
}

/// At a failing position `n` that follows only passing ones, the failure
/// chosen by `spec_check_series` is the one at `n`.
proof fn choose_first_failure(ts: Seq<i64>, current: int, step: int, n: int)
    requires
        0 <= n < ts.len(),
        fails_at(ts, current, step, n),
        forall|m: int| 0 <= m < n ==> !fails_at(ts, current, step, m),
    ensures
        (choose|k: int| 0 <= k < ts.len() && fails_at(ts, current, step, k)
            && forall|m: int| 0 <= m < k ==> !fails_at(ts, current, step, m)) == n,
{
    let k = choose|k: int| 0 <= k < ts.len() && fails_at(ts, current, step, k)
        && forall|m: int| 0 <= m < k ==> !fails_at(ts, current, step, m);
    assert(0 <= k < ts.len() && fails_at(ts, current, step, k)
        && forall|m: int| 0 <= m < k ==> !fails_at(ts, current, step, m));
    if k < n {
        assert(!fails_at(ts, current, step, k));
    }
    if k > n {
        assert(!fails_at(ts, current, step, n));
    }
}

/// A complete and current series is accepted: when the newest kline opens
/// no earlier than one minute before the current candle and each kline
/// opens exactly one step after the next older one, the check passes with
/// the newest opening time, for any `limit` up to the series' length.
pub proof fn law_consecutive_series_accepted(ts: Seq<i64>, limit: int, current: int, step: int)
    requires
        0 <= limit <= ts.len(),
        ts.len() > 0,
        ts[0] != 0,
        ts[0] >= current - 60000,
        forall|n: int| 0 < n < ts.len() ==> #[trigger] ts[n - 1] == ts[n] + step,
    ensures
        spec_check_series(ts, limit, current, step) == Ok::<int, SeriesError>(ts[0] as int),
{
    assert forall|n: int| 0 <= n < ts.len() implies !fails_at(ts, current, step, n) by {
        if n > 0 {
            assert(ts[n - 1] == ts[n] + step);
            assert(!(forall|m: int| 0 <= m < n ==> #[trigger] ts[m] == 0)) by {
                assert(ts[0] != 0);
            }
        }
    }
}

/// A missing kline is never overlooked: when two consecutive positive
/// opening times of a long enough series are not one step apart, the check
/// fails.
pub proof fn law_gap_refused(ts: Seq<i64>, limit: int, current: int, step: int, n: int)
    requires
        0 <= limit <= ts.len(),
        0 < n < ts.len(),
        ts[n - 1] > 0,
        ts[n - 1] != ts[n] + step,
    ensures
        spec_check_series(ts, limit, current, step) is Err,
{
    assert(fails_at(ts, current, step, n));
}

} // verus!
