//! Futures klines: the opening time of the current candle.
use vstd::prelude::*;
use crate::timing::{spec_open_time_keep_millis, current_open_time_keep_millis, open_time_keep_millis_at, LATEST_MS};

verus! {

/// Futures klines repository.
#[derive(Default)]
pub struct KlinesRepository {}

impl KlinesRepository {
    /// Opening time of the current candle of `interval`, from the clock;
    /// only whole seconds are taken off below the minute, so the
    /// milliseconds of the current second remain.
    pub fn timestamp(&self, interval: String) -> (t: i64)
        ensures
            exists|now: int| 0 <= now <= LATEST_MS
                && t == spec_open_time_keep_millis(now, interval@),
    {
        current_open_time_keep_millis(interval.as_str())
    }

    /// The same, for the instant `now`.
    pub fn timestamp_at(&self, now: i64, interval: &str) -> (t: i64)
        requires
            -10000000000000000 < now < 10000000000000000,
        ensures
            t == spec_open_time_keep_millis(now as int, interval@),
    {
        open_time_keep_millis_at(now, interval)
    }
}

} // verus!
