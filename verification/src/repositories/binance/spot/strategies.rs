//! Spot strategies: when a new indicator signal is recorded.
use vstd::prelude::*;
use crate::text::{split_seq, spec_parse_int, split_fields, parse_i32, parse_i64};

verus! {

/// Spot strategies repository.
#[derive(Default)]
pub struct StrategiesRepository {}

/// Why a new signal is not recorded.
#[derive(Debug, PartialEq, Eq, Structural)]
pub enum StrategyError {
    /// The indicator's value carries no signal.
    Invalid,
    /// The last recorded signal of the indicator is the same one.
    WaitingForChange,
    /// A signal at the same or a later time is already recorded.
    Exists,
}

/// Whether a signal `signal` at `timestamp` is recorded, given the last
/// recorded `(signal, timestamp)` of the same indicator, if any: it is unless
/// the signal is unchanged, or the record is not older.
pub open spec fn spec_accept(last: Option<(i32, i64)>, signal: i32, timestamp: i64) -> Result<(), StrategyError> {
    match last {
        None => Ok(()),
        Some((s, t)) => if s == signal {
            Err(StrategyError::WaitingForChange)
        } else if t >= timestamp {
            Err(StrategyError::Exists)
        } else {
            Ok(())
        },
    }
}

/// The Ichimoku cloud value carries a signal unless it is `0`.
pub open spec fn spec_accept_ichimoku(last: Option<(i32, i64)>, signal: i32, timestamp: i64) -> Result<(), StrategyError> {
    if signal == 0 {
        Err(StrategyError::Invalid)
    } else {
        spec_accept(last, signal, timestamp)
    }
}

/// The fields of a stored Ichimoku cloud value, a comma-separated record:
/// the signal (first field, an `i32`), the price text (seventh field) and
/// the time (eighth field, an `i64`); `None` when a field is missing or does
/// not parse.
pub open spec fn spec_ichimoku_fields(data: Seq<char>) -> Option<(int, Seq<char>, int)> {
    let f = split_seq(data, ',');
    if f.len() < 8 {
        None
    } else {
        match (spec_parse_int(f[0], i32::MIN as int, i32::MAX as int), spec_parse_int(f[7], i64::MIN as int, i64::MAX as int)) {
            (Some(signal), Some(time)) => Some((signal, f[6], time)),
            _ => None,
        }
    }
}

impl StrategiesRepository {
    /// Reads the signal, the price text and the time of a stored Ichimoku
    /// cloud value.
    pub fn ichimoku_fields(data: &str) -> (r: Option<(i32, String, i64)>)
        ensures
            match r {
                Some((signal, price, time)) => spec_ichimoku_fields(data@) == Some((signal as int, price@, time as int)),
                None => spec_ichimoku_fields(data@) is None,
            },
    {
        let fields = split_fields(data, ',');
        proof {
            assert(fields@.len() == split_seq(data@, ',').len());
        }
        if fields.len() < 8 {
            return None;
        }
        proof {
            assert(fields@[0]@ == split_seq(data@, ',')[0]);
            assert(fields@[6]@ == split_seq(data@, ',')[6]);
            assert(fields@[7]@ == split_seq(data@, ',')[7]);
        }
        let signal = parse_i32(fields[0].as_str());
        let time = parse_i64(fields[7].as_str());
        match (signal, time) {
            (Some(signal), Some(time)) => Some((signal, fields[6].clone(), time)),
            _ => None,
        }
    }

    /// Decides whether a new signal of an indicator is recorded.
    pub fn accept(last: Option<(i32, i64)>, signal: i32, timestamp: i64) -> (r: Result<(), StrategyError>)
        ensures
            r == spec_accept(last, signal, timestamp),
    {
        match last {
            None => Ok(()),
            Some((s, t)) => {
                if s == signal {
                    Err(StrategyError::WaitingForChange)
                } else if t >= timestamp {
                    Err(StrategyError::Exists)
                } else {
                    Ok(())
                }
            },
        }
    }

    /// Decides whether the signal of an Ichimoku cloud value is recorded.
    pub fn accept_ichimoku(last: Option<(i32, i64)>, signal: i32, timestamp: i64) -> (r: Result<(), StrategyError>)
        ensures
            r == spec_accept_ichimoku(last, signal, timestamp),
    {
        if signal == 0 {
            return Err(StrategyError::Invalid);
        }
        Self::accept(last, signal, timestamp)
    }
}

/// Once a signal is recorded, the same signal is refused until a
/// different one has been recorded, whatever its time.
pub proof fn law_same_signal_waits(signal: i32, recorded_at: i64, timestamp: i64)
    ensures
        spec_accept(Some((signal, recorded_at)), signal, timestamp) == Err::<(), StrategyError>(StrategyError::WaitingForChange),
{
}

/// A changed signal is recorded exactly when it is newer than the last
/// record.
pub proof fn law_changed_signal_needs_newer(last_signal: i32, recorded_at: i64, signal: i32, timestamp: i64)
    requires
        last_signal != signal,
    ensures
        (spec_accept(Some((last_signal, recorded_at)), signal, timestamp) is Ok) <==> recorded_at < timestamp,
{
}

/// Recording alternates. After a signal is recorded at `t1`, recording
/// it again at any `t2` is refused, and a different signal at `t3 > t1` is
/// recorded.
pub proof fn law_record_then_alternate(s1: i32, t1: i64, s2: i32, t2: i64, t3: i64)
    requires
        s1 != s2,
        t1 < t3,
    ensures
        spec_accept(Some((s1, t1)), s1, t2) is Err,
        spec_accept(Some((s1, t1)), s2, t3) is Ok,
{
}

/// The Ichimoku cloud refuses a value only for carrying no signal (`0`):
/// every other signal, long or short, is decided as any indicator's, and is
/// recorded exactly when nothing is recorded yet, or the last record holds a
/// different signal at an earlier time.
pub proof fn law_ichimoku_signal_rule(last: Option<(i32, i64)>, signal: i32, timestamp: i64)
    ensures
        signal == 0 ==> spec_accept_ichimoku(last, signal, timestamp) == Err::<(), StrategyError>(StrategyError::Invalid),
        signal != 0 ==> spec_accept_ichimoku(last, signal, timestamp) == spec_accept(last, signal, timestamp),
        signal != 0 ==> ((spec_accept_ichimoku(last, signal, timestamp) is Ok) <==> match last {
            None => true,
            Some((s, t)) => s != signal && t < timestamp,
        }),
        last matches Some((s, _)) && s == signal && signal != 0
            ==> spec_accept_ichimoku(last, signal, timestamp) == Err::<(), StrategyError>(StrategyError::WaitingForChange),
        last matches Some((s, t)) && s != signal && t >= timestamp && signal != 0
            ==> spec_accept_ichimoku(last, signal, timestamp) == Err::<(), StrategyError>(StrategyError::Exists),
{
}

} // verus!
