//! Spot klines: candle time arithmetic and the repair plan for missing
//! candles in a stored series.
use vstd::prelude::*;
use crate::timing::{spec_open_time, spec_timestep, timestep, current_open_time, open_time_at, LATEST_MS};
use crate::replies::{Reply, reply_rows, rows_of_replies};
use crate::text::{string_views, format_i64, int_decimal};
use crate::signing::{pair_views, text_pair, form_urlencode, form_query};

verus! {

/// Largest magnitude of a timestamp handled here (milliseconds); chrono's
/// dates lie well within it.
pub open spec fn timestamp_bound() -> int {
    10000000000000000
}

/// `a / b` rounded toward zero, as Rust's integer division does (`b > 0`).
pub open spec fn trunc_div(a: int, b: int) -> int {
    if a >= 0 {
        a / b
    } else {
        -((-a) / b)
    }
}

/// How many candles of length `step` lie between `value` and `timestamp`:
/// `(timestamp - value) / step`, the quotient rounded toward zero as integer
/// division does.
pub open spec fn candle_index(timestamp: int, step: int, value: int) -> int {
    trunc_div(timestamp - value, step)
}

/// The candle indices of the stored opening times.
pub open spec fn candle_indices(timestamp: int, step: int, values: Seq<i64>) -> Seq<int> {
    values.map_values(|v: i64| candle_index(timestamp, step, v as int))
}

/// The scan over candle indices, newest first. The state is
/// `(stopped, first, last)`: `first` is the first index that broke the
/// run of consecutive indices (`-1` while none has), `last` the previous index
/// seen (`-1` at the start), and `stopped` tells that, after a break, a
/// consecutive pair was met again, which ends the scan.
pub open spec fn gap_scan(ks: Seq<int>, n: nat) -> (bool, int, int)
    decreases n,
{
    if n == 0 {
        (false, -1, -1)
    } else {
        let prev = gap_scan(ks, (n - 1) as nat);
        if n > ks.len() || prev.0 {
            prev
        } else {
            let k = ks[n - 1];
            if k == prev.2 + 1 {
                if prev.1 != -1 {
                    (true, prev.1, prev.2)
                } else {
                    (false, prev.1, k)
                }
            } else {
                (false, if prev.1 == -1 { k } else { prev.1 }, k)
            }
        }
    }
}

pub open spec fn max_int(a: int, b: int) -> int {
    if a >= b { a } else { b }
}

/// The klines to fetch again for a series, as `(endtime, limit)`: `limit`
/// candles whose opening time is at most `endtime`. `values` are the stored
/// opening times after `timestamp - offset * step`, newest first.
///
/// Nothing is fetched when exactly `offset` candles are stored. After a break
/// in the run of consecutive candles, the fetch ends at the candle just newer
/// than the first one stored after the break and reaches back
/// `max(last - first + 1, 100)` candles. With no break but too few candles,
/// the missing older candles are fetched.
pub open spec fn spec_fix_plan(timestamp: int, step: int, offset: int, values: Seq<i64>) -> Option<(int, int)> {
    if offset >= 0 && values.len() == offset {
        None
    } else {
        let ks = candle_indices(timestamp, step, values);
        let st = gap_scan(ks, ks.len());
        let first = st.1;
        let last = st.2;
        if st.0 || (first != -1 && last != -1) {
            let limit = max_int(last - first + 1, 100);
            Some((timestamp - (first - limit) * step, limit))
        } else if last < offset - 1 {
            let limit = offset - last - 1;
            Some((timestamp - (offset - limit) * step, limit))
        } else {
            None
        }
    }
}

/// Inputs within the ranges of real candle times: the bounds keep every
/// intermediate value of the plan within `i64`.
pub open spec fn plan_inputs_in_range(timestamp: int, step: int, offset: int, values: Seq<i64>) -> bool {
    &&& 0 < step <= 1000000000
    &&& -timestamp_bound() <= timestamp <= timestamp_bound()
    &&& -1000000 <= offset <= 1000000
    &&& forall|n: int| 0 <= n < values.len() ==> -timestamp_bound() <= #[trigger] values[n] <= timestamp_bound()
}

proof fn lemma_trunc_div_bound(a: int, b: int)
    requires
        b > 0,
        -2 * timestamp_bound() <= a <= 2 * timestamp_bound(),
    ensures
        -2 * timestamp_bound() <= trunc_div(a, b) * b <= 2 * timestamp_bound(),
        -2 * timestamp_bound() <= trunc_div(a, b) <= 2 * timestamp_bound(),
{
    if a >= 0 {
        let q = a / b;
        vstd::arithmetic::div_mod::lemma_fundamental_div_mod(a, b);
        assert(0 <= a % b < b);
        assert(0 <= q * b <= a && 0 <= q <= a) by (nonlinear_arith)
            requires a == b * q + a % b, 0 <= a % b < b, b > 0, a >= 0;
    } else {
        let q = (-a) / b;
        vstd::arithmetic::div_mod::lemma_fundamental_div_mod(-a, b);
        assert(0 <= (-a) % b < b);
        assert(0 <= q * b <= -a && 0 <= q <= -a) by (nonlinear_arith)
            requires -a == b * q + (-a) % b, 0 <= (-a) % b < b, b > 0, a < 0;
        assert(trunc_div(a, b) == -q);
        assert((-q) * b == -(q * b)) by (nonlinear_arith);
    }
}

/// Scan state bounds: indices seen stay within the bounds of the indices.
proof fn lemma_scan_bounds(ks: Seq<int>, n: nat, bound: int)
    requires
        bound >= 1,
        forall|m: int| 0 <= m < ks.len() ==> -bound <= #[trigger] ks[m] <= bound,
    ensures
        -bound <= gap_scan(ks, n).1 <= bound,
        -bound <= gap_scan(ks, n).2 <= bound,
    decreases n,
{
    if n > 0 {
        lemma_scan_bounds(ks, (n - 1) as nat, bound);
    }
}

proof fn lemma_scan_stays_stopped(ks: Seq<int>, n: nat, m: nat)
    requires
        n <= m,
        gap_scan(ks, n).0,
    ensures
        gap_scan(ks, m) == gap_scan(ks, n),
    decreases m - n,
{
    if n < m {
        lemma_scan_stays_stopped(ks, n, (m - 1) as nat);
    }
}

/// The fetch window after a break: `limit = max(last - first + 1, 100)`
/// candles, ending at the opening time of candle `first - limit`.
fn plan_window(timestamp: i64, step: i64, first: i64, last: i64) -> (w: (i64, i64))
    requires
        0 < step <= 1000000000,
        -timestamp_bound() <= timestamp <= timestamp_bound(),
        -2 * timestamp_bound() <= first * step <= 2 * timestamp_bound(),
        -2 * timestamp_bound() <= last * step <= 2 * timestamp_bound(),
        -2 * timestamp_bound() <= first <= 2 * timestamp_bound(),
        -2 * timestamp_bound() <= last <= 2 * timestamp_bound(),
    ensures
        w.1 == max_int(last - first + 1, 100),
        w.0 == timestamp - (first - w.1) * step,
{
    let span = last - first + 1;
    let limit: i64 = if span >= 100 { span } else { 100 };
    assert((first - limit) * step == first * step - limit * step) by (nonlinear_arith);
    if span >= 100 {
        assert(limit * step == last * step - first * step + step) by (nonlinear_arith)
            requires limit == last - first + 1;
    } else {
        assert(limit * step == 100 * step);
    }
    (timestamp - (first - limit) * step, limit)
}

/// The parameters of a klines request: `endTime` only when it is positive.
pub open spec fn spec_flush_params(symbol: Seq<char>, interval: Seq<char>, endtime: int, limit: int) -> Seq<(Seq<char>, Seq<char>)> {
    let head = seq![("symbol"@, symbol), ("interval"@, interval)];
    let with_end = if endtime > 0 { head.push(("endTime"@, int_decimal(endtime))) } else { head };
    with_end.push(("limit"@, int_decimal(limit)))
}

/// Spot klines repository.
#[derive(Default)]
pub struct KlinesRepository {}

impl KlinesRepository {
    /// Milliseconds between two consecutive candles of `interval`.
    pub fn timestep(interval: &str) -> (step: i64)
        ensures
            step == spec_timestep(interval@),
    {
        timestep(interval)
    }

    /// Opening time of the current candle of `interval`, from the clock.
    pub fn timestamp(interval: &str) -> (t: i64)
        ensures
            exists|now: int| 0 <= now <= LATEST_MS && t == spec_open_time(now, interval@),
    {
        current_open_time(interval)
    }

    /// Opening time of the candle of `interval` that holds the instant `now`.
    pub fn timestamp_at(now: i64, interval: &str) -> (t: i64)
        requires
            -10000000000000000 < now < 10000000000000000,
        ensures
            t == spec_open_time(now as int, interval@),
    {
        open_time_at(now, interval)
    }

    /// The parameters of a request for `limit` klines of `symbol` and
    /// `interval` up to `endtime`.
    pub fn flush_params(symbol: &str, interval: &str, endtime: i64, limit: i64) -> (params: Vec<(String, String)>)
        ensures
            pair_views(params@) == spec_flush_params(symbol@, interval@, endtime as int, limit as int),
    {
        let mut params: Vec<(String, String)> = Vec::new();
        params.push(text_pair("symbol", symbol));
        params.push(text_pair("interval", interval));
        if endtime > 0 {
            let e = format_i64(endtime);
            params.push(text_pair("endTime", e.as_str()));
        }
        let l = format_i64(limit);
        params.push(text_pair("limit", l.as_str()));
        assert(pair_views(params@) =~= spec_flush_params(symbol@, interval@, endtime as int, limit as int));
        params
    }

    /// The query of that request.
    pub fn flush_query(symbol: &str, interval: &str, endtime: i64, limit: i64) -> (query: String)
        ensures
            query@ == form_query(spec_flush_params(symbol@, interval@, endtime as int, limit as int)),
    {
        let params = Self::flush_params(symbol, interval, endtime, limit);
        form_urlencode(&params)
    }

    /// The rows of a multi-key read: for each symbol, the fields that were
    /// found, or no field when the key is absent.
    pub fn rows(replies: &Vec<Reply>) -> (rows: Vec<Vec<String>>)
        ensures
            rows@.len() == replies@.len(),
            forall|n: int| 0 <= n < rows@.len() ==> string_views(#[trigger] rows@[n]@) == reply_rows(replies@)[n],
    {
        rows_of_replies(replies)
    }

    /// Computes `spec_fix_plan`: which klines to fetch again so that the series
    /// after `timestamp - offset * step` has no missing candle.
    pub fn fix_plan(
            timestamp: i64, step: i64, offset: i64, values: &Vec<i64>) -> (plan: Option<(i64, i64)>)
        requires
            plan_inputs_in_range(timestamp as int, step as int, offset as int, values@),
        ensures
            match plan {
                Some((endtime, limit)) => spec_fix_plan(timestamp as int, step as int, offset as int, values@)
                    == Some((endtime as int, limit as int)),
                None => spec_fix_plan(timestamp as int, step as int, offset as int, values@) is None,
            },
    {
        if offset >= 0 && values.len() == offset as usize {
            return None;
        }
        let ghost ks = candle_indices(timestamp as int, step as int, values@);
        let bnd: i64 = 20000000000000000;
        assert forall|m: int| 0 <= m < ks.len() implies -bnd <= #[trigger] ks[m] <= bnd by {
            lemma_trunc_div_bound(timestamp - values@[m], step as int);
        }
        let mut first: i64 = -1;
        let mut last: i64 = -1;
        let mut n: usize = 0;
        while n < values.len()
            invariant
                plan_inputs_in_range(timestamp as int, step as int, offset as int, values@),
                ks == candle_indices(timestamp as int, step as int, values@),
                forall|m: int| 0 <= m < ks.len() ==> -bnd <= #[trigger] ks[m] <= bnd,
                n <= values.len(),
                gap_scan(ks, n as nat) == (false, first as int, last as int),
                -2 * timestamp_bound() <= first * step <= 2 * timestamp_bound(),
                -2 * timestamp_bound() <= last * step <= 2 * timestamp_bound(),
                -bnd <= first <= bnd,
                -bnd <= last <= bnd,
                bnd == 20000000000000000,
                !(offset >= 0 && values@.len() == offset),
            decreases values.len() - n,
        {
            let v = values[n];
            let k = (timestamp - v) / step;
            assert(k == ks[n as int]) by {
                assert(ks[n as int] == candle_index(timestamp as int, step as int, v as int));
            }
            proof {
                lemma_trunc_div_bound(timestamp - v, step as int);
            }
            proof {
                lemma_scan_bounds(ks, n as nat, bnd as int);
            }
            if k == last + 1 {
                if first != -1 {
                    assert(gap_scan(ks, (n + 1) as nat) == (true, first as int, last as int));
                    proof {
                        lemma_scan_stays_stopped(ks, (n + 1) as nat, ks.len());
                    }
                    let w = plan_window(timestamp, step, first, last);
                    assert(ks.len() == values@.len());
                    return Some(w);
                }
            } else {
                if first == -1 {
                    first = k;
                }
            }
            last = k;
            n = n + 1;
        }
        assert(ks.len() == values.len());
        if first != -1 && last != -1 {
            return Some(plan_window(timestamp, step, first, last));
        }
        if last < offset - 1 {
            let limit = offset - last - 1;
            assert((offset - limit) * step == (last + 1) * step);
            assert((last + 1) * step == last * step + step) by (nonlinear_arith);
            return Some((timestamp - (offset - limit) * step, limit));
        }
        None
    }
}

/// Stored opening times that sit exactly on candle boundaries counted back
/// from `timestamp`: the `n`-th newest is `idx[n]` candles old, with the
/// ages strictly increasing.
pub open spec fn aligned_series(timestamp: int, step: int, values: Seq<i64>, idx: Seq<int>) -> bool {
    &&& idx.len() == values.len()
    &&& forall|n: int| 0 <= n < values.len() ==> #[trigger] values[n] == timestamp - idx[n] * step
    &&& forall|n: int| 0 <= n < idx.len() ==> 0 <= #[trigger] idx[n]
    &&& forall|n: int, m: int| 0 <= n < m < idx.len() ==> idx[n] < idx[m]
}

proof fn lemma_aligned_indices(timestamp: int, step: int, values: Seq<i64>, idx: Seq<int>)
    requires
        step > 0,
        aligned_series(timestamp, step, values, idx),
    ensures
        candle_indices(timestamp, step, values) =~= idx,
{
    let ks = candle_indices(timestamp, step, values);
    assert forall|n: int| 0 <= n < idx.len() implies ks[n] == idx[n] by {
        let a = timestamp - values[n];
        assert(a == idx[n] * step);
        assert(a >= 0) by (nonlinear_arith) requires a == idx[n] * step, idx[n] >= 0, step > 0;
        vstd::arithmetic::div_mod::lemma_div_multiples_vanish(idx[n], step);
        assert(idx[n] * step == step * idx[n]) by (nonlinear_arith);
    }
}

/// While the indices run `0, 1, 2, ...`, the scan has met no break.
proof fn lemma_scan_steady_prefix(ks: Seq<int>, n: nat)
    requires
        n <= ks.len(),
        forall|m: int| 0 <= m < n ==> #[trigger] ks[m] == m,
    ensures
        gap_scan(ks, n) == (false, -1int, n - 1),
    decreases n,
{
    if n > 0 {
        lemma_scan_steady_prefix(ks, (n - 1) as nat);
    }
}

/// Once the first break at position `b` has set `first = ks[b] >= 1`, the
/// scan keeps it, and `last` stays non-negative.
proof fn lemma_scan_after_break(ks: Seq<int>, b: nat, n: nat)
    requires
        b < n <= ks.len(),
        forall|m: int| 0 <= m < ks.len() ==> 0 <= #[trigger] ks[m],
        forall|m: int| 0 <= m < b ==> #[trigger] ks[m] == m,
        ks[b as int] != b,
    ensures
        gap_scan(ks, n).1 == ks[b as int],
        gap_scan(ks, n).2 >= 0,
    decreases n,
{
    if n == b + 1 {
        lemma_scan_steady_prefix(ks, b);
    } else {
        lemma_scan_after_break(ks, b, (n - 1) as nat);
    }
}

/// When the stored candles are the newest ones without a hole but fewer
/// than `offset`, exactly the missing older candles are fetched: the
/// `offset - len` candles ending at the opening time of candle `len`.
pub proof fn law_fix_plan_fetches_missing_tail(timestamp: int, step: int, offset: int, values: Seq<i64>)
    requires
        step > 0,
        values.len() < offset,
        forall|n: int| 0 <= n < values.len() ==> #[trigger] values[n] == timestamp - n * step,
    ensures
        spec_fix_plan(timestamp, step, offset, values)
            == Some((timestamp - values.len() * step, offset - values.len())),
{
    let idx = Seq::new(values.len(), |n: int| n);
    assert forall|n: int| 0 <= n < values.len() implies #[trigger] values[n] == timestamp - idx[n] * step by {}
    lemma_aligned_indices(timestamp, step, values, idx);
    let ks = candle_indices(timestamp, step, values);
    lemma_scan_steady_prefix(ks, ks.len());
}

/// When exactly `offset` candles are stored, nothing is fetched.
pub proof fn law_fix_plan_complete(timestamp: int, step: int, offset: int, values: Seq<i64>)
    requires
        values.len() == offset,
    ensures
        spec_fix_plan(timestamp, step, offset, values) is None,
{
}

/// After a hole in an aligned series (the `b` newest candles are
/// present, candle `b` is not), the fetch ends at the candle just newer than
/// the first candle stored after the hole, `idx[b]`, and reaches back at least
/// 100 candles: it covers candles `idx[b] - limit` to `idx[b] - 1`.
pub proof fn law_fix_plan_after_hole(timestamp: int, step: int, offset: int, values: Seq<i64>, idx: Seq<int>, b: nat)
    requires
        step > 0,
        values.len() != offset,
        aligned_series(timestamp, step, values, idx),
        b < idx.len(),
        forall|m: int| 0 <= m < b ==> #[trigger] idx[m] == m,
        idx[b as int] != b,
    ensures
        spec_fix_plan(timestamp, step, offset, values) matches Some((endtime, limit))
            && limit >= 100
            && endtime == timestamp - (idx[b as int] - limit) * step,
{
    lemma_aligned_indices(timestamp, step, values, idx);
    let ks = candle_indices(timestamp, step, values);
    lemma_scan_after_break(ks, b, ks.len());
    let st = gap_scan(ks, ks.len());
    if !st.0 {
        assert(st.1 != -1 && st.2 != -1);
    }
}

} // verus!
