//! Payload of a klines flush request.
use vstd::prelude::*;

verus! {

/// Flush the `limit` klines of `symbol` and `interval` up to `endtime`.
pub struct KlinesFlushPayload<T> {
    pub symbol: T,
    pub interval: T,
    pub endtime: i64,
    pub limit: i64,
}

impl<T> KlinesFlushPayload<T> {
    /// A payload with the given fields.
    pub fn new(symbol: T, interval: T, endtime: i64, limit: i64) -> (p: Self)
        ensures
            p.symbol == symbol,
            p.interval == interval,
            p.endtime == endtime,
            p.limit == limit,
    {
        Self { symbol, interval, endtime, limit }
    }
}

} // verus!
