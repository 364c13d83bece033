//! Payload of a klines flush response.
use vstd::prelude::*;

verus! {

/// The klines of a flush response, as the exchange lists them: opening time,
/// open, high, low, close, volume, closing time, quote volume, number of
/// trades, taker buy base and quote volumes, and an unused field.
pub struct KlinesFlushPayload<T> {
    pub result: Vec<(i64, T, T, T, T, T, i64, T, u32, T, T, T)>,
}

} // verus!
