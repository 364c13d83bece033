//! Spot orders: the signed order-history query and the signature check of
//! the order-opening key.
use vstd::prelude::*;
use crate::signing::{pair_views, signed_query, spec_signed_query, text_pair, payload_signature, spec_payload_signature};
use crate::text::{format_i64, int_decimal};

verus! {

/// Spot orders repository.
pub struct OrdersRepository {}

/// The parameters of an order-history request: `startTime` only when it is
/// positive.
pub open spec fn spec_sync_params(symbol: Seq<char>, start_time: int, limit: int, timestamp: int) -> Seq<(Seq<char>, Seq<char>)> {
    let head = seq![("symbol"@, symbol)];
    let with_start = if start_time > 0 { head.push(("startTime"@, int_decimal(start_time))) } else { head };
    with_start + seq![("limit"@, int_decimal(limit)), ("recvWindow"@, "60000"@), ("timestamp"@, int_decimal(timestamp))]
}

/// Why opening orders failed.
#[derive(Debug, PartialEq, Eq, Structural)]
pub enum OpenError {
    /// The key does not parse or cannot sign.
    Key,
    /// Opening orders is not available.
    Unavailable,
}

impl OrdersRepository {
    /// The parameters of an order-history request.
    pub fn sync_params(symbol: &str, start_time: i64, limit: i64, timestamp: i64) -> (params: Vec<(String, String)>)
        ensures
            pair_views(params@) == spec_sync_params(symbol@, start_time as int, limit as int, timestamp as int),
    {
        sync_params(symbol, start_time, limit, timestamp)
    }

    /// The signed query of an order-history request.
    pub fn sync_query(secret: &str, symbol: &str, start_time: i64, limit: i64, timestamp: i64) -> (query: String)
        ensures
            query@ == spec_signed_query(secret@, spec_sync_params(symbol@, start_time as int, limit as int, timestamp as int)),
    {
        let params = sync_params(symbol, start_time, limit, timestamp);
        signed_query(secret, &params)
    }

    /// Signs the fixed probe payload with the trading key and then reports
    /// that opening orders is not available: a key that cannot sign gives
    /// `Key`, any other key `Unavailable`.
    pub fn open(pem: &str) -> (r: Result<(), OpenError>)
        ensures
            match r {
                Ok(()) => false,
                Err(OpenError::Key) => spec_payload_signature(pem@, "symbol=BTCUSDT&timestamp="@) is None,
                Err(OpenError::Unavailable) => spec_payload_signature(pem@, "symbol=BTCUSDT&timestamp="@) is Some,
            },
    {
        match payload_signature(pem, "symbol=BTCUSDT&timestamp=") {
            Some(_) => Err(OpenError::Unavailable),
            None => Err(OpenError::Key),
        }
    }
}

/// The parameters of an order-history request (spot and futures alike).
pub fn sync_params(symbol: &str, start_time: i64, limit: i64, timestamp: i64) -> (params: Vec<(String, String)>)
    ensures
        pair_views(params@) == spec_sync_params(symbol@, start_time as int, limit as int, timestamp as int),
{
    let mut params: Vec<(String, String)> = Vec::new();
    params.push(text_pair("symbol", symbol));
    if start_time > 0 {
        let s = format_i64(start_time);
        params.push(text_pair("startTime", s.as_str()));
    }
    let l = format_i64(limit);
    params.push(text_pair("limit", l.as_str()));
    params.push(text_pair("recvWindow", "60000"));
    let t = format_i64(timestamp);
    params.push(text_pair("timestamp", t.as_str()));
    assert(pair_views(params@) =~= spec_sync_params(symbol@, start_time as int, limit as int, timestamp as int));
    params
}

} // verus!
