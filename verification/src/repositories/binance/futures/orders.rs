//! Futures orders: the signed order-history query and the signed body of a
//! new limit order.
use vstd::prelude::*;
use crate::signing::{
    pair_views, signed_query, spec_signed_query, text_pair, payload_signature, spec_payload_signature,
    raw_payload, spec_raw_payload, form_urlencode, form_query, copy_pairs,
};
use crate::text::{format_i64, int_decimal};
use crate::repositories::binance::spot::orders::{spec_sync_params, sync_params};

verus! {

/// Futures orders repository.
pub struct OrdersRepository {}

/// The parameters of a new limit order, before its signature.
pub open spec fn spec_submit_params(
    symbol: Seq<char>,
    position_side: Seq<char>,
    side: Seq<char>,
    price: Seq<char>,
    quantity: Seq<char>,
    timestamp: int,
) -> Seq<(Seq<char>, Seq<char>)> {
    seq![
        ("symbol"@, symbol),
        ("positionSide"@, position_side),
        ("side"@, side),
        ("type"@, "LIMIT"@),
        ("price"@, price),
        ("quantity"@, quantity),
        ("timeInForce"@, "GTC"@),
        ("newOrderRespType"@, "RESULT"@),
        ("recvWindow"@, "60000"@),
        ("timestamp"@, int_decimal(timestamp)),
    ]
}

/// The form body of a new limit order: its parameters and the `signature`
/// pair, the base64 RSA signature of the raw payload; `None` when the key
/// cannot sign.
pub open spec fn spec_submit_body(pem: Seq<char>, params: Seq<(Seq<char>, Seq<char>)>) -> Option<Seq<char>> {
    match spec_payload_signature(pem, spec_raw_payload(params)) {
        Some(sig) => Some(form_query(params.push(("signature"@, sig)))),
        None => None,
    }
}

impl OrdersRepository {
    /// The parameters of an order-history request.
    pub fn sync_params(symbol: &str, start_time: i64, limit: i64, timestamp: i64) -> (params: Vec<(String, String)>)
        ensures
            pair_views(params@) == spec_sync_params(symbol@, start_time as int, limit as int, timestamp as int),
    {
        sync_params(symbol, start_time, limit, timestamp)
    }

    /// The signed query of an order-history request.
    pub fn sync_query(secret: &str, symbol: &str, start_time: i64, limit: i64, timestamp: i64) -> (query: String)
        ensures
            query@ == spec_signed_query(secret@, spec_sync_params(symbol@, start_time as int, limit as int, timestamp as int)),
    {
        let params = sync_params(symbol, start_time, limit, timestamp);
        signed_query(secret, &params)
    }

    /// The parameters of a new limit order, before its signature; `price` and
    /// `quantity` are the decimal texts to send.
    pub fn submit_params(
        symbol: &str,
        position_side: &str,
        side: &str,
        price: &str,
        quantity: &str,
        timestamp: i64,
    ) -> (params: Vec<(String, String)>)
        ensures
            pair_views(params@) == spec_submit_params(symbol@, position_side@, side@, price@, quantity@, timestamp as int),
    {
        let mut params: Vec<(String, String)> = Vec::new();
        params.push(text_pair("symbol", symbol));
        params.push(text_pair("positionSide", position_side));
        params.push(text_pair("side", side));
        params.push(text_pair("type", "LIMIT"));
        params.push(text_pair("price", price));
        params.push(text_pair("quantity", quantity));
        params.push(text_pair("timeInForce", "GTC"));
        params.push(text_pair("newOrderRespType", "RESULT"));
        params.push(text_pair("recvWindow", "60000"));
        let t = format_i64(timestamp);
        params.push(text_pair("timestamp", t.as_str()));
        assert(pair_views(params@) =~= spec_submit_params(symbol@, position_side@, side@, price@, quantity@, timestamp as int));
        params
    }

    /// The signed form body of a new limit order.
    pub fn submit_body(pem: &str, params: &Vec<(String, String)>) -> (body: Option<String>)
        ensures
            match body {
                Some(b) => spec_submit_body(pem@, pair_views(params@)) == Some(b@),
                None => spec_submit_body(pem@, pair_views(params@)) is None,
            },
    {
        let payload = raw_payload(params);
        match payload_signature(pem, payload.as_str()) {
            Some(sig) => {
                let mut signed = copy_pairs(params);
                signed.push(text_pair("signature", sig.as_str()));
                assert(pair_views(signed@) =~= pair_views(params@).push(("signature"@, sig@)));
                Some(form_urlencode(&signed))
            },
            None => None,
        }
    }
}

} // verus!
