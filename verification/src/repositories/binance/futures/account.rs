//! Futures account: the signed account query.
use vstd::prelude::*;
use crate::signing::{pair_views, signed_query, spec_signed_query, text_pair};
use crate::text::{format_i64, int_decimal, string_views};
use crate::repositories::binance::spot::account::{spec_stale_currencies, stale_currencies};

verus! {

/// Futures account repository.
pub struct AccountRepository {}

/// The parameters of the futures account request at `timestamp`.
pub open spec fn spec_account_params(timestamp: int) -> Seq<(Seq<char>, Seq<char>)> {
    seq![("timeInForce"@, "GTC"@), ("recvWindow"@, "60000"@), ("timestamp"@, int_decimal(timestamp))]
}

impl AccountRepository {
    /// The parameters of the account request at `timestamp`.
    pub fn params(timestamp: i64) -> (params: Vec<(String, String)>)
        ensures
            pair_views(params@) == spec_account_params(timestamp as int),
    {
        let mut params: Vec<(String, String)> = Vec::new();
        params.push(text_pair("timeInForce", "GTC"));
        params.push(text_pair("recvWindow", "60000"));
        let t = format_i64(timestamp);
        params.push(text_pair("timestamp", t.as_str()));
        assert(pair_views(params@) =~= spec_account_params(timestamp as int));
        params
    }

    /// The signed query of the account request at `timestamp`.
    pub fn flush_query(secret: &str, timestamp: i64) -> (query: String)
        ensures
            query@ == spec_signed_query(secret@, spec_account_params(timestamp as int)),
    {
        let params = Self::params(timestamp);
        signed_query(secret, &params)
    }

    /// The stored currencies that no longer have a balance.
    pub fn stale_currencies(current: &Vec<String>, last: &Vec<String>) -> (stale: Vec<String>)
        ensures
            string_views(stale@) == spec_stale_currencies(string_views(current@), string_views(last@)),
    {
        stale_currencies(current, last)
    }
}

} // verus!
