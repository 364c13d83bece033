//! Futures tickers: freshness of a cached price and the ranking rows.
use vstd::prelude::*;
use crate::replies::{Reply, joined_rows, joined_replies};
use crate::text::string_views;

verus! {

/// Futures tickers repository.
#[derive(Default)]
pub struct TickersRepository {}

/// Why a cached price cannot be used.
#[derive(Debug, PartialEq, Eq, Structural)]
pub enum TickerError {
    /// The price was cached more than 30 seconds ago.
    Expired,
}

impl TickersRepository {
    /// A price cached at `lasttime` may be used at `now` (milliseconds)
    /// unless more than 30 seconds have passed.
    pub fn check_fresh(now: i64, lasttime: i64) -> (r: Result<(), TickerError>)
        requires
            i64::MIN <= now - lasttime <= i64::MAX,
        ensures
            r is Err <==> now - lasttime > 30000,
    {
        if now - lasttime > 30000 {
            Err(TickerError::Expired)
        } else {
            Ok(())
        }
    }

    /// The ranking rows: for each symbol whose ticker exists, its fields
    /// joined with commas; symbols without a ticker give no row.
    pub fn ranking(replies: &Vec<Reply>) -> (rows: Vec<String>)
        ensures
            string_views(rows@) == joined_rows(replies@),
    {
        joined_replies(replies)
    }
}

} // verus!
