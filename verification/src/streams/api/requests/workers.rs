//! Workers that send requests to the API stream.
use vstd::prelude::*;
use crate::text::{join_seq, join_strings, string_views, format_i64, int_decimal};

verus! {

/// Sends futures requests with the given context.
pub struct FuturesWorker<C> {
    ctx: C,
}

impl<C> FuturesWorker<C> {
    pub closed spec fn context(&self) -> C {
        self.ctx
    }

    /// A worker over the context `ctx`.
    pub fn new(ctx: C) -> (w: Self)
        ensures
            w.context() == ctx,
    {
        Self { ctx: ctx }
    }

    /// The worker's context.
    pub fn ctx(&self) -> (c: &C)
        ensures
            *c == self.context(),
    {
        &self.ctx
    }
}

/// Sends spot requests with the given context.
pub struct SpotWorker<C> {
    ctx: C,
}

impl<C> SpotWorker<C> {
    pub closed spec fn context(&self) -> C {
        self.ctx
    }

    /// A worker over the context `ctx`.
    pub fn new(ctx: C) -> (w: Self)
        ensures
            w.context() == ctx,
    {
        Self { ctx: ctx }
    }

    /// The worker's context.
    pub fn ctx(&self) -> (c: &C)
        ensures
            *c == self.context(),
    {
        &self.ctx
    }
}

/// Sends klines flush requests.
#[derive(Default)]
pub struct KlinesWorker {}

/// The record kept for a pending request:
/// `method,symbol,interval,endtime,limit`.
pub open spec fn spec_request_record(method: Seq<char>, symbol: Seq<char>, interval: Seq<char>, endtime: int, limit: int) -> Seq<char> {
    join_seq(seq![method, symbol, interval, int_decimal(endtime), int_decimal(limit)], ","@)
}

/// The key of the lock held while a flush of `symbol` and `interval` is
/// sent: `prefix:interval:symbol`.
pub open spec fn spec_lock_key(prefix: Seq<char>, interval: Seq<char>, symbol: Seq<char>) -> Seq<char> {
    join_seq(seq![prefix, interval, symbol], ":"@)
}

impl KlinesWorker {
    /// A worker; the context is not kept.
    pub fn new<C>(_ctx: C) -> (w: Self) {
        KlinesWorker {}
    }

    /// The record kept for a pending flush request.
    pub fn request_record(method: &str, symbol: &str, interval: &str, endtime: i64, limit: i64) -> (r: String)
        ensures
            r@ == spec_request_record(method@, symbol@, interval@, endtime as int, limit as int),
    {
        let mut parts: Vec<String> = Vec::new();
        parts.push(method.to_owned());
        parts.push(symbol.to_owned());
        parts.push(interval.to_owned());
        parts.push(format_i64(endtime));
        parts.push(format_i64(limit));
        assert(string_views(parts@) =~= seq![method@, symbol@, interval@, int_decimal(endtime as int), int_decimal(limit as int)]);
        join_strings(&parts, ",")
    }

    /// The key of the lock held while a flush is sent.
    pub fn lock_key(prefix: &str, interval: &str, symbol: &str) -> (k: String)
        ensures
            k@ == spec_lock_key(prefix@, interval@, symbol@),
    {
        let mut parts: Vec<String> = Vec::new();
        parts.push(prefix.to_owned());
        parts.push(interval.to_owned());
        parts.push(symbol.to_owned());
        assert(string_views(parts@) =~= seq![prefix@, interval@, symbol@]);
        join_strings(&parts, ":")
    }
}

} // verus!
