//! Workers that handle responses of the API stream.
use vstd::prelude::*;

verus! {

/// Stores the klines of a flush response.
#[derive(Default)]
pub struct KlinesWorker {}

impl KlinesWorker {
    /// A worker; the context is not kept.
    pub fn new<C>(_ctx: C) -> (w: Self) {
        KlinesWorker {}
    }
}

} // verus!
