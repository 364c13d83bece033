//! Spot positions: the take-profit price of a position. Prices are whole
//! numbers of 10^-8 units.
use vstd::prelude::*;
use crate::repositories::binance::{tick_round, round_to_tick, lemma_tick_round_vs_price};

verus! {

/// Spot positions repository.
#[derive(Default)]
pub struct PositionsRepository {}

impl PositionsRepository {
    /// The take-profit price of a position entered at `entry_price`: 2%
    /// above it, rounded up to a multiple of `tick`; never below the entry.
    pub fn take_price(entry_price: u64, tick: u64) -> (p: u128)
        requires
            0 < tick,
        ensures
            p == tick_round(entry_price as int, 10200, tick as int, true),
            p >= entry_price,
    {
        proof {
            lemma_tick_round_vs_price(entry_price as int, 10200, tick as int, true);
        }
        round_to_tick(entry_price, 10200, tick, true)
    }
}

} // verus!
