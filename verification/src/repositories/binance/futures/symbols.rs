//! Futures symbols.
use vstd::prelude::*;

verus! {

/// Futures symbols repository.
#[derive(Default)]
pub struct SymbolsRepository {}

/// Refreshing the futures symbols is not available.
#[derive(Debug, PartialEq, Eq, Structural)]
pub enum SymbolsError {
    FlushFailed,
}

impl SymbolsRepository {
    /// Refreshing the futures symbols always fails.
    pub fn flush<C>(_ctx: C) -> (r: Result<(), SymbolsError>)
        ensures
            r == Err::<(), SymbolsError>(SymbolsError::FlushFailed),
    {
        Err(SymbolsError::FlushFailed)
    }
}

} // verus!
