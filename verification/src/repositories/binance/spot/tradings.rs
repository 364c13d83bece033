//! Spot trading.
pub mod scalping;
