//! Binance spot repositories.
pub mod klines;
pub mod account;
pub mod positions;
pub mod orders;
pub mod indicators;
pub mod strategies;
pub mod plans;
pub mod tradings;
