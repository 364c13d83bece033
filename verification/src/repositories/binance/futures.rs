//! Binance futures repositories.
pub mod account;
pub mod orders;
pub mod klines;
pub mod symbols;
pub mod tickers;
pub mod gambling;
