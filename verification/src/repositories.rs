//! Repositories: the decisions and computations behind each data source.
pub mod auth;
pub mod binance;
pub mod jwe;
