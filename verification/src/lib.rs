//! Verified core of a Binance trading service: candle-interval time
//! arithmetic, kline series checks and gap repair, request signing, and the
//! decision rules behind strategies, plans and scalping orders.
pub mod text;
pub mod timing;
pub mod repositories;
pub mod replies;
pub mod signing;
pub mod streams;
