//! Streams: messages exchanged with the exchange's API stream.
pub mod api;
