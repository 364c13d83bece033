//! Responses of the API stream.
pub mod payload;
pub mod workers;
