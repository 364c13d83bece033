//! Requests to the API stream.
pub mod jobs;
pub mod payload;
pub mod workers;
