//! Authentication.
pub mod token;
