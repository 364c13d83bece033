//! The API stream: requests sent over the socket and their responses.
pub mod requests;
pub mod responses;

use vstd::prelude::*;

verus! {

/// A response of the API stream: the id of the request and its status.
pub struct ApiResponse {
    pub id: String,
    pub status: i32,
}

} // verus!
