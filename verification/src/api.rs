//! The error body of the HTTP API.

use vstd::prelude::*;

verus! {

/// An error reported by the HTTP API: a message and a short code.
pub struct APIError {
    pub message: &'static str,
    pub code: &'static str,
}

} // verus!
