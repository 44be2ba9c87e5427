//! The error reported when a query string cannot be percent-decoded.
use vstd::prelude::*;

verus! {

/// A failed percent-decoding: a malformed `%XY` escape, or decoded bytes
/// that are not valid UTF-8.
#[derive(Debug)]
pub struct UrlDecodeError {
    pub msg: String,
}

} // verus!
