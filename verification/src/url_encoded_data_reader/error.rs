//! Failures of url-encoded data access.
use vstd::prelude::*;

use crate::url_decoder::UrlDecodeError;

verus! {

/// A missing required parameter, an unparsable value, or a failed
/// percent-decode.
#[derive(Debug)]
pub enum ReadingEncodedDataError {
    RequiredParameterIsMissing(String),
    CanNotParseValue(String),
    UrlDecodeError(UrlDecodeError),
}

impl From<UrlDecodeError> for ReadingEncodedDataError {
    fn from(src: UrlDecodeError) -> (r: Self) {
        ReadingEncodedDataError::UrlDecodeError(src)
    }
}

impl vstd::std_specs::convert::FromSpecImpl<UrlDecodeError> for ReadingEncodedDataError {
    open spec fn obeys_from_spec() -> bool {
        true
    }

    open spec fn from_spec(src: UrlDecodeError) -> Self {
        ReadingEncodedDataError::UrlDecodeError(src)
    }
}

} // verus!
