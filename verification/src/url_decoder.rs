//! Percent-decoding of URL query strings: a byte-level state machine that
//! turns `%XY` escapes into bytes and `+` into a space, with an exact
//! spec-level model of the decoding.
pub mod decode_from_url_query_string;
pub mod error;
pub mod escaped_state;
pub mod main;
pub mod normal_state;
pub mod url_decode_state;
pub mod url_decoder;

pub use error::UrlDecodeError;
pub use main::decode_from_url_query_string;
pub use url_decoder::UrlDecoder;
