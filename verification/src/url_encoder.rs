//! Percent-encoding of strings with the wider escape table, byte by byte.
pub mod encode_map;
pub mod url_encoder;

pub use url_encoder::encode_string;
