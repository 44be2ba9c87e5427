//! HTTP payload utilities: decoding of `multipart/form-data` payloads into
//! queryable typed fields, percent-decoding and -encoding of query strings,
//! url-encoded data readers, URL builders, and outbound request bodies.
pub mod body;
pub mod decode_from_url_string;
pub mod form_data_reader;
pub mod parse_query_string;
pub mod path_and_query_key;
pub mod path_and_query_parser;
pub mod query_string;
pub mod scan;
pub mod scheme;
pub mod string_or_str;
pub mod strutil;
pub mod url_builder;
pub mod url_builder_by_scheme;
pub mod url_decoder;
pub mod url_encoded_data_reader;
pub mod url_encoder;
