//! Query-string parsing into named parameters.
pub mod parse_query_string;
