//! Reading `application/x-www-form-urlencoded` data: key-value pairs
//! separated by `&`, with percent-decoded names and lazily decoded values.
pub mod error;
pub mod url_encoded_data_reader;
pub mod url_encoded_value;
pub mod url_encoded_value_as_string;
pub mod url_utils;

pub use error::ReadingEncodedDataError;
pub use url_encoded_data_reader::UrlEncodedDataReader;
pub use url_encoded_value::UrlEncodedValue;
pub use url_encoded_value_as_string::UrlEncodedValueAsString;
