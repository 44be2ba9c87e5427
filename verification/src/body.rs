//! Outbound request bodies: multipart form data, url-encoded pairs, JSON or
//! raw bytes.
pub mod form_data_body;
pub mod http_request_body;
pub mod url_encoded_body;

pub use form_data_body::FormDataBody;
pub use http_request_body::HttpRequestBody;
pub use url_encoded_body::UrlEncodedBody;
