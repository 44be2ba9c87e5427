//! The outbound request body in all its forms, and the `Content-Type` each
//! form announces.
use vstd::prelude::*;

use crate::body::FormDataBody;
use crate::body::UrlEncodedBody;
use crate::string_or_str::StringOrStr;

verus! {

use vstd::utf8::encode_utf8;

/// An outbound body: JSON bytes, url-encoded pairs, multipart form data,
/// raw bytes with an optional content type, or nothing.
pub enum HttpRequestBody {
    Json(Vec<u8>),
    UrlEncoded(UrlEncodedBody),
    FormData(FormDataBody),
    Raw { data: Vec<u8>, content_type: Option<&'static str> },
    Empty,
}

impl HttpRequestBody {
    /// The empty body.
    pub fn empty() -> (r: Self)
        ensures
            r is Empty,
    {
        Self::Empty
    }

    /// A raw body with an optional content type.
    pub fn from_raw_data(data: Vec<u8>, content_type: Option<&'static str>) -> (r: Self)
        ensures
            r matches HttpRequestBody::Raw { data: d, content_type: c } && d@ == data@ && c
                == content_type,
    {
        Self::Raw { data, content_type }
    }

    /// The `Content-Type` header value this body announces, when it
    /// announces one.
    pub fn get_content_type(&self) -> (r: Option<StringOrStr<'static>>)
        ensures
            match self {
                HttpRequestBody::Json(_) => r matches Some(c) && c.view_chars()
                    == "application/json"@,
                HttpRequestBody::UrlEncoded(_) => r matches Some(c) && c.view_chars()
                    == "application/x-www-form-urlencoded"@,
                HttpRequestBody::FormData(body) => r matches Some(c) && c.view_chars()
                    == "multipart/form-data; boundary="@ + body.boundary_spec(),
                HttpRequestBody::Raw { content_type, .. } => match content_type {
                    Some(ct) => r matches Some(c) && c.view_chars() == ct@,
                    None => r is None,
                },
                HttpRequestBody::Empty => r is None,
            },
    {
        match self {
            Self::Json(_) => Some(StringOrStr::create_as_str("application/json")),
            Self::UrlEncoded(_) => Some(
                StringOrStr::create_as_str("application/x-www-form-urlencoded"),
            ),
            Self::FormData(body) => Some(StringOrStr::create_as_string(body.get_content_type())),
            Self::Raw { content_type, .. } => {
                match content_type {
                    Some(content_type) => Some(StringOrStr::create_as_str(content_type)),
                    None => None,
                }
            },
            Self::Empty => None,
        }
    }

    /// The body's bytes: JSON and raw bytes as they are, url-encoded and
    /// form-data bodies rendered, nothing for the empty body.
    pub fn into_vec(self) -> (r: Vec<u8>)
        ensures
            match self {
                HttpRequestBody::Json(data) => r@ == data@,
                HttpRequestBody::UrlEncoded(body) => r@ == encode_utf8(body.data@),
                HttpRequestBody::FormData(body) => r@ == body.buffer_spec() + encode_utf8(
                    "--"@ + body.boundary_spec() + "--"@,
                ),
                HttpRequestBody::Raw { data, .. } => r@ == data@,
                HttpRequestBody::Empty => r@ == Seq::<u8>::empty(),
            },
    {
        match self {
            Self::Json(data) => data,
            Self::UrlEncoded(body) => body.data.as_str().as_bytes_vec(),
            Self::FormData(body) => body.into_bytes(),
            Self::Raw { data, .. } => data,
            Self::Empty => Vec::new(),
        }
    }
}

} // verus!
