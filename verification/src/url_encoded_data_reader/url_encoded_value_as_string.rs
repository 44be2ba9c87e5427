//! One still-encoded query-string value, with typed accessors.
use vstd::prelude::*;

use crate::strutil;
use crate::strutil::lower_of;
use crate::url_decoder::url_decoder::url_decode_bytes;
use crate::url_encoded_data_reader::ReadingEncodedDataError;

verus! {

use vstd::utf8::decode_utf8;
use vstd::utf8::encode_utf8;
use vstd::utf8::valid_utf8;

/// The boolean a token names: `1` / `true` and `0` / `false`, compared
/// after lowercasing.
pub open spec fn bool_token(lowered: Seq<char>) -> Option<bool> {
    if lowered == "1"@ || lowered == "true"@ {
        Some(true)
    } else if lowered == "0"@ || lowered == "false"@ {
        Some(false)
    } else {
        None
    }
}

/// One query-string value, kept encoded until it is read.
pub struct UrlEncodedValueAsString<'s> {
    pub value: &'s str,
}

impl<'s> UrlEncodedValueAsString<'s> {
    pub fn new(src: &'s str) -> (r: Self)
        ensures
            r.value == src,
    {
        Self { value: src }
    }

    /// The percent-decoded value.
    pub fn as_string(&self) -> (r: Result<String, ReadingEncodedDataError>)
        ensures
            match r {
                Ok(out) => url_decode_bytes(encode_utf8(self.value@), 0) matches Some(d) && (
                valid_utf8(d) && out@ == decode_utf8(d)),
                Err(e) => e is UrlDecodeError,
            },
    {
        match crate::url_decoder::decode_from_url_query_string(self.value) {
            Ok(result) => Ok(result),
            Err(e) => Err(ReadingEncodedDataError::UrlDecodeError(e)),
        }
    }

    /// The value read as a boolean token.
    pub fn as_bool(&'s self) -> (r: Result<bool, ReadingEncodedDataError>)
        ensures
            match r {
                Ok(b) => bool_token(lower_of(self.value@)) == Some(b),
                Err(e) => bool_token(lower_of(self.value@)) is None && (e matches
                    ReadingEncodedDataError::CanNotParseValue(v) && v@ == lower_of(self.value@)),
            },
    {
        let bool_value = parse_bool_value(self.value)?;
        Ok(bool_value)
    }

    /// The raw value parsed by `str::parse`; failures name the value.
    pub fn parse<T: core::str::FromStr>(&'s self) -> (r: Result<T, ReadingEncodedDataError>)
        ensures
            r matches Err(e) ==> (e matches ReadingEncodedDataError::CanNotParseValue(v) && v@
                == self.value@),
    {
        match strutil::parse_from_str::<T>(self.value) {
            Some(value) => Ok(value),
            None => Err(ReadingEncodedDataError::CanNotParseValue(self.value.to_owned())),
        }
    }
}

/// Reads `1` / `true` as true and `0` / `false` as false, case-insensitively;
/// any other token is an error naming it.
pub fn parse_bool_value(value: &str) -> (r: Result<bool, ReadingEncodedDataError>)
    ensures
        match r {
            Ok(b) => bool_token(lower_of(value@)) == Some(b),
            Err(e) => bool_token(lower_of(value@)) is None && (e matches
                ReadingEncodedDataError::CanNotParseValue(v) && v@ == lower_of(value@)),
        },
{
    let value = strutil::to_lowercase_string(value);
    if strutil::str_eq(value.as_str(), "1") || strutil::str_eq(value.as_str(), "true") {
        return Ok(true);
    }

    if strutil::str_eq(value.as_str(), "0") || strutil::str_eq(value.as_str(), "false") {
        return Ok(false);
    }

    let err = ReadingEncodedDataError::CanNotParseValue(value);

    return Err(err);
}

} // verus!
