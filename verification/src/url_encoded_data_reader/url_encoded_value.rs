//! One url-encoded key-value pair: a decoded name and a still-encoded
//! value, decoded on access.
use vstd::prelude::*;

use crate::string_or_str::StringOrStr;
use crate::strutil;
use crate::url_decoder::url_decoder::url_decode_bytes;
use crate::url_encoded_data_reader::ReadingEncodedDataError;

verus! {

use vstd::utf8::decode_utf8;
use vstd::utf8::encode_utf8;
use vstd::utf8::valid_utf8;

/// The lookup name of a parameter: a trailing `[]`, the array-parameter
/// convention, is not part of the name.
pub open spec fn base_name(name: Seq<char>) -> Seq<char> {
    if name.len() >= 2 && name[name.len() - 2] == '[' && name[name.len() - 1] == ']' {
        name.subrange(0, name.len() - 2)
    } else {
        name
    }
}

/// One parameter of a query string: its decoded name and its still-encoded
/// value, a view into the query string.
pub struct UrlEncodedValue<'s> {
    name: String,
    pub value: &'s str,
}

impl<'s> Clone for UrlEncodedValue<'s> {
    fn clone(&self) -> (r: Self)
        ensures
            r.name_spec() == self.name_spec(),
            r.value_spec() == self.value_spec(),
    {
        UrlEncodedValue { name: self.name.clone(), value: self.value }
    }
}

impl<'s> UrlEncodedValue<'s> {
    /// The parameter's full decoded name, trailing `[]` included.
    pub closed spec fn name_spec(&self) -> Seq<char> {
        self.name@
    }

    /// The still-encoded value's characters.
    pub closed spec fn value_spec(&self) -> Seq<char> {
        self.value@
    }

    pub fn new(name: String, value: &'s str) -> (r: Self)
        ensures
            r.name_spec() == name@,
            r.value_spec() == value@,
    {
        Self { name, value }
    }

    /// The lookup name: the decoded name without a trailing `[]`.
    pub fn get_name(&self) -> (r: &str)
        ensures
            r@ == base_name(self.name_spec()),
    {
        let n = self.name.as_str().unicode_len();
        if n >= 2 {
            let c1 = self.name.as_str().get_char(n - 2);
            let c2 = self.name.as_str().get_char(n - 1);
            if c1 == '[' && c2 == ']' {
                return self.name.as_str().substring_char(0, n - 2);
            }
        }
        self.name.as_str()
    }

    /// The percent-decoded value.
    pub fn as_string(&self) -> (r: Result<String, ReadingEncodedDataError>)
        ensures
            match r {
                Ok(out) => url_decode_bytes(encode_utf8(self.value_spec()), 0) matches Some(d) && (
                valid_utf8(d) && out@ == decode_utf8(d)),
                Err(e) => e is UrlDecodeError,
            },
    {
        match crate::url_decoder::decode_from_url_query_string(self.value) {
            Ok(result) => Ok(result),
            Err(e) => Err(ReadingEncodedDataError::UrlDecodeError(e)),
        }
    }

    /// The percent-decoded value, borrowed when it holds no escape.
    pub fn as_str_or_string(&'s self) -> (r: Result<StringOrStr<'s>, ReadingEncodedDataError>)
        ensures
            match r {
                Ok(out) => url_decode_bytes(encode_utf8(self.value_spec()), 0) matches Some(d) && (
                valid_utf8(d) && out.view_chars() == decode_utf8(d)),
                Err(e) => e is UrlDecodeError,
            },
    {
        match crate::url_decoder::decode_from_url_query_string::decode_as_str_or_string(
            self.value,
        ) {
            Ok(result) => Ok(result),
            Err(e) => Err(ReadingEncodedDataError::UrlDecodeError(e)),
        }
    }

    /// The raw value parsed by `str::parse`; failures name the value.
    pub fn parse<T: core::str::FromStr>(&'s self) -> (r: Result<T, ReadingEncodedDataError>)
        ensures
            r matches Err(e) ==> (e matches ReadingEncodedDataError::CanNotParseValue(v) && v@
                == self.value_spec()),
    {
        match strutil::parse_from_str::<T>(self.value) {
            Some(value) => Ok(value),
            None => Err(ReadingEncodedDataError::CanNotParseValue(self.value.to_owned())),
        }
    }
}

} // verus!
