//! Percent-decoding that hands borrowed input back unchanged: when the
//! query string holds no escape, the caller gets the original slice.
use vstd::prelude::*;

use crate::string_or_str::StringOrStr;
use crate::strutil;
use crate::url_decoder::url_decoder::lemma_decode_plain;
use crate::url_decoder::url_decoder::url_decode_bytes;
use crate::url_decoder::UrlDecodeError;
use crate::url_decoder::UrlDecoder;

verus! {

use vstd::utf8::decode_utf8;
use vstd::utf8::encode_utf8;
use vstd::utf8::valid_utf8;

/// Percent-decodes a query string into an owned `String`; see
/// [`crate::url_decoder::main::decode_from_url_query_string`].
pub fn decode_from_url_query_string(src: &str) -> (r: Result<String, UrlDecodeError>)
    ensures
        match r {
            Ok(out) => url_decode_bytes(encode_utf8(src@), 0) matches Some(d) && (valid_utf8(d)
                && out@ == decode_utf8(d)),
            Err(_) => match url_decode_bytes(encode_utf8(src@), 0) {
                Some(d) => !valid_utf8(d),
                None => true,
            },
        },
{
    crate::url_decoder::main::decode_from_url_query_string(src)
}

/// Percent-decodes a query string, handing the input back as a borrowed
/// slice when it holds no escape at all.
pub fn decode_as_str_or_string<'s>(src: &'s str) -> (r: Result<StringOrStr<'s>, UrlDecodeError>)
    ensures
        match r {
            Ok(out) => url_decode_bytes(encode_utf8(src@), 0) matches Some(d) && (valid_utf8(d)
                && out.view_chars() == decode_utf8(d)),
            Err(_) => match url_decode_bytes(encode_utf8(src@), 0) {
                Some(d) => !valid_utf8(d),
                None => true,
            },
        },
{
    broadcast use vstd::utf8::encode_utf8_valid_utf8, vstd::utf8::encode_utf8_decode_utf8;

    let ghost s = encode_utf8(src@);
    if !has_escape(src.as_bytes()) {
        proof {
            lemma_decode_plain(s, 0);
            assert(url_decode_bytes(s, 0)->Some_0 =~= s);
        }
        return Ok(StringOrStr::create_as_str(src));
    }

    let decoded = crate::url_decoder::main::decode_from_url_query_string(src)?;
    Ok(StringOrStr::create_as_string(decoded))
}

/// Whether the bytes hold a `%` escape or a `+` that decoding would
/// rewrite.
fn has_escape(src: &[u8]) -> (r: bool)
    ensures
        r == exists|j: int| 0 <= j < src@.len() && (src@[j] == 37 || src@[j] == 43),
{
    let mut i: usize = 0;
    while i < src.len()
        invariant
            0 <= i <= src@.len(),
            forall|j: int| 0 <= j < i ==> src@[j] != 37 && src@[j] != 43,
        decreases src@.len() - i,
    {
        if src[i] == 37 || src[i] == 43 {
            return true;
        }
        i = i + 1;
    }
    false
}

} // verus!
