//! Whole-string percent-decoding: drives the byte decoder over a query
//! string and rebuilds a `String` from the decoded bytes.
use vstd::prelude::*;

use crate::strutil;
use crate::url_decoder::url_decoder::lemma_decode_plain;
use crate::url_decoder::url_decoder::url_decode_bytes;
use crate::url_decoder::UrlDecodeError;
use crate::url_decoder::UrlDecoder;

verus! {

use vstd::utf8::decode_utf8;
use vstd::utf8::encode_utf8;
use vstd::utf8::valid_utf8;

/// Percent-decodes a query string: `Ok` holds the characters of the
/// decoded bytes, and an error comes exactly when an escape is malformed or
/// the decoded bytes are not valid UTF-8.
pub fn decode_from_url_query_string(src: &str) -> (r: Result<String, UrlDecodeError>)
    ensures
        match r {
            Ok(out) => url_decode_bytes(encode_utf8(src@), 0) matches Some(d) && (valid_utf8(d)
                && out@ == decode_utf8(d)),
            Err(_) => match url_decode_bytes(encode_utf8(src@), 0) {
                Some(d) => !valid_utf8(d),
                None => true,
            },
        },
{
    broadcast use vstd::utf8::encode_utf8_valid_utf8, vstd::utf8::encode_utf8_decode_utf8;

    let ghost s = encode_utf8(src@);
    if !has_escape(src.as_bytes()) {
        proof {
            lemma_decode_plain(s, 0);
            assert(url_decode_bytes(s, 0)->Some_0 =~= s);
        }
        return Ok(src.to_owned());
    }

    let mut result: Vec<u8> = Vec::with_capacity(src.len());
    let mut url_decoder = UrlDecoder::new(src);

    loop
        invariant
            s == encode_utf8(src@),
            url_decoder.inv(),
            url_decoder.src_spec() == s,
            0 <= url_decoder.pos_spec() <= s.len(),
            match url_decode_bytes(s, url_decoder.pos_spec()) {
                Some(rest) => url_decode_bytes(s, 0) matches Some(full) && full == result@ + rest,
                None => url_decode_bytes(s, 0) is None,
            },
        decreases s.len() - url_decoder.pos_spec(),
    {
        let ghost i = url_decoder.pos_spec();
        let ghost acc0 = result@;
        match url_decoder.get_next() {
            Ok(Some(next_one)) => {
                result.push(next_one);
                proof {
                    assert(result@ =~= acc0 + seq![next_one]);
                    match url_decode_bytes(s, url_decoder.pos_spec()) {
                        Some(rest) => {
                            assert(url_decode_bytes(s, i) matches Some(ri) && ri =~= seq![
                                next_one,
                            ] + rest);
                            let full = url_decode_bytes(s, 0)->Some_0;
                            assert(full =~= result@ + rest);
                        },
                        None => {},
                    }
                }
            },
            Ok(None) => {
                proof {
                    assert(url_decode_bytes(s, url_decoder.pos_spec()) matches Some(e) && e
                        =~= Seq::<u8>::empty());
                    let full = url_decode_bytes(s, 0)->Some_0;
                    assert(full =~= result@);
                }
                match strutil::vec_to_string(result) {
                    Some(out) => {
                        return Ok(out);
                    },
                    None => {
                        return Err(
                            UrlDecodeError { msg: "decoded bytes are not valid utf-8".to_owned() },
                        );
                    },
                }
            },
            Err(e) => {
                return Err(e);
            },
        }
    }
}

/// Whether the bytes hold a `%` escape or a `+` that decoding would
/// rewrite.
pub fn has_escape(src: &[u8]) -> (r: bool)
    ensures
        r == exists|j: int| 0 <= j < src@.len() && (src@[j] == 37 || src@[j] == 43),
{
    let mut i: usize = 0;
    while i < src.len()
        invariant
            0 <= i <= src@.len(),
            forall|j: int| 0 <= j < i ==> src@[j] != 37 && src@[j] != 43,
        decreases src@.len() - i,
    {
        if src[i] == 37 {
            return true;
        }
        if src[i] == 43 {
            return true;
        }
        i = i + 1;
    }
    false
}

} // verus!
