//! Whole-string encoding with the wider escape table, reading the input
//! byte by byte as the original did.
use vstd::prelude::*;

use crate::string_or_str::StringOrStr;
use crate::strutil;
use crate::url_encoder::encode_map;

verus! {

use vstd::utf8::encode_utf8;

/// What one input byte, read as a character, contributes to the encoded
/// output.
pub open spec fn encoded_byte(b: u8) -> Seq<char> {
    match encode_map::encode_entry(b as char) {
        Some(e) => e,
        None => seq![b as char],
    }
}

/// The encoding of the first `k` input bytes.
pub open spec fn encoded_bytes_upto(bs: Seq<u8>, k: int) -> Seq<char>
    decreases k,
{
    if k <= 0 || k > bs.len() {
        Seq::empty()
    } else {
        encoded_bytes_upto(bs, k - 1) + encoded_byte(bs[k - 1])
    }
}

/// Encodes a string with the wider table: when no byte needs an escape,
/// the input is handed back borrowed and unchanged; otherwise every byte is
/// rewritten to its escape or passed through as a character.
pub fn encode_string<'s>(src: &'s str) -> (r: StringOrStr<'s>)
    ensures
        (forall|j: int|
            0 <= j < encode_utf8(src@).len() ==> encode_map::encode_entry(
                (#[trigger] encode_utf8(src@)[j]) as char,
            ) is None) ==> r.view_chars() == src@,
        (exists|j: int|
            0 <= j < encode_utf8(src@).len() && encode_map::encode_entry(
                (#[trigger] encode_utf8(src@)[j]) as char,
            ) is Some) ==> r.view_chars() == encoded_bytes_upto(
            encode_utf8(src@),
            encode_utf8(src@).len() as int,
        ),
{
    let as_bytes = src.as_bytes();
    if !has_to_be_encoded(as_bytes) {
        return StringOrStr::create_as_str(src);
    }

    let mut result = String::new();

    let mut i: usize = 0;
    while i < as_bytes.len()
        invariant
            as_bytes@ == encode_utf8(src@),
            0 <= i <= as_bytes@.len(),
            result@ == encoded_bytes_upto(as_bytes@, i as int),
        decreases as_bytes@.len() - i,
    {
        let b = as_bytes[i] as char;
        let ghost pre = result@;
        match encode_map::lookup_entry(b) {
            Some(replacement) => {
                result.append(replacement);
            },
            None => {
                strutil::append_char(&mut result, b);
            },
        }
        proof {
            assert(result@ =~= pre + encoded_byte(as_bytes@[i as int]));
        }
        i = i + 1;
    }

    StringOrStr::create_as_string(result)
}

/// Whether any byte of the input, read as a character, has an escape in
/// the wider table.
pub fn has_to_be_encoded(src: &[u8]) -> (r: bool)
    ensures
        r == exists|j: int|
            0 <= j < src@.len() && encode_map::encode_entry((#[trigger] src@[j]) as char) is Some,
{
    let mut i: usize = 0;
    while i < src.len()
        invariant
            0 <= i <= src@.len(),
            forall|j: int| 0 <= j < i ==> encode_map::encode_entry((#[trigger] src@[j]) as char)
                is None,
        decreases src@.len() - i,
    {
        let b = src[i] as char;
        if encode_map::lookup_entry(b).is_some() {
            return true;
        }
        i = i + 1;
    }

    false
}

} // verus!
