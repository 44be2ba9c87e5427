//! Query-string parsing into a list of still-encoded values, with the
//! spec-level split model shared by every query-string parser.
use vstd::prelude::*;

use crate::strutil;
use crate::url_decoder::url_decoder::url_decode_bytes;
use crate::url_decoder::UrlDecodeError;
use crate::url_encoded_data_reader::UrlEncodedValueAsString;

verus! {

use vstd::utf8::encode_utf8;
use vstd::utf8::valid_utf8;

/// The positions `(start, eq, end)` of the query-string elements that
/// carry an `=`: the string splits on `&` into elements `[start, end)`,
/// and `eq` is the element's first `=`. Elements without an `=` are
/// skipped.
pub open spec fn query_eq_pairs(s: Seq<char>, pos: int) -> Seq<(int, int, int)>
    decreases s.len() - pos + 1 when 0 <= pos via query_eq_pairs_decreases
{
    let end = match strutil::first_char_at(s, '&', pos) {
        Some(i) => i,
        None => s.len() as int,
    };
    let rest = if end < s.len() {
        query_eq_pairs(s, end + 1)
    } else {
        Seq::empty()
    };
    match strutil::first_char_in(s, '=', pos, end) {
        Some(eq) => seq![(pos, eq, end)] + rest,
        None => rest,
    }
}

#[via_fn]
proof fn query_eq_pairs_decreases(s: Seq<char>, pos: int) {
    strutil::lemma_first_char_at_bounds(s, '&', pos);
}

/// The element's key — the characters before its `=` — percent-decodes,
/// and the decoded bytes are valid UTF-8.
pub open spec fn key_decodes(s: Seq<char>, pe: (int, int, int)) -> bool {
    match url_decode_bytes(encode_utf8(s.subrange(pe.0, pe.1)), 0) {
        Some(d) => valid_utf8(d),
        None => false,
    }
}

/// Splits the query string on `&` and collects the still-encoded value of
/// every element with an `=`, in order; each element's name is
/// percent-decoded, and the parse fails exactly when some element's name
/// does not decode.
pub fn parse_query_string<'s>(query_string: &'s str) -> (r: Result<
    Vec<UrlEncodedValueAsString<'s>>,
    UrlDecodeError,
>)
    ensures
        (r is Err) == exists|i: int|
            0 <= i < query_eq_pairs(query_string@, 0).len() && !key_decodes(
                query_string@,
                #[trigger] query_eq_pairs(query_string@, 0)[i],
            ),
        r matches Ok(res) ==> {
            let qs = query_eq_pairs(query_string@, 0);
            &&& res@.len() == qs.len()
            &&& forall|i: int|
                0 <= i < qs.len() ==> (#[trigger] res@[i]).value@ == query_string@.subrange(
                    qs[i].1 + 1,
                    qs[i].2,
                )
        },
{
    let ghost s = query_string@;
    let mut result: Vec<UrlEncodedValueAsString<'s>> = Vec::new();
    let n = query_string.unicode_len();
    let ghost mut donep: Seq<(int, int, int)> = Seq::empty();
    let mut cursor: usize = 0;
    proof {
        assert(query_eq_pairs(s, 0) =~= donep + query_eq_pairs(s, 0));
    }
    loop
        invariant
            s == query_string@,
            n == s.len(),
            0 <= cursor <= n,
            result@.len() == donep.len(),
            query_eq_pairs(s, 0) == donep + query_eq_pairs(s, cursor as int),
            forall|i: int| 0 <= i < donep.len() ==> key_decodes(s, #[trigger] donep[i]),
            forall|i: int|
                0 <= i < donep.len() ==> (#[trigger] result@[i]).value@ == s.subrange(
                    donep[i].1 + 1,
                    donep[i].2,
                ),
        decreases n - cursor,
    {
        let end = match strutil::find_char(query_string, '&', cursor) {
            Some(i) => i,
            None => n,
        };
        let el = query_string.substring_char(cursor, end);
        let el_len = el.unicode_len();
        let found_eq = strutil::find_char(el, '=', 0);
        proof {
            strutil::lemma_first_char_in_subrange(s, '=', cursor as int, end as int, found_eq);
        }
        match found_eq {
            Some(index) => {
                let key_part = el.substring_char(0, index);
                let value_part = el.substring_char(index + 1, el_len);
                let ghost pe = (cursor as int, cursor + index, end as int);
                proof {
                    assert(key_part@ =~= s.subrange(pe.0, pe.1));
                    assert(value_part@ =~= s.subrange(pe.1 + 1, pe.2));
                    assert(query_eq_pairs(s, cursor as int) =~= seq![pe] + (if end < n {
                        query_eq_pairs(s, end + 1)
                    } else {
                        Seq::empty()
                    }));
                }
                match crate::url_decoder::decode_from_url_query_string(key_part) {
                    Ok(_key) => {
                        result.push(UrlEncodedValueAsString::new(value_part));
                        proof {
                            donep = donep.push(pe);
                            assert(query_eq_pairs(s, 0) =~= donep + (if end < n {
                                query_eq_pairs(s, end + 1)
                            } else {
                                Seq::<(int, int, int)>::empty()
                            }));
                        }
                    },
                    Err(e) => {
                        proof {
                            assert(query_eq_pairs(s, 0)[donep.len() as int] == pe);
                            assert(!key_decodes(s, pe));
                        }
                        return Err(e);
                    },
                }
            },
            None => {
                proof {
                    assert(query_eq_pairs(s, cursor as int) =~= (if end < n {
                        query_eq_pairs(s, end + 1)
                    } else {
                        Seq::<(int, int, int)>::empty()
                    }));
                }
            },
        }
        if end == n {
            proof {
                assert(query_eq_pairs(s, 0) =~= donep);
                assert forall|i: int| 0 <= i < query_eq_pairs(s, 0).len() implies key_decodes(
                    s,
                    #[trigger] query_eq_pairs(s, 0)[i],
                ) by {
                    assert(query_eq_pairs(s, 0)[i] == donep[i]);
                    assert(key_decodes(s, donep[i]));
                }
            }
            return Ok(result);
        }
        cursor = end + 1;
    }
}

} // verus!
