//! Query-string parsing into a list of parameters with decoded names.
use vstd::prelude::*;

use crate::parse_query_string::key_decodes;
use crate::parse_query_string::query_eq_pairs;
use crate::strutil;
use crate::url_decoder::url_decoder::url_decode_bytes;
use crate::url_decoder::UrlDecodeError;
use crate::url_encoded_data_reader::UrlEncodedValue;

verus! {

use vstd::utf8::decode_utf8;
use vstd::utf8::encode_utf8;

/// Splits the query string on `&`; every element with an `=` becomes, in
/// order, a parameter whose name is the percent-decoding of the element's
/// key and whose value is the still-encoded remainder. The parse fails
/// exactly when some element's key does not decode.
pub fn parse<'s>(query_string: &'s str) -> (r: Result<Vec<UrlEncodedValue<'s>>, UrlDecodeError>)
    ensures
        (r is Err) == exists|i: int|
            0 <= i < query_eq_pairs(query_string@, 0).len() && !key_decodes(
                query_string@,
                #[trigger] query_eq_pairs(query_string@, 0)[i],
            ),
        r matches Ok(res) ==> {
            let qs = query_eq_pairs(query_string@, 0);
            &&& res@.len() == qs.len()
            &&& forall|i: int|
                0 <= i < qs.len() ==> ((#[trigger] res@[i]).value_spec() == query_string@.subrange(
                    qs[i].1 + 1,
                    qs[i].2,
                ) && res@[i].name_spec() == decode_utf8(
                    url_decode_bytes(
                        encode_utf8(query_string@.subrange(qs[i].0, qs[i].1)),
                        0,
                    )->Some_0,
                ))
        },
{
    let ghost s = query_string@;
    let mut result: Vec<UrlEncodedValue<'s>> = Vec::new();
    let n = query_string.unicode_len();
    let ghost mut donep: Seq<(int, int, int)> = Seq::empty();
    let mut cursor: usize = 0;
    proof {
        assert(query_eq_pairs(s, 0) =~= donep + query_eq_pairs(s, 0));
    }
    loop
        invariant
            s == query_string@,
            n == s.len(),
            0 <= cursor <= n,
            result@.len() == donep.len(),
            query_eq_pairs(s, 0) == donep + query_eq_pairs(s, cursor as int),
            forall|i: int| 0 <= i < donep.len() ==> key_decodes(s, #[trigger] donep[i]),
            forall|i: int|
                0 <= i < donep.len() ==> ((#[trigger] result@[i]).value_spec() == s.subrange(
                    donep[i].1 + 1,
                    donep[i].2,
                ) && result@[i].name_spec() == decode_utf8(
                    url_decode_bytes(encode_utf8(s.subrange(donep[i].0, donep[i].1)), 0)->Some_0,
                )),
        decreases n - cursor,
    {
        let end = match strutil::find_char(query_string, '&', cursor) {
            Some(i) => i,
            None => n,
        };
        let el = query_string.substring_char(cursor, end);
        let el_len = el.unicode_len();
        let found_eq = strutil::find_char(el, '=', 0);
        proof {
            strutil::lemma_first_char_in_subrange(s, '=', cursor as int, end as int, found_eq);
        }
        match found_eq {
            Some(index) => {
                let key_part = el.substring_char(0, index);
                let value_part = el.substring_char(index + 1, el_len);
                let ghost pe = (cursor as int, cursor + index, end as int);
                proof {
                    assert(key_part@ =~= s.subrange(pe.0, pe.1));
                    assert(value_part@ =~= s.subrange(pe.1 + 1, pe.2));
                    assert(query_eq_pairs(s, cursor as int) =~= seq![pe] + (if end < n {
                        query_eq_pairs(s, end + 1)
                    } else {
                        Seq::empty()
                    }));
                }
                match crate::url_decoder::decode_from_url_query_string(key_part) {
                    Ok(key) => {
                        result.push(UrlEncodedValue::new(key, value_part));
                        proof {
                            donep = donep.push(pe);
                            assert(query_eq_pairs(s, 0) =~= donep + (if end < n {
                                query_eq_pairs(s, end + 1)
                            } else {
                                Seq::<(int, int, int)>::empty()
                            }));
                        }
                    },
                    Err(e) => {
                        proof {
                            assert(query_eq_pairs(s, 0)[donep.len() as int] == pe);
                            assert(!key_decodes(s, pe));
                        }
                        return Err(e);
                    },
                }
            },
            None => {
                proof {
                    assert(query_eq_pairs(s, cursor as int) =~= (if end < n {
                        query_eq_pairs(s, end + 1)
                    } else {
                        Seq::<(int, int, int)>::empty()
                    }));
                }
            },
        }
        if end == n {
            proof {
                assert(query_eq_pairs(s, 0) =~= donep);
                assert forall|i: int| 0 <= i < query_eq_pairs(s, 0).len() implies key_decodes(
                    s,
                    #[trigger] query_eq_pairs(s, 0)[i],
                ) by {
                    assert(query_eq_pairs(s, 0)[i] == donep[i]);
                    assert(key_decodes(s, donep[i]));
                }
            }
            return Ok(result);
        }
        cursor = end + 1;
    }
}

} // verus!
