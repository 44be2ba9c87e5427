//! Query-string parsing into a map keyed by decoded parameter name.
use std::collections::HashMap;

use vstd::prelude::*;

use crate::parse_query_string::key_decodes;
use crate::parse_query_string::query_eq_pairs;
use crate::strutil;
use crate::url_decoder::UrlDecodeError;
use crate::url_encoded_data_reader::UrlEncodedValueAsString;

verus! {

/// Splits the query string on `&` and maps every decoded parameter name to
/// its still-encoded value; a later duplicate name replaces an earlier one.
/// The parse fails exactly when some element's key does not decode; what
/// the map holds is not specified further, `String` keys being beyond what
/// the hash-map specifications reach.
pub fn parse_query_string<'s>(query_string: &'s str) -> (r: Result<
    HashMap<String, UrlEncodedValueAsString<'s>>,
    UrlDecodeError,
>)
    ensures
        (r is Err) == exists|i: int|
            0 <= i < query_eq_pairs(query_string@, 0).len() && !key_decodes(
                query_string@,
                #[trigger] query_eq_pairs(query_string@, 0)[i],
            ),
{
    let ghost s = query_string@;
    let mut result: HashMap<String, UrlEncodedValueAsString<'s>> = HashMap::new();
    let n = query_string.unicode_len();
    let ghost mut donep: Seq<(int, int, int)> = Seq::empty();
    let mut cursor: usize = 0;
    proof {
        assert(query_eq_pairs(s, 0) =~= donep + query_eq_pairs(s, 0));
    }
    loop
        invariant
            s == query_string@,
            n == s.len(),
            0 <= cursor <= n,
            query_eq_pairs(s, 0) == donep + query_eq_pairs(s, cursor as int),
            forall|i: int| 0 <= i < donep.len() ==> key_decodes(s, #[trigger] donep[i]),
        decreases n - cursor,
    {
        let end = match strutil::find_char(query_string, '&', cursor) {
            Some(i) => i,
            None => n,
        };
        let el = query_string.substring_char(cursor, end);
        let el_len = el.unicode_len();
        let found_eq = strutil::find_char(el, '=', 0);
        proof {
            strutil::lemma_first_char_in_subrange(s, '=', cursor as int, end as int, found_eq);
        }
        match found_eq {
            Some(index) => {
                let key_part = el.substring_char(0, index);
                let value_part = el.substring_char(index + 1, el_len);
                let ghost pe = (cursor as int, cursor + index, end as int);
                proof {
                    assert(key_part@ =~= s.subrange(pe.0, pe.1));
                    assert(query_eq_pairs(s, cursor as int) =~= seq![pe] + (if end < n {
                        query_eq_pairs(s, end + 1)
                    } else {
                        Seq::empty()
                    }));
                }
                match crate::url_decoder::decode_from_url_query_string(key_part) {
                    Ok(key) => {
                        result.insert(key, UrlEncodedValueAsString::new(value_part));
                        proof {
                            donep = donep.push(pe);
                            assert(query_eq_pairs(s, 0) =~= donep + (if end < n {
                                query_eq_pairs(s, end + 1)
                            } else {
                                Seq::<(int, int, int)>::empty()
                            }));
                        }
                    },
                    Err(e) => {
                        proof {
                            assert(query_eq_pairs(s, 0)[donep.len() as int] == pe);
                            assert(!key_decodes(s, pe));
                        }
                        return Err(e);
                    },
                }
            },
            None => {
                proof {
                    assert(query_eq_pairs(s, cursor as int) =~= (if end < n {
                        query_eq_pairs(s, end + 1)
                    } else {
                        Seq::<(int, int, int)>::empty()
                    }));
                }
            },
        }
        if end == n {
            proof {
                assert(query_eq_pairs(s, 0) =~= donep);
                assert forall|i: int| 0 <= i < query_eq_pairs(s, 0).len() implies key_decodes(
                    s,
                    #[trigger] query_eq_pairs(s, 0)[i],
                ) by {
                    assert(query_eq_pairs(s, 0)[i] == donep[i]);
                    assert(key_decodes(s, donep[i]));
                }
            }
            return Ok(result);
        }
        cursor = end + 1;
    }
}

} // verus!
