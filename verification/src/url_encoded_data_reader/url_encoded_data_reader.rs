//! The query-string reader: splits `a=1&b=2` into parameters with decoded
//! names, and answers first-match and all-match lookups.
use vstd::prelude::*;

use crate::parse_query_string::key_decodes;
use crate::parse_query_string::query_eq_pairs;
use crate::strutil;
use crate::url_decoder::url_decoder::url_decode_bytes;
use crate::url_decoder::UrlDecodeError;
use crate::url_encoded_data_reader::url_encoded_value::base_name;
use crate::url_encoded_data_reader::ReadingEncodedDataError;
use crate::url_encoded_data_reader::UrlEncodedValue;

verus! {

use vstd::utf8::decode_utf8;
use vstd::utf8::encode_utf8;

/// The parameters among `records` whose lookup name is `name`, in order.
pub open spec fn matching_records<'s>(
    records: Seq<UrlEncodedValue<'s>>,
    name: Seq<char>,
) -> Seq<UrlEncodedValue<'s>>
    decreases records.len(),
{
    if records.len() == 0 {
        Seq::empty()
    } else {
        let rest = matching_records(records.drop_last(), name);
        if base_name(records.last().name_spec()) == name {
            rest.push(records.last())
        } else {
            rest
        }
    }
}

/// The parameters of one query string, in query-string order. Lookup by
/// name returns the first match.
pub struct UrlEncodedDataReader<'s> {
    query_string: Vec<UrlEncodedValue<'s>>,
}

impl<'s> UrlEncodedDataReader<'s> {
    /// The parsed parameters, in query-string order.
    pub closed spec fn records(&self) -> Seq<UrlEncodedValue<'s>> {
        self.query_string@
    }

    /// Splits the query string on `&`; every element with an `=` becomes,
    /// in order, a parameter whose name is the percent-decoding of the
    /// element's key and whose value is the still-encoded remainder. The
    /// parse fails exactly when some element's key does not decode.
    pub fn new(src: &'s str) -> (r: Result<Self, UrlDecodeError>)
        ensures
            (r is Err) == exists|i: int|
                0 <= i < query_eq_pairs(src@, 0).len() && !key_decodes(
                    src@,
                    #[trigger] query_eq_pairs(src@, 0)[i],
                ),
            r matches Ok(reader) ==> {
                let qs = query_eq_pairs(src@, 0);
                &&& reader.records().len() == qs.len()
                &&& forall|i: int|
                    0 <= i < qs.len() ==> ((#[trigger] reader.records()[i]).value_spec()
                        == src@.subrange(qs[i].1 + 1, qs[i].2) && reader.records()[i].name_spec()
                        == decode_utf8(
                        url_decode_bytes(encode_utf8(src@.subrange(qs[i].0, qs[i].1)), 0)->Some_0,
                    ))
            },
    {
        let ghost s = src@;
        let mut result: Vec<UrlEncodedValue<'s>> = Vec::new();
        let n = src.unicode_len();
        let ghost mut donep: Seq<(int, int, int)> = Seq::empty();
        let mut cursor: usize = 0;
        proof {
            assert(query_eq_pairs(s, 0) =~= donep + query_eq_pairs(s, 0));
        }
        loop
            invariant
                s == src@,
                n == s.len(),
                0 <= cursor <= n,
                result@.len() == donep.len(),
                query_eq_pairs(s, 0) == donep + query_eq_pairs(s, cursor as int),
                forall|i: int| 0 <= i < donep.len() ==> key_decodes(s, #[trigger] donep[i]),
                forall|i: int|
                    0 <= i < donep.len() ==> ((#[trigger] result@[i]).value_spec() == s.subrange(
                        donep[i].1 + 1,
                        donep[i].2,
                    ) && result@[i].name_spec() == decode_utf8(
                        url_decode_bytes(
                            encode_utf8(s.subrange(donep[i].0, donep[i].1)),
                            0,
                        )->Some_0,
                    )),
            decreases n - cursor,
        {
            let end = match strutil::find_char(src, '&', cursor) {
                Some(i) => i,
                None => n,
            };
            let el = src.substring_char(cursor, end);
            let el_len = el.unicode_len();
            let found_eq = strutil::find_char(el, '=', 0);
            proof {
                strutil::lemma_first_char_in_subrange(s, '=', cursor as int, end as int, found_eq);
            }
            match found_eq {
                Some(index) => {
                    let key_part = el.substring_char(0, index);
                    let value_part = el.substring_char(index + 1, el_len);
                    let ghost pe = (cursor as int, cursor + index, end as int);
                    proof {
                        assert(key_part@ =~= s.subrange(pe.0, pe.1));
                        assert(value_part@ =~= s.subrange(pe.1 + 1, pe.2));
                        assert(query_eq_pairs(s, cursor as int) =~= seq![pe] + (if end < n {
                            query_eq_pairs(s, end + 1)
                        } else {
                            Seq::empty()
                        }));
                    }
                    match crate::url_decoder::decode_from_url_query_string(key_part) {
                        Ok(key) => {
                            result.push(UrlEncodedValue::new(key, value_part));
                            proof {
                                donep = donep.push(pe);
                                assert(query_eq_pairs(s, 0) =~= donep + (if end < n {
                                    query_eq_pairs(s, end + 1)
                                } else {
                                    Seq::<(int, int, int)>::empty()
                                }));
                            }
                        },
                        Err(e) => {
                            proof {
                                assert(query_eq_pairs(s, 0)[donep.len() as int] == pe);
                                assert(!key_decodes(s, pe));
                            }
                            return Err(e);
                        },
                    }
                },
                None => {
                    proof {
                        assert(query_eq_pairs(s, cursor as int) =~= (if end < n {
                            query_eq_pairs(s, end + 1)
                        } else {
                            Seq::<(int, int, int)>::empty()
                        }));
                    }
                },
            }
            if end == n {
                proof {
                    assert(query_eq_pairs(s, 0) =~= donep);
                    assert forall|i: int| 0 <= i < query_eq_pairs(s, 0).len() implies key_decodes(
                        s,
                        #[trigger] query_eq_pairs(s, 0)[i],
                    ) by {
                        assert(query_eq_pairs(s, 0)[i] == donep[i]);
                        assert(key_decodes(s, donep[i]));
                    }
                }
                return Ok(Self { query_string: result });
            }
            cursor = end + 1;
        }
    }

    /// The first parameter with the given lookup name, or
    /// `RequiredParameterIsMissing` carrying that name.
    pub fn get_required(&'s self, name: &str) -> (r: Result<
        UrlEncodedValue<'s>,
        ReadingEncodedDataError,
    >)
        ensures
            match r {
                Ok(v) => exists|i: int|
                    {
                        &&& 0 <= i < self.records().len()
                        &&& base_name((#[trigger] self.records()[i]).name_spec()) == name@
                        &&& v.name_spec() == self.records()[i].name_spec()
                        &&& v.value_spec() == self.records()[i].value_spec()
                        &&& forall|j: int|
                            0 <= j < i ==> base_name(self.records()[j].name_spec()) != name@
                    },
                Err(e) => {
                    &&& e matches ReadingEncodedDataError::RequiredParameterIsMissing(n) && n@
                        == name@
                    &&& forall|i: int|
                        0 <= i < self.records().len() ==> base_name(
                            (#[trigger] self.records()[i]).name_spec(),
                        ) != name@
                },
            },
    {
        let result = self.get_optional(name);

        match result {
            Some(e) => Ok(e),
            None => Err(ReadingEncodedDataError::RequiredParameterIsMissing(name.to_owned())),
        }
    }

    /// The first parameter with the given lookup name, if any.
    pub fn get_optional(&'s self, name: &str) -> (r: Option<UrlEncodedValue<'s>>)
        ensures
            match r {
                Some(v) => exists|i: int|
                    {
                        &&& 0 <= i < self.records().len()
                        &&& base_name((#[trigger] self.records()[i]).name_spec()) == name@
                        &&& v.name_spec() == self.records()[i].name_spec()
                        &&& v.value_spec() == self.records()[i].value_spec()
                        &&& forall|j: int|
                            0 <= j < i ==> base_name(self.records()[j].name_spec()) != name@
                    },
                None => forall|i: int|
                    0 <= i < self.records().len() ==> base_name(
                        (#[trigger] self.records()[i]).name_spec(),
                    ) != name@,
            },
    {
        let mut k: usize = 0;
        while k < self.query_string.len()
            invariant
                0 <= k <= self.query_string@.len(),
                forall|j: int|
                    0 <= j < k ==> base_name((#[trigger] self.query_string@[j]).name_spec())
                        != name@,
            decreases self.query_string@.len() - k,
        {
            let itm = &self.query_string[k];
            if strutil::str_eq(itm.get_name(), name) {
                proof {
                    assert(base_name(self.records()[k as int].name_spec()) == name@);
                }
                return Some(itm.clone());
            }
            k = k + 1;
        }
        None
    }

    /// Every parameter with the given lookup name, in query-string order:
    /// the matching records, complete and in their original order.
    pub fn get_vec(&'s self, name: &str) -> (r: Vec<UrlEncodedValue<'s>>)
        ensures
            r@.len() == matching_records(self.records(), name@).len(),
            forall|i: int|
                0 <= i < r@.len() ==> (#[trigger] r@[i]).name_spec() == matching_records(
                    self.records(),
                    name@,
                )[i].name_spec() && r@[i].value_spec() == matching_records(
                    self.records(),
                    name@,
                )[i].value_spec(),
    {
        let mut result: Vec<UrlEncodedValue<'s>> = Vec::new();
        let mut k: usize = 0;
        while k < self.query_string.len()
            invariant
                0 <= k <= self.query_string@.len(),
                result@.len() == matching_records(
                    self.records().subrange(0, k as int),
                    name@,
                ).len(),
                forall|i: int|
                    0 <= i < result@.len() ==> (#[trigger] result@[i]).name_spec()
                        == matching_records(self.records().subrange(0, k as int), name@)[i].name_spec()
                        && result@[i].value_spec() == matching_records(
                        self.records().subrange(0, k as int),
                        name@,
                    )[i].value_spec(),
            decreases self.query_string@.len() - k,
        {
            let ghost pre = self.records().subrange(0, k as int);
            proof {
                assert(self.records().subrange(0, k + 1).drop_last() =~= pre);
                assert(self.records().subrange(0, k + 1).last() == self.records()[k as int]);
            }
            let itm = &self.query_string[k];
            if strutil::str_eq(itm.get_name(), name) {
                result.push(itm.clone());
                proof {
                    assert(base_name(self.records()[k as int].name_spec()) == name@);
                }
            } else {
                proof {
                    assert(base_name(self.records()[k as int].name_spec()) != name@);
                }
            }
            k = k + 1;
        }
        proof {
            assert(self.records().subrange(0, self.records().len() as int) =~= self.records());
        }
        result
    }
}

} // verus!
