//! The decoded result set: drives the splitter and the field assembler over
//! a whole payload, keeps the fields in payload order, and answers
//! first-match lookups by field name.
use vstd::prelude::*;

use crate::form_data_reader::content_iterator::boundary_bytes;
use crate::form_data_reader::content_iterator::closing_ok;
use crate::form_data_reader::content_iterator::final_cursor;
use crate::form_data_reader::content_iterator::next_span;
use crate::form_data_reader::content_iterator::spans_from;
use crate::form_data_reader::content_iterator::ContentIterator;
use crate::form_data_reader::form_data_item::matches_model;
use crate::form_data_reader::form_data_item::parse_model;
use crate::form_data_reader::form_data_item::FormDataItem;
use crate::form_data_reader::form_data_item::ItemModel;
use crate::form_data_reader::ReadingFromDataError;
use crate::strutil;

verus! {

/// What assembling the span `se` of payload `p` yields; see `parse_model`.
pub open spec fn span_model(p: Seq<u8>, se: (int, int)) -> Result<
    ItemModel,
    ReadingFromDataError,
> {
    parse_model(p.subrange(se.0, se.1), 0, None, None, None)
}

/// Every span the splitter yields from `p` under delimiter `bd` assembles
/// successfully.
pub open spec fn all_spans_ok(p: Seq<u8>, bd: Seq<u8>) -> bool {
    forall|i: int|
        0 <= i < spans_from(p, bd, 0).len() ==> span_model(
            p,
            #[trigger] spans_from(p, bd, 0)[i],
        ) is Ok
}

/// An ordered collection of the fields decoded from one multipart payload,
/// in payload order. Lookup by name returns the first match.
pub struct FormDataReader<'s> {
    data: Vec<FormDataItem<'s>>,
}

impl<'s> FormDataReader<'s> {
    /// The decoded fields, in payload order.
    pub closed spec fn records(&self) -> Seq<FormDataItem<'s>> {
        self.data@
    }

    /// Decodes a whole payload: one field per part span, each realising its
    /// span's model, in payload order. Fails with the first broken span's
    /// own error, and with `UnterminatedPart` when the payload does not end
    /// in the closing `--boundary--` marker; when every span assembles, it
    /// fails exactly on a missing closing marker.
    pub fn new(content: &'s [u8], boundary: &str) -> (r: Result<Self, ReadingFromDataError>)
        ensures
            match r {
                Ok(reader) => {
                    let sps = spans_from(content@, boundary_bytes(boundary@), 0);
                    &&& reader.records().len() == sps.len()
                    &&& forall|i: int|
                        0 <= i < sps.len() ==> (span_model(content@, #[trigger] sps[i]) matches Ok(
                            mi,
                        ) && matches_model(reader.records()[i], mi))
                },
                Err(e) => e.is_structural(),
            },
            (all_spans_ok(content@, boundary_bytes(boundary@)) && closing_ok(
                content@,
                boundary_bytes(boundary@),
            )) ==> r is Ok,
            (all_spans_ok(content@, boundary_bytes(boundary@)) && !closing_ok(
                content@,
                boundary_bytes(boundary@),
            )) ==> r == Result::<Self, ReadingFromDataError>::Err(
                ReadingFromDataError::UnterminatedPart,
            ),
    {
        let ghost p = content@;
        let ghost bd = boundary_bytes(boundary@);
        let mut iterator = ContentIterator::new(content, boundary);
        let mut data: Vec<FormDataItem<'s>> = Vec::new();
        let ghost mut done: Seq<(int, int)> = Seq::empty();
        loop
            invariant
                p == content@,
                bd == boundary_bytes(boundary@),
                iterator.inv(),
                iterator.payload_spec() == p,
                iterator.boundary_spec() == bd,
                0 <= iterator.pos_spec() <= p.len(),
                bd.len() >= 2,
                data@.len() == done.len(),
                spans_from(p, bd, 0) =~= done + spans_from(p, bd, iterator.pos_spec()),
                final_cursor(p, bd, 0) == final_cursor(p, bd, iterator.pos_spec()),
                forall|i: int|
                    0 <= i < done.len() ==> (span_model(p, #[trigger] done[i]) matches Ok(mi)
                        && matches_model(data@[i], mi)),
            decreases p.len() - iterator.pos_spec(),
        {
            let ghost pos0 = iterator.pos_spec();
            match iterator.next() {
                Some(chunk) => {
                    proof {
                        let se = next_span(p, bd, pos0)->Some_0;
                        assert(spans_from(p, bd, pos0) =~= seq![(se.0, se.1)] + spans_from(
                            p,
                            bd,
                            se.1,
                        ));
                    }
                    match FormDataItem::parse(chunk) {
                        Ok(item) => {
                            data.push(item);
                            proof {
                                let se = next_span(p, bd, pos0)->Some_0;
                                done = done.push((se.0, se.1));
                                assert(spans_from(p, bd, 0) =~= done + spans_from(
                                    p,
                                    bd,
                                    iterator.pos_spec(),
                                ));
                            }
                        },
                        Err(e) => {
                            proof {
                                // under `all_spans_ok` this span's model is
                                // `Ok`, which the parse contract excludes
                                // here
                                if all_spans_ok(p, bd) {
                                    let se = next_span(p, bd, pos0)->Some_0;
                                    assert(spans_from(p, bd, 0)[done.len() as int] == (
                                    se.0,
                                    se.1,
                                    ));
                                    assert(false);
                                }
                            }
                            return Err(e);
                        },
                    }
                },
                None => {
                    proof {
                        assert(spans_from(p, bd, pos0) =~= Seq::<(int, int)>::empty());
                        assert(spans_from(p, bd, 0) =~= done);
                        assert(final_cursor(p, bd, pos0) == pos0);
                    }
                    if iterator.remainder_is_closing() {
                        proof {
                            let sps = spans_from(content@, boundary_bytes(boundary@), 0);
                            assert(sps =~= done);
                            assert(data@.len() == sps.len());
                            assert forall|i: int| 0 <= i < sps.len() implies span_model(
                                content@,
                                #[trigger] sps[i],
                            ) matches Ok(mi) && matches_model(data@[i], mi) by {
                                assert(sps[i] == done[i]);
                                assert(span_model(p, done[i]) matches Ok(mi) && matches_model(
                                    data@[i],
                                    mi,
                                ));
                            }
                        }
                        let result = Self { data };
                        return Ok(result);
                    }
                    // the payload ran out without the closing marker
                    proof {
                        assert(!closing_ok(p, bd));
                    }
                    return Err(ReadingFromDataError::UnterminatedPart);
                },
            }
        }
    }

    /// The first field with the given name, or `ParameterMissing` carrying
    /// that name when no field has it.
    pub fn get_required(&'s self, name: &str) -> (r: Result<
        &'s FormDataItem<'s>,
        ReadingFromDataError,
    >)
        ensures
            match r {
                Ok(item) => exists|i: int|
                    {
                        &&& 0 <= i < self.records().len()
                        &&& (#[trigger] self.records()[i]).spec_name() == name@
                        &&& *item == self.records()[i]
                        &&& forall|j: int| 0 <= j < i ==> self.records()[j].spec_name() != name@
                    },
                Err(e) => {
                    &&& e matches ReadingFromDataError::ParameterMissing(n) && n@ == name@
                    &&& forall|i: int|
                        0 <= i < self.records().len() ==> (#[trigger] self.records()[i]).spec_name()
                            != name@
                },
            },
    {
        match self.get_optional(name) {
            Some(item) => Ok(item),
            None => Err(ReadingFromDataError::ParameterMissing(name.to_owned())),
        }
    }

    /// The first field with the given name, if any; never fails.
    pub fn get_optional(&'s self, name: &str) -> (r: Option<&'s FormDataItem<'s>>)
        ensures
            match r {
                Some(item) => exists|i: int|
                    {
                        &&& 0 <= i < self.records().len()
                        &&& (#[trigger] self.records()[i]).spec_name() == name@
                        &&& *item == self.records()[i]
                        &&& forall|j: int| 0 <= j < i ==> self.records()[j].spec_name() != name@
                    },
                None => forall|i: int|
                    0 <= i < self.records().len() ==> (#[trigger] self.records()[i]).spec_name()
                        != name@,
            },
    {
        let mut k: usize = 0;
        while k < self.data.len()
            invariant
                0 <= k <= self.data@.len(),
                forall|j: int| 0 <= j < k ==> (#[trigger] self.data@[j]).spec_name() != name@,
            decreases self.data@.len() - k,
        {
            let itm = &self.data[k];
            if strutil::str_eq(itm.get_name(), name) {
                proof {
                    assert(self.records()[k as int].spec_name() == name@);
                }
                return Some(itm);
            }
            k = k + 1;
        }
        None
    }

    /// The decoded fields, in payload order.
    pub fn items(&self) -> (r: &Vec<FormDataItem<'s>>)
        ensures
            r@ == self.records(),
    {
        &self.data
    }
}

} // verus!
