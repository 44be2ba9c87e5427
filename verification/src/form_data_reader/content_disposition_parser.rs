//! The `Content-Disposition` attribute tokenizer: walks a header value and
//! yields its semicolon-separated attributes as key / optional-value pairs,
//! exactly as the spec-level model `attrs_from` describes.
use vstd::prelude::*;

use crate::form_data_reader::ReadingFromDataError;
use crate::scan;
use crate::strutil;

verus! {

use vstd::utf8::decode_utf8;
use vstd::utf8::encode_utf8;
use vstd::utf8::valid_utf8;

/// One attribute of a `Content-Disposition` header value: a bare key, or a
/// key with a value.
#[derive(Debug)]
pub struct KeyValue<'s> {
    pub key: &'s str,
    pub value: Option<&'s str>,
}

/// An attribute separator: `;` ends a bare key, `=` introduces a value.
pub open spec fn is_attr_separator(b: u8) -> bool {
    b == 59 || b == 61
}

/// First index at or after `from` holding a `;` or `=`, as a function.
pub open spec fn first_separator_at(c: Seq<u8>, from: int) -> Option<int>
    decreases c.len() - from,
{
    if from < 0 || from >= c.len() {
        None
    } else if is_attr_separator(c[from]) {
        Some(from)
    } else {
        first_separator_at(c, from + 1)
    }
}

/// A found separator position lies between `from` and the end and holds a
/// separator byte.
pub proof fn lemma_first_separator_at_bounds(c: Seq<u8>, from: int)
    ensures
        first_separator_at(c, from) matches Some(i) ==> from <= i < c.len() && is_attr_separator(
            c[i],
        ),
    decreases c.len() - from,
{
    if from < 0 || from >= c.len() {
    } else if is_attr_separator(c[from]) {
    } else {
        lemma_first_separator_at_bounds(c, from + 1);
    }
}

/// `first_separator_at` agrees with the first-index characterization the
/// executable scanner establishes.
proof fn lemma_first_separator_at_agrees(c: Seq<u8>, from: int, r: Option<usize>)
    requires
        0 <= from,
        match r {
            Some(i) => from <= i < c.len() && is_attr_separator(c[i as int]) && forall|j: int|
                from <= j < i ==> !is_attr_separator(c[j]),
            None => forall|j: int| from <= j < c.len() ==> !is_attr_separator(c[j]),
        },
    ensures
        match r {
            Some(i) => first_separator_at(c, from) == Some(i as int),
            None => first_separator_at(c, from) is None,
        },
    decreases c.len() - from,
{
    if from >= c.len() {
    } else if is_attr_separator(c[from]) {
        match r {
            Some(i) => {
                assert(i as int == from);
            },
            None => {
                assert(false);
            },
        }
    } else {
        lemma_first_separator_at_agrees(c, from + 1, r);
    }
}

/// Where the tokenizer's cursor stands after consuming a quoted value whose
/// closing quote is at `close`: two past the quote, clamped to the end.
pub open spec fn after_value(c: Seq<u8>, close: int) -> int {
    if close + 2 <= c.len() {
        close + 2
    } else {
        c.len() as int
    }
}

/// The attributes the tokenizer yields from cursor position `pos` on, as
/// raw byte pairs: each key runs from the first content byte to the first
/// `;` or `=`; a `;` ends a bare key; after an `=`, the value is the bytes
/// strictly between the next two quotes. The sequence ends when no content
/// byte, separator or quote pair remains.
pub open spec fn attrs_from(c: Seq<u8>, pos: int) -> Seq<(Seq<u8>, Option<Seq<u8>>)>
    decreases c.len() - pos when 0 <= pos via attrs_from_decreases
{
    match scan::first_content_at(c, pos) {
        None => Seq::empty(),
        Some(start) => match first_separator_at(c, start) {
            None => Seq::empty(),
            Some(sep) => {
                let key = c.subrange(start, sep);
                if c[sep] == 59 {
                    seq![(key, None::<Seq<u8>>)] + attrs_from(c, sep + 1)
                } else {
                    match scan::first_byte_at(c, 34, sep + 1) {
                        None => Seq::empty(),
                        Some(open) => match scan::first_byte_at(c, 34, open + 1) {
                            None => Seq::empty(),
                            Some(close) => seq![(key, Some(c.subrange(open + 1, close)))]
                                + attrs_from(c, after_value(c, close)),
                        },
                    }
                }
            },
        },
    }
}

#[via_fn]
proof fn attrs_from_decreases(c: Seq<u8>, pos: int) {
    scan::lemma_first_content_at_bounds(c, pos);
    match scan::first_content_at(c, pos) {
        Some(start) => {
            lemma_first_separator_at_bounds(c, start);
            match first_separator_at(c, start) {
                Some(sep) => {
                    scan::lemma_first_byte_at_bounds(c, 34, sep + 1);
                    match scan::first_byte_at(c, 34, sep + 1) {
                        Some(open) => {
                            scan::lemma_first_byte_at_bounds(c, 34, open + 1);
                        },
                        None => {},
                    }
                },
                None => {},
            }
        },
        None => {},
    }
}

/// Whether tokenizing from `pos` on runs into bytes that are not UTF-8: a
/// key that does not decode (checked before the value is even located), or
/// a located value that does not decode.
pub open spec fn attrs_bad(c: Seq<u8>, pos: int) -> bool
    decreases c.len() - pos when 0 <= pos via attrs_bad_decreases
{
    match scan::first_content_at(c, pos) {
        None => false,
        Some(start) => match first_separator_at(c, start) {
            None => false,
            Some(sep) => {
                let key = c.subrange(start, sep);
                if !valid_utf8(key) {
                    true
                } else if c[sep] == 59 {
                    attrs_bad(c, sep + 1)
                } else {
                    match scan::first_byte_at(c, 34, sep + 1) {
                        None => false,
                        Some(open) => match scan::first_byte_at(c, 34, open + 1) {
                            None => false,
                            Some(close) => {
                                if !valid_utf8(c.subrange(open + 1, close)) {
                                    true
                                } else {
                                    attrs_bad(c, after_value(c, close))
                                }
                            },
                        },
                    }
                }
            },
        },
    }
}

#[via_fn]
proof fn attrs_bad_decreases(c: Seq<u8>, pos: int) {
    scan::lemma_first_content_at_bounds(c, pos);
    match scan::first_content_at(c, pos) {
        Some(start) => {
            lemma_first_separator_at_bounds(c, start);
            match first_separator_at(c, start) {
                Some(sep) => {
                    scan::lemma_first_byte_at_bounds(c, 34, sep + 1);
                    match scan::first_byte_at(c, 34, sep + 1) {
                        Some(open) => {
                            scan::lemma_first_byte_at_bounds(c, 34, open + 1);
                        },
                        None => {},
                    }
                },
                None => {},
            }
        },
        None => {},
    }
}

/// Lazily yields the attributes of one `Content-Disposition` header value.
/// The sequence is finite and non-restartable.
pub struct ContentDispositionParser<'s> {
    content: &'s [u8],
    pos: usize,
}

impl<'s> ContentDispositionParser<'s> {
    /// The header value being tokenized.
    pub closed spec fn content_spec(&self) -> Seq<u8> {
        self.content@
    }

    /// The cursor: everything before it has been consumed.
    pub closed spec fn pos_spec(&self) -> int {
        self.pos as int
    }

    /// The tokenizer's invariant: the cursor stays inside the header value.
    pub closed spec fn inv(&self) -> bool {
        self.pos <= self.content@.len()
    }

    pub fn new(content: &'s [u8]) -> (r: Self)
        ensures
            r.inv(),
            r.content_spec() == content@,
            r.pos_spec() == 0,
    {
        Self { content, pos: 0 }
    }

    /// First position at or after the cursor whose byte satisfies
    /// `condition`.
    pub fn find_pos<TCondition: Fn(u8) -> bool>(&self, condition: TCondition) -> (r: Option<usize>)
        requires
            forall|b: u8| #[trigger] call_requires(condition, (b,)),
        ensures
            match r {
                Some(i) => {
                    &&& self.pos_spec() <= i < self.content_spec().len()
                    &&& call_ensures(condition, (self.content_spec()[i as int],), true)
                    &&& forall|j: int| self.pos_spec() <= j < i ==> call_ensures(
                        condition,
                        (self.content_spec()[j],),
                        false,
                    )
                },
                None => forall|j: int|
                    self.pos_spec() <= j < self.content_spec().len() ==> call_ensures(
                        condition,
                        (self.content_spec()[j],),
                        false,
                    ),
            },
    {
        let mut i = self.pos;
        while i < self.content.len()
            invariant
                self.pos <= i,
                forall|b: u8| #[trigger] call_requires(condition, (b,)),
                forall|j: int| self.pos <= j < i ==> call_ensures(
                    condition,
                    (self.content@[j],),
                    false,
                ),
            decreases self.content@.len() - i,
        {
            if condition(self.content[i]) {
                return Some(i);
            }
            i = i + 1;
        }
        None
    }

    /// Yields the next attribute, exactly as `attrs_from` describes from the
    /// cursor on: `Ok(None)` when that sequence is empty, `InvalidUtf8` when
    /// the head attribute's key or value is not UTF-8, and otherwise the
    /// head attribute decoded, with the cursor moved past it.
    pub fn next(&mut self) -> (r: Result<Option<KeyValue<'s>>, ReadingFromDataError>)
        requires
            old(self).inv(),
        ensures
            final(self).inv(),
            final(self).content_spec() == old(self).content_spec(),
            final(self).pos_spec() >= old(self).pos_spec(),
            0 <= final(self).pos_spec() <= final(self).content_spec().len(),
            ({
                let c = old(self).content_spec();
                let p0 = old(self).pos_spec();
                match scan::first_content_at(c, p0) {
                    None => (r matches Ok(None)) && final(self).pos_spec() == p0,
                    Some(start) => match first_separator_at(c, start) {
                        None => (r matches Ok(None)) && final(self).pos_spec() == start,
                        Some(sep) => {
                            let key_bytes = c.subrange(start, sep);
                            if !valid_utf8(key_bytes) {
                                r matches Err(e) && e is InvalidUtf8
                            } else if c[sep] == 59 {
                                (r matches Ok(Some(kv)) && (kv.key@ == decode_utf8(key_bytes)
                                    && kv.value is None)) && final(self).pos_spec() == sep + 1
                            } else {
                                match scan::first_byte_at(c, 34, sep + 1) {
                                    None => (r matches Ok(None)) && final(self).pos_spec() == sep
                                        + 1,
                                    Some(open) => match scan::first_byte_at(c, 34, open + 1) {
                                        None => (r matches Ok(None)) && final(self).pos_spec()
                                            == open + 1,
                                        Some(close) => {
                                            let value_bytes = c.subrange(open + 1, close);
                                            if !valid_utf8(value_bytes) {
                                                r matches Err(e) && e is InvalidUtf8
                                            } else {
                                                (r matches Ok(Some(kv)) && (kv.key@ == decode_utf8(
                                                    key_bytes,
                                                ) && (kv.value matches Some(v) && v@ == decode_utf8(
                                                    value_bytes,
                                                )))) && final(self).pos_spec() == after_value(
                                                    c,
                                                    close,
                                                )
                                            }
                                        },
                                    },
                                }
                            }
                        },
                    },
                }
            }),
    {
        let ghost c = self.content@;
        let ghost p0 = self.pos as int;
        let found_start = scan::find_non_space(self.content, self.pos);
        proof {
            scan::lemma_first_content_at_agrees(c, p0, found_start);
        }
        let start = match found_start {
            Some(i) => i,
            None => {
                return Ok(None);
            },
        };
        self.pos = start;
        let found_sep = find_separator(self.content, self.pos);
        proof {
            lemma_first_separator_at_agrees(c, start as int, found_sep);
        }
        let sep = match found_sep {
            Some(i) => i,
            None => {
                return Ok(None);
            },
        };
        let b = self.content[sep];
        let key_bytes = vstd::slice::slice_subrange(self.content, self.pos, sep);
        let key = match strutil::bytes_as_str(key_bytes) {
            Some(k) => k,
            None => {
                return Err(ReadingFromDataError::InvalidUtf8);
            },
        };
        self.pos = sep + 1;
        if b == 59 {
            return Ok(Some(KeyValue { key, value: None }));
        }
        let found_open = scan::find_byte_pos(self.content, 34, self.pos);
        proof {
            scan::lemma_first_byte_at_agrees(c, 34, sep + 1, found_open);
        }
        let start_of_value = match found_open {
            Some(i) => i,
            None => {
                return Ok(None);
            },
        };
        self.pos = start_of_value + 1;
        let found_close = scan::find_byte_pos(self.content, 34, self.pos);
        proof {
            scan::lemma_first_byte_at_agrees(c, 34, start_of_value + 1, found_close);
        }
        let end_of_value = match found_close {
            Some(i) => i,
            None => {
                return Ok(None);
            },
        };
        let value_bytes: &'s [u8];
        if self.content[start_of_value] == 34 {
            value_bytes = vstd::slice::slice_subrange(
                self.content,
                start_of_value + 1,
                end_of_value,
            );
            self.pos = if end_of_value + 1 < self.content.len() {
                end_of_value + 2
            } else {
                self.content.len()
            };
        } else {
            // tolerated fallback for malformed input without an opening
            // quote; unreachable, since the quote search only stops on a
            // quote
            value_bytes = vstd::slice::slice_subrange(
                self.content,
                start_of_value,
                end_of_value + 1,
            );
            self.pos = end_of_value + 1;
        }
        let value = match strutil::bytes_as_str(value_bytes) {
            Some(v) => v,
            None => {
                return Err(ReadingFromDataError::InvalidUtf8);
            },
        };
        Ok(Some(KeyValue { key, value: Some(value) }))
    }
}

/// First position at or after `from` holding a `;` or `=` byte.
fn find_separator(data: &[u8], from: usize) -> (r: Option<usize>)
    ensures
        match r {
            Some(i) => from <= i < data@.len() && is_attr_separator(data@[i as int]) && forall|
                j: int,
            |
                from <= j < i ==> !is_attr_separator(data@[j]),
            None => forall|j: int| from <= j < data@.len() ==> !is_attr_separator(data@[j]),
        },
{
    let mut i = from;
    while i < data.len()
        invariant
            from <= i,
            forall|j: int| from <= j < i ==> !is_attr_separator(data@[j]),
        decreases data@.len() - i,
    {
        if data[i] == 59 || data[i] == 61 {
            return Some(i);
        }
        i = i + 1;
    }
    None
}

} // verus!
