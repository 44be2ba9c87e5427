//! The part splitter: walks a multipart payload and yields one raw byte span
//! per part, delimited by occurrences of `--` followed by the boundary token.
use vstd::prelude::*;

use crate::scan;

verus! {

use vstd::utf8::encode_utf8;

/// The delimiter searched for in the payload: two dashes followed by the
/// boundary token's UTF-8 bytes.
pub open spec fn boundary_bytes(boundary: Seq<char>) -> Seq<u8> {
    seq![45u8, 45u8] + encode_utf8(boundary)
}

/// First occurrence of `bd` in `p` at or after `from`, as a function.
pub open spec fn first_match_from(p: Seq<u8>, bd: Seq<u8>, from: int) -> Option<int>
    decreases p.len() - from + 1,
{
    if from < 0 || from > p.len() - bd.len() {
        None
    } else if p.subrange(from, from + bd.len()) == bd {
        Some(from)
    } else {
        first_match_from(p, bd, from + 1)
    }
}

/// The span the splitter yields next when its cursor stands at `pos`: the
/// first content byte after skipping the delimiter length is the start, the
/// next occurrence of the delimiter is the end.
pub open spec fn next_span(p: Seq<u8>, bd: Seq<u8>, pos: int) -> Option<(int, int)> {
    match scan::first_content_at(p, pos + bd.len()) {
        Some(start) => match first_match_from(p, bd, start) {
            Some(end) => Some((start, end)),
            None => None,
        },
        None => None,
    }
}

/// A found match position lies between `from` and the last position where
/// the pattern still fits.
pub proof fn lemma_first_match_bounds(p: Seq<u8>, bd: Seq<u8>, from: int)
    ensures
        first_match_from(p, bd, from) matches Some(i) ==> from <= i && i + bd.len() <= p.len(),
    decreases p.len() - from + 1,
{
    if from < 0 || from > p.len() - bd.len() {
    } else if p.subrange(from, from + bd.len()) == bd {
    } else {
        lemma_first_match_bounds(p, bd, from + 1);
    }
}

/// A first occurrence leaves no occurrence before it.
pub proof fn lemma_no_match_before_first(p: Seq<u8>, bd: Seq<u8>, from: int)
    ensures
        first_match_from(p, bd, from) matches Some(i) ==> forall|k: int|
            from <= k < i ==> !scan::matches_at(p, bd, k),
    decreases p.len() - from + 1,
{
    if from < 0 || from > p.len() - bd.len() {
    } else if p.subrange(from, from + bd.len()) == bd {
    } else {
        lemma_no_match_before_first(p, bd, from + 1);
        match first_match_from(p, bd, from) {
            Some(i) => {
                assert(!scan::matches_at(p, bd, from));
                assert(forall|k: int| from <= k < i ==> !scan::matches_at(p, bd, k));
            },
            None => {},
        }
    }
}

/// No false boundary match: within a span the splitter yields, no position
/// matches the boundary delimiter. Content that merely resembles the
/// delimiter, without equalling it byte for byte, never truncates a part
/// early.
pub proof fn lemma_no_boundary_inside_span(p: Seq<u8>, bd: Seq<u8>, pos: int)
    requires
        next_span(p, bd, pos) is Some,
    ensures
        next_span(p, bd, pos) matches Some(se) ==> forall|k: int|
            se.0 <= k < se.1 ==> !scan::matches_at(p, bd, k),
{
    let start = scan::first_content_at(p, pos + bd.len())->Some_0;
    lemma_no_match_before_first(p, bd, start);
}

/// All spans the splitter yields from cursor position `pos` on, in payload
/// order.
pub open spec fn spans_from(p: Seq<u8>, bd: Seq<u8>, pos: int) -> Seq<(int, int)>
    decreases p.len() - pos when 0 <= pos && bd.len() >= 1 via spans_from_decreases
{
    match next_span(p, bd, pos) {
        Some((start, end)) => seq![(start, end)] + spans_from(p, bd, end),
        None => Seq::empty(),
    }
}

#[via_fn]
proof fn spans_from_decreases(p: Seq<u8>, bd: Seq<u8>, pos: int) {
    scan::lemma_first_content_at_bounds(p, pos + bd.len());
    match scan::first_content_at(p, pos + bd.len()) {
        Some(start) => {
            lemma_first_match_bounds(p, bd, start);
        },
        None => {},
    }
}

/// `first_match_from` agrees with the first-occurrence characterization used
/// by the executable sequence search.
pub proof fn lemma_first_match_from(p: Seq<u8>, bd: Seq<u8>, from: int, r: Option<usize>)
    requires
        0 <= from,
        match r {
            Some(i) => scan::is_first_match(p, bd, from, i as int),
            None => scan::no_match_from(p, bd, from),
        },
    ensures
        match r {
            Some(i) => first_match_from(p, bd, from) == Some(i as int),
            None => first_match_from(p, bd, from) is None,
        },
    decreases p.len() - from + 1,
{
    if from > p.len() - bd.len() {
        match r {
            Some(i) => {
                assert(scan::matches_at(p, bd, i as int));
                assert(false);
            },
            None => {},
        }
    } else if p.subrange(from, from + bd.len()) == bd {
        assert(scan::matches_at(p, bd, from));
        match r {
            Some(i) => {
                assert(i as int == from);
            },
            None => {
                assert(false);
            },
        }
    } else {
        assert(!scan::matches_at(p, bd, from));
        lemma_first_match_from(p, bd, from + 1, r);
    }
}

/// Where the splitter's cursor stands when no span remains: the end of the
/// last yielded span, or the starting position when none is yielded.
pub open spec fn final_cursor(p: Seq<u8>, bd: Seq<u8>, pos: int) -> int
    decreases p.len() - pos when 0 <= pos && bd.len() >= 1 via final_cursor_decreases
{
    match next_span(p, bd, pos) {
        Some((start, end)) => final_cursor(p, bd, end),
        None => pos,
    }
}

#[via_fn]
proof fn final_cursor_decreases(p: Seq<u8>, bd: Seq<u8>, pos: int) {
    scan::lemma_first_content_at_bounds(p, pos + bd.len());
    match scan::first_content_at(p, pos + bd.len()) {
        Some(start) => {
            lemma_first_match_bounds(p, bd, start);
        },
        None => {},
    }
}

/// After the last span, the first content bytes past one more delimiter
/// skip are the two dashes of the closing `--boundary--` marker.
pub open spec fn closing_ok(p: Seq<u8>, bd: Seq<u8>) -> bool {
    let pos = final_cursor(p, bd, 0);
    match scan::first_content_at(p, pos + bd.len()) {
        Some(start) => start + 2 <= p.len() && p[start] == 45 && p[start + 1] == 45,
        None => false,
    }
}

/// Lazily yields the raw byte spans of a multipart payload, one per part.
/// The sequence is finite, single-pass and non-restartable: the cursor is
/// consumed as it iterates.
pub struct ContentIterator<'s> {
    boundary_data: Vec<u8>,
    payload: &'s [u8],
    pos: usize,
}

impl<'s> ContentIterator<'s> {
    /// The delimiter this splitter searches for.
    pub closed spec fn boundary_spec(&self) -> Seq<u8> {
        self.boundary_data@
    }

    /// The payload being split.
    pub closed spec fn payload_spec(&self) -> Seq<u8> {
        self.payload@
    }

    /// The cursor: everything before it has been consumed.
    pub closed spec fn pos_spec(&self) -> int {
        self.pos as int
    }

    /// The splitter's invariant: the cursor stays inside the payload and the
    /// delimiter holds at least its two leading dashes.
    pub closed spec fn inv(&self) -> bool {
        &&& self.pos <= self.payload@.len()
        &&& self.boundary_data@.len() >= 2
    }

    pub fn new(payload: &'s [u8], boundary: &str) -> (r: Self)
        ensures
            r.inv(),
            r.payload_spec() == payload@,
            r.boundary_spec() == boundary_bytes(boundary@),
            r.pos_spec() == 0,
    {
        let mut boundary_data: Vec<u8> = Vec::new();
        boundary_data.push(45u8);
        boundary_data.push(45u8);
        boundary_data.extend_from_slice(boundary.as_bytes());
        assert(boundary_data@ =~= boundary_bytes(boundary@));
        Self { boundary_data, payload, pos: 0 }
    }

    /// Finds the first content byte after the cursor's delimiter skip, with
    /// the result tied to the spec-level `scan::first_content_at`.
    fn find_part_start(&self) -> (r: Option<usize>)
        requires
            self.inv(),
        ensures
            match r {
                Some(i) => scan::first_content_at(
                    self.payload_spec(),
                    self.pos_spec() + self.boundary_spec().len(),
                ) == Some(i as int) && i < self.payload_spec().len(),
                None => scan::first_content_at(
                    self.payload_spec(),
                    self.pos_spec() + self.boundary_spec().len(),
                ) is None,
            },
    {
        let ghost p = self.payload@;
        let ghost from0 = self.pos + self.boundary_data@.len();
        let bl = self.boundary_data.len();
        let skip_to = if bl <= self.payload.len() - self.pos {
            self.pos + bl
        } else {
            self.payload.len()
        };
        let found = scan::find_non_space(self.payload, skip_to);
        proof {
            match found {
                Some(i) => {
                    assert(skip_to == self.pos + bl);
                    scan::lemma_first_content_at_agrees(p, from0, found);
                },
                None => {
                    assert(scan::no_content_from(p, from0));
                    scan::lemma_first_content_at_agrees(p, from0, found);
                },
            }
        }
        found
    }

    /// Yields the next part span, or `None` when no further occurrence of
    /// the delimiter follows: the expected end of the payload, reached right
    /// after the closing marker was consumed as the previous delimiter.
    pub fn next(&mut self) -> (r: Option<&'s [u8]>)
        requires
            old(self).inv(),
        ensures
            final(self).inv(),
            final(self).boundary_spec() == old(self).boundary_spec(),
            final(self).payload_spec() == old(self).payload_spec(),
            0 <= final(self).pos_spec() <= final(self).payload_spec().len(),
            match r {
                Some(part) => {
                    let sp = next_span(
                        old(self).payload_spec(),
                        old(self).boundary_spec(),
                        old(self).pos_spec(),
                    );
                    &&& sp matches Some(se)
                    &&& part@ == old(self).payload_spec().subrange(se.0, se.1)
                    &&& final(self).pos_spec() == se.1
                    &&& final(self).pos_spec() > old(self).pos_spec()
                },
                None => {
                    &&& next_span(
                        old(self).payload_spec(),
                        old(self).boundary_spec(),
                        old(self).pos_spec(),
                    ) is None
                    &&& *final(self) == *old(self)
                },
            },
    {
        let ghost p = self.payload@;
        let ghost bd = self.boundary_data@;
        let start = match self.find_part_start() {
            Some(i) => i,
            None => {
                return None;
            },
        };
        let next_pos = scan::find_sequence_pos(self.payload, self.boundary_data.as_slice(), start);
        proof {
            lemma_first_match_from(p, bd, start as int, next_pos);
        }
        let end = match next_pos {
            Some(i) => i,
            None => {
                return None;
            },
        };
        proof {
            scan::lemma_first_content_at_bounds(p, self.pos + bd.len());
            lemma_first_match_bounds(p, bd, start as int);
        }
        let result = vstd::slice::slice_subrange(self.payload, start, end);
        self.pos = end;
        Some(result)
    }

    /// Whether the first content bytes after the cursor's next delimiter
    /// skip are the two dashes of the closing marker. After `next` has
    /// returned `None`, this tells a proper `--boundary--` close apart from
    /// a payload that simply ran out.
    pub fn remainder_is_closing(&self) -> (r: bool)
        requires
            self.inv(),
        ensures
            r == {
                match scan::first_content_at(
                    self.payload_spec(),
                    self.pos_spec() + self.boundary_spec().len(),
                ) {
                    Some(start) => start + 2 <= self.payload_spec().len()
                        && self.payload_spec()[start] == 45u8 && self.payload_spec()[start + 1]
                        == 45u8,
                    None => false,
                }
            },
    {
        proof {
            scan::lemma_first_content_at_bounds(self.payload@, self.pos + self.boundary_data@.len());
        }
        match self.find_part_start() {
            Some(start) => {
                if self.payload.len() - start >= 2 {
                    self.payload[start] == 45u8 && self.payload[start + 1] == 45u8
                } else {
                    false
                }
            },
            None => false,
        }
    }
}

} // verus!
