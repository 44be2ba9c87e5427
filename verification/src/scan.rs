//! Byte-level scanning primitives shared by the multipart splitter and the
//! header parsers: first occurrence of a byte, of a content byte (above the
//! whitespace range), and of a byte sequence, each with an exact first-match
//! contract.
use vstd::prelude::*;

verus! {

/// `pat` occurs in `data` starting at index `i`.
pub open spec fn matches_at(data: Seq<u8>, pat: Seq<u8>, i: int) -> bool {
    &&& 0 <= i
    &&& i + pat.len() <= data.len()
    &&& data.subrange(i, i + pat.len()) == pat
}

/// `i` is the first index at or after `from` where `pat` occurs in `data`.
pub open spec fn is_first_match(data: Seq<u8>, pat: Seq<u8>, from: int, i: int) -> bool {
    &&& from <= i
    &&& matches_at(data, pat, i)
    &&& forall|j: int| from <= j < i ==> !matches_at(data, pat, j)
}

/// `pat` occurs nowhere in `data` at or after `from`.
pub open spec fn no_match_from(data: Seq<u8>, pat: Seq<u8>, from: int) -> bool {
    forall|j: int| from <= j ==> !matches_at(data, pat, j)
}

/// A content byte: above whitespace and the control range.
pub open spec fn is_content_byte(b: u8) -> bool {
    b > 32
}

/// `i` is the first index at or after `from` holding a content byte.
pub open spec fn is_first_content(data: Seq<u8>, from: int, i: int) -> bool {
    &&& from <= i < data.len()
    &&& is_content_byte(data[i])
    &&& forall|j: int| from <= j < i ==> !is_content_byte(data[j])
}

/// No byte of `data` at or after `from` is a content byte.
pub open spec fn no_content_from(data: Seq<u8>, from: int) -> bool {
    forall|j: int| from <= j < data.len() ==> !is_content_byte(data[j])
}

/// `i` is the first index at or after `from` holding exactly the byte `b`.
pub open spec fn is_first_byte(data: Seq<u8>, b: u8, from: int, i: int) -> bool {
    &&& from <= i < data.len()
    &&& data[i] == b
    &&& forall|j: int| from <= j < i ==> data[j] != b
}

/// The byte `b` occurs nowhere in `data` at or after `from`.
pub open spec fn no_byte_from(data: Seq<u8>, b: u8, from: int) -> bool {
    forall|j: int| from <= j < data.len() ==> data[j] != b
}

/// First index at or after `from` holding a content byte, as a function.
pub open spec fn first_content_at(data: Seq<u8>, from: int) -> Option<int>
    decreases data.len() - from,
{
    if from < 0 || from >= data.len() {
        None
    } else if is_content_byte(data[from]) {
        Some(from)
    } else {
        first_content_at(data, from + 1)
    }
}

/// First index at or after `from` holding exactly `b`, as a function.
pub open spec fn first_byte_at(data: Seq<u8>, b: u8, from: int) -> Option<int>
    decreases data.len() - from,
{
    if from < 0 || from >= data.len() {
        None
    } else if data[from] == b {
        Some(from)
    } else {
        first_byte_at(data, b, from + 1)
    }
}

/// A found content position lies between `from` and the end.
pub proof fn lemma_first_content_at_bounds(data: Seq<u8>, from: int)
    ensures
        first_content_at(data, from) matches Some(i) ==> from <= i < data.len()
            && is_content_byte(data[i]),
    decreases data.len() - from,
{
    if from < 0 || from >= data.len() {
    } else if is_content_byte(data[from]) {
    } else {
        lemma_first_content_at_bounds(data, from + 1);
    }
}

/// A found byte position lies between `from` and the end and holds `b`.
pub proof fn lemma_first_byte_at_bounds(data: Seq<u8>, b: u8, from: int)
    ensures
        first_byte_at(data, b, from) matches Some(i) ==> from <= i < data.len() && data[i] == b,
    decreases data.len() - from,
{
    if from < 0 || from >= data.len() {
    } else if data[from] == b {
    } else {
        lemma_first_byte_at_bounds(data, b, from + 1);
    }
}

/// `first_content_at` agrees with the first-index characterization the
/// executable scanner establishes.
pub proof fn lemma_first_content_at_agrees(data: Seq<u8>, from: int, r: Option<usize>)
    requires
        0 <= from,
        match r {
            Some(i) => is_first_content(data, from, i as int),
            None => no_content_from(data, from),
        },
    ensures
        match r {
            Some(i) => first_content_at(data, from) == Some(i as int),
            None => first_content_at(data, from) is None,
        },
    decreases data.len() - from,
{
    if from >= data.len() {
    } else if is_content_byte(data[from]) {
        match r {
            Some(i) => {
                assert(i as int == from);
            },
            None => {
                assert(false);
            },
        }
    } else {
        lemma_first_content_at_agrees(data, from + 1, r);
    }
}

/// `first_byte_at` agrees with the first-index characterization the
/// executable scanner establishes.
pub proof fn lemma_first_byte_at_agrees(data: Seq<u8>, b: u8, from: int, r: Option<usize>)
    requires
        0 <= from,
        match r {
            Some(i) => is_first_byte(data, b, from, i as int),
            None => no_byte_from(data, b, from),
        },
    ensures
        match r {
            Some(i) => first_byte_at(data, b, from) == Some(i as int),
            None => first_byte_at(data, b, from) is None,
        },
    decreases data.len() - from,
{
    if from >= data.len() {
    } else if data[from] == b {
        match r {
            Some(i) => {
                assert(i as int == from);
            },
            None => {
                assert(false);
            },
        }
    } else {
        lemma_first_byte_at_agrees(data, b, from + 1, r);
    }
}

/// First index at or after `pos_from` holding a byte above 32, i.e. one that
/// is neither whitespace nor a control byte.
pub fn find_non_space(payload: &[u8], pos_from: usize) -> (r: Option<usize>)
    ensures
        match r {
            Some(i) => is_first_content(payload@, pos_from as int, i as int),
            None => no_content_from(payload@, pos_from as int),
        },
{
    let mut i = pos_from;
    while i < payload.len()
        invariant
            pos_from <= i,
            forall|j: int| pos_from <= j < i ==> !is_content_byte(payload@[j]),
        decreases payload.len() - i,
    {
        if payload[i] > 32 {
            return Some(i);
        }
        i = i + 1;
    }
    None
}

/// First index at or after `pos_from` holding exactly the byte `b`.
pub fn find_byte_pos(data: &[u8], b: u8, pos_from: usize) -> (r: Option<usize>)
    ensures
        match r {
            Some(i) => is_first_byte(data@, b, pos_from as int, i as int),
            None => no_byte_from(data@, b, pos_from as int),
        },
{
    let mut i = pos_from;
    while i < data.len()
        invariant
            pos_from <= i,
            forall|j: int| pos_from <= j < i ==> data@[j] != b,
        decreases data.len() - i,
    {
        if data[i] == b {
            return Some(i);
        }
        i = i + 1;
    }
    None
}

/// Whether `pat` occurs in `data` starting exactly at `at`.
pub fn matches_here(data: &[u8], pat: &[u8], at: usize) -> (r: bool)
    requires
        at + pat.len() <= data.len(),
    ensures
        r == matches_at(data@, pat@, at as int),
{
    let mut k: usize = 0;
    while k < pat.len()
        invariant
            0 <= k <= pat.len(),
            at + pat.len() <= data.len(),
            forall|m: int| 0 <= m < k ==> data@[at + m] == pat@[m],
        decreases pat.len() - k,
    {
        if data[at + k] != pat[k] {
            assert(data@.subrange(at as int, at + pat@.len())[k as int] != pat@[k as int]);
            return false;
        }
        k = k + 1;
    }
    assert(data@.subrange(at as int, at + pat@.len()) =~= pat@);
    true
}

/// First occurrence of the byte sequence `pat` in `data` at or after `from`,
/// comparing raw bytes only.
pub fn find_sequence_pos(data: &[u8], pat: &[u8], from: usize) -> (r: Option<usize>)
    ensures
        match r {
            Some(i) => is_first_match(data@, pat@, from as int, i as int),
            None => no_match_from(data@, pat@, from as int),
        },
{
    if pat.len() > data.len() {
        return None;
    }
    let last = data.len() - pat.len();
    let mut i = from;
    if i > last {
        return None;
    }
    loop
        invariant
            from <= i <= last,
            last + pat.len() == data.len(),
            forall|j: int| from <= j < i ==> !matches_at(data@, pat@, j),
        decreases last - i,
    {
        if matches_here(data, pat, i) {
            return Some(i);
        }
        if i == last {
            return None;
        }
        i = i + 1;
    }
}

} // verus!
