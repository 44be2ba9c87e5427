//! String helpers: verified character searches and ASCII case folding, plus
//! the few trusted bridges into `std` string functions that vstd leaves
//! unspecified (UTF-8 decoding, Unicode lowercasing, `str::parse`).
use vstd::prelude::*;

verus! {

use vstd::utf8::decode_utf8;
use vstd::utf8::encode_utf8;
use vstd::utf8::valid_utf8;

/// Relies on core::str::from_utf8: it returns `Ok` exactly on valid UTF-8
/// input, and the returned slice holds the characters those bytes decode to.
#[verifier::external_body]
pub fn bytes_as_str(data: &[u8]) -> (r: Option<&str>)
    ensures
        (r is Some) <==> valid_utf8(data@),
        r matches Some(s) ==> s@ == decode_utf8(data@),
{
    match core::str::from_utf8(data) {
        Ok(s) => Some(s),
        Err(_) => None,
    }
}

/// Relies on alloc::string::String::from_utf8: it returns `Ok` exactly on
/// valid UTF-8 input, and the returned string holds the characters those
/// bytes decode to.
#[verifier::external_body]
pub fn vec_to_string(data: Vec<u8>) -> (r: Option<String>)
    ensures
        (r is Some) <==> valid_utf8(data@),
        r matches Some(s) ==> s@ == decode_utf8(data@),
{
    match String::from_utf8(data) {
        Ok(s) => Some(s),
        Err(_) => None,
    }
}

/// What `str::to_lowercase` returns: a function of the input characters
/// alone.
pub uninterp spec fn lower_of(s: Seq<char>) -> Seq<char>;

/// Relies on str::to_lowercase: the result depends on the input characters
/// alone, and an empty input gives an empty result.
#[verifier::external_body]
pub fn to_lowercase_string(s: &str) -> (r: String)
    ensures
        r@ == lower_of(s@),
        s@.len() == 0 ==> r@.len() == 0,
{
    s.to_lowercase()
}

/// What `char::is_numeric` returns: a function of the character alone.
pub uninterp spec fn numeric_char(c: char) -> bool;

/// Relies on char::is_numeric: the Unicode numeric classification is a
/// function of the character alone.
#[verifier::external_body]
pub fn char_is_numeric(c: char) -> (r: bool)
    ensures
        r == numeric_char(c),
{
    c.is_numeric()
}

/// Relies on String::push: it appends exactly the one given character.
#[verifier::external_body]
pub fn append_char(res: &mut String, c: char)
    ensures
        final(res)@ == old(res)@ + seq![c],
{
    res.push(c);
}

/// Relies on str::parse: the parsed value is forwarded and the error is
/// dropped, so `None` comes exactly where `parse` fails.
#[verifier::external_body]
pub fn parse_from_str<T: core::str::FromStr>(s: &str) -> (r: Option<T>) {
    s.parse::<T>().ok()
}

/// ASCII case folding of one byte: uppercase letters move to lowercase,
/// everything else is unchanged.
pub open spec fn ascii_lower_byte(b: u8) -> u8 {
    if 65 <= b <= 90 {
        (b + 32) as u8
    } else {
        b
    }
}

/// ASCII case folding of a byte sequence.
pub open spec fn lower_bytes(s: Seq<u8>) -> Seq<u8> {
    s.map(|i: int, b: u8| ascii_lower_byte(b))
}

/// Whether two byte slices are equal up to ASCII case.
pub fn eq_ignore_ascii_case_bytes(a: &[u8], b: &[u8]) -> (r: bool)
    ensures
        r == (lower_bytes(a@) == lower_bytes(b@)),
{
    if a.len() != b.len() {
        assert(lower_bytes(a@).len() != lower_bytes(b@).len());
        return false;
    }
    let mut i: usize = 0;
    while i < a.len()
        invariant
            a@.len() == b@.len(),
            0 <= i <= a@.len(),
            forall|j: int| 0 <= j < i ==> ascii_lower_byte(a@[j]) == ascii_lower_byte(b@[j]),
        decreases a@.len() - i,
    {
        let mut x = a[i];
        let mut y = b[i];
        if 65 <= x && x <= 90 {
            x = x + 32;
        }
        if 65 <= y && y <= 90 {
            y = y + 32;
        }
        if x != y {
            assert(lower_bytes(a@)[i as int] != lower_bytes(b@)[i as int]);
            return false;
        }
        i = i + 1;
    }
    assert(lower_bytes(a@) =~= lower_bytes(b@));
    true
}

/// Whether two string slices hold the same characters.
pub fn str_eq(a: &str, b: &str) -> (r: bool)
    ensures
        r == (a@ == b@),
{
    broadcast use vstd::utf8::encode_utf8_decode_utf8;

    let ab = a.as_bytes();
    let bb = b.as_bytes();
    if ab.len() != bb.len() {
        assert(a@ != b@) by {
            if a@ == b@ {
                assert(encode_utf8(a@) == encode_utf8(b@));
            }
        }
        return false;
    }
    let mut i: usize = 0;
    while i < ab.len()
        invariant
            ab@ == encode_utf8(a@),
            bb@ == encode_utf8(b@),
            ab@.len() == bb@.len(),
            0 <= i <= ab@.len(),
            forall|j: int| 0 <= j < i ==> ab@[j] == bb@[j],
        decreases ab@.len() - i,
    {
        if ab[i] != bb[i] {
            assert(a@ != b@) by {
                if a@ == b@ {
                    assert(encode_utf8(a@) == encode_utf8(b@));
                }
            }
            return false;
        }
        i = i + 1;
    }
    assert(ab@ =~= bb@);
    assert(a@ == b@) by {
        assert(encode_utf8(a@) =~= encode_utf8(b@));
        assert(decode_utf8(encode_utf8(a@)) == a@);
        assert(decode_utf8(encode_utf8(b@)) == b@);
    }
    true
}

/// Whether two string slices are equal up to ASCII case, compared byte by
/// byte on their UTF-8 encodings.
pub fn str_eq_ignore_ascii_case(a: &str, b: &str) -> (r: bool)
    ensures
        r == (lower_bytes(encode_utf8(a@)) == lower_bytes(encode_utf8(b@))),
{
    eq_ignore_ascii_case_bytes(a.as_bytes(), b.as_bytes())
}

/// First position at or after `from` where `s` holds `c`, as a function.
pub open spec fn first_char_at(s: Seq<char>, c: char, from: int) -> Option<int>
    decreases s.len() - from,
{
    if from < 0 || from >= s.len() {
        None
    } else if s[from] == c {
        Some(from)
    } else {
        first_char_at(s, c, from + 1)
    }
}

/// A found character position lies between `from` and the end and holds
/// `c`.
pub proof fn lemma_first_char_at_bounds(s: Seq<char>, c: char, from: int)
    ensures
        first_char_at(s, c, from) matches Some(i) ==> from <= i < s.len() && s[i] == c,
    decreases s.len() - from,
{
    if from < 0 || from >= s.len() {
    } else if s[from] == c {
    } else {
        lemma_first_char_at_bounds(s, c, from + 1);
    }
}

/// `first_char_at` agrees with the first-index characterization the search
/// loop establishes.
proof fn lemma_first_char_at_agrees(s: Seq<char>, c: char, from: int, r: Option<usize>)
    requires
        0 <= from,
        match r {
            Some(i) => from <= i < s.len() && s[i as int] == c && forall|j: int|
                from <= j < i ==> s[j] != c,
            None => forall|j: int| from <= j < s.len() ==> s[j] != c,
        },
    ensures
        match r {
            Some(i) => first_char_at(s, c, from) == Some(i as int),
            None => first_char_at(s, c, from) is None,
        },
    decreases s.len() - from,
{
    if from >= s.len() {
    } else if s[from] == c {
        match r {
            Some(i) => {
                assert(i as int == from);
            },
            None => {
                assert(false);
            },
        }
    } else {
        lemma_first_char_at_agrees(s, c, from + 1, r);
    }
}

/// First position in `[from, end)` where `s` holds `c`, as a function.
pub open spec fn first_char_in(s: Seq<char>, c: char, from: int, end: int) -> Option<int>
    decreases end - from,
{
    if from < 0 || from >= end || from >= s.len() {
        None
    } else if s[from] == c {
        Some(from)
    } else {
        first_char_in(s, c, from + 1, end)
    }
}

/// A found in-range position lies in the range and holds `c`.
pub proof fn lemma_first_char_in_bounds(s: Seq<char>, c: char, from: int, end: int)
    ensures
        first_char_in(s, c, from, end) matches Some(i) ==> from <= i < end && i < s.len() && s[i]
            == c,
    decreases end - from,
{
    if from < 0 || from >= end || from >= s.len() {
    } else if s[from] == c {
    } else {
        lemma_first_char_in_bounds(s, c, from + 1, end);
    }
}

/// A first-character search inside the slice `s[a..b]` agrees with
/// `first_char_in` on the whole string, offset by `a`.
pub proof fn lemma_first_char_in_subrange(s: Seq<char>, c: char, a: int, b: int, r: Option<usize>)
    requires
        0 <= a <= b <= s.len(),
        match r {
            Some(k) => 0 <= k < b - a && s.subrange(a, b)[k as int] == c && forall|j: int|
                0 <= j < k ==> s.subrange(a, b)[j] != c,
            None => forall|j: int| 0 <= j < b - a ==> s.subrange(a, b)[j] != c,
        },
    ensures
        match r {
            Some(k) => first_char_in(s, c, a, b) == Some(a + k),
            None => first_char_in(s, c, a, b) is None,
        },
    decreases b - a,
{
    if a >= b {
        match r {
            Some(k) => {
                assert(false);
            },
            None => {},
        }
    } else if s[a] == c {
        match r {
            Some(k) => {
                if k != 0 {
                    assert(s.subrange(a, b)[0] != c);
                    assert(false);
                }
            },
            None => {
                assert(s.subrange(a, b)[0] == c);
                assert(false);
            },
        }
    } else {
        let r2: Option<usize> = match r {
            Some(k) => {
                assert(s.subrange(a, b)[0] != c);
                assert(k >= 1);
                Some((k - 1) as usize)
            },
            None => None,
        };
        assert forall|j: int| 0 <= j < b - (a + 1) implies #[trigger] s.subrange(a + 1, b)[j]
            == s.subrange(a, b)[j + 1] by {}
        lemma_first_char_in_subrange(s, c, a + 1, b, r2);
    }
}

/// First position at or after `from` where `s` holds the character `c`.
pub fn find_char(s: &str, c: char, from: usize) -> (r: Option<usize>)
    requires
        from <= s@.len(),
    ensures
        match r {
            Some(i) => from <= i < s@.len() && s@[i as int] == c && forall|j: int|
                from <= j < i ==> s@[j] != c,
            None => forall|j: int| from <= j < s@.len() ==> s@[j] != c,
        },
        match r {
            Some(i) => first_char_at(s@, c, from as int) == Some(i as int),
            None => first_char_at(s@, c, from as int) is None,
        },
{
    let n = s.unicode_len();
    let mut i = from;
    while i < n
        invariant
            n == s@.len(),
            from <= i,
            forall|j: int| from <= j < i ==> s@[j] != c,
        decreases n - i,
    {
        if s.get_char(i) == c {
            proof {
                lemma_first_char_at_agrees(s@, c, from as int, Some(i));
            }
            return Some(i);
        }
        i = i + 1;
    }
    proof {
        lemma_first_char_at_agrees(s@, c, from as int, None::<usize>);
    }
    None
}

} // verus!
