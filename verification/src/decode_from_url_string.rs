//! The legacy table-driven percent codec: a fixed map from reserved
//! characters to their escapes, used when building URLs, and its inverse
//! for the handful of escapes the table covers.
use vstd::prelude::*;

use crate::string_or_str::StringOrStr;
use crate::strutil;

verus! {

use vstd::utf8::decode_utf8;
use vstd::utf8::valid_utf8;

/// The escape a reserved character is written as when a URL is built, if
/// the table covers it: space becomes `+`, the others `%XX`.
pub open spec fn encoded_char(c: char) -> Option<Seq<char>> {
    if c == ' ' {
        Some(seq!['+'])
    } else if c == '#' {
        Some(seq!['%', '2', '3'])
    } else if c == '$' {
        Some(seq!['%', '2', '4'])
    } else if c == '%' {
        Some(seq!['%', '2', '5'])
    } else if c == '&' {
        Some(seq!['%', '2', '6'])
    } else if c == '\'' {
        Some(seq!['%', '2', '7'])
    } else if c == '(' {
        Some(seq!['%', '2', '8'])
    } else if c == ')' {
        Some(seq!['%', '2', '9'])
    } else if c == '*' {
        Some(seq!['%', '2', 'A'])
    } else if c == '+' {
        Some(seq!['%', '2', 'B'])
    } else if c == ',' {
        Some(seq!['%', '2', 'C'])
    } else if c == '/' {
        Some(seq!['%', '2', 'F'])
    } else if c == ':' {
        Some(seq!['%', '3', 'A'])
    } else if c == ';' {
        Some(seq!['%', '3', 'B'])
    } else if c == '=' {
        Some(seq!['%', '3', 'D'])
    } else if c == '?' {
        Some(seq!['%', '3', 'F'])
    } else if c == '@' {
        Some(seq!['%', '4', '0'])
    } else if c == '[' {
        Some(seq!['%', '5', 'B'])
    } else if c == ']' {
        Some(seq!['%', '5', 'D'])
    } else {
        None
    }
}

/// What one character contributes to an encoded URL: its escape when the
/// table covers it, itself otherwise.
pub open spec fn encoded_char_or_self(c: char) -> Seq<char> {
    match encoded_char(c) {
        Some(e) => e,
        None => seq![c],
    }
}

/// The table-encoded form of a string, character by character from `i` on.
pub open spec fn encoded_str(s: Seq<char>, i: int) -> Seq<char>
    decreases s.len() - i,
{
    if i < 0 || i >= s.len() {
        Seq::empty()
    } else {
        encoded_char_or_self(s[i]) + encoded_str(s, i + 1)
    }
}

/// A string without any character the table covers encodes to itself.
pub proof fn lemma_encoded_plain(s: Seq<char>, i: int)
    requires
        0 <= i <= s.len(),
        forall|j: int| i <= j < s.len() ==> encoded_char(#[trigger] s[j]) is None,
    ensures
        encoded_str(s, i) =~= s.subrange(i, s.len() as int),
    decreases s.len() - i,
{
    if i >= s.len() {
    } else {
        lemma_encoded_plain(s, i + 1);
        assert(encoded_str(s, i) =~= s.subrange(i, s.len() as int));
    }
}

/// The byte the table's two-digit escape `%XY` names, for exactly the pairs
/// the original encoding table can produce.
pub open spec fn url_escape_pair(s0: u8, s1: u8) -> Option<u8> {
    if s0 == 50 {
        // "%2X" escapes
        if s1 == 51 {
            Some(35)
        } else if s1 == 52 {
            Some(36)
        } else if s1 == 53 {
            Some(37)
        } else if s1 == 54 {
            Some(38)
        } else if s1 == 55 {
            Some(39)
        } else if s1 == 56 {
            Some(40)
        } else if s1 == 57 {
            Some(41)
        } else if s1 == 65 || s1 == 97 {
            Some(42)
        } else if s1 == 66 || s1 == 98 {
            Some(43)
        } else if s1 == 67 || s1 == 99 {
            Some(44)
        } else if s1 == 70 || s1 == 102 {
            Some(47)
        } else {
            None
        }
    } else if s0 == 51 {
        // "%3X" escapes
        if s1 == 65 || s1 == 97 {
            Some(58)
        } else if s1 == 66 || s1 == 98 {
            Some(59)
        } else if s1 == 68 || s1 == 100 {
            Some(61)
        } else if s1 == 70 || s1 == 102 {
            Some(63)
        } else {
            None
        }
    } else if s0 == 52 && s1 == 48 {
        Some(64)
    } else if s0 == 53 && (s1 == 66 || s1 == 98) {
        Some(91)
    } else if s0 == 53 && s1 == 68 {
        Some(93)
    } else {
        None
    }
}

/// The byte a table escape names. The input pair must be one the table
/// covers.
pub fn decode_url_escape(s0: u8, s1: u8) -> (r: u8)
    requires
        url_escape_pair(s0, s1) is Some,
    ensures
        Some(r) == url_escape_pair(s0, s1),
{
    if s0 == 50 {
        if s1 == 51 {
            return 35;
        }
        if s1 == 52 {
            return 36;
        }
        if s1 == 53 {
            return 37;
        }
        if s1 == 54 {
            return 38;
        }
        if s1 == 55 {
            return 39;
        }
        if s1 == 56 {
            return 40;
        }
        if s1 == 57 {
            return 41;
        }
        if s1 == 65 || s1 == 97 {
            return 42;
        }
        if s1 == 66 || s1 == 98 {
            return 43;
        }
        if s1 == 67 || s1 == 99 {
            return 44;
        }
        return 47;
    }

    if s0 == 51 {
        if s1 == 65 || s1 == 97 {
            return 58;
        }
        if s1 == 66 || s1 == 98 {
            return 59;
        }
        if s1 == 68 || s1 == 100 {
            return 61;
        }
        return 63;
    }

    if s0 == 52 && s1 == 48 {
        return 64;
    }

    if s1 == 66 || s1 == 98 {
        return 91;
    }
    return 93;
}

/// What the legacy decoder yields from position `i` on, reading characters
/// as bytes: a table escape becomes its byte, `+` a space, anything else
/// its own low byte; an escape the table does not cover fails, and one cut
/// off by the end of the input is dropped.
pub open spec fn legacy_decoded(s: Seq<char>, i: int) -> Option<Seq<u8>>
    decreases s.len() - i,
{
    if i < 0 || i >= s.len() {
        Some(Seq::empty())
    } else if s[i] == '%' {
        if i + 3 <= s.len() {
            match url_escape_pair(s[i + 1] as u8, s[i + 2] as u8) {
                Some(b) => match legacy_decoded(s, i + 3) {
                    Some(rest) => Some(seq![b] + rest),
                    None => None,
                },
                None => None,
            }
        } else {
            Some(Seq::empty())
        }
    } else if s[i] == '+' {
        match legacy_decoded(s, i + 1) {
            Some(rest) => Some(seq![32u8] + rest),
            None => None,
        }
    } else {
        match legacy_decoded(s, i + 1) {
            Some(rest) => Some(seq![s[i] as u8] + rest),
            None => None,
        }
    }
}

/// A stretch without `%` decodes to its own characters' low bytes.
pub proof fn lemma_legacy_plain(s: Seq<char>, i: int)
    requires
        0 <= i <= s.len(),
        forall|j: int| i <= j < s.len() ==> s[j] != '%',
    ensures
        legacy_decoded(s, i) matches Some(d) && d.len() == s.len() - i,
    decreases s.len() - i,
{
    if i >= s.len() {
    } else {
        lemma_legacy_plain(s, i + 1);
    }
}

/// Decodes the table escapes of an already ASCII string. The input must be
/// decodable: every `%` escape in it one the table covers, and the decoded
/// bytes valid UTF-8 (with ASCII input this always holds).
pub fn decode_from_url_string<'s>(src: &'s str) -> (r: StringOrStr<'s>)
    requires
        legacy_decoded(src@, 0) matches Some(d) && valid_utf8(d),
    ensures
        (exists|j: int| 0 <= j < src@.len() && src@[j] == '%') ==> r.view_chars() == decode_utf8(
            legacy_decoded(src@, 0)->Some_0,
        ),
        (forall|j: int| 0 <= j < src@.len() ==> src@[j] != '%') ==> r.view_chars() == src@,
{
    let n = src.unicode_len();
    let index = strutil::find_char(src, '%', 0);

    if index.is_none() {
        return StringOrStr::create_as_str(src);
    }

    let mut result: Vec<u8> = Vec::new();

    let mut is_escape_symbol_mode: bool = false;
    let ghost s = src@;
    let mut i: usize = 0;
    while i < n
        invariant
            n == s.len(),
            s == src@,
            0 <= i <= n,
            legacy_decoded(s, 0) matches Some(d) && valid_utf8(d),
            !is_escape_symbol_mode ==> (legacy_decoded(s, 0) matches Some(d) && (legacy_decoded(
                s,
                i as int,
            ) matches Some(rest) && d == result@ + rest)),
            is_escape_symbol_mode ==> i >= 1 && s[i - 1] == '%' && (legacy_decoded(s, 0)
                matches Some(d) && (legacy_decoded(s, i - 1) matches Some(rest) && d == result@
                + rest)),
        decreases 2 * (n - i) + (if is_escape_symbol_mode {
            1int
        } else {
            0int
        }),
    {
        let c = src.get_char(i);
        if is_escape_symbol_mode {
            // the two digit characters after the switch are taken together
            let ghost e0 = i - 1;
            assert(legacy_decoded(s, e0) is Some);
            if i + 1 < n {
                let c1 = src.get_char(i + 1);
                proof {
                    assert(url_escape_pair(s[i as int] as u8, s[i + 1] as u8) is Some);
                }
                let b = decode_url_escape(
                    #[verifier::truncate] (c as u8),
                    #[verifier::truncate] (c1 as u8),
                );
                result.push(b);
                proof {
                    let rest0 = legacy_decoded(s, e0)->Some_0;
                    let rest = legacy_decoded(s, i + 2)->Some_0;
                    assert(rest0 =~= seq![b] + rest);
                    let d = legacy_decoded(s, 0)->Some_0;
                    assert(d =~= result@ + rest);
                }
                i = i + 2;
                is_escape_symbol_mode = false;
            } else {
                // the input ends inside the escape: the partial escape is
                // dropped
                proof {
                    assert(legacy_decoded(s, e0) matches Some(e) && e =~= Seq::<u8>::empty());
                    let d = legacy_decoded(s, 0)->Some_0;
                    assert(d =~= result@);
                }
                i = i + 1;
                is_escape_symbol_mode = false;
                assert(legacy_decoded(s, i as int) matches Some(e) && e =~= Seq::<u8>::empty());
            }
        } else {
            if c != '%' {
                if c == '+' {
                    result.push(32);
                } else {
                    result.push(#[verifier::truncate] (c as u8));
                }
                proof {
                    let rest0 = legacy_decoded(s, i as int)->Some_0;
                    let rest = legacy_decoded(s, i + 1)->Some_0;
                    assert(rest0 =~= seq![
                        if s[i as int] == '+' {
                            32u8
                        } else {
                            s[i as int] as u8
                        },
                    ] + rest);
                    let d = legacy_decoded(s, 0)->Some_0;
                    assert(d =~= result@ + rest);
                }
                i = i + 1;
            } else {
                is_escape_symbol_mode = true;
                i = i + 1;
            }
        }
    }
    proof {
        if is_escape_symbol_mode {
            assert(legacy_decoded(s, i - 1) matches Some(e) && e =~= Seq::<u8>::empty());
        } else {
            assert(legacy_decoded(s, i as int) matches Some(e) && e =~= Seq::<u8>::empty());
        }
        let d = legacy_decoded(s, 0)->Some_0;
        assert(d =~= result@);
    }
    match strutil::vec_to_string(result) {
        Some(out) => StringOrStr::create_as_string(out),
        None => {
            // unreachable: the decoded bytes were required to be valid
            // UTF-8
            proof {
                assert(false);
            }
            StringOrStr::create_as_str("")
        },
    }
}

/// Appends `src` to `res` with every table-covered character written as
/// its escape.
pub fn encode_to_url_string_and_copy(res: &mut String, src: &str)
    ensures
        final(res)@ == old(res)@ + encoded_str(src@, 0),
{
    let n = src.unicode_len();
    let mut has_symbol_to_encode = false;
    let mut i: usize = 0;
    while i < n && !has_symbol_to_encode
        invariant
            n == src@.len(),
            0 <= i <= n,
            !has_symbol_to_encode ==> forall|j: int|
                0 <= j < i ==> encoded_char(#[trigger] src@[j]) is None,
        decreases
                n - i + (if has_symbol_to_encode {
                    0int
                } else {
                    1int
                }),
    {
        if encode_symbol(src.get_char(i)).is_some() {
            has_symbol_to_encode = true;
        } else {
            i = i + 1;
        }
    }

    if !has_symbol_to_encode {
        proof {
            lemma_encoded_plain(src@, 0);
            assert(src@.subrange(0, src@.len() as int) =~= src@);
        }
        res.append(src);
        return ;
    }

    let mut k: usize = 0;
    while k < n
        invariant
            n == src@.len(),
            0 <= k <= n,
            res@ == old(res)@ + encoded_str(src@, 0).subrange(
                0,
                encoded_str(src@, 0).len() - encoded_str(src@, k as int).len(),
            ),
            encoded_str(src@, k as int).len() <= encoded_str(src@, 0).len(),
        decreases n - k,
    {
        let c = src.get_char(k);
        match encode_symbol(c) {
            Some(replacement) => {
                res.append(replacement);
            },
            None => {
                strutil::append_char(res, c);
            },
        }
        proof {
            lemma_encoded_split(src@, k as int);
            assert(res@ =~= old(res)@ + encoded_str(src@, 0).subrange(
                0,
                encoded_str(src@, 0).len() - encoded_str(src@, k + 1).len(),
            ));
        }
        k = k + 1;
    }
    proof {
        assert(encoded_str(src@, n as int) =~= Seq::<char>::empty());
        assert(encoded_str(src@, 0).subrange(0, encoded_str(src@, 0).len() as int) =~= encoded_str(
            src@,
            0,
        ));
    }
}

/// The suffix encodings nest: encoding from `k` is the encoding of the
/// character at `k` followed by the encoding from `k + 1`, and prefixes of
/// the whole encoding grow accordingly.
proof fn lemma_encoded_split(s: Seq<char>, k: int)
    requires
        0 <= k < s.len(),
    ensures
        encoded_str(s, k) =~= encoded_char_or_self(s[k]) + encoded_str(s, k + 1),
        encoded_str(s, k).len() <= encoded_str(s, 0).len(),
        encoded_str(s, k + 1).len() <= encoded_str(s, k).len(),
        encoded_str(s, 0).subrange(0, encoded_str(s, 0).len() - encoded_str(s, k + 1).len())
            =~= encoded_str(s, 0).subrange(0, encoded_str(s, 0).len() - encoded_str(s, k).len())
            + encoded_char_or_self(s[k]),
    decreases k,
{
    if k == 0 {
    } else {
        lemma_encoded_prefix(s, 0, k);
    }
    lemma_encoded_prefix(s, 0, k + 1);
    let full = encoded_str(s, 0);
    let a = full.len() - encoded_str(s, k).len();
    let b = full.len() - encoded_str(s, k + 1).len();
    assert(full.subrange(0, b) =~= full.subrange(0, a) + full.subrange(a, b));
    assert(full.subrange(a, b) =~= encoded_char_or_self(s[k]));
}

/// The encoding from any position is a suffix of the whole encoding.
proof fn lemma_encoded_prefix(s: Seq<char>, i: int, k: int)
    requires
        0 <= i <= k <= s.len(),
    ensures
        encoded_str(s, k).len() <= encoded_str(s, i).len(),
        encoded_str(s, i).subrange(
            encoded_str(s, i).len() - encoded_str(s, k).len(),
            encoded_str(s, i).len() as int,
        ) =~= encoded_str(s, k),
    decreases k - i,
{
    if i == k {
        assert(encoded_str(s, i).subrange(0, encoded_str(s, i).len() as int) =~= encoded_str(s, i));
    } else {
        lemma_encoded_prefix(s, i + 1, k);
        assert(encoded_str(s, i) =~= encoded_char_or_self(s[i]) + encoded_str(s, i + 1));
    }
}

/// The table's escape for one character, if it has one.
fn encode_symbol(c: char) -> (r: Option<&'static str>)
    ensures
        match r {
            Some(e) => encoded_char(c) matches Some(v) && e@ == v,
            None => encoded_char(c) is None,
        },
{
    let r: Option<&'static str> = if c == ' ' {
        Some("+")
    } else if c == '#' {
        Some("%23")
    } else if c == '$' {
        Some("%24")
    } else if c == '%' {
        Some("%25")
    } else if c == '&' {
        Some("%26")
    } else if c == '\'' {
        Some("%27")
    } else if c == '(' {
        Some("%28")
    } else if c == ')' {
        Some("%29")
    } else if c == '*' {
        Some("%2A")
    } else if c == '+' {
        Some("%2B")
    } else if c == ',' {
        Some("%2C")
    } else if c == '/' {
        Some("%2F")
    } else if c == ':' {
        Some("%3A")
    } else if c == ';' {
        Some("%3B")
    } else if c == '=' {
        Some("%3D")
    } else if c == '?' {
        Some("%3F")
    } else if c == '@' {
        Some("%40")
    } else if c == '[' {
        Some("%5B")
    } else if c == ']' {
        Some("%5D")
    } else {
        None
    };
    proof {
        reveal_strlit("+");
        reveal_strlit("%23");
        reveal_strlit("%24");
        reveal_strlit("%25");
        reveal_strlit("%26");
        reveal_strlit("%27");
        reveal_strlit("%28");
        reveal_strlit("%29");
        reveal_strlit("%2A");
        reveal_strlit("%2B");
        reveal_strlit("%2C");
        reveal_strlit("%2F");
        reveal_strlit("%3A");
        reveal_strlit("%3B");
        reveal_strlit("%3D");
        reveal_strlit("%3F");
        reveal_strlit("%40");
        reveal_strlit("%5B");
        reveal_strlit("%5D");
    }
    r
}

} // verus!
