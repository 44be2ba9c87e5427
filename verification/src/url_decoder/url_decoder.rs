//! The percent-decoder proper: pulls one decoded byte per call out of a
//! query string, driving the normal / escaped state machine.
use vstd::prelude::*;

use crate::url_decoder::escaped_state::escape_val;
use crate::url_decoder::escaped_state::EscapedState;
use crate::url_decoder::normal_state::NormalState;
use crate::url_decoder::url_decode_state::UrlDecodeState;
use crate::url_decoder::UrlDecodeError;

verus! {

use vstd::utf8::encode_utf8;

/// The bytes that percent-decoding yields from position `i` of `s` on:
/// `%XY` becomes the byte the two hexadecimal digits name, `+` becomes a
/// space, everything else passes through. A malformed escape makes the
/// whole decode fail; an escape cut off by the end of the input is dropped.
pub open spec fn url_decode_bytes(s: Seq<u8>, i: int) -> Option<Seq<u8>>
    decreases s.len() - i,
{
    if i < 0 || i >= s.len() {
        Some(Seq::empty())
    } else if s[i] == 37 {
        if i + 3 <= s.len() {
            match escape_val(s[i + 1], s[i + 2]) {
                Some(b) => match url_decode_bytes(s, i + 3) {
                    Some(rest) => Some(seq![b] + rest),
                    None => None,
                },
                None => None,
            }
        } else {
            Some(Seq::empty())
        }
    } else if s[i] == 43 {
        match url_decode_bytes(s, i + 1) {
            Some(rest) => Some(seq![32u8] + rest),
            None => None,
        }
    } else {
        match url_decode_bytes(s, i + 1) {
            Some(rest) => Some(seq![s[i]] + rest),
            None => None,
        }
    }
}

/// A stretch without `%` or `+` decodes to itself.
pub proof fn lemma_decode_plain(s: Seq<u8>, i: int)
    requires
        0 <= i <= s.len(),
        forall|j: int| i <= j < s.len() ==> s[j] != 37 && s[j] != 43,
    ensures
        url_decode_bytes(s, i) matches Some(d) && d =~= s.subrange(i, s.len() as int),
    decreases s.len() - i,
{
    if i >= s.len() {
    } else {
        lemma_decode_plain(s, i + 1);
        let d = url_decode_bytes(s, i)->Some_0;
        assert(d =~= s.subrange(i, s.len() as int));
    }
}

/// Walks a query string and yields its percent-decoded bytes one at a time.
pub struct UrlDecoder<'s> {
    src: &'s [u8],
    pos: usize,
    state: UrlDecodeState,
}

impl<'s> UrlDecoder<'s> {
    /// The query string's UTF-8 bytes.
    pub closed spec fn src_spec(&self) -> Seq<u8> {
        self.src@
    }

    /// How many input bytes have been consumed.
    pub closed spec fn pos_spec(&self) -> int {
        self.pos as int
    }

    /// The decoder's invariant: between calls it stands outside an escape,
    /// except at the very end of the input, where a cut-off escape may
    /// remain pending.
    pub closed spec fn inv(&self) -> bool {
        &&& self.pos <= self.src@.len()
        &&& (self.state is Normal || self.pos == self.src@.len())
    }

    pub fn new(src: &'s str) -> (r: Self)
        ensures
            r.inv(),
            r.src_spec() == encode_utf8(src@),
            r.pos_spec() == 0,
    {
        Self { src: src.as_bytes(), pos: 0, state: UrlDecodeState::Normal(NormalState {  }) }
    }

    /// The next decoded byte, `Ok(None)` at the end of the input, or an
    /// error on a malformed escape.
    pub fn get_next(&mut self) -> (r: Result<Option<u8>, UrlDecodeError>)
        requires
            old(self).inv(),
        ensures
            final(self).inv(),
            final(self).src_spec() == old(self).src_spec(),
            final(self).pos_spec() >= old(self).pos_spec(),
            ({
                let s = old(self).src_spec();
                let i = old(self).pos_spec();
                if i >= s.len() {
                    (r matches Ok(None)) && final(self).pos_spec() == i
                } else if s[i] != 37 {
                    (r matches Ok(Some(b)) && b == (if s[i] == 43 {
                        32u8
                    } else {
                        s[i]
                    })) && final(self).pos_spec() == i + 1
                } else if i + 3 <= s.len() {
                    match escape_val(s[i + 1], s[i + 2]) {
                        Some(b) => (r matches Ok(Some(rb)) && rb == b) && final(self).pos_spec()
                            == i + 3,
                        None => r is Err,
                    }
                } else {
                    (r matches Ok(None)) && final(self).pos_spec() == s.len()
                }
            }),
    {
        let ghost s = self.src@;
        let ghost i0 = self.pos as int;
        loop
            invariant
                s == old(self).src_spec(),
                i0 == old(self).pos_spec(),
                self.src@ == s,
                self.pos <= s.len(),
                ({
                    ||| (self.state is Normal && self.pos == i0)
                    ||| (self.state is Escaped && self.pos == s.len() && i0 == s.len())
                    ||| (self.state matches UrlDecodeState::Escaped(es) && es.inv()
                        && es.pos_spec() == 1 && self.pos == i0 + 1 && i0 < s.len() && s[i0] == 37)
                    ||| (self.state matches UrlDecodeState::Escaped(es) && es.inv()
                        && es.pos_spec() == 2 && self.pos == i0 + 2 && i0 + 1 < s.len() && s[i0]
                        == 37 && es.first_digit() == s[i0 + 1])
                }),
            decreases s.len() - self.pos,
        {
            if self.pos >= self.src.len() {
                return Ok(None);
            }

            let next_char = self.src[self.pos];

            self.pos = self.pos + 1;

            match &self.state {
                UrlDecodeState::Normal(state) => {
                    if state.get_next(next_char) {
                        if next_char == 43 {
                            return Ok(Some(32));
                        } else {
                            return Ok(Some(next_char));
                        }
                    }
                    self.state = UrlDecodeState::Escaped(EscapedState::new(next_char));
                },
                UrlDecodeState::Escaped(es) => {
                    let mut es2 = *es;
                    match es2.get_next(next_char) {
                        Ok(Some(next_symbol)) => {
                            self.state = UrlDecodeState::Normal(NormalState {  });
                            return Ok(Some(next_symbol));
                        },
                        Ok(None) => {
                            self.state = UrlDecodeState::Escaped(es2);
                        },
                        Err(e) => {
                            // leave escape collection so that later calls
                            // keep decoding instead of overrunning the
                            // buffer
                            self.state = UrlDecodeState::Normal(NormalState {  });
                            return Err(e);
                        },
                    }
                },
            }
        }
    }
}

} // verus!
