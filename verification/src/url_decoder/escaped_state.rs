//! The escape-collecting state of the percent-decoder: after a `%`, it takes
//! two hexadecimal digits and yields the byte they name.
use vstd::prelude::*;

use crate::url_decoder::UrlDecodeError;

verus! {

/// The value of one hexadecimal digit byte, if it is one.
pub open spec fn hex_val(c: u8) -> Option<u8> {
    if 48 <= c <= 57 {
        Some((c - 48) as u8)
    } else if 97 <= c <= 102 {
        Some((c - 87) as u8)
    } else if 65 <= c <= 70 {
        Some((c - 55) as u8)
    } else {
        None
    }
}

/// The byte a two-digit escape names, when both digits are hexadecimal.
pub open spec fn escape_val(c0: u8, c1: u8) -> Option<u8> {
    match (hex_val(c0), hex_val(c1)) {
        (Some(h0), Some(h1)) => Some((h0 * 16 + h1) as u8),
        _ => None,
    }
}

/// Collects the two digit bytes that follow a `%`.
#[derive(Clone, Copy)]
pub struct EscapedState {
    buffer: [u8; 3],
    pos: usize,
}

impl EscapedState {
    /// How many bytes of the escape have been seen, the leading `%`
    /// included.
    pub closed spec fn pos_spec(&self) -> int {
        self.pos as int
    }

    /// The first digit byte, once it has been collected.
    pub closed spec fn first_digit(&self) -> u8 {
        self.buffer@[1]
    }

    /// The state's invariant: it still waits for one or both digits.
    pub closed spec fn inv(&self) -> bool {
        self.pos == 1 || self.pos == 2
    }

    pub fn new(first: u8) -> (r: Self)
        ensures
            r.inv(),
            r.pos_spec() == 1,
    {
        Self { buffer: [first, 0u8, 0u8], pos: 1 }
    }

    /// Takes the next byte: `Ok(None)` after the first digit, and after the
    /// second the byte the escape names, or an error when a digit is not
    /// hexadecimal.
    pub fn get_next(&mut self, next_char: u8) -> (r: Result<Option<u8>, UrlDecodeError>)
        requires
            old(self).inv(),
        ensures
            match r {
                Ok(None) => old(self).pos_spec() == 1 && final(self).inv()
                    && final(self).pos_spec() == 2 && final(self).first_digit() == next_char,
                Ok(Some(v)) => old(self).pos_spec() == 2 && escape_val(
                    old(self).first_digit(),
                    next_char,
                ) == Some(v),
                Err(_) => old(self).pos_spec() == 2 && escape_val(
                    old(self).first_digit(),
                    next_char,
                ) is None,
            },
    {
        if self.pos == 1 {
            self.buffer = [self.buffer[0], next_char, 0u8];
        } else {
            self.buffer = [self.buffer[0], self.buffer[1], next_char];
        }
        self.pos = self.pos + 1;

        if self.pos == 3 {
            let result = decode_escaped(self.buffer.as_slice())?;
            return Ok(Some(result));
        }
        Ok(None)
    }
}

/// The byte named by the escape `[%, d0, d1]`, or an error when a digit is
/// not hexadecimal.
pub fn decode_escaped(encoded: &[u8]) -> (r: Result<u8, UrlDecodeError>)
    requires
        encoded@.len() >= 3,
    ensures
        match r {
            Ok(v) => escape_val(encoded@[1], encoded@[2]) == Some(v),
            Err(_) => escape_val(encoded@[1], encoded@[2]) is None,
        },
{
    let b0 = decode_hex_symbol(encoded[1])?;
    let b1 = decode_hex_symbol(encoded[2])?;

    let symbol = b1 + b0 * 16;

    Ok(symbol)
}

/// The value of one hexadecimal digit byte, or an error for any other byte.
pub fn decode_hex_symbol(c: u8) -> (r: Result<u8, UrlDecodeError>)
    ensures
        match r {
            Ok(v) => hex_val(c) == Some(v),
            Err(_) => hex_val(c) is None,
        },
{
    if c >= 48 && c <= 57 {
        return Ok(c - 48);
    }

    if c >= 97 && c <= 102 {
        return Ok(c - 87);
    }

    if c >= 65 && c <= 70 {
        return Ok(c - 55);
    }

    Err(UrlDecodeError { msg: "invalid escape digit".to_owned() })
}

} // verus!
