//! The wider escape table used when whole strings are encoded: the
//! reserved URL characters plus `|` and the whitespace controls.
use vstd::prelude::*;

verus! {

/// The escape a character is written as, if this table covers it.
pub open spec fn encode_entry(c: char) -> Option<Seq<char>> {
    if c == ' ' {
        Some(seq!['+'])
    } else if c == '#' {
        Some(seq!['%', '2', '3'])
    } else if c == '$' {
        Some(seq!['%', '2', '4'])
    } else if c == '%' {
        Some(seq!['%', '2', '5'])
    } else if c == '&' {
        Some(seq!['%', '2', '6'])
    } else if c == '\'' {
        Some(seq!['%', '2', '7'])
    } else if c == '(' {
        Some(seq!['%', '2', '8'])
    } else if c == ')' {
        Some(seq!['%', '2', '9'])
    } else if c == '*' {
        Some(seq!['%', '2', 'A'])
    } else if c == '+' {
        Some(seq!['%', '2', 'B'])
    } else if c == ',' {
        Some(seq!['%', '2', 'C'])
    } else if c == '/' {
        Some(seq!['%', '2', 'F'])
    } else if c == ':' {
        Some(seq!['%', '3', 'A'])
    } else if c == ';' {
        Some(seq!['%', '3', 'B'])
    } else if c == '=' {
        Some(seq!['%', '3', 'D'])
    } else if c == '?' {
        Some(seq!['%', '3', 'F'])
    } else if c == '@' {
        Some(seq!['%', '4', '0'])
    } else if c == '[' {
        Some(seq!['%', '5', 'B'])
    } else if c == ']' {
        Some(seq!['%', '5', 'D'])
    } else if c == '|' {
        Some(seq!['%', '7', 'C'])
    } else if c == '\t' {
        Some(seq!['%', '0', '9'])
    } else if c == '\r' {
        Some(seq!['#', '0', 'D'])
    } else if c == '\n' {
        Some(seq!['%', '0', 'A'])
    } else {
        None
    }
}

/// The table's escape for one character, if it has one.
pub fn lookup_entry(c: char) -> (r: Option<&'static str>)
    ensures
        match r {
            Some(e) => encode_entry(c) matches Some(v) && e@ == v,
            None => encode_entry(c) is None,
        },
{
    let r: Option<&'static str> = if c == ' ' {
        Some("+")
    } else if c == '#' {
        Some("%23")
    } else if c == '$' {
        Some("%24")
    } else if c == '%' {
        Some("%25")
    } else if c == '&' {
        Some("%26")
    } else if c == '\'' {
        Some("%27")
    } else if c == '(' {
        Some("%28")
    } else if c == ')' {
        Some("%29")
    } else if c == '*' {
        Some("%2A")
    } else if c == '+' {
        Some("%2B")
    } else if c == ',' {
        Some("%2C")
    } else if c == '/' {
        Some("%2F")
    } else if c == ':' {
        Some("%3A")
    } else if c == ';' {
        Some("%3B")
    } else if c == '=' {
        Some("%3D")
    } else if c == '?' {
        Some("%3F")
    } else if c == '@' {
        Some("%40")
    } else if c == '[' {
        Some("%5B")
    } else if c == ']' {
        Some("%5D")
    } else if c == '|' {
        Some("%7C")
    } else if c == '\t' {
        Some("%09")
    } else if c == '\r' {
        Some("#0D")
    } else if c == '\n' {
        Some("%0A")
    } else {
        None
    };
    proof {
        reveal_strlit("+");
        reveal_strlit("%23");
        reveal_strlit("%24");
        reveal_strlit("%25");
        reveal_strlit("%26");
        reveal_strlit("%27");
        reveal_strlit("%28");
        reveal_strlit("%29");
        reveal_strlit("%2A");
        reveal_strlit("%2B");
        reveal_strlit("%2C");
        reveal_strlit("%2F");
        reveal_strlit("%3A");
        reveal_strlit("%3B");
        reveal_strlit("%3D");
        reveal_strlit("%3F");
        reveal_strlit("%40");
        reveal_strlit("%5B");
        reveal_strlit("%5D");
        reveal_strlit("%7C");
        reveal_strlit("%09");
        reveal_strlit("#0D");
        reveal_strlit("%0A");
    }
    r
}

} // verus!
