//! A string that is either owned or borrowed, so that decoding can hand
//! back the input unchanged without copying it.
use vstd::prelude::*;

verus! {

/// An owned `String` or a borrowed `&str`.
pub enum StringOrStr<'s> {
    String(String),
    Str(&'s str),
}

impl<'s> StringOrStr<'s> {
    /// The characters held, whichever form holds them.
    pub open spec fn view_chars(&self) -> Seq<char> {
        match self {
            StringOrStr::String(s) => s@,
            StringOrStr::Str(s) => s@,
        }
    }

    pub fn create_as_string(src: String) -> (r: Self)
        ensures
            r.view_chars() == src@,
    {
        Self::String(src)
    }

    pub fn create_as_str(src: &'s str) -> (r: Self)
        ensures
            r.view_chars() == src@,
    {
        Self::Str(src)
    }

    /// The held characters as a borrowed slice.
    pub fn as_str(&'s self) -> (r: &'s str)
        ensures
            r@ == self.view_chars(),
    {
        match self {
            StringOrStr::String(result) => result.as_str(),
            StringOrStr::Str(result) => result,
        }
    }
}

} // verus!
