//! The URL scheme a builder carries: plain and secure HTTP and WebSocket
//! schemes, and the HTTP-over-unix-socket convention.
use vstd::prelude::*;

use crate::strutil;

verus! {

/// A recognised URL scheme.
#[derive(Clone, Copy, Debug, PartialEq, Eq, Structural)]
pub enum Scheme {
    Http,
    Https,
    Ws,
    Wss,
    UnixSocket,
}

/// The scheme a name stands for, if it names one.
pub open spec fn scheme_of(s: Seq<char>) -> Option<Scheme> {
    if s == "http"@ {
        Some(Scheme::Http)
    } else if s == "https"@ {
        Some(Scheme::Https)
    } else if s == "ws"@ {
        Some(Scheme::Ws)
    } else if s == "wss"@ {
        Some(Scheme::Wss)
    } else if s == "http+unix"@ {
        Some(Scheme::UnixSocket)
    } else {
        None
    }
}

impl Scheme {
    /// The scheme a name stands for, or `None` for anything else.
    pub fn try_parse(src: &str) -> (r: Option<Scheme>)
        ensures
            r == scheme_of(src@),
    {
        if strutil::str_eq(src, "http") {
            return Some(Scheme::Http);
        }
        if strutil::str_eq(src, "https") {
            return Some(Scheme::Https);
        }
        if strutil::str_eq(src, "ws") {
            return Some(Scheme::Ws);
        }
        if strutil::str_eq(src, "wss") {
            return Some(Scheme::Wss);
        }
        if strutil::str_eq(src, "http+unix") {
            return Some(Scheme::UnixSocket);
        }
        None
    }

    pub fn is_http(&self) -> (r: bool)
        ensures
            r == (self is Http),
    {
        match self {
            Scheme::Http => true,
            _ => false,
        }
    }

    pub fn is_https(&self) -> (r: bool)
        ensures
            r == (self is Https),
    {
        match self {
            Scheme::Https => true,
            _ => false,
        }
    }

    pub fn is_unix_socket(&self) -> (r: bool)
        ensures
            r == (self is UnixSocket),
    {
        match self {
            Scheme::UnixSocket => true,
            _ => false,
        }
    }
}

} // verus!
