//! Splitting a request target into its path and query, with
//! case-insensitive path matching.
use vstd::prelude::*;

use crate::strutil;

verus! {

use vstd::utf8::encode_utf8;

/// A request target split into its path (without a trailing slash) and its
/// query, when one is there.
pub struct PathAndQueryReader<'s> {
    pub path: &'s str,
    pub query: Option<&'s str>,
}

impl<'s> PathAndQueryReader<'s> {
    /// Splits at the first `?`; a trailing `/` of the path is dropped, and
    /// an empty input stands for the root path.
    pub fn new(path_and_query: &'s str) -> (r: Self)
        ensures
            path_and_query@.len() == 0 ==> r.path@ == "/"@ && r.query is None,
            path_and_query@.len() > 0 ==> ({
                let pq = path_and_query@;
                let left_end = if exists|i: int| 0 <= i < pq.len() && pq[i] == '?' {
                    choose|i: int|
                        0 <= i < pq.len() && #[trigger] pq[i] == '?' && forall|j: int|
                            0 <= j < i ==> pq[j] != '?'
                } else {
                    pq.len() as int
                };
                let left = pq.subrange(0, left_end);
                &&& (if exists|i: int| 0 <= i < pq.len() && pq[i] == '?' {
                    r.query matches Some(q) && q@ == pq.subrange(left_end + 1, pq.len() as int)
                } else {
                    r.query is None
                })
                &&& r.path@ == (if left.len() > 0 && left[left.len() - 1] == '/' {
                    left.subrange(0, left.len() - 1)
                } else {
                    left
                })
            }),
    {
        let n = path_and_query.unicode_len();
        if n == 0 {
            return Self { path: "/", query: None };
        }

        let ghost pq = path_and_query@;
        let (left, right): (&'s str, Option<&'s str>) = match strutil::find_char(
            path_and_query,
            '?',
            0,
        ) {
            Some(i) => {
                proof {
                    let wi = choose|w: int|
                        0 <= w < pq.len() && #[trigger] pq[w] == '?' && forall|j: int|
                            0 <= j < w ==> pq[j] != '?';
                    assert(pq[i as int] == '?');
                    assert(wi == i as int);
                }
                (
                    path_and_query.substring_char(0, i),
                    Some(path_and_query.substring_char(i + 1, n)),
                )
            },
            None => (path_and_query, None),
        };

        let ln = left.unicode_len();
        let path = if ln > 0 && left.get_char(ln - 1) == '/' {
            left.substring_char(0, ln - 1)
        } else {
            proof {
                assert(left@.subrange(0, left@.len() as int) =~= left@);
            }
            left
        };

        Self { path, query: right }
    }

    /// Whether the given path names this one, compared ASCII
    /// case-insensitively; a path without a leading `/` is matched against
    /// this path without its own.
    pub fn is_my_path(&self, path: &str) -> (r: bool)
        requires
            self.path@.len() > 0 || path@.len() == 0 || path@[0] == '/',
        ensures
            r == ({
                let p2 = if path@.len() == 0 {
                    "/"@
                } else {
                    path@
                };
                if p2.len() > 0 && p2[0] == '/' {
                    strutil::lower_bytes(encode_utf8(self.path@)) == strutil::lower_bytes(
                        encode_utf8(p2),
                    )
                } else {
                    strutil::lower_bytes(encode_utf8(self.path@.skip(1)))
                        == strutil::lower_bytes(encode_utf8(p2))
                }
            }),
    {
        let path = if path.unicode_len() == 0 {
            proof {
                reveal_strlit("/");
            }
            "/"
        } else {
            path
        };

        if path.get_char(0) == '/' {
            return strutil::str_eq_ignore_ascii_case(self.path, path);
        }

        let sn = self.path.unicode_len();
        let self_path = self.path.substring_char(1, sn);
        proof {
            assert(self.path@.subrange(1, self.path@.len() as int) =~= self.path@.skip(1));
        }
        return strutil::str_eq_ignore_ascii_case(self_path, path);
    }
}

} // verus!
