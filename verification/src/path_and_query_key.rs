//! A canonical key for a request target: the path lowercased and the query
//! parameters reordered by name, so that equivalent targets compare equal.
use vstd::prelude::*;

use crate::strutil;
use crate::strutil::lower_of;

verus! {

use vstd::utf8::encode_utf8;

/// Byte-wise lexicographic order on the UTF-8 encodings, the order
/// `String` comparisons use.
pub open spec fn lex_less_bytes(a: Seq<u8>, b: Seq<u8>) -> bool
    decreases a.len(),
{
    if a.len() == 0 {
        b.len() > 0
    } else if b.len() == 0 {
        false
    } else if a[0] < b[0] {
        true
    } else if a[0] > b[0] {
        false
    } else {
        lex_less_bytes(a.drop_first(), b.drop_first())
    }
}

/// Name order of two parameter names.
pub open spec fn key_less(a: Seq<char>, b: Seq<char>) -> bool {
    lex_less_bytes(encode_utf8(a), encode_utf8(b))
}

/// A common prefix does not decide the order: it is decided past it.
proof fn lemma_lex_skip(a: Seq<u8>, b: Seq<u8>, i: int)
    requires
        0 <= i <= a.len(),
        i <= b.len(),
        forall|j: int| 0 <= j < i ==> a[j] == b[j],
    ensures
        lex_less_bytes(a, b) == lex_less_bytes(a.skip(i), b.skip(i)),
    decreases i,
{
    if i == 0 {
        assert(a.skip(0) =~= a);
        assert(b.skip(0) =~= b);
    } else {
        assert(a.len() > 0 && b.len() > 0 && a[0] == b[0]);
        assert(a.drop_first() =~= a.skip(1));
        assert(b.drop_first() =~= b.skip(1));
        assert(a.skip(1).skip(i - 1) =~= a.skip(i));
        assert(b.skip(1).skip(i - 1) =~= b.skip(i));
        lemma_lex_skip(a.skip(1), b.skip(1), i - 1);
    }
}

/// The query elements as name / optional-value pairs: split on `&`, each
/// element cut at its first `=`.
pub open spec fn kv_elements(s: Seq<char>, pos: int) -> Seq<(Seq<char>, Option<Seq<char>>)>
    decreases s.len() - pos + 1 when 0 <= pos via kv_elements_decreases
{
    let end = match strutil::first_char_at(s, '&', pos) {
        Some(i) => i,
        None => s.len() as int,
    };
    let head = match strutil::first_char_in(s, '=', pos, end) {
        Some(eq) => (s.subrange(pos, eq), Some(s.subrange(eq + 1, end))),
        None => (s.subrange(pos, end), None::<Seq<char>>),
    };
    seq![head] + (if end < s.len() {
        kv_elements(s, end + 1)
    } else {
        Seq::empty()
    })
}

#[via_fn]
proof fn kv_elements_decreases(s: Seq<char>, pos: int) {
    strutil::lemma_first_char_at_bounds(s, '&', pos);
}

/// One pair entered into the name-ordered list: an equal name replaces its
/// pair in place, otherwise the pair goes before the first greater name.
pub open spec fn insert_pair(
    list: Seq<(Seq<char>, Option<Seq<char>>)>,
    kv: (Seq<char>, Option<Seq<char>>),
) -> Seq<(Seq<char>, Option<Seq<char>>)>
    decreases list.len(),
{
    if list.len() == 0 {
        seq![kv]
    } else if list[0].0 == kv.0 {
        seq![kv] + list.drop_first()
    } else if key_less(kv.0, list[0].0) {
        seq![kv] + list
    } else {
        seq![list[0]] + insert_pair(list.drop_first(), kv)
    }
}

/// The canonical pair list of a whole element sequence: every element
/// entered in order, so a later duplicate name replaces an earlier one.
pub open spec fn canon_pairs(elems: Seq<(Seq<char>, Option<Seq<char>>)>) -> Seq<
    (Seq<char>, Option<Seq<char>>),
>
    decreases elems.len(),
{
    if elems.len() == 0 {
        Seq::empty()
    } else {
        insert_pair(canon_pairs(elems.drop_last()), elems.last())
    }
}

/// One pair written back out: the name, and `=` plus the value when there
/// is one.
pub open spec fn pair_text(p: (Seq<char>, Option<Seq<char>>)) -> Seq<char> {
    p.0 + (match p.1 {
        Some(v) => seq!['='] + v,
        None => Seq::empty(),
    })
}

/// A pair list written back out, joined by `&` between non-empty texts.
pub open spec fn join_pairs(list: Seq<(Seq<char>, Option<Seq<char>>)>) -> Seq<char>
    decreases list.len(),
{
    if list.len() == 0 {
        Seq::empty()
    } else {
        let prev = join_pairs(list.drop_last());
        prev + (if prev.len() > 0 {
            seq!['&']
        } else {
            Seq::empty()
        }) + pair_text(list.last())
    }
}

/// The characters of one collected pair.
pub open spec fn pair_view(p: (String, Option<String>)) -> (Seq<char>, Option<Seq<char>>) {
    (
        p.0@,
        match p.1 {
            Some(v) => Some(v@),
            None => None,
        },
    )
}

/// The characters of the collected pair list.
pub open spec fn pairs_view(l: Seq<(String, Option<String>)>) -> Seq<
    (Seq<char>, Option<Seq<char>>),
> {
    l.map_values(|p: (String, Option<String>)| pair_view(p))
}

/// Byte-wise lexicographic order on the UTF-8 encodings, as `String`
/// comparisons order.
fn str_lex_less(a: &str, b: &str) -> (r: bool)
    ensures
        r == key_less(a@, b@),
{
    let ab = a.as_bytes();
    let bb = b.as_bytes();
    let mut i: usize = 0;
    loop
        invariant
            ab@ == encode_utf8(a@),
            bb@ == encode_utf8(b@),
            0 <= i <= ab@.len(),
            i <= bb@.len(),
            forall|j: int| 0 <= j < i ==> ab@[j] == bb@[j],
        decreases ab@.len() - i,
    {
        proof {
            lemma_lex_skip(ab@, bb@, i as int);
        }
        if i >= ab.len() {
            proof {
                assert(ab@.skip(i as int) =~= Seq::<u8>::empty());
            }
            return i < bb.len();
        }
        if i >= bb.len() {
            proof {
                assert(bb@.skip(i as int) =~= Seq::<u8>::empty());
            }
            return false;
        }
        proof {
            assert(ab@.skip(i as int)[0] == ab@[i as int]);
            assert(bb@.skip(i as int)[0] == bb@[i as int]);
        }
        if ab[i] < bb[i] {
            return true;
        }
        if ab[i] > bb[i] {
            return false;
        }
        i = i + 1;
    }
}

/// A canonical request-target key: lowercased path, and `?` plus the query
/// parameters sorted by name when the target had any.
#[derive(Debug, Clone, PartialEq, Eq, PartialOrd, Ord)]
pub struct PathAndQueryKey(String);

impl PathAndQueryKey {
    /// The key's characters.
    pub closed spec fn key_view(&self) -> Seq<char> {
        self.0@
    }

    /// Builds the key: the path is lowercased; the query, when there is
    /// one, is split on `&` into name / optional-value pairs, canonically
    /// reordered by name with a later duplicate replacing an earlier one,
    /// and rejoined.
    pub fn from_path_and_query(path_and_query: &str) -> (r: Self)
        ensures
            strutil::first_char_at(path_and_query@, '?', 0) is None ==> r.key_view() == lower_of(
                path_and_query@,
            ),
            strutil::first_char_at(path_and_query@, '?', 0) matches Some(q) ==> r.key_view()
                == lower_of(path_and_query@.subrange(0, q)) + seq!['?'] + join_pairs(
                canon_pairs(
                    kv_elements(
                        path_and_query@.subrange(q + 1, path_and_query@.len() as int),
                        0,
                    ),
                ),
            ),
    {
        let n = path_and_query.unicode_len();
        let q = strutil::find_char(path_and_query, '?', 0);

        let q = match q {
            Some(i) => i,
            None => {
                proof {
                    assert(path_and_query@.subrange(0, path_and_query@.len() as int)
                        =~= path_and_query@);
                }
                return Self(strutil::to_lowercase_string(path_and_query));
            },
        };

        let path = path_and_query.substring_char(0, q);
        let query = path_and_query.substring_char(q + 1, n);
        let ghost s = query@;

        // collect the parameters, kept sorted by name, a later duplicate
        // replacing an earlier one
        let mut query_builder: Vec<(String, Option<String>)> = Vec::new();

        let qn = query.unicode_len();
        let ghost mut done_elems: Seq<(Seq<char>, Option<Seq<char>>)> = Seq::empty();
        let mut cursor: usize = 0;
        proof {
            assert(kv_elements(s, 0) =~= done_elems + kv_elements(s, 0));
            assert(pairs_view(query_builder@) =~= canon_pairs(done_elems));
        }
        loop
            invariant_except_break
                kv_elements(s, 0) == done_elems + kv_elements(s, cursor as int),
            invariant
                s == query@,
                qn == s.len(),
                0 <= cursor <= qn,
                pairs_view(query_builder@) == canon_pairs(done_elems),
            ensures
                pairs_view(query_builder@) == canon_pairs(kv_elements(s, 0)),
            decreases qn - cursor,
        {
            let end = match strutil::find_char(query, '&', cursor) {
                Some(i) => i,
                None => qn,
            };
            let key_value = query.substring_char(cursor, end);
            let kv_len = key_value.unicode_len();
            let found_eq = strutil::find_char(key_value, '=', 0);
            proof {
                strutil::lemma_first_char_in_subrange(s, '=', cursor as int, end as int, found_eq);
            }
            let (key, value): (String, Option<String>) = match found_eq {
                Some(eq) => {
                    (
                        key_value.substring_char(0, eq).to_owned(),
                        Some(key_value.substring_char(eq + 1, kv_len).to_owned()),
                    )
                },
                None => (key_value.to_owned(), None),
            };
            let ghost head = kv_elements(s, cursor as int)[0];
            proof {
                assert(kv_elements(s, cursor as int) =~= seq![head] + (if end < qn {
                    kv_elements(s, end + 1)
                } else {
                    Seq::empty()
                }));
                assert(pair_view((key, value)) == head) by {
                    match found_eq {
                        Some(eq) => {
                            assert(key@ =~= s.subrange(cursor as int, cursor + eq));
                            assert(value->Some_0@ =~= s.subrange(cursor + eq + 1, end as int));
                        },
                        None => {
                            assert(key@ =~= s.subrange(cursor as int, end as int));
                        },
                    }
                }
            }
            insert_sorted(&mut query_builder, key, value);
            proof {
                let de0 = done_elems;
                done_elems = done_elems.push(head);
                assert(done_elems.drop_last() =~= de0);
                assert(kv_elements(s, 0) =~= done_elems + (if end < qn {
                    kv_elements(s, end + 1)
                } else {
                    Seq::<(Seq<char>, Option<Seq<char>>)>::empty()
                }));
                assert(canon_pairs(done_elems) == insert_pair(canon_pairs(de0), head));
            }
            if end == qn {
                proof {
                    assert(kv_elements(s, 0) =~= done_elems);
                }
                break ;
            }
            cursor = end + 1;
        }

        // rejoin the ordered parameters behind the lowercased path
        let mut query_result = String::new();
        proof {
            assert(pairs_view(query_builder@).subrange(0, 0) =~= Seq::<(
                Seq<char>,
                Option<Seq<char>>,
            )>::empty());
        }
        let mut k: usize = 0;
        while k < query_builder.len()
            invariant
                pairs_view(query_builder@) == canon_pairs(kv_elements(query@, 0)),
                0 <= k <= query_builder@.len(),
                query_result@ == join_pairs(pairs_view(query_builder@).subrange(0, k as int)),
            decreases query_builder@.len() - k,
        {
            let ghost sofar = pairs_view(query_builder@).subrange(0, k as int);
            proof {
                assert(pairs_view(query_builder@).subrange(0, k + 1).drop_last() =~= sofar);
                assert(pairs_view(query_builder@).subrange(0, k + 1).last() == pairs_view(
                    query_builder@,
                )[k as int]);
            }
            if query_result.as_str().unicode_len() > 0 {
                strutil::append_char(&mut query_result, '&');
            }
            query_result.append(query_builder[k].0.as_str());

            match &query_builder[k].1 {
                Some(value) => {
                    strutil::append_char(&mut query_result, '=');
                    query_result.append(value.as_str());
                },
                None => {},
            }
            proof {
                assert(query_result@ =~= join_pairs(
                    pairs_view(query_builder@).subrange(0, k + 1),
                ));
            }
            k = k + 1;
        }
        proof {
            assert(pairs_view(query_builder@).subrange(0, query_builder@.len() as int)
                =~= pairs_view(query_builder@));
        }

        let mut result = strutil::to_lowercase_string(path);
        strutil::append_char(&mut result, '?');
        result.append(query_result.as_str());
        proof {
            assert(result@ =~= lower_of(path_and_query@.subrange(0, q as int)) + seq!['?']
                + join_pairs(
                canon_pairs(
                    kv_elements(path_and_query@.subrange(q + 1, path_and_query@.len() as int), 0),
                ),
            ));
        }
        Self(result)
    }

    /// The key's text.
    pub fn as_str(&self) -> (r: &str)
        ensures
            r@ == self.key_view(),
    {
        self.0.as_str()
    }

    /// The key's text, giving up the key.
    pub fn into_string(self) -> (r: String)
        ensures
            r@ == self.key_view(),
    {
        self.0
    }

    /// The key's text, owned.
    pub fn to_string(&self) -> (r: String)
        ensures
            r@ == self.key_view(),
    {
        self.0.clone()
    }

    /// Whether the key carries a query.
    pub fn has_query(&self) -> (r: bool)
        ensures
            r == exists|i: int| 0 <= i < self.key_view().len() && self.key_view()[i] == '?',
    {
        match strutil::find_char(self.0.as_str(), '?', 0) {
            Some(i) => {
                proof {
                    assert(self.key_view()[i as int] == '?');
                }
                true
            },
            None => false,
        }
    }
}

/// Inserts one parameter into the name-ordered list, exactly as
/// `insert_pair` describes: replacing the value when the name is already
/// there, and keeping the names in order otherwise.
fn insert_sorted(list: &mut Vec<(String, Option<String>)>, key: String, value: Option<String>)
    ensures
        pairs_view(final(list)@) == insert_pair(
            pairs_view(old(list)@),
            pair_view((key, value)),
        ),
{
    broadcast use vstd::utf8::encode_utf8_decode_utf8;

    let ghost orig = pairs_view(list@);
    let ghost kv = pair_view((key, value));
    proof {
        assert(orig.skip(0) =~= orig);
        assert(orig.subrange(0, 0) =~= Seq::<(Seq<char>, Option<Seq<char>>)>::empty());
        assert(insert_pair(orig, kv) =~= orig.subrange(0, 0) + insert_pair(orig.skip(0), kv));
    }
    let mut k: usize = 0;
    while k < list.len()
        invariant
            list@ == old(list)@,
            orig == pairs_view(list@),
            kv == pair_view((key, value)),
            0 <= k <= list@.len(),
            forall|j: int|
                0 <= j < k ==> (#[trigger] orig[j]).0 != kv.0 && !key_less(kv.0, orig[j].0),
            insert_pair(orig, kv) == orig.subrange(0, k as int) + insert_pair(
                orig.skip(k as int),
                kv,
            ),
        decreases list@.len() - k,
    {
        proof {
            assert(orig.skip(k as int)[0] == orig[k as int]);
            assert(orig.skip(k as int).drop_first() =~= orig.skip(k + 1));
        }
        if strutil::str_eq(list[k].0.as_str(), key.as_str()) {
            proof {
                assert(orig[k as int].0 == kv.0);
                assert(insert_pair(orig.skip(k as int), kv) =~= seq![kv] + orig.skip(k + 1));
            }
            list.remove(k);
            list.insert(k, (key, value));
            proof {
                assert(pairs_view(list@) =~= orig.subrange(0, k as int) + (seq![kv] + orig.skip(
                    k + 1,
                )));
            }
            return ;
        }
        if str_lex_less(key.as_str(), list[k].0.as_str()) {
            proof {
                assert(key_less(kv.0, orig[k as int].0));
                assert(orig[k as int].0 != kv.0) by {
                    if orig[k as int].0 == kv.0 {
                        assert(list@[k as int].0@ == key@);
                    }
                }
                assert(insert_pair(orig.skip(k as int), kv) =~= seq![kv] + orig.skip(k as int));
            }
            list.insert(k, (key, value));
            proof {
                assert(pairs_view(list@) =~= orig.subrange(0, k as int) + (seq![kv] + orig.skip(
                    k as int,
                )));
            }
            return ;
        }
        proof {
            assert(orig[k as int].0 != kv.0);
            assert(insert_pair(orig.skip(k as int), kv) =~= seq![orig[k as int]] + insert_pair(
                orig.skip(k + 1),
                kv,
            ));
            assert(insert_pair(orig, kv) =~= orig.subrange(0, k + 1) + insert_pair(
                orig.skip(k + 1),
                kv,
            ));
        }
        k = k + 1;
    }
    proof {
        assert(orig.skip(list@.len() as int) =~= Seq::<(Seq<char>, Option<Seq<char>>)>::empty());
    }
    list.push((key, value));
    proof {
        assert(pairs_view(list@) =~= orig.subrange(0, orig.len() as int) + seq![kv]);
        assert(insert_pair(orig, kv) =~= orig.subrange(0, orig.len() as int) + seq![kv]);
    }
}

} // verus!
