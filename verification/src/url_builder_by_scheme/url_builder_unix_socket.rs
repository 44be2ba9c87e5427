//! The unix-socket URL builder: the socket path is the host, and path and
//! query are kept as separate strings.
use vstd::prelude::*;

use crate::strutil;

verus! {

/// A unix-socket URL: `host:path?query`, the three parts kept apart.
pub struct UrlBuilderUnixSocket {
    host: String,
    path: String,
    query: String,
}

impl UrlBuilderUnixSocket {
    /// The socket path serving as the host.
    pub closed spec fn host_spec(&self) -> Seq<char> {
        self.host@
    }

    /// The request path.
    pub closed spec fn path_spec(&self) -> Seq<char> {
        self.path@
    }

    /// The query; when parameters were appended it starts with the `?`.
    pub closed spec fn query_spec(&self) -> Seq<char> {
        self.query@
    }

    /// Splits `host:path?query` at the first `:` and the first `?` after
    /// it; without a `:` the whole input is the host.
    pub fn new(host_port: &str) -> (r: Self)
        ensures
            ({
                let hp = host_port@;
                if forall|j: int| 0 <= j < hp.len() ==> hp[j] != ':' {
                    r.host_spec() == hp && r.path_spec() == Seq::<char>::empty() && r.query_spec()
                        == Seq::<char>::empty()
                } else {
                    exists|i: int|
                        {
                            &&& 0 <= i < hp.len()
                            &&& #[trigger] hp[i] == ':'
                            &&& (forall|j: int| 0 <= j < i ==> hp[j] != ':')
                            &&& r.host_spec() == hp.subrange(0, i)
                            &&& {
                                let pq = hp.subrange(i + 1, hp.len() as int);
                                if forall|k: int| 0 <= k < pq.len() ==> pq[k] != '?' {
                                    r.path_spec() == pq && r.query_spec() == Seq::<char>::empty()
                                } else {
                                    exists|k: int|
                                        {
                                            &&& 0 <= k < pq.len()
                                            &&& #[trigger] pq[k] == '?'
                                            &&& (forall|m: int| 0 <= m < k ==> pq[m] != '?')
                                            &&& r.path_spec() == pq.subrange(0, k)
                                            &&& r.query_spec() == pq.subrange(
                                                k + 1,
                                                pq.len() as int,
                                            )
                                        }
                                }
                            }
                        }
                }
            }),
    {
        let n = host_port.unicode_len();
        let index = strutil::find_char(host_port, ':', 0);

        let index = match index {
            Some(i) => i,
            None => {
                return Self {
                    host: host_port.to_owned(),
                    path: String::new(),
                    query: String::new(),
                };
            },
        };

        let host = host_port.substring_char(0, index).to_owned();

        let path_and_query = host_port.substring_char(index + 1, n);
        let pq_len = path_and_query.unicode_len();

        let (path, query) = match strutil::find_char(path_and_query, '?', 0) {
            Some(k) => {
                let path = path_and_query.substring_char(0, k).to_owned();
                let query = path_and_query.substring_char(k + 1, pq_len).to_owned();
                (path, query)
            },
            None => (path_and_query.to_owned(), String::new()),
        };

        Self { host, path, query }
    }

    /// Appends one path segment after a `/`.
    pub fn append_path_segment(&mut self, path_segment: &str)
        ensures
            final(self).host_spec() == old(self).host_spec(),
            final(self).query_spec() == old(self).query_spec(),
            final(self).path_spec() == old(self).path_spec() + seq!['/'] + path_segment@,
    {
        strutil::append_char(&mut self.path, '/');
        self.path.append(path_segment);
        proof {
            assert(self.path@ =~= old(self).path_spec() + seq!['/'] + path_segment@);
        }
    }

    /// Appends one query parameter, encoded with the URL escape table: the
    /// first one after a `?`, later ones after `&`.
    pub fn append_query_param(&mut self, name: &str, value: Option<&str>)
        ensures
            final(self).host_spec() == old(self).host_spec(),
            final(self).path_spec() == old(self).path_spec(),
            ({
                let sep: Seq<char> = if old(self).query_spec().len() == 0 {
                    seq!['?']
                } else {
                    seq!['&']
                };
                let encoded_value: Seq<char> = match value {
                    Some(v) => seq!['='] + crate::decode_from_url_string::encoded_str(v@, 0),
                    None => Seq::empty(),
                };
                final(self).query_spec() == old(self).query_spec() + sep
                    + crate::decode_from_url_string::encoded_str(name@, 0) + encoded_value
            }),
    {
        let ghost oq = self.query@;
        if self.query.as_str().unicode_len() == 0 {
            strutil::append_char(&mut self.query, '?');
            proof {
                assert(self.query@ =~= oq + seq!['?']);
            }
        } else {
            strutil::append_char(&mut self.query, '&');
            proof {
                assert(self.query@ =~= oq + seq!['&']);
            }
        }

        crate::decode_from_url_string::encode_to_url_string_and_copy(&mut self.query, name);

        if let Some(value) = value {
            strutil::append_char(&mut self.query, '=');
            crate::decode_from_url_string::encode_to_url_string_and_copy(&mut self.query, value);
            proof {
                assert(self.query@ =~= oq + (if oq.len() == 0 {
                    seq!['?']
                } else {
                    seq!['&']
                }) + crate::decode_from_url_string::encoded_str(name@, 0) + (seq!['=']
                    + crate::decode_from_url_string::encoded_str(value@, 0)));
            }
        } else {
            proof {
                assert(self.query@ =~= oq + (if oq.len() == 0 {
                    seq!['?']
                } else {
                    seq!['&']
                }) + crate::decode_from_url_string::encoded_str(name@, 0) + Seq::<char>::empty());
            }
        }
    }

    /// The path followed by `?` and the query, when one is there.
    pub fn get_path_and_query(&self) -> (r: String)
        ensures
            r@ == self.path_spec() + (if self.query_spec().len() > 0 {
                seq!['?'] + self.query_spec()
            } else {
                Seq::<char>::empty()
            }),
    {
        let mut result = String::new();
        if self.path.as_str().unicode_len() > 0 {
            result.append(self.path.as_str());
        } else {
            proof {
                assert(self.path@ =~= Seq::<char>::empty());
            }
        }

        if self.query.as_str().unicode_len() > 0 {
            strutil::append_char(&mut result, '?');
            result.append(self.query.as_str());
        }
        proof {
            assert(result@ =~= self.path_spec() + (if self.query_spec().len() > 0 {
                seq!['?'] + self.query_spec()
            } else {
                Seq::<char>::empty()
            }));
        }
        result
    }

    /// The request path.
    pub fn get_path(&self) -> (r: &str)
        ensures
            r@ == self.path_spec(),
    {
        self.path.as_str()
    }

    /// The host; a unix-socket URL has no separate scheme text.
    pub fn get_scheme_and_host(&self) -> (r: &str)
        ensures
            r@ == self.host_spec(),
    {
        self.host.as_str()
    }

    /// The socket path serving as the host.
    pub fn get_host(&self) -> (r: &str)
        ensures
            r@ == self.host_spec(),
    {
        self.host.as_str()
    }

    /// Appends raw text to the path.
    pub fn append_raw_ending(&mut self, raw_ending: &str)
        ensures
            final(self).host_spec() == old(self).host_spec(),
            final(self).query_spec() == old(self).query_spec(),
            final(self).path_spec() == old(self).path_spec() + raw_ending@,
    {
        self.path.append(raw_ending);
    }

    /// The query without its leading `?`, when parameters were appended.
    pub fn get_query(&self) -> (r: Option<&str>)
        ensures
            match r {
                Some(q) => self.query_spec().len() > 0 && q@ == self.query_spec().skip(1),
                None => self.query_spec().len() == 0,
            },
    {
        let n = self.query.as_str().unicode_len();
        if n == 0 {
            None
        } else {
            let q = self.query.as_str().substring_char(1, n);
            proof {
                assert(self.query@.subrange(1, self.query@.len() as int) =~= self.query@.skip(1));
            }
            Some(q)
        }
    }

    /// The whole URL text: host, path and query in order.
    pub fn to_string(&self) -> (r: String)
        ensures
            r@ == self.host_spec() + self.path_spec() + self.query_spec(),
    {
        let mut url = String::new();
        url.append(self.host.as_str());
        if self.path.as_str().unicode_len() > 0 {
            url.append(self.path.as_str());
        } else {
            proof {
                assert(self.path@ =~= Seq::<char>::empty());
            }
        }

        if self.query.as_str().unicode_len() > 0 {
            url.append(self.query.as_str());
        } else {
            proof {
                assert(self.query@ =~= Seq::<char>::empty());
            }
        }
        proof {
            assert(url@ =~= self.host_spec() + self.path_spec() + self.query_spec());
        }
        url
    }
}

} // verus!
