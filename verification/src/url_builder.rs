//! A URL held as one growing string with remembered positions of the host,
//! port, path and query, so that every part can be handed out as a view.
use vstd::prelude::*;

use crate::scheme::scheme_of;
use crate::scheme::Scheme;
use crate::string_or_str::StringOrStr;
use crate::strutil;

verus! {

/// A path or query separator: where the host part of a URL ends.
pub open spec fn is_sep(c: char) -> bool {
    c == '/' || c == '?'
}

/// The three characters of `pat` stand in `s` at position `i`.
pub open spec fn cmatch3(s: Seq<char>, i: int, c0: char, c1: char, c2: char) -> bool {
    &&& 0 <= i
    &&& i + 3 <= s.len()
    &&& s[i] == c0
    &&& s[i + 1] == c1
    &&& s[i + 2] == c2
}

/// `i` is the first position where the three characters stand.
pub open spec fn first_cmatch3(s: Seq<char>, i: int, c0: char, c1: char, c2: char) -> bool {
    &&& cmatch3(s, i, c0, c1, c2)
    &&& forall|j: int| 0 <= j < i ==> !cmatch3(s, j, c0, c1, c2)
}

/// First position where three given characters stand in a row.
fn find3(s: &str, c0: char, c1: char, c2: char) -> (r: Option<usize>)
    ensures
        match r {
            Some(i) => first_cmatch3(s@, i as int, c0, c1, c2),
            None => forall|j: int| !cmatch3(s@, j, c0, c1, c2),
        },
{
    let n = s.unicode_len();
    if n < 3 {
        return None;
    }
    let mut i: usize = 0;
    while i <= n - 3
        invariant
            n == s@.len(),
            n >= 3,
            0 <= i <= n - 2,
            forall|j: int| 0 <= j < i ==> !cmatch3(s@, j, c0, c1, c2),
        decreases n - i,
    {
        if s.get_char(i) == c0 && s.get_char(i + 1) == c1 && s.get_char(i + 2) == c2 {
            return Some(i);
        }
        i = i + 1;
    }
    None
}

/// First position where two given characters stand in a row.
fn find2(s: &str, c0: char, c1: char) -> (r: Option<usize>)
    ensures
        match r {
            Some(i) => 0 <= i && i + 2 <= s@.len() && s@[i as int] == c0 && s@[i + 1] == c1
                && forall|j: int|
                0 <= j < i ==> !(j + 2 <= s@.len() && (#[trigger] s@[j]) == c0 && s@[j + 1] == c1),
            None => forall|j: int|
                0 <= j ==> !(j + 2 <= s@.len() && (#[trigger] s@[j]) == c0 && s@[j + 1] == c1),
        },
{
    let n = s.unicode_len();
    if n < 2 {
        return None;
    }
    let mut i: usize = 0;
    while i <= n - 2
        invariant
            n == s@.len(),
            n >= 2,
            0 <= i <= n - 1,
            forall|j: int|
                0 <= j < i ==> !(j + 2 <= s@.len() && (#[trigger] s@[j]) == c0 && s@[j + 1] == c1),
        decreases n - i,
    {
        if s.get_char(i) == c0 && s.get_char(i + 1) == c1 {
            return Some(i);
        }
        i = i + 1;
    }
    None
}

/// The scheme a URL string carries: the name before the first `:/`, when it
/// names one, and plain HTTP otherwise.
pub open spec fn scheme_sel(v: Seq<char>) -> Scheme {
    if exists|i: int| 0 <= i && i + 2 <= v.len() && v[i] == ':' && #[trigger] v[i + 1] == '/' {
        let i = choose|i: int|
            0 <= i && i + 2 <= v.len() && v[i] == ':' && #[trigger] v[i + 1] == '/' && forall|j: int|
                0 <= j < i ==> !(j + 2 <= v.len() && (#[trigger] v[j]) == ':' && v[j + 1] == '/');
        match scheme_of(v.subrange(0, i)) {
            Some(s) => s,
            None => Scheme::Http,
        }
    } else {
        Scheme::Http
    }
}

/// The port, path and query positions are what one scan of `v` after the
/// host yields: the path starts at the first `/` or `?` after `h`, the
/// query at the first `?`, and the port at the last `:` before the path;
/// zero stands for absent.
pub open spec fn indices_characterize(v: Seq<char>, h: int, port: int, path: int, query: int) -> bool {
    let stop = if path != 0 {
        path
    } else {
        v.len() as int
    };
    &&& (path == 0 && (forall|j: int| h < j < v.len() ==> !is_sep(#[trigger] v[j])) || (h < path
        < v.len() && is_sep(v[path]) && forall|j: int| h < j < path ==> !is_sep(#[trigger] v[j])))
    &&& (query == 0 && (forall|j: int| h < j < v.len() ==> #[trigger] v[j] != '?') || (h < query
        < v.len() && v[query] == '?' && forall|j: int| h < j < query ==> #[trigger] v[j] != '?'))
    &&& (port == 0 && (forall|j: int| h < j < stop ==> #[trigger] v[j] != ':') || (h < port < stop
        && v[port] == ':' && forall|j: int| port < j < stop ==> #[trigger] v[j] != ':'))
    &&& (path != 0 && query != 0 ==> path <= query)
    &&& (path != 0 ==> h < path < v.len())
    &&& (query != 0 ==> h < query < v.len())
    &&& (port != 0 ==> h < port && port < v.len())
    &&& (port != 0 && path != 0 ==> port < path)
}

/// Scans the value for the port, path and query positions after the host;
/// see `indices_characterize`.
fn compute_indices(value: &str, host_index: usize) -> (r: (usize, usize, usize))
    requires
        host_index <= value@.len(),
    ensures
        indices_characterize(value@, host_index as int, r.0 as int, r.1 as int, r.2 as int),
{
    let n = value.unicode_len();
    let mut port_index: usize = 0;
    let mut path_index: usize = 0;
    let mut query_index: usize = 0;

    if host_index >= n {
        return (0, 0, 0);
    }
    let mut done = false;
    let mut pos = host_index + 1;
    while pos < n && !done
        invariant
            n == value@.len(),
            host_index < pos <= n,
            done ==> query_index != 0,
            path_index == 0 ==> forall|j: int|
                host_index < j < pos ==> !is_sep(#[trigger] value@[j]),
            path_index != 0 ==> host_index < path_index < pos && is_sep(value@[path_index as int])
                && forall|j: int| host_index < j < path_index ==> !is_sep(#[trigger] value@[j]),
            query_index == 0 ==> forall|j: int|
                host_index < j < pos ==> #[trigger] value@[j] != '?',
            query_index != 0 ==> host_index < query_index < pos && value@[query_index as int] == '?'
                && forall|j: int| host_index < j < query_index ==> #[trigger] value@[j] != '?',
            path_index == 0 && port_index == 0 ==> forall|j: int|
                host_index < j < pos ==> #[trigger] value@[j] != ':',
            path_index == 0 && port_index != 0 ==> host_index < port_index && port_index < pos
                && value@[port_index as int] == ':' && forall|j: int|
                port_index < j < pos ==> #[trigger] value@[j] != ':',
            path_index != 0 && port_index == 0 ==> forall|j: int|
                host_index < j < path_index ==> #[trigger] value@[j] != ':',
            path_index != 0 && port_index != 0 ==> host_index < port_index && port_index
                < value@.len() && port_index < path_index && value@[port_index as int] == ':'
                && forall|j: int| port_index < j < path_index ==> #[trigger] value@[j] != ':',
            path_index != 0 && query_index != 0 ==> path_index <= query_index,
            query_index != 0 ==> path_index != 0,
        decreases n - pos,
    {
        let c = value.get_char(pos);
        if c == ':' {
            if path_index == 0 {
                port_index = pos;
            }
        } else if c == '/' {
            if path_index == 0 {
                path_index = pos;
            }
        } else if c == '?' {
            if path_index == 0 {
                path_index = pos;
            }
            if query_index == 0 {
                query_index = pos;
                done = true;
            }
        }
        pos = pos + 1;
    }
    (port_index, path_index, query_index)
}

/// Splits a query string into its `&`-separated parameters: each keeps its
/// raw key, and a value after `=` is percent-decoded (kept raw when its
/// escapes are malformed).
pub fn split_query_pairs<'a>(item: &'a str) -> (r: Vec<(&'a str, Option<StringOrStr<'a>>)>) {
    let mut result: Vec<(&'a str, Option<StringOrStr<'a>>)> = Vec::new();
    let m = item.unicode_len();
    let mut cursor: usize = 0;
    loop
        invariant
            m == item@.len(),
            0 <= cursor <= m,
        decreases m - cursor,
    {
        let end = match strutil::find_char(item, '&', cursor) {
            Some(i) => i,
            None => m,
        };
        let pair = item.substring_char(cursor, end);
        let pair_len = pair.unicode_len();
        match strutil::find_char(pair, '=', 0) {
            Some(eq) => {
                let key = pair.substring_char(0, eq);
                let raw_value = pair.substring_char(eq + 1, pair_len);
                let decoded = match
                    crate::url_decoder::decode_from_url_query_string::decode_as_str_or_string(
                    raw_value,
                ) {
                    Ok(v) => v,
                    Err(_) => StringOrStr::create_as_str(raw_value),
                };
                result.push((key, Some(decoded)));
            },
            None => {
                result.push((pair, None));
            },
        }
        if end == m {
            return result;
        }
        cursor = end + 1;
    }
}

/// A URL being built: the full text plus the positions of its parts. The
/// port, path and query positions are zero when the part is absent.
pub struct UrlBuilder {
    value: String,
    host_index: usize,
    port_index: usize,
    path_index: usize,
    query_index: usize,
}

impl UrlBuilder {
    /// The URL's full text.
    pub closed spec fn value_spec(&self) -> Seq<char> {
        self.value@
    }

    /// Where the host starts: right after the scheme marker.
    pub closed spec fn host_index_spec(&self) -> int {
        self.host_index as int
    }

    /// Where the port's `:` stands, or zero.
    pub closed spec fn port_index_spec(&self) -> int {
        self.port_index as int
    }

    /// Where the path starts, or zero.
    pub closed spec fn path_index_spec(&self) -> int {
        self.path_index as int
    }

    /// Where the query's `?` stands, or zero.
    pub closed spec fn query_index_spec(&self) -> int {
        self.query_index as int
    }

    /// The builder's invariant: the remembered positions lie inside the
    /// value and in part order.
    pub closed spec fn wf(&self) -> bool {
        let v = self.value@;
        let h = self.host_index as int;
        let port = self.port_index as int;
        let path = self.path_index as int;
        let query = self.query_index as int;
        &&& 3 <= h <= v.len()
        &&& (port != 0 ==> h < port && port + 1 <= v.len() && v[port] == ':')
        &&& (path != 0 ==> h <= path < v.len() && is_sep(v[path]))
        &&& (query != 0 ==> h <= query < v.len() && v[query] == '?')
        &&& (port != 0 && path != 0 ==> port < path)
        &&& (path != 0 && query != 0 ==> path <= query)
    }

    /// The host part of the value.
    pub open spec fn host_view(&self) -> Seq<char> {
        let v = self.value_spec();
        let h = self.host_index_spec();
        if self.port_index_spec() > 0 {
            v.subrange(h, self.port_index_spec())
        } else if self.path_index_spec() > 0 {
            v.subrange(h, self.path_index_spec())
        } else if self.query_index_spec() > 0 {
            v.subrange(h, self.query_index_spec())
        } else {
            v.subrange(h, v.len() as int)
        }
    }

    /// The host-with-port part of the value.
    pub open spec fn host_port_view(&self) -> Seq<char> {
        let v = self.value_spec();
        let h = self.host_index_spec();
        if scheme_sel(v) is UnixSocket {
            if self.query_index_spec() > 0 {
                v.subrange(h - 1, self.query_index_spec())
            } else {
                v.subrange(h - 1, v.len() as int)
            }
        } else if self.path_index_spec() > 0 {
            v.subrange(h, self.path_index_spec())
        } else if self.query_index_spec() > 0 {
            v.subrange(h, self.query_index_spec())
        } else {
            v.subrange(h, v.len() as int)
        }
    }

    /// The scheme-and-host part of the value.
    pub open spec fn scheme_and_host_view(&self) -> Seq<char> {
        let v = self.value_spec();
        if scheme_sel(v) is UnixSocket {
            if self.query_index_spec() > 0 {
                v.subrange(0, self.query_index_spec())
            } else {
                v
            }
        } else if self.path_index_spec() > 0 {
            v.subrange(0, self.path_index_spec())
        } else if self.query_index_spec() > 0 {
            v.subrange(0, self.query_index_spec())
        } else {
            v
        }
    }

    /// The path-with-query part of the value.
    pub open spec fn path_and_query_view(&self) -> Seq<char> {
        let v = self.value_spec();
        if scheme_sel(v) is UnixSocket {
            v.subrange(self.host_index_spec() - 1, v.len() as int)
        } else if self.path_index_spec() == 0 && self.query_index_spec() == 0 {
            "/"@
        } else if self.path_index_spec() > 0 {
            v.subrange(self.path_index_spec(), v.len() as int)
        } else {
            v.subrange(self.query_index_spec(), v.len() as int)
        }
    }

    /// The path part of the value.
    pub open spec fn path_view(&self) -> Seq<char> {
        let v = self.value_spec();
        if self.path_index_spec() == 0 {
            "/"@
        } else if self.query_index_spec() == 0 {
            v.subrange(self.path_index_spec(), v.len() as int)
        } else {
            v.subrange(self.path_index_spec(), self.query_index_spec())
        }
    }

    /// Builds from a host (with optional scheme, port, path and query).
    /// Without a scheme marker, `http://` is prepended.
    pub fn new(host_port: &str) -> (r: Self)
        ensures
            r.wf(),
            (exists|i: int| first_cmatch3(host_port@, i, ':', '/', '/')) ==> exists|i: int|
                first_cmatch3(host_port@, i, ':', '/', '/') && r.host_index_spec() == i + 3
                    && r.value_spec() == host_port@,
            ((forall|j: int| !cmatch3(host_port@, j, ':', '/', '/')) && exists|i: int|
                first_cmatch3(host_port@, i, ':', '/', '~')) ==> exists|i: int|
                first_cmatch3(host_port@, i, ':', '/', '~') && r.host_index_spec() == i + 3
                    && r.value_spec() == host_port@,
            ((forall|j: int| !cmatch3(host_port@, j, ':', '/', '/')) && (forall|j: int|
                !cmatch3(host_port@, j, ':', '/', '~'))) ==> r.value_spec() == "http://"@
                + host_port@ && r.host_index_spec() == 7,
            indices_characterize(
                r.value_spec(),
                r.host_index_spec(),
                r.port_index_spec(),
                r.path_index_spec(),
                r.query_index_spec(),
            ),
    {
        let mut value = String::new();
        let host_port_len = host_port.unicode_len();

        let mut domain_index = find3(host_port, ':', '/', '/');

        if domain_index.is_none() {
            domain_index = find3(host_port, ':', '/', '~');
        }

        let host_index: usize;
        match domain_index {
            Some(d) => {
                assert(d + 3 <= host_port_len);
                host_index = d + 3;
            },
            None => {
                proof {
                    reveal_strlit("http://");
                }
                value.append("http://");
                host_index = 7;
            },
        }
        value.append(host_port);

        let (port_index, path_index, query_index) = compute_indices(value.as_str(), host_index);

        Self { value, host_index, path_index, port_index, query_index }
    }

    /// Appends one path segment after a `/`, remembering where the path
    /// began. A builder that already carries a query, but no path, cannot
    /// take a path segment any more.
    pub fn append_path_segment(&mut self, path: &str)
        requires
            old(self).wf(),
        ensures
            (old(self).host_index_spec() < old(self).value_spec().len() && (old(
                self,
            ).query_index_spec() == 0 || old(self).path_index_spec() != 0)) ==> final(self).wf(),
            ({
                let ov = old(self).value_spec();
                let slash: Seq<char> = if ov[ov.len() - 1] == '/' {
                    Seq::empty()
                } else {
                    seq!['/']
                };
                let tail: Seq<char> = if path@.len() > 0 && path@[0] == '/' {
                    path@.skip(1)
                } else {
                    path@
                };
                &&& final(self).value_spec() == ov + slash + tail
                &&& final(self).host_index_spec() == old(self).host_index_spec()
                &&& final(self).query_index_spec() == old(self).query_index_spec()
                &&& final(self).path_index_spec() == (if old(self).path_index_spec() != 0 {
                    old(self).path_index_spec()
                } else {
                    (ov + slash).len() - 1
                })
            }),
    {
        let ghost ov = self.value@;
        let n = self.value.as_str().unicode_len();
        if !(self.value.as_str().get_char(n - 1) == '/') {
            strutil::append_char(&mut self.value, '/');
            proof {
                assert(self.value@ =~= ov + seq!['/']);
            }
        } else {
            proof {
                assert(self.value@ =~= ov + Seq::<char>::empty());
            }
        }
        if self.path_index == 0 {
            self.path_index = self.value.as_str().unicode_len() - 1;
        }
        let pn = path.unicode_len();
        if pn > 0 && path.get_char(0) == '/' {
            let tail = path.substring_char(1, pn);
            self.value.append(tail);
        } else {
            self.value.append(path);
        }
    }

    /// Appends one query parameter, encoded with the URL escape table: the
    /// first one after a `?`, later ones after `&`.
    pub fn append_query_param(&mut self, param: &str, value: Option<&str>)
        requires
            old(self).wf(),
        ensures
            final(self).wf(),
            ({
                let ov = old(self).value_spec();
                let sep: Seq<char> = if old(self).query_index_spec() == 0 {
                    seq!['?']
                } else {
                    seq!['&']
                };
                let encoded_value: Seq<char> = match value {
                    Some(v) => seq!['='] + crate::decode_from_url_string::encoded_str(v@, 0),
                    None => Seq::empty(),
                };
                &&& final(self).value_spec() == ov + sep + crate::decode_from_url_string::encoded_str(
                    param@,
                    0,
                ) + encoded_value
                &&& final(self).host_index_spec() == old(self).host_index_spec()
                &&& final(self).path_index_spec() == old(self).path_index_spec()
                &&& final(self).port_index_spec() == old(self).port_index_spec()
                &&& final(self).query_index_spec() == (if old(self).query_index_spec() == 0 {
                    ov.len() as int
                } else {
                    old(self).query_index_spec()
                })
            }),
    {
        let ghost ov = self.value@;
        if self.query_index == 0 {
            strutil::append_char(&mut self.value, '?');
            self.query_index = self.value.as_str().unicode_len() - 1;
            proof {
                assert(self.value@ =~= ov + seq!['?']);
            }
        } else {
            strutil::append_char(&mut self.value, '&');
            proof {
                assert(self.value@ =~= ov + seq!['&']);
            }
        }
        crate::decode_from_url_string::encode_to_url_string_and_copy(&mut self.value, param);
        if let Some(value) = value {
            strutil::append_char(&mut self.value, '=');
            crate::decode_from_url_string::encode_to_url_string_and_copy(&mut self.value, value);
            proof {
                assert(self.value@ =~= ov + (if old(self).query_index_spec() == 0 {
                    seq!['?']
                } else {
                    seq!['&']
                }) + crate::decode_from_url_string::encoded_str(param@, 0) + (seq!['=']
                    + crate::decode_from_url_string::encoded_str(value@, 0)));
            }
        } else {
            proof {
                assert(self.value@ =~= ov + (if old(self).query_index_spec() == 0 {
                    seq!['?']
                } else {
                    seq!['&']
                }) + crate::decode_from_url_string::encoded_str(param@, 0) + Seq::<char>::empty());
            }
        }
    }

    /// Appends raw text and refreshes the port, path and query positions
    /// from the new value by one scan after the host.
    pub fn append_raw_ending(&mut self, raw_ending: &str)
        requires
            old(self).wf(),
        ensures
            final(self).wf(),
            final(self).value_spec() == old(self).value_spec() + raw_ending@,
            final(self).host_index_spec() == old(self).host_index_spec(),
            indices_characterize(
                final(self).value_spec(),
                final(self).host_index_spec(),
                final(self).port_index_spec(),
                final(self).path_index_spec(),
                final(self).query_index_spec(),
            ),
    {
        self.value.append(raw_ending);
        let (port_index, path_index, query_index) = compute_indices(
            self.value.as_str(),
            self.host_index,
        );
        self.port_index = port_index;
        self.path_index = path_index;
        self.query_index = query_index;
    }

    /// The scheme named before the first `:/`, or plain HTTP.
    pub fn get_scheme(&self) -> (r: Scheme)
        ensures
            r == scheme_sel(self.value_spec()),
    {
        let index = find2(self.value.as_str(), ':', '/');

        match index {
            None => {
                proof {
                    let v = self.value@;
                    assert(!(exists|i: int|
                        0 <= i && i + 2 <= v.len() && v[i] == ':' && #[trigger] v[i + 1] == '/'));
                }
                Scheme::Http
            },
            Some(i) => {
                let prefix = self.value.as_str().substring_char(0, i);
                let r = match Scheme::try_parse(prefix) {
                    Some(scheme) => scheme,
                    None => Scheme::Http,
                };
                proof {
                    let v = self.value@;
                    let wi = choose|w: int|
                        0 <= w && w + 2 <= v.len() && v[w] == ':' && #[trigger] v[w + 1] == '/'
                            && forall|j: int|
                            0 <= j < w ==> !(j + 2 <= v.len() && (#[trigger] v[j]) == ':' && v[j + 1]
                                == '/');
                    assert(wi == i as int);
                }
                r
            },
        }
    }

    /// The host alone: from after the scheme marker to the port, path or
    /// query, whichever comes first.
    pub fn get_host(&self) -> (r: &str)
        requires
            self.wf(),
        ensures
            r@ == self.host_view(),
    {
        if self.port_index > 0 {
            return self.value.as_str().substring_char(self.host_index, self.port_index);
        }

        if self.path_index > 0 {
            return self.value.as_str().substring_char(self.host_index, self.path_index);
        }

        if self.query_index > 0 {
            return self.value.as_str().substring_char(self.host_index, self.query_index);
        }

        self.value.as_str().substring_char(self.host_index, self.value.as_str().unicode_len())
    }

    /// The host with its port; for a unix-socket URL, the socket path from
    /// just before the host.
    pub fn get_host_port(&self) -> (r: &str)
        requires
            self.wf(),
        ensures
            r@ == self.host_port_view(),
    {
        if self.get_scheme().is_unix_socket() {
            if self.query_index > 0 {
                return self.value.as_str().substring_char(self.host_index - 1, self.query_index);
            } else {
                return self.value.as_str().substring_char(
                    self.host_index - 1,
                    self.value.as_str().unicode_len(),
                );
            }
        }

        if self.path_index > 0 {
            return self.value.as_str().substring_char(self.host_index, self.path_index);
        }

        if self.query_index > 0 {
            return self.value.as_str().substring_char(self.host_index, self.query_index);
        }

        self.value.as_str().substring_char(self.host_index, self.value.as_str().unicode_len())
    }

    /// The scheme and host: everything before the path, or before the query
    /// for a unix-socket URL.
    pub fn get_scheme_and_host(&self) -> (r: &str)
        requires
            self.wf(),
        ensures
            r@ == self.scheme_and_host_view(),
    {
        let n = self.value.as_str().unicode_len();
        proof {
            assert(self.value@.subrange(0, self.value@.len() as int) =~= self.value@);
        }
        if self.get_scheme().is_unix_socket() {
            if self.query_index > 0 {
                return self.value.as_str().substring_char(0, self.query_index);
            } else {
                return self.value.as_str().substring_char(0, n);
            }
        }

        if self.path_index > 0 {
            return self.value.as_str().substring_char(0, self.path_index);
        }

        if self.query_index > 0 {
            return self.value.as_str().substring_char(0, self.query_index);
        }

        self.value.as_str().substring_char(0, n)
    }

    /// The path with the query; `/` when both are absent, and the socket
    /// path for a unix-socket URL.
    pub fn get_path_and_query(&self) -> (r: &str)
        requires
            self.wf(),
        ensures
            r@ == self.path_and_query_view(),
    {
        let n = self.value.as_str().unicode_len();
        if self.get_scheme().is_unix_socket() {
            return self.value.as_str().substring_char(self.host_index - 1, n);
        }

        if self.path_index == 0 && self.query_index == 0 {
            return "/";
        }

        if self.path_index > 0 {
            return self.value.as_str().substring_char(self.path_index, n);
        }

        self.value.as_str().substring_char(self.query_index, n)
    }

    /// Whether the host consists of numeric characters and dots alone.
    pub fn host_is_ip(&self) -> (r: bool)
        requires
            self.wf(),
        ensures
            r == forall|i: int|
                0 <= i < self.host_view().len() ==> (strutil::numeric_char(
                    #[trigger] self.host_view()[i],
                ) || self.host_view()[i] == '.'),
    {
        let host = self.get_host();
        let n = host.unicode_len();
        let mut i: usize = 0;
        while i < n
            invariant
                host@ == self.host_view(),
                n == host@.len(),
                0 <= i <= n,
                forall|j: int|
                    0 <= j < i ==> (strutil::numeric_char(#[trigger] host@[j]) || host@[j] == '.'),
            decreases n - i,
        {
            let c = host.get_char(i);
            if !(strutil::char_is_numeric(c) || c == '.') {
                return false;
            }
            i = i + 1;
        }
        true
    }

    /// The path alone; `/` when absent.
    pub fn get_path(&self) -> (r: &str)
        requires
            self.wf(),
        ensures
            r@ == self.path_view(),
    {
        if self.path_index == 0 {
            return "/";
        }
        if self.query_index == 0 {
            return self.value.as_str().substring_char(
                self.path_index,
                self.value.as_str().unicode_len(),
            );
        }

        self.value.as_str().substring_char(self.path_index, self.query_index)
    }

    /// The query split into parameters, each with its raw key and its
    /// decoded value; `None` when the URL carries no query.
    pub fn iter_query(&self) -> (r: Option<Vec<(&str, Option<StringOrStr<'_>>)>>)
        requires
            self.wf(),
        ensures
            (r is Some) == (self.query_index_spec() != 0),
    {
        if self.query_index == 0 {
            return None;
        }

        let n = self.value.as_str().unicode_len();
        let item = self.value.as_str().substring_char(self.query_index + 1, n);

        Some(split_query_pairs(item))
    }

    /// The whole URL text.
    pub fn as_str(&self) -> (r: &str)
        ensures
            r@ == self.value_spec(),
    {
        self.value.as_str()
    }

    /// The whole URL text, owned.
    pub fn to_string(&self) -> (r: String)
        ensures
            r@ == self.value_spec(),
    {
        self.value.clone()
    }
}

} // verus!
