//! The scheme-dispatching URL builder: a socket path or `http+unix` scheme
//! selects the unix-socket builder, everything else the TCP one.
use vstd::prelude::*;

use crate::scheme::Scheme;
use crate::string_or_str::StringOrStr;
use crate::strutil;
use crate::url_builder::scheme_sel;
use crate::url_builder::split_query_pairs;
use crate::url_builder::UrlBuilder as UrlBuilderInner;
use crate::url_builder_by_scheme::UrlBuilderUnixSocket;

verus! {

/// A URL builder that is TCP-based or unix-socket-based, decided once from
/// the input's shape.
pub enum UrlBuilder {
    TcpBased(UrlBuilderInner),
    UnixSocketBased(UrlBuilderUnixSocket),
}

impl UrlBuilder {
    /// The builder's invariant: a TCP-based builder is well formed.
    pub open spec fn wf(&self) -> bool {
        match self {
            UrlBuilder::TcpBased(b) => b.wf(),
            UrlBuilder::UnixSocketBased(_) => true,
        }
    }

    /// Chooses the unix-socket builder for inputs starting with `/` or `~`
    /// or naming a unix scheme before the first `:`, and the TCP builder for
    /// everything else.
    pub fn new(host_port: &str) -> (r: Self)
        requires
            host_port@.len() > 0,
        ensures
            r.wf(),
            (host_port@[0] == '/' || host_port@[0] == '~') ==> r is UnixSocketBased,
    {
        let first = host_port.get_char(0);
        if first == '/' || first == '~' {
            return Self::UnixSocketBased(UrlBuilderUnixSocket::new(host_port));
        }

        let host_index = strutil::find_char(host_port, ':', 0);

        let host_index = match host_index {
            Some(i) => i,
            None => {
                return Self::TcpBased(UrlBuilderInner::new(host_port));
            },
        };

        let scheme_str = host_port.substring_char(0, host_index);

        let scheme = Scheme::try_parse(scheme_str);

        match scheme {
            Some(scheme) => {
                if scheme.is_unix_socket() {
                    return Self::UnixSocketBased(UrlBuilderUnixSocket::new(host_port));
                }

                return Self::TcpBased(UrlBuilderInner::new(host_port));
            },
            None => Self::TcpBased(UrlBuilderInner::new(host_port)),
        }
    }

    /// Appends one path segment; see the two builders.
    pub fn append_path_segment(&mut self, path: &str)
        requires
            old(self).wf(),
        ensures
            ((*old(self)) matches UrlBuilder::TcpBased(b) ==> b.host_index_spec()
                < b.value_spec().len() && (b.query_index_spec() == 0 || b.path_index_spec() != 0))
                ==> final(self).wf(),
            ((*final(self)) is TcpBased) == ((*old(self)) is TcpBased),
    {
        match self {
            UrlBuilder::TcpBased(url_builder_inner) => {
                url_builder_inner.append_path_segment(path);
            },
            UrlBuilder::UnixSocketBased(builder) => {
                builder.append_path_segment(path);
            },
        }
    }

    /// Appends one query parameter; see the two builders.
    pub fn append_query_param(&mut self, param: &str, value: Option<&str>)
        requires
            old(self).wf(),
        ensures
            final(self).wf(),
            ((*final(self)) is TcpBased) == ((*old(self)) is TcpBased),
    {
        match self {
            UrlBuilder::TcpBased(url_builder_inner) => {
                url_builder_inner.append_query_param(param, value);
            },
            UrlBuilder::UnixSocketBased(builder) => {
                builder.append_query_param(param, value);
            },
        }
    }

    /// Appends raw text; see the two builders.
    pub fn append_raw_ending(&mut self, raw_ending: &str)
        requires
            old(self).wf(),
        ensures
            final(self).wf(),
            ((*final(self)) is TcpBased) == ((*old(self)) is TcpBased),
    {
        match self {
            UrlBuilder::TcpBased(builder) => {
                builder.append_raw_ending(raw_ending);
            },
            UrlBuilder::UnixSocketBased(builder) => {
                builder.append_raw_ending(raw_ending);
            },
        }
    }

    /// The scheme: read from a TCP-based value, fixed for a unix socket.
    pub fn get_scheme(&self) -> (r: Scheme)
        ensures
            match self {
                UrlBuilder::TcpBased(b) => r == scheme_sel(b.value_spec()),
                UrlBuilder::UnixSocketBased(_) => r is UnixSocket,
            },
    {
        match self {
            UrlBuilder::TcpBased(builder) => builder.get_scheme(),
            UrlBuilder::UnixSocketBased(_) => Scheme::UnixSocket,
        }
    }

    /// The host alone.
    pub fn get_host(&self) -> (r: &str)
        requires
            self.wf(),
        ensures
            match self {
                UrlBuilder::TcpBased(b) => r@ == b.host_view(),
                UrlBuilder::UnixSocketBased(u) => r@ == u.host_spec(),
            },
    {
        match self {
            UrlBuilder::TcpBased(builder) => builder.get_host(),
            UrlBuilder::UnixSocketBased(builder) => builder.get_host(),
        }
    }

    /// The host with its port for TCP, the socket path for unix.
    pub fn get_host_port(&self) -> (r: &str)
        requires
            self.wf(),
        ensures
            match self {
                UrlBuilder::TcpBased(b) => r@ == b.host_port_view(),
                UrlBuilder::UnixSocketBased(u) => r@ == u.host_spec(),
            },
    {
        match self {
            UrlBuilder::TcpBased(builder) => builder.get_host_port(),
            UrlBuilder::UnixSocketBased(builder) => builder.get_host(),
        }
    }

    /// The scheme and host for TCP, the socket path for unix.
    pub fn get_scheme_and_host(&self) -> (r: &str)
        requires
            self.wf(),
        ensures
            match self {
                UrlBuilder::TcpBased(b) => r@ == b.scheme_and_host_view(),
                UrlBuilder::UnixSocketBased(u) => r@ == u.host_spec(),
            },
    {
        match self {
            UrlBuilder::TcpBased(builder) => builder.get_scheme_and_host(),
            UrlBuilder::UnixSocketBased(builder) => builder.get_host(),
        }
    }

    /// The path with the query.
    pub fn get_path_and_query(&self) -> (r: String)
        requires
            self.wf(),
        ensures
            match self {
                UrlBuilder::TcpBased(b) => r@ == b.path_and_query_view(),
                UrlBuilder::UnixSocketBased(u) => r@ == u.path_spec() + (if u.query_spec().len()
                    > 0 {
                    seq!['?'] + u.query_spec()
                } else {
                    Seq::<char>::empty()
                }),
            },
    {
        match self {
            UrlBuilder::TcpBased(builder) => builder.get_path_and_query().to_owned(),
            UrlBuilder::UnixSocketBased(builder) => builder.get_path_and_query(),
        }
    }

    /// Whether the host consists of digits and dots alone; never true for a
    /// unix socket.
    pub fn host_is_ip(&self) -> (r: bool)
        requires
            self.wf(),
    {
        match self {
            UrlBuilder::TcpBased(builder) => builder.host_is_ip(),
            UrlBuilder::UnixSocketBased(_) => false,
        }
    }

    /// The path alone.
    pub fn get_path(&self) -> (r: &str)
        requires
            self.wf(),
        ensures
            match self {
                UrlBuilder::TcpBased(b) => r@ == b.path_view(),
                UrlBuilder::UnixSocketBased(u) => r@ == u.path_spec(),
            },
    {
        match self {
            UrlBuilder::TcpBased(builder) => builder.get_path(),
            UrlBuilder::UnixSocketBased(builder) => builder.get_path(),
        }
    }

    /// Whether this builder is unix-socket-based.
    pub fn is_unix_socket(&self) -> (r: bool)
        ensures
            r == (self is UnixSocketBased),
    {
        match self {
            UrlBuilder::TcpBased(_) => false,
            UrlBuilder::UnixSocketBased(_) => true,
        }
    }

    /// The query split into parameters with decoded values, or `None`
    /// without a query.
    pub fn iter_query(&self) -> (r: Option<Vec<(&str, Option<StringOrStr<'_>>)>>)
        requires
            self.wf(),
    {
        match self {
            UrlBuilder::TcpBased(builder) => builder.iter_query(),
            UrlBuilder::UnixSocketBased(builder) => {
                match builder.get_query() {
                    Some(item) => Some(split_query_pairs(item)),
                    None => None,
                }
            },
        }
    }

    /// The whole URL text.
    pub fn to_string(&self) -> (r: String)
        ensures
            match self {
                UrlBuilder::TcpBased(b) => r@ == b.value_spec(),
                UrlBuilder::UnixSocketBased(u) => r@ == u.host_spec() + u.path_spec()
                    + u.query_spec(),
            },
    {
        match self {
            UrlBuilder::TcpBased(builder) => builder.to_string(),
            UrlBuilder::UnixSocketBased(builder) => builder.to_string(),
        }
    }
}

} // verus!
