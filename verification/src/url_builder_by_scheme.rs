//! URL building dispatched on the scheme: TCP-based URLs keep the indexed
//! single-string builder, unix-socket URLs keep host, path and query apart.
pub mod url_builder;
pub mod url_builder_unix_socket;

pub use url_builder::UrlBuilder;
pub use url_builder_unix_socket::UrlBuilderUnixSocket;
