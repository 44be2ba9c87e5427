use http_utils::url_builder_by_scheme::UrlBuilder;

#[test]
pub fn url_builder_test_with_default_scheme() {
    let uri_builder = UrlBuilder::new("google.com");

    assert_eq!("http://google.com", uri_builder.to_string());
    assert_eq!("http://google.com", uri_builder.get_scheme_and_host());
    assert_eq!("google.com", uri_builder.get_host());

    assert_eq!(true, uri_builder.get_scheme().is_http());
    assert_eq!("google.com", uri_builder.get_host_port());
    assert_eq!("/", uri_builder.get_path());

    assert_eq!("/", uri_builder.get_path_and_query());
}

#[test]
pub fn url_builder_test_with_http_scheme() {
    let uri_builder = UrlBuilder::new("http://google.com");

    assert_eq!("http://google.com", uri_builder.to_string());
    assert_eq!("http://google.com", uri_builder.get_scheme_and_host());
    assert_eq!(true, uri_builder.get_scheme().is_http());
    assert_eq!("google.com", uri_builder.get_host_port());
    assert_eq!("/", uri_builder.get_path());
    assert_eq!("/", uri_builder.get_path_and_query());
}

#[test]
pub fn url_builder_test_with_http_scheme_and_last_slash() {
    let uri_builder = UrlBuilder::new("http://google.com/");

    assert_eq!("http://google.com/", uri_builder.to_string());
    assert_eq!("http://google.com", uri_builder.get_scheme_and_host());
    assert_eq!(true, uri_builder.get_scheme().is_http());
    assert_eq!("google.com", uri_builder.get_host_port());
    assert_eq!("/", uri_builder.get_path());
    assert_eq!("/", uri_builder.get_path_and_query());
}

#[test]
pub fn url_builder_test_with_https_scheme() {
    let uri_builder = UrlBuilder::new("https://google.com");

    assert_eq!("https://google.com", uri_builder.to_string());
    assert_eq!("https://google.com", uri_builder.get_scheme_and_host());

    assert_eq!(true, uri_builder.get_scheme().is_https());
    assert_eq!("google.com", uri_builder.get_host_port());
    assert_eq!("/", uri_builder.get_path());
    assert_eq!("/", uri_builder.get_path_and_query());
}

#[test]
pub fn url_builder_test_path_segments() {
    let mut uri_builder = UrlBuilder::new("https://google.com");

    uri_builder.append_path_segment("first");

    uri_builder.append_path_segment("second");

    assert_eq!("https://google.com/first/second", uri_builder.to_string());
    assert_eq!("https://google.com", uri_builder.get_scheme_and_host());

    assert_eq!(true, uri_builder.get_scheme().is_https());
    assert_eq!("google.com", uri_builder.get_host_port());
    assert_eq!("/first/second", uri_builder.get_path());
    assert_eq!("/first/second", uri_builder.get_path_and_query());
}

#[test]
pub fn url_builder_test_path_segments_with_slug_at_the_end() {
    let mut uri_builder = UrlBuilder::new("https://google.com/");

    uri_builder.append_path_segment("first");
    uri_builder.append_path_segment("second");

    assert_eq!("https://google.com/first/second", uri_builder.to_string());
    assert_eq!("https://google.com", uri_builder.get_scheme_and_host());

    assert_eq!(true, uri_builder.get_scheme().is_https());
    assert_eq!("google.com", uri_builder.get_host_port());
    assert_eq!("/first/second", uri_builder.get_path());
    assert_eq!("/first/second", uri_builder.get_path_and_query());
}

#[test]
pub fn url_builder_test_query_with_no_path() {
    let mut uri_builder = UrlBuilder::new("https://google.com");
    uri_builder.append_query_param("first", Some("first_value"));
    uri_builder.append_query_param("second", Some("second_value"));

    assert_eq!(
        "https://google.com?first=first_value&second=second_value",
        uri_builder.to_string()
    );
    assert_eq!("https://google.com", uri_builder.get_scheme_and_host());

    assert_eq!(true, uri_builder.get_scheme().is_https());
    assert_eq!("google.com", uri_builder.get_host_port());
    assert_eq!(uri_builder.get_path(), "/",);
    assert_eq!(
        "?first=first_value&second=second_value",
        uri_builder.get_path_and_query()
    );

    let mut query = uri_builder.iter_query().unwrap().into_iter();

    let (key, value) = query.next().unwrap();
    assert_eq!("first", key);
    assert_eq!("first_value", value.unwrap().as_str());

    let (key, value) = query.next().unwrap();
    assert_eq!("second", key);
    assert_eq!("second_value", value.unwrap().as_str());

    assert!(query.next().is_none());
}

#[test]
pub fn url_builder_test_get_domain_different_cases() {
    let uri_builder = UrlBuilder::new("https://my-domain:5123");

    assert_eq!("my-domain:5123", uri_builder.get_host_port());
    assert_eq!("my-domain", uri_builder.get_host());

    let uri_builder = UrlBuilder::new("https://my-domain:5123/my-path");

    assert_eq!("my-domain:5123", uri_builder.get_host_port());
    assert_eq!("my-domain", uri_builder.get_host());

    let uri_builder = UrlBuilder::new("https://my-domain/my-path");

    assert_eq!("my-domain", uri_builder.get_host_port());
    assert_eq!("my-domain", uri_builder.get_host());
}

#[test]
pub fn url_builder_test_path_and_query() {
    let mut uri_builder = UrlBuilder::new("https://google.com");
    uri_builder.append_path_segment("first");
    uri_builder.append_path_segment("second");

    uri_builder.append_query_param("first", Some("first_value"));
    uri_builder.append_query_param("second", Some("second_value"));

    assert_eq!(
        "https://google.com/first/second?first=first_value&second=second_value",
        uri_builder.to_string()
    );
    assert_eq!("https://google.com", uri_builder.get_scheme_and_host());

    assert_eq!(true, uri_builder.get_scheme().is_https());
    assert_eq!("google.com", uri_builder.get_host_port());
    assert_eq!("/first/second", uri_builder.get_path());
    assert_eq!(
        "/first/second?first=first_value&second=second_value",
        uri_builder.get_path_and_query()
    );
}

#[test]
pub fn url_builder_test_unix_path_and_query() {
    let mut uri_builder = http_utils::url_builder::UrlBuilder::new("http+unix://var/run/test");

    uri_builder.append_query_param("first", Some("first_value"));
    uri_builder.append_query_param("second", Some("second_value"));

    assert_eq!(true, uri_builder.get_scheme().is_unix_socket());

    assert_eq!(
        "http+unix://var/run/test?first=first_value&second=second_value",
        uri_builder.to_string()
    );
    assert_eq!(
        "http+unix://var/run/test",
        uri_builder.get_scheme_and_host()
    );

    assert_eq!("/var/run/test", uri_builder.get_host_port());

    assert_eq!(
        "/var/run/test?first=first_value&second=second_value",
        uri_builder.get_path_and_query()
    );
}

#[test]
pub fn test_unix_from_home_path() {
    let mut uri_builder = http_utils::url_builder::UrlBuilder::new("http+unix:/~/var/run/test");

    uri_builder.append_query_param("first", Some("first_value"));
    uri_builder.append_query_param("second", Some("second_value"));

    assert_eq!(true, uri_builder.get_scheme().is_unix_socket());

    assert_eq!(
        "http+unix:/~/var/run/test?first=first_value&second=second_value",
        uri_builder.to_string()
    );
    assert_eq!(
        "http+unix:/~/var/run/test",
        uri_builder.get_scheme_and_host()
    );

    assert_eq!("~/var/run/test", uri_builder.get_host_port());

    assert_eq!(
        "~/var/run/test?first=first_value&second=second_value",
        uri_builder.get_path_and_query()
    );
}

#[test]
fn test_default_http_scheme() {
    let url = UrlBuilder::new("localhost:8080");

    assert_eq!(url.get_host(), "localhost");
    assert!(url.get_scheme().is_http());
    assert_eq!(url.get_host_port(), "localhost:8080");
}

#[test]
fn test_default_http_scheme_and_path() {
    let url = UrlBuilder::new("localhost:8080/templates");

    assert_eq!(url.get_host(), "localhost");
    assert!(url.get_scheme().is_http());
    assert_eq!(url.get_host_port(), "localhost:8080");
    assert_eq!(url.get_path(), "/templates");
}

#[test]
fn test_append_raw_ending() {
    let mut url = UrlBuilder::new("localhost:8080");
    url.append_raw_ending("/path1/path?test=1");

    assert_eq!(url.get_host(), "localhost");

    assert_eq!(url.get_host_port(), "localhost:8080");
    assert_eq!(url.get_path_and_query(), "/path1/path?test=1");

    assert_eq!(url.get_path(), "/path1/path");
}

#[test]
fn test_unix_socket_url() {
    let url = UrlBuilder::new("/unix-socket/directory:/path1/path2");

    assert_eq!(url.get_host_port(), "/unix-socket/directory");
    assert_eq!(url.get_path(), "/path1/path2");
    assert_eq!(url.get_path_and_query(), "/path1/path2");
}

#[test]
fn test_unix_socket_url_2() {
    let url = UrlBuilder::new("/unix-socket/directory:/path1/path2?a=5");

    assert_eq!(url.get_host_port(), "/unix-socket/directory");
    assert_eq!(url.get_path(), "/path1/path2");
    assert_eq!(url.get_path_and_query(), "/path1/path2?a=5");
}

#[test]
pub fn test_get_domain_different_cases() {
    let uri_builder = http_utils::url_builder::UrlBuilder::new("https://my-domain:5123");

    assert_eq!("my-domain:5123", uri_builder.get_host_port());
    assert_eq!("my-domain", uri_builder.get_host());

    let uri_builder = http_utils::url_builder::UrlBuilder::new("https://my-domain:5123/my-path");

    assert_eq!("my-domain:5123", uri_builder.get_host_port());
    assert_eq!("my-domain", uri_builder.get_host());

    let uri_builder = http_utils::url_builder::UrlBuilder::new("https://my-domain/my-path");

    assert_eq!("my-domain", uri_builder.get_host_port());
    assert_eq!("my-domain", uri_builder.get_host());
}

#[test]
fn host_is_ip_looks_at_digits_and_dots() {
    let url = UrlBuilder::new("http://127.0.0.1:8080");
    assert!(url.host_is_ip());

    let url = UrlBuilder::new("http://localhost:8080");
    assert!(!url.host_is_ip());
}

#[test]
fn query_params_are_url_encoded() {
    let mut url = http_utils::url_builder::UrlBuilder::new("https://host");
    url.append_query_param("q", Some("a b/c"));
    assert_eq!(url.as_str(), "https://host?q=a+b%2Fc");
}
