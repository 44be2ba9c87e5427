use http_utils::path_and_query_key::PathAndQueryKey;
use http_utils::path_and_query_parser::PathAndQueryReader;

#[test]
fn path_and_query_key_test_basic() {
    let path1 = PathAndQueryKey::from_path_and_query("/path/to/some/where?name=John&age=20");

    let path2 = PathAndQueryKey::from_path_and_query("/path/to/Some/where?age=20&name=John");

    assert_eq!(path1.as_str(), path2.as_str());

    assert_eq!(path1.has_query(), true);
}

#[test]
fn test_basic_2() {
    let path1 = PathAndQueryKey::from_path_and_query("/path/to/some/where");

    let path2 = PathAndQueryKey::from_path_and_query("/path/to/Some/where");

    assert_eq!(path1.as_str(), path2.as_str());

    assert_eq!(path1.has_query(), false);
}

#[test]
fn test_my_path() {
    let src = PathAndQueryReader::new("/my-path?param=1");

    assert!(src.is_my_path("/my-path"));
    assert!(src.is_my_path("/my-Path"));
    assert!(src.is_my_path("my-Path"));
    assert!(!src.is_my_path("my-Path-2"));
}

#[test]
fn key_lowers_the_path_and_orders_the_query() {
    let key = PathAndQueryKey::from_path_and_query("/A/B?b=2&a=1");
    assert_eq!(key.as_str(), "/a/b?a=1&b=2");
    assert_eq!(key.to_string(), "/a/b?a=1&b=2");
    assert_eq!(key.into_string(), "/a/b?a=1&b=2");

    let key = PathAndQueryKey::from_path_and_query("/X/Y");
    assert_eq!(key.as_str(), "/x/y");
}

#[test]
fn reader_splits_path_and_query() {
    let r = PathAndQueryReader::new("/a/b/?x=1");
    assert_eq!(r.path, "/a/b");
    assert_eq!(r.query, Some("x=1"));

    let r = PathAndQueryReader::new("");
    assert_eq!(r.path, "/");
    assert_eq!(r.query, None);

    let r = PathAndQueryReader::new("/plain");
    assert_eq!(r.path, "/plain");
    assert_eq!(r.query, None);
}
