use http_utils::body::FormDataBody;
use http_utils::body::HttpRequestBody;
use http_utils::body::UrlEncodedBody;
use http_utils::form_data_reader::form_data_reader::FormDataReader;
use http_utils::string_or_str::StringOrStr;

#[test]
fn test() {
    let value = "value1|value2";

    let result = http_utils::url_encoder::encode_string(value);

    assert_eq!("value1%7Cvalue2", result.as_str());
}

#[test]
fn plain_strings_are_not_copied_by_the_encoder() {
    let result = http_utils::url_encoder::encode_string("plain-value");
    assert_eq!("plain-value", result.as_str());
}

#[test]
fn test_from_real_life() {
    let src = "4%2F0AeaYSHA_pv6LYFSy9QdDASiSdr4X53iOaoo9ZJotKi536ELdyaLNqbsaQ0sjsTE9yuhhdQ";

    let result = http_utils::decode_from_url_string::decode_from_url_string(src);

    assert_eq!(
        result.as_str(),
        "4/0AeaYSHA_pv6LYFSy9QdDASiSdr4X53iOaoo9ZJotKi536ELdyaLNqbsaQ0sjsTE9yuhhdQ"
    );
}

#[test]
fn decode_url_escape_reads_the_table() {
    assert_eq!(http_utils::decode_from_url_string::decode_url_escape(b'2', b'F'), b'/');
    assert_eq!(http_utils::decode_from_url_string::decode_url_escape(b'3', b'A'), b':');
    assert_eq!(http_utils::decode_from_url_string::decode_url_escape(b'4', b'0'), b'@');
}

#[test]
fn encode_to_url_string_escapes_reserved_characters() {
    let mut out = String::from("k=");
    http_utils::decode_from_url_string::encode_to_url_string_and_copy(&mut out, "a b?c");
    assert_eq!(out, "k=a+b%3Fc");
}

#[test]
fn test_form_data_body() {
    let form_data = FormDataBody::new().append_form_data_field("test", "my value");

    let result = form_data.into_bytes();

    println!("{}", std::str::from_utf8(result.as_slice()).unwrap());
}

#[test]
fn test_form_data_body_2() {
    let form_data = FormDataBody::new()
        .append_form_data_field("test", "my value")
        .append_form_data_file("name", "file.txt", "text", "123".as_bytes());

    let result = form_data.into_bytes();

    println!("{}", std::str::from_utf8(result.as_slice()).unwrap());
}

#[test]
fn form_data_body_round_trips_through_the_reader() {
    let body = FormDataBody::new()
        .append_form_data_field("test", "my value")
        .append_form_data_file("name", "file.txt", "text", b"123");
    let content_type = body.get_content_type();
    assert!(content_type.starts_with("multipart/form-data; boundary=------DataFormBoundary"));

    let boundary = &content_type["multipart/form-data; boundary=".len()..];
    let bytes = body.into_bytes();

    let reader = FormDataReader::new(bytes.as_slice(), boundary).unwrap();
    assert_eq!(reader.items().len(), 2);
    let field = reader.get_required("test").unwrap();
    assert_eq!(field.unwrap_as_string().unwrap(), "my value");
    let file = reader.get_required("name").unwrap();
    assert_eq!(file.unwrap_as_file_name(), "file.txt");
}

#[test]
fn url_encoded_body_joins_encoded_pairs() {
    let body = UrlEncodedBody::new().append("a b", "1&2").append("c", "3");
    assert_eq!(body.data, "a+b=1%262&c=3");
}

#[test]
fn http_request_body_forms() {
    let body = HttpRequestBody::empty();
    assert!(body.get_content_type().is_none());
    assert_eq!(body.into_vec().len(), 0);

    let body = HttpRequestBody::from_raw_data(vec![1, 2, 3], Some("application/octet-stream"));
    assert_eq!(
        body.get_content_type().unwrap().as_str(),
        "application/octet-stream"
    );
    assert_eq!(body.into_vec(), vec![1, 2, 3]);

    let body = HttpRequestBody::Json(b"{}".to_vec());
    assert_eq!(body.get_content_type().unwrap().as_str(), "application/json");
    assert_eq!(body.into_vec(), b"{}".to_vec());

    let body: HttpRequestBody =
        HttpRequestBody::UrlEncoded(UrlEncodedBody::new().append("k", "v"));
    assert_eq!(
        body.get_content_type().unwrap().as_str(),
        "application/x-www-form-urlencoded"
    );
    assert_eq!(body.into_vec(), b"k=v".to_vec());
}

#[test]
fn string_or_str_holds_both_forms() {
    let s = StringOrStr::create_as_str("abc");
    assert_eq!(s.as_str(), "abc");
    let s = StringOrStr::create_as_string(String::from("owned"));
    assert_eq!(s.as_str(), "owned");
}
