use http_utils::url_decoder::UrlDecodeError;
use http_utils::url_decoder::UrlDecoder;
use http_utils::url_decoder::escaped_state::decode_hex_symbol;

#[test]
fn main_test_url_decoding() {
    let value = "http%3A%2F%2F127.0.0.1%3A5223";

    let result = http_utils::url_decoder::main::decode_from_url_query_string(value);

    assert_eq!("http://127.0.0.1:5223", result.unwrap().as_str());
}

#[test]
fn main_test_url_decoding_case_2() {
    let value = "Euro%20Stoxx%2050";

    let result = http_utils::url_decoder::main::decode_from_url_query_string(value);

    assert_eq!("Euro Stoxx 50", result.unwrap().as_str());
}

#[test]
fn decode_from_url_query_string_test_url_decoding() {
    let value = "http%3A%2F%2F127.0.0.1%3A5223";

    let result =
        http_utils::url_decoder::decode_from_url_query_string::decode_from_url_query_string(value);

    assert_eq!("http://127.0.0.1:5223", result.unwrap().as_str());
}

#[test]
fn decode_from_url_query_string_test_url_decoding_case_2() {
    let value = "Euro%20Stoxx%2050";

    let result =
        http_utils::url_decoder::decode_from_url_query_string::decode_from_url_query_string(value);

    assert_eq!("Euro Stoxx 50", result.unwrap().as_str());
}

#[test]
fn decoder_turns_plus_into_space_and_keeps_the_rest() {
    let mut decoder = UrlDecoder::new("a+b%7Cc");
    let mut out: Vec<u8> = Vec::new();
    loop {
        match decoder.get_next() {
            Ok(Some(b)) => out.push(b),
            Ok(None) => break,
            Err(e) => panic!("{}", e.msg),
        }
    }
    assert_eq!(out, b"a b|c");
}

#[test]
fn malformed_escape_is_an_error() {
    let result = http_utils::url_decoder::decode_from_url_query_string("bad%zzescape");
    let err: UrlDecodeError = result.err().unwrap();
    assert!(err.msg.len() > 0);
}

#[test]
fn non_utf8_decoded_bytes_are_an_error() {
    let result = http_utils::url_decoder::decode_from_url_query_string("broken%FF");
    assert!(result.is_err());
}

#[test]
fn truncated_escape_at_the_end_is_dropped() {
    let result = http_utils::url_decoder::decode_from_url_query_string("ab%4");
    assert_eq!(result.unwrap(), "ab");
}

#[test]
fn decode_as_str_or_string_borrows_plain_input() {
    let result =
        http_utils::url_decoder::decode_from_url_query_string::decode_as_str_or_string("plain")
            .unwrap();
    assert_eq!(result.as_str(), "plain");

    let result =
        http_utils::url_decoder::decode_from_url_query_string::decode_as_str_or_string("a%21b")
            .unwrap();
    assert_eq!(result.as_str(), "a!b");
}

#[test]
fn decode_hex_symbol_maps_digits_exactly() {
    assert_eq!(decode_hex_symbol(b'0').unwrap(), 0);
    assert_eq!(decode_hex_symbol(b'9').unwrap(), 9);
    assert_eq!(decode_hex_symbol(b'a').unwrap(), 10);
    assert_eq!(decode_hex_symbol(b'f').unwrap(), 15);
    assert_eq!(decode_hex_symbol(b'A').unwrap(), 10);
    assert_eq!(decode_hex_symbol(b'F').unwrap(), 15);
    assert!(decode_hex_symbol(b'g').is_err());
}
