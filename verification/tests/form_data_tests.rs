use http_utils::form_data_reader::ReadingFromDataError;
use http_utils::form_data_reader::content_disposition_parser::ContentDispositionParser;
use http_utils::form_data_reader::content_disposition_parser::KeyValue;
use http_utils::form_data_reader::content_iterator::ContentIterator;
use http_utils::form_data_reader::form_data_item::FormDataItem;
use http_utils::form_data_reader::form_data_reader::FormDataReader;
use http_utils::form_data_reader::mappers::to_bool;
use http_utils::form_data_reader::mappers::to_simple_value;

fn collect_attributes<'s>(src: &'s [u8]) -> Vec<KeyValue<'s>> {
    let mut parser = ContentDispositionParser::new(src);
    let mut result = Vec::new();
    loop {
        match parser.next() {
            Ok(Some(kv)) => result.push(kv),
            Ok(None) => break,
            Err(e) => panic!("{:?}", e),
        }
    }
    result
}

#[test]
pub fn test_content_disposition_as_field() {
    let src: Vec<u8> = vec![
        32, 102, 111, 114, 109, 45, 100, 97, 116, 97, 59, 32, 110, 97, 109, 101, 61, 34, 100, 116,
        70, 114, 111, 109, 34, 13, 10,
    ];

    let result = collect_attributes(&src);

    {
        let first_item = result.get(0).unwrap();
        assert_eq!(first_item.key, "form-data");
        assert_eq!(first_item.value, None);
    }

    {
        let first_item = result.get(1).unwrap();
        assert_eq!(first_item.key, "name");
        assert_eq!(first_item.value, Some("dtFrom"));
    }
}

#[test]
pub fn test_content_disposition_as_file() {
    let src: Vec<u8> = vec![
        32, 102, 111, 114, 109, 45, 100, 97, 116, 97, 59, 32, 110, 97, 109, 101, 61, 34, 102, 105,
        108, 101, 34, 59, 32, 102, 105, 108, 101, 110, 97, 109, 101, 61, 34, 116, 101, 115, 116,
        45, 112, 97, 121, 108, 111, 97, 100, 46, 116, 120, 116, 34, 13, 10, 67, 111, 110, 116,
        101, 110, 116, 45, 84, 121, 112, 101, 58, 32, 116, 101, 120, 116, 47, 112, 108, 97, 105,
        110, 13, 10, 13, 10, 49, 50, 51, 13, 10,
    ];

    let result = collect_attributes(&src);

    {
        let first_item = result.get(0).unwrap();
        assert_eq!(first_item.key, "form-data");
        assert_eq!(first_item.value, None);
    }

    {
        let first_item = result.get(1).unwrap();
        assert_eq!(first_item.key, "name");
        assert_eq!(first_item.value, Some("file"));
    }

    {
        let first_item = result.get(2).unwrap();
        assert_eq!(first_item.key, "filename");
        assert_eq!(first_item.value, Some("test-payload.txt"));
    }
}

#[test]
fn test_splitting() {
    let boundary = "----WebKitFormBoundaryu7oxE5T3UC2xY2Q9";

    let payload: Vec<u8> = vec![
        45, 45, 45, 45, 45, 45, 87, 101, 98, 75, 105, 116, 70, 111, 114, 109, 66, 111, 117, 110,
        100, 97, 114, 121, 117, 55, 111, 120, 69, 53, 84, 51, 85, 67, 50, 120, 89, 50, 81, 57, 13,
        10, 67, 111, 110, 116, 101, 110, 116, 45, 68, 105, 115, 112, 111, 115, 105, 116, 105, 111,
        110, 58, 32, 102, 111, 114, 109, 45, 100, 97, 116, 97, 59, 32, 110, 97, 109, 101, 61, 34,
        100, 116, 70, 114, 111, 109, 34, 13, 10, 13, 10, 50, 13, 10, 45, 45, 45, 45, 45, 45, 87,
        101, 98, 75, 105, 116, 70, 111, 114, 109, 66, 111, 117, 110, 100, 97, 114, 121, 117, 55,
        111, 120, 69, 53, 84, 51, 85, 67, 50, 120, 89, 50, 81, 57, 13, 10, 67, 111, 110, 116, 101,
        110, 116, 45, 68, 105, 115, 112, 111, 115, 105, 116, 105, 111, 110, 58, 32, 102, 111, 114,
        109, 45, 100, 97, 116, 97, 59, 32, 110, 97, 109, 101, 61, 34, 100, 116, 70, 114, 111, 109,
        79, 112, 116, 34, 13, 10, 13, 10, 51, 13, 10, 45, 45, 45, 45, 45, 45, 87, 101, 98, 75,
        105, 116, 70, 111, 114, 109, 66, 111, 117, 110, 100, 97, 114, 121, 117, 55, 111, 120, 69,
        53, 84, 51, 85, 67, 50, 120, 89, 50, 81, 57, 13, 10, 67, 111, 110, 116, 101, 110, 116, 45,
        68, 105, 115, 112, 111, 115, 105, 116, 105, 111, 110, 58, 32, 102, 111, 114, 109, 45, 100,
        97, 116, 97, 59, 32, 110, 97, 109, 101, 61, 34, 102, 105, 108, 101, 34, 59, 32, 102, 105,
        108, 101, 110, 97, 109, 101, 61, 34, 116, 101, 115, 116, 45, 112, 97, 121, 108, 111, 97,
        100, 46, 116, 120, 116, 34, 13, 10, 67, 111, 110, 116, 101, 110, 116, 45, 84, 121, 112,
        101, 58, 32, 116, 101, 120, 116, 47, 112, 108, 97, 105, 110, 13, 10, 13, 10, 49, 50, 51,
        13, 10, 45, 45, 45, 45, 45, 45, 87, 101, 98, 75, 105, 116, 70, 111, 114, 109, 66, 111,
        117, 110, 100, 97, 114, 121, 117, 55, 111, 120, 69, 53, 84, 51, 85, 67, 50, 120, 89, 50,
        81, 57, 45, 45, 13, 10,
    ];

    let mut iterator = ContentIterator::new(payload.as_slice(), boundary);
    let mut result: Vec<&[u8]> = Vec::new();
    while let Some(chunk) = iterator.next() {
        result.push(chunk);
    }

    let expected_payload_0: Vec<u8> = vec![
        67, 111, 110, 116, 101, 110, 116, 45, 68, 105, 115, 112, 111, 115, 105, 116, 105, 111,
        110, 58, 32, 102, 111, 114, 109, 45, 100, 97, 116, 97, 59, 32, 110, 97, 109, 101, 61, 34,
        100, 116, 70, 114, 111, 109, 34, 13, 10, 13, 10, 50, 13, 10,
    ];

    let expected_payload_1: Vec<u8> = vec![
        67, 111, 110, 116, 101, 110, 116, 45, 68, 105, 115, 112, 111, 115, 105, 116, 105, 111,
        110, 58, 32, 102, 111, 114, 109, 45, 100, 97, 116, 97, 59, 32, 110, 97, 109, 101, 61, 34,
        100, 116, 70, 114, 111, 109, 79, 112, 116, 34, 13, 10, 13, 10, 51, 13, 10,
    ];

    let expected_payload_2: Vec<u8> = vec![
        67, 111, 110, 116, 101, 110, 116, 45, 68, 105, 115, 112, 111, 115, 105, 116, 105, 111,
        110, 58, 32, 102, 111, 114, 109, 45, 100, 97, 116, 97, 59, 32, 110, 97, 109, 101, 61, 34,
        102, 105, 108, 101, 34, 59, 32, 102, 105, 108, 101, 110, 97, 109, 101, 61, 34, 116, 101,
        115, 116, 45, 112, 97, 121, 108, 111, 97, 100, 46, 116, 120, 116, 34, 13, 10, 67, 111,
        110, 116, 101, 110, 116, 45, 84, 121, 112, 101, 58, 32, 116, 101, 120, 116, 47, 112, 108,
        97, 105, 110, 13, 10, 13, 10, 49, 50, 51, 13, 10,
    ];

    assert_eq!(result.get(0).unwrap(), &expected_payload_0);
    assert_eq!(result.get(1).unwrap(), &expected_payload_1);
    assert_eq!(result.get(2).unwrap(), &expected_payload_2);
}

#[test]
fn test_from_real_example() {
    let src = "----dio-boundary-0620928629content-disposition: form-data; name=\"IsLocked\"\r\n\r\ntrue\r\n----dio-boundary-0620928629\r\ncontent-disposition: form-data; name=\"BalanceId\"\r\n\r\nSP-0256e9b5829a4a60b6626d527ef3d795ETH\r\n----dio-boundary-0620928629--\r\n";

    let boundary = "--dio-boundary-0620928629";

    let mut iterator = ContentIterator::new(src.as_bytes(), boundary);
    let mut result: Vec<&[u8]> = Vec::new();
    while let Some(chunk) = iterator.next() {
        result.push(chunk);
    }

    assert_eq!(result.len(), 2);

    let item: FormDataItem<'_> = FormDataItem::parse(result.get(0).unwrap()).unwrap();

    assert_eq!(item.get_name(), "IsLocked");
    assert_eq!(item.unwrap_as_string().unwrap(), "true");

    let item: FormDataItem<'_> = FormDataItem::parse(result.get(1).unwrap()).unwrap();
    assert_eq!(item.get_name(), "BalanceId");
    assert_eq!(
        item.unwrap_as_string().unwrap(),
        "SP-0256e9b5829a4a60b6626d527ef3d795ETH"
    );
}

#[test]
fn test_value_as_string_parser() {
    let msg = vec![
        67, 111, 110, 116, 101, 110, 116, 45, 68, 105, 115, 112, 111, 115, 105, 116, 105, 111,
        110, 58, 32, 102, 111, 114, 109, 45, 100, 97, 116, 97, 59, 32, 110, 97, 109, 101, 61, 34,
        100, 116, 70, 114, 111, 109, 34, 13, 10, 13, 10, 50, 13, 10,
    ];

    let item = FormDataItem::parse(&msg).unwrap();

    match item {
        FormDataItem::ValueAsString { value, name } => {
            assert_eq!(name, "dtFrom");
            assert_eq!(value, "2");
        }
        FormDataItem::File { .. } => {
            panic!("Should be value as string");
        }
    }
}

#[test]
fn test_value_file_parser() {
    let msg = vec![
        67, 111, 110, 116, 101, 110, 116, 45, 68, 105, 115, 112, 111, 115, 105, 116, 105, 111,
        110, 58, 32, 102, 111, 114, 109, 45, 100, 97, 116, 97, 59, 32, 110, 97, 109, 101, 61, 34,
        102, 105, 108, 101, 34, 59, 32, 102, 105, 108, 101, 110, 97, 109, 101, 61, 34, 116, 101,
        115, 116, 45, 112, 97, 121, 108, 111, 97, 100, 46, 116, 120, 116, 34, 13, 10, 67, 111,
        110, 116, 101, 110, 116, 45, 84, 121, 112, 101, 58, 32, 116, 101, 120, 116, 47, 112, 108,
        97, 105, 110, 13, 10, 13, 10, 49, 50, 51, 13, 10,
    ];

    println!("{:?}", std::str::from_utf8(msg.as_slice()));

    let item = FormDataItem::parse(&msg).unwrap();

    match item {
        FormDataItem::ValueAsString { value: _, name: _ } => {
            panic!("Should be value as string");
        }
        FormDataItem::File {
            name,
            file_name,
            content_type,
            content,
        } => {
            assert_eq!(name, "file");
            assert_eq!(file_name, "test-payload.txt");
            assert_eq!(content_type, "text/plain");
            assert_eq!(std::str::from_utf8(content).unwrap(), "123");
        }
    }
}

#[test]
pub fn test_content_disposition_test_real_data() {
    let src: Vec<u8> = vec![
        67, 111, 110, 116, 101, 110, 116, 45, 68, 105, 115, 112, 111, 115, 105, 116, 105, 111,
        110, 58, 32, 102, 111, 114, 109, 45, 100, 97, 116, 97, 59, 32, 110, 97, 109, 101, 61, 34,
        100, 111, 99, 73, 100, 34, 13, 10, 13, 10, 48, 13, 10,
    ];

    println!("src: {:?}", std::str::from_utf8(src.as_slice()).unwrap());

    let result = FormDataItem::parse(&src).unwrap();

    assert_eq!(result.get_name(), "docId");
    assert_eq!(result.unwrap_as_string().unwrap(), "0");
}

#[test]
pub fn test_content() {
    let src = "Content-Disposition: form-data; name=\"file_title\"\n\ntest\n";

    let src = format_text_with_cl_cr(src.as_bytes());
    let result = FormDataItem::parse(src.as_slice()).unwrap();

    assert_eq!(result.get_name(), "file_title");
    assert_eq!(result.unwrap_as_string().unwrap(), "test");
}

#[test]
pub fn test_content_with_empty_value() {
    let src = "Content-Disposition: form-data; name=\"file_title\"\n\n\n";

    let src = format_text_with_cl_cr(src.as_bytes());
    let result = FormDataItem::parse(src.as_slice()).unwrap();

    assert_eq!(result.get_name(), "file_title");
    assert_eq!(result.unwrap_as_string().unwrap(), "");
}

#[test]
fn form_data_reader_test() {
    let boundary = "------DataFormBoundary15c4050a1c8749f2a53abd41b27c9d0f";

    let mut payload = String::new();
    payload.push_str("--");
    payload.push_str(boundary);
    payload.push_str("\r\nContent-Disposition: form-data; name=\"docId\"\r\n\r\n42\r\n");
    payload.push_str("--");
    payload.push_str(boundary);
    payload.push_str(
        "\r\nContent-Disposition: form-data; name=\"file\"; filename=\"notes.txt\"\r\nContent-Type: text/plain\r\n\r\nhello\r\n",
    );
    payload.push_str("--");
    payload.push_str(boundary);
    payload.push_str("--\r\n");

    let form_data_reader = FormDataReader::new(payload.as_bytes(), boundary).unwrap();

    for itm in form_data_reader.items().iter() {
        println!("{:?}", itm);
    }
}

fn format_text_with_cl_cr(src: &[u8]) -> Vec<u8> {
    let mut result = Vec::new();

    for c in src {
        let c = *c;
        if c == b'\n' {
            result.push(13);
            result.push(10);
        } else {
            result.push(c);
        }
    }

    result
}

#[test]
fn two_text_fields_decode_in_payload_order() {
    let payload = b"----B\r\nContent-Disposition: form-data; name=\"IsLocked\"\r\n\r\ntrue\r\n----B\r\nContent-Disposition: form-data; name=\"BalanceId\"\r\n\r\nSP-0256e9b5829a4a60b6626d527ef3d795ETH\r\n----B--\r\n";

    let reader = FormDataReader::new(payload, "--B").unwrap();
    let items = reader.items();
    assert_eq!(items.len(), 2);
    assert_eq!(items[0].get_name(), "IsLocked");
    assert_eq!(items[0].unwrap_as_string().unwrap(), "true");
    assert_eq!(items[1].get_name(), "BalanceId");
    assert_eq!(
        items[1].unwrap_as_string().unwrap(),
        "SP-0256e9b5829a4a60b6626d527ef3d795ETH"
    );
}

#[test]
fn file_field_content_is_byte_exact() {
    let payload = b"----B\r\nContent-Disposition: form-data; name=\"file\"; filename=\"test-payload.txt\"\r\nContent-Type: text/plain\r\n\r\n123\r\n----B--\r\n";

    let reader = FormDataReader::new(payload, "--B").unwrap();
    let item = reader.get_required("file").unwrap();
    match item {
        FormDataItem::File {
            name,
            file_name,
            content_type,
            content,
        } => {
            assert_eq!(*name, "file");
            assert_eq!(*file_name, "test-payload.txt");
            assert_eq!(*content_type, "text/plain");
            assert_eq!(*content, b"123");
        }
        _ => panic!("expected a file field"),
    }
    assert_eq!(item.unwrap_as_file_name(), "test-payload.txt");
}

#[test]
fn empty_text_field_decodes_to_empty_string() {
    let payload = b"----B\r\nContent-Disposition: form-data; name=\"dtFrom\"\r\n\r\n\r\n----B--\r\n";

    let reader = FormDataReader::new(payload, "--B").unwrap();
    let item = reader.get_required("dtFrom").unwrap();
    assert_eq!(item.unwrap_as_string().unwrap(), "");
}

#[test]
fn missing_closing_marker_is_unterminated() {
    let payload = b"----B\r\nContent-Disposition: form-data; name=\"IsLocked\"\r\n\r\ntrue\r\n";

    let result = FormDataReader::new(payload, "--B");
    assert!(matches!(result, Err(ReadingFromDataError::UnterminatedPart)));
}

#[test]
fn boundary_lookalike_does_not_truncate_content() {
    let payload = b"----B\r\nContent-Disposition: form-data; name=\"file\"; filename=\"a.bin\"\r\nContent-Type: application/octet-stream\r\n\r\nAA----Xs--BB\r\n----B--\r\n";

    let reader = FormDataReader::new(payload, "--B").unwrap();
    let item = reader.get_required("file").unwrap();
    match item {
        FormDataItem::File { content, .. } => {
            // "----Xs" resembles but does not equal the delimiter, so the
            // content reaches the real boundary untruncated
            assert_eq!(*content, b"AA----Xs--BB" as &[u8]);
        }
        _ => panic!("expected a file field"),
    }
}

#[test]
fn first_match_wins_for_duplicate_names() {
    let payload = b"----B\r\nContent-Disposition: form-data; name=\"x\"\r\n\r\nfirst\r\n----B\r\nContent-Disposition: form-data; name=\"x\"\r\n\r\nsecond\r\n----B--\r\n";

    let reader = FormDataReader::new(payload, "--B").unwrap();
    let item = reader.get_optional("x").unwrap();
    assert_eq!(item.unwrap_as_string().unwrap(), "first");
    let item = reader.get_required("x").unwrap();
    assert_eq!(item.unwrap_as_string().unwrap(), "first");
}

#[test]
fn get_required_names_the_missing_parameter() {
    let payload = b"----B\r\nContent-Disposition: form-data; name=\"x\"\r\n\r\n1\r\n----B--\r\n";

    let reader = FormDataReader::new(payload, "--B").unwrap();
    assert!(reader.get_optional("missing").is_none());
    match reader.get_required("missing") {
        Err(ReadingFromDataError::ParameterMissing(name)) => assert_eq!(name, "missing"),
        other => panic!("expected ParameterMissing, got {:?}", other.is_ok()),
    }
}

#[test]
fn coercing_a_file_field_to_string_is_a_validation_error() {
    let payload = b"----B\r\nContent-Disposition: form-data; name=\"file\"; filename=\"f.txt\"\r\nContent-Type: text/plain\r\n\r\nbody\r\n----B--\r\n";

    let reader = FormDataReader::new(payload, "--B").unwrap();
    let item = reader.get_required("file").unwrap();
    match item.unwrap_as_string() {
        Err(ReadingFromDataError::ValidationError { field, .. }) => assert_eq!(field, "file"),
        _ => panic!("expected a validation error"),
    }
}

#[test]
fn structural_errors_are_typed() {
    // a header line without a colon anywhere after it
    let no_colon = b"----B\r\ngarbage without separator\r\n\r\nx\r\n----B--\r\n";
    let result = FormDataReader::new(no_colon, "--B");
    assert!(matches!(result, Err(ReadingFromDataError::MalformedHeader)));

    // a part that ends before its blank line
    let no_blank = b"----B\r\nContent-Disposition: form-data; name=\"x\"\r\nContent-Type: a\r\n----B--\r\n";
    let result = FormDataReader::new(no_blank, "--B");
    assert!(matches!(result, Err(ReadingFromDataError::UnterminatedPart)));

    // a file part without its mandatory filename attribute
    let no_filename = b"----B\r\nContent-Disposition: form-data; name=\"x\"\r\nContent-Type: text/plain\r\n\r\nbody\r\n----B--\r\n";
    let result = FormDataReader::new(no_filename, "--B");
    assert!(matches!(
        result,
        Err(ReadingFromDataError::MissingMandatoryAttribute)
    ));

    // a text body that is not valid UTF-8
    let bad_utf8 = b"----B\r\nContent-Disposition: form-data; name=\"x\"\r\n\r\n\xff\xfe\r\n----B--\r\n";
    let result = FormDataReader::new(bad_utf8, "--B");
    assert!(matches!(result, Err(ReadingFromDataError::InvalidUtf8)));
}

#[test]
fn find_pos_scans_from_the_cursor() {
    let src = b" a=b";
    let parser = ContentDispositionParser::new(src);
    assert_eq!(parser.find_pos(|b| b == b'='), Some(2));
    assert_eq!(parser.find_pos(|b| b == b'!'), None);
}

#[test]
fn header_names_match_case_insensitively() {
    let payload = b"----B\r\ncOnTeNt-DiSpOsItIoN: form-data; name=\"file\"; filename=\"f.txt\"\r\nCONTENT-TYPE: text/plain\r\n\r\nbody\r\n----B--\r\n";

    let reader = FormDataReader::new(payload, "--B").unwrap();
    let item = reader.get_required("file").unwrap();
    match item {
        FormDataItem::File { file_name, content_type, content, .. } => {
            assert_eq!(*file_name, "f.txt");
            assert_eq!(*content_type, "text/plain");
            assert_eq!(*content, b"body");
        }
        _ => panic!("expected a file field"),
    }
}

#[test]
fn invalid_utf8_attribute_value_is_typed() {
    let mut payload: Vec<u8> = Vec::new();
    payload.extend_from_slice(b"----B\r\nContent-Disposition: form-data; name=\"");
    payload.extend_from_slice(&[0xff, 0xfe]);
    payload.extend_from_slice(b"\"\r\n\r\nx\r\n----B--\r\n");

    let result = FormDataReader::new(payload.as_slice(), "--B");
    assert!(matches!(result, Err(ReadingFromDataError::InvalidUtf8)));
}

#[test]
fn to_bool_reads_boolean_tokens() {
    assert_eq!(to_bool("f", "1").unwrap(), true);
    assert_eq!(to_bool("f", "TRUE").unwrap(), true);
    assert_eq!(to_bool("f", "0").unwrap(), false);
    assert_eq!(to_bool("f", "False").unwrap(), false);
    match to_bool("flag", "maybe") {
        Err(ReadingFromDataError::ValidationError { field, .. }) => assert_eq!(field, "flag"),
        _ => panic!("expected a validation error"),
    }
}

#[test]
fn to_simple_value_parses_numbers() {
    let v: u32 = to_simple_value("n", "17").unwrap();
    assert_eq!(v, 17);
    let r: Result<u32, _> = to_simple_value("n", "seventeen");
    assert!(r.is_err());
}
