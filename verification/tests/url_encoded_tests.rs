use http_utils::url_encoded_data_reader::ReadingEncodedDataError;
use http_utils::url_encoded_data_reader::UrlEncodedDataReader;
use http_utils::url_encoded_data_reader::UrlEncodedValueAsString;

#[test]
pub fn test_basic() {
    let query_string = "tableName=deposit-restrictions&partitionKey=%2A&rowKey=1abfc&field=1a+bfc";

    let query_string = UrlEncodedDataReader::new(query_string).unwrap();

    let result = query_string
        .get_optional("partitionKey")
        .unwrap()
        .as_string()
        .unwrap();

    assert_eq!("*", result);

    let result = query_string
        .get_optional("rowKey")
        .unwrap()
        .as_string()
        .unwrap();

    assert_eq!("1abfc", result);

    let result = query_string
        .get_optional("field")
        .unwrap()
        .as_string()
        .unwrap();

    assert_eq!("1a bfc", result);
}

#[test]
pub fn test_vec() {
    let query_string = "tableName=deposit-restrictions&param[]=1&param[]=2&param[]=3&param[]=4&param[]=5";

    let query_string = UrlEncodedDataReader::new(query_string).unwrap();

    let mut result = Vec::new();

    for itm in query_string.get_vec("param") {
        result.push(itm.as_string().unwrap());
    }

    assert_eq!(vec!["1", "2", "3", "4", "5"], result);
}

#[test]
pub fn test_vec_of_usize() {
    let query_string = "tableName=deposit-restrictions&param[]=1&param[]=2&param[]=3&param[]=4&param[]=5&prm[]=1&prm[]=2&prm[]=3&prm[]=4";

    let query_string = UrlEncodedDataReader::new(query_string).unwrap();

    let mut result: Vec<usize> = Vec::new();

    for itm in query_string.get_vec("param") {
        result.push(itm.parse().unwrap());
    }

    assert_eq!(vec![1, 2, 3, 4, 5], result);

    let mut result: Vec<i32> = Vec::new();

    for itm in query_string.get_vec("prm") {
        result.push(itm.parse().unwrap());
    }

    assert_eq!(vec![1, 2, 3, 4], result);

    let mut result: Vec<i32> = Vec::new();

    for itm in query_string.get_vec("params") {
        result.push(itm.parse().unwrap());
    }

    assert_eq!(0, result.len());
}

#[test]
fn get_required_reports_the_missing_name() {
    let reader = UrlEncodedDataReader::new("a=1").unwrap();
    assert!(reader.get_required("a").is_ok());
    match reader.get_required("b") {
        Err(ReadingEncodedDataError::RequiredParameterIsMissing(name)) => assert_eq!(name, "b"),
        _ => panic!("expected the missing-parameter error"),
    }
}

#[test]
fn value_as_string_reads_bools_and_numbers() {
    let v = UrlEncodedValueAsString::new("TRUE");
    assert_eq!(v.as_bool().unwrap(), true);
    let v = UrlEncodedValueAsString::new("0");
    assert_eq!(v.as_bool().unwrap(), false);
    let v = UrlEncodedValueAsString::new("17");
    let n: i64 = v.parse().unwrap();
    assert_eq!(n, 17);
    let v = UrlEncodedValueAsString::new("nope");
    match v.as_bool() {
        Err(ReadingEncodedDataError::CanNotParseValue(_)) => {}
        _ => panic!("expected the unparsable-value error"),
    }
    let v = UrlEncodedValueAsString::new("a%20b");
    assert_eq!(v.as_string().unwrap(), "a b");
}

#[test]
fn query_string_parsers_share_the_split_rules() {
    let values = http_utils::parse_query_string::parse_query_string("a=1&b=2&plain").unwrap();
    assert_eq!(values.len(), 2);
    assert_eq!(values[0].value, "1");
    assert_eq!(values[1].value, "2");

    let values = http_utils::query_string::parse_query_string::parse("x=7&y=8").unwrap();
    assert_eq!(values.len(), 2);
    assert_eq!(values[0].get_name(), "x");
    assert_eq!(values[0].value, "7");
    assert_eq!(values[1].get_name(), "y");

    let map = http_utils::url_encoded_data_reader::url_utils::parse_query_string("k=v&k2=w")
        .unwrap();
    assert_eq!(map.len(), 2);
    assert_eq!(map.get("k").unwrap().value, "v");
    assert_eq!(map.get("k2").unwrap().value, "w");
}
