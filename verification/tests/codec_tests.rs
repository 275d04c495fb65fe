use image_hosting_worker::messages::SearchResponse;
use image_hosting_worker::numeric::{i64_to_string, parse_i64};
use image_hosting_worker::search::encode_search_response;

#[test]
fn decimal_rendering() {
    assert_eq!(i64_to_string(0), "0");
    assert_eq!(i64_to_string(7), "7");
    assert_eq!(i64_to_string(42), "42");
    assert_eq!(i64_to_string(-1), "-1");
    assert_eq!(i64_to_string(1234567890), "1234567890");
    assert_eq!(i64_to_string(i64::MAX), "9223372036854775807");
    assert_eq!(i64_to_string(i64::MIN), "-9223372036854775808");
}

#[test]
fn decimal_parsing() {
    assert_eq!(parse_i64("0"), Some(0));
    assert_eq!(parse_i64("42"), Some(42));
    assert_eq!(parse_i64("-42"), Some(-42));
    assert_eq!(parse_i64("007"), Some(7));
    assert_eq!(parse_i64("9223372036854775807"), Some(i64::MAX));
    assert_eq!(parse_i64("-9223372036854775808"), Some(i64::MIN));
    assert_eq!(parse_i64(""), None);
    assert_eq!(parse_i64("-"), None);
    assert_eq!(parse_i64("abc"), None);
    assert_eq!(parse_i64("12x"), None);
    assert_eq!(parse_i64(" 12"), None);
    assert_eq!(parse_i64("9223372036854775808"), None);
    assert_eq!(parse_i64("-9223372036854775809"), None);
}

#[test]
fn parsing_inverts_rendering() {
    for id in [0i64, 1, -1, 42, 4096, -77, i64::MAX, i64::MIN] {
        assert_eq!(parse_i64(&i64_to_string(id)), Some(id));
    }
}

#[test]
fn response_wire_json() {
    let two = SearchResponse { ids: vec![42, 7], last_page: true };
    assert_eq!(encode_search_response(&two), "{\"ids\":[42,7],\"last_page\":true}");
    let none = SearchResponse { ids: vec![], last_page: true };
    assert_eq!(encode_search_response(&none), "{\"ids\":[],\"last_page\":true}");
    let more = SearchResponse { ids: vec![-3, 0, 5], last_page: false };
    assert_eq!(encode_search_response(&more), "{\"ids\":[-3,0,5],\"last_page\":false}");
}

#[test]
fn response_json_is_valid_json() {
    let resp = SearchResponse { ids: vec![1, 2, 3], last_page: false };
    let text = encode_search_response(&resp);
    let value: serde_json::Value = serde_json::from_str(&text).expect("well-formed JSON");
    let ids: Vec<i64> = value
        .get("ids")
        .and_then(|v| v.as_array())
        .expect("ids array")
        .iter()
        .map(|v| v.as_i64().expect("integer id"))
        .collect();
    assert_eq!(ids, vec![1, 2, 3]);
    assert_eq!(value.get("last_page").and_then(|v| v.as_bool()), Some(false));
}
