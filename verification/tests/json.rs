use onec_buddy_mcp::json::{Json, JsonNumber, JsonObject};
use onec_buddy_mcp::json_text::{
    json_bytes, json_size, json_string, ordered_json_bytes, parse_json, parse_json_bytes,
};

#[test]
fn notation_is_compact_and_sorted() {
    let json = parse_json("{\"b\": 1, \"a\": [true, null, -2, 1.5]}").unwrap();
    assert_eq!(
        json_string(&json).unwrap(),
        "{\"a\":[true,null,-2,1.5],\"b\":1}"
    );
    assert_eq!(
        json_bytes(&json).unwrap(),
        b"{\"a\":[true,null,-2,1.5],\"b\":1}"
    );
    assert_eq!(json_size(&json), 30);
}

#[test]
fn numbers_keep_their_kind() {
    assert!(matches!(
        parse_json("18446744073709551615"),
        Some(Json::Number(JsonNumber::Unsigned(u64::MAX)))
    ));
    assert!(matches!(
        parse_json("-9223372036854775808"),
        Some(Json::Number(JsonNumber::Negative(i64::MIN)))
    ));
    let Some(Json::Number(JsonNumber::Float(bits))) = parse_json("0.5") else {
        panic!("a fraction is a float");
    };
    assert_eq!(f64::from_bits(bits), 0.5);
    assert_eq!(
        json_string(&Json::Number(JsonNumber::Negative(3))).unwrap(),
        "3"
    );
    assert_eq!(
        json_string(&Json::Number(JsonNumber::Float(f64::NAN.to_bits()))).unwrap(),
        "null"
    );
}

#[test]
fn malformed_text_and_bytes_are_refused() {
    assert!(parse_json("{").is_none());
    assert!(parse_json_bytes(b"\xff").is_none());
    assert!(parse_json_bytes(b"[]").is_some());
}

#[test]
fn a_field_that_was_put_is_found() {
    let mut object = JsonObject::new();
    assert!(object.is_empty());
    object.insert("b".to_owned(), Json::Bool(true));
    object.insert("a".to_owned(), Json::Null);
    object.insert("b".to_owned(), Json::Bool(false));
    assert_eq!(object.len(), 2);
    assert!(matches!(object.get("b"), Some(Json::Bool(false))));
    assert!(object.contains_key("a"));
    assert!(object.get("c").is_none());
    assert_eq!(object.entries[0].0, "a");
}

#[test]
fn ordered_fields_keep_their_order() {
    let fields = vec![
        ("z".to_owned(), Json::Bool(true)),
        ("a".to_owned(), Json::Text("я\"".to_owned())),
    ];
    assert_eq!(
        String::from_utf8(ordered_json_bytes(&fields).unwrap()).unwrap(),
        "{\"z\":true,\"a\":\"я\\\"\"}"
    );
}

#[test]
fn copies_hold_the_same() {
    let json = parse_json(r#"{"a":[{"b":"c"},1,-1,0.25,null,true]}"#).unwrap();
    assert!(json.duplicate().equals(&json));
}
