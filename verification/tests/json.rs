use orbflow::crypto::{constant_time_eq, same_secret};
use orbflow::json::{member_of, parse_json, write_json, JsonValue};

#[test]
fn documents_are_parsed() {
    let v = parse_json(br#"{"a":[1,-2,1.5,true,null,"x"]}"#).unwrap();
    match v.get("a") {
        Some(JsonValue::Array(items)) => {
            assert!(matches!(items[0], JsonValue::Unsigned(1)));
            assert!(matches!(items[1], JsonValue::Negative(-2)));
            assert!(matches!(&items[2], JsonValue::Float(s) if s == "1.5"));
            assert!(matches!(items[3], JsonValue::Bool(true)));
            assert!(matches!(items[4], JsonValue::Null));
            assert_eq!(items[5].as_str(), Some("x"));
        }
        other => panic!("expected an array, got {other:?}"),
    }
    assert!(parse_json(b"{").unwrap_err().starts_with("EOF while parsing"));
    assert_eq!(parse_json(b"18446744073709551615").unwrap().as_i64(), None);
}

#[test]
fn documents_are_written() {
    let written = |v: &JsonValue| String::from_utf8(write_json(v).unwrap()).unwrap();
    let text = r#"{"a":[1,-2,0.1,true,null,"x\ny"],"b":{}}"#;
    assert_eq!(written(&parse_json(text.as_bytes()).unwrap()), text);
    let twice = JsonValue::Object(vec![
        member_of("k", JsonValue::Unsigned(1)),
        member_of("k", JsonValue::Unsigned(2)),
    ]);
    assert_eq!(written(&twice), r#"{"k":2}"#);
    assert_eq!(written(&JsonValue::Float("none".into())), "null");
    let numbers = vec![JsonValue::Unsigned(u64::MAX), JsonValue::Negative(i64::MIN)];
    let bytes = write_json(&JsonValue::Array(numbers)).unwrap();
    assert!(matches!(
        parse_json(&bytes).unwrap(),
        JsonValue::Array(items)
            if matches!(items[..], [JsonValue::Unsigned(u64::MAX), JsonValue::Negative(i64::MIN)])
    ));
    // A number that is not below zero is unsigned once it is held.
    let bytes = write_json(&JsonValue::Negative(7)).unwrap();
    assert!(matches!(parse_json(&bytes).unwrap(), JsonValue::Unsigned(7)));
}

#[test]
fn secrets_are_compared() {
    assert!(constant_time_eq(b"abc", b"abc"));
    assert!(!constant_time_eq(b"abc", b"abd"));
    assert!(!constant_time_eq(b"abc", b"ab"));
    assert!(same_secret("é", "é") && !same_secret("é", "e"));
}
