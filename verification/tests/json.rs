use tieba_image_downloader::json::{to_json_text, JsonNumber, JsonValue};

fn number(n: u64) -> JsonValue {
    JsonValue::Number(JsonNumber { as_u64: Some(n), as_i64: Some(n as i64), text: n.to_string() })
}

#[test]
fn writes_compact_json() {
    let value = JsonValue::Object(vec![
        ("a".to_owned(), number(1)),
        (
            "b".to_owned(),
            JsonValue::Array(vec![JsonValue::Null, JsonValue::Bool(true), JsonValue::String("x\"y\n".into())]),
        ),
    ]);
    assert_eq!(to_json_text(&value), r#"{"a":1,"b":[null,true,"x\"y\n"]}"#);
}

#[test]
fn escapes_control_characters_like_serde_json() {
    let value = JsonValue::String("\u{1}\t中".into());
    assert_eq!(to_json_text(&value), r#""\u0001\t中""#);
}

#[test]
fn reads_members_and_scalars() {
    let value = JsonValue::Object(vec![
        ("n".to_owned(), number(7)),
        ("s".to_owned(), JsonValue::String("t".into())),
    ]);
    assert_eq!(value.get("n").and_then(|v| v.as_u64()), Some(7));
    assert_eq!(value.get("s").and_then(|v| v.as_str()), Some("t"));
    assert!(value.get("missing").is_none());
    assert!(number(3).get("n").is_none());
}
