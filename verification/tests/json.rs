use bt::json::{decimal_text, find, keys_of, JsonNumber, JsonValue};

fn from_serde(value: &serde_json::Value) -> JsonValue {
    match value {
        serde_json::Value::Null => JsonValue::Null,
        serde_json::Value::Bool(b) => JsonValue::Bool(*b),
        serde_json::Value::Number(n) => JsonValue::Number(if let Some(u) = n.as_u64() {
            JsonNumber::PosInt(u)
        } else if let Some(i) = n.as_i64() {
            JsonNumber::NegInt(i)
        } else {
            JsonNumber::Float(n.to_string())
        }),
        serde_json::Value::String(s) => JsonValue::String(s.clone()),
        serde_json::Value::Array(items) => JsonValue::Array(items.iter().map(from_serde).collect()),
        serde_json::Value::Object(map) => JsonValue::Object(
            map.iter()
                .map(|(k, v)| (k.clone(), from_serde(v)))
                .collect(),
        ),
    }
}

fn parse(text: &str) -> (serde_json::Value, JsonValue) {
    let value: serde_json::Value = serde_json::from_str(text).unwrap();
    let ours = from_serde(&value);
    (value, ours)
}

fn text(s: &str) -> JsonValue {
    JsonValue::String(s.to_string())
}

#[test]
fn compact_text_of_scalars() {
    assert_eq!(JsonValue::Null.to_compact(), "null");
    assert_eq!(JsonValue::Bool(true).to_compact(), "true");
    assert_eq!(JsonValue::Bool(false).to_compact(), "false");
    assert_eq!(JsonValue::Number(JsonNumber::PosInt(0)).to_compact(), "0");
    assert_eq!(JsonValue::Number(JsonNumber::PosInt(7)).to_compact(), "7");
    assert_eq!(JsonValue::Number(JsonNumber::PosInt(10)).to_compact(), "10");
    assert_eq!(JsonValue::Number(JsonNumber::PosInt(1234567890)).to_compact(), "1234567890");
    assert_eq!(
        JsonValue::Number(JsonNumber::PosInt(u64::MAX)).to_compact(),
        "18446744073709551615"
    );
    assert_eq!(JsonValue::Number(JsonNumber::NegInt(-1)).to_compact(), "-1");
    assert_eq!(JsonValue::Number(JsonNumber::NegInt(-120)).to_compact(), "-120");
    assert_eq!(
        JsonValue::Number(JsonNumber::NegInt(i64::MIN)).to_compact(),
        "-9223372036854775808"
    );
    assert_eq!(JsonValue::Number(JsonNumber::NegInt(5)).to_compact(), "5");
    assert_eq!(
        JsonValue::Number(JsonNumber::Float("1.5".to_string())).to_compact(),
        "1.5"
    );
}

#[test]
fn compact_text_quotes_strings() {
    assert_eq!(text("x").to_compact(), "\"x\"");
    assert_eq!(text("").to_compact(), "\"\"");
    assert_eq!(text("a\"b").to_compact(), "\"a\\\"b\"");
    assert_eq!(text("a\\b").to_compact(), "\"a\\\\b\"");
    assert_eq!(text("line\nbreak\ttab").to_compact(), "\"line\\nbreak\\ttab\"");
    assert_eq!(text("\u{1}").to_compact(), "\"\\u0001\"");
    assert_eq!(text("é日😀").to_compact(), "\"é日😀\"");
}

#[test]
fn compact_text_of_arrays_and_objects() {
    assert_eq!(JsonValue::Array(vec![]).to_compact(), "[]");
    assert_eq!(JsonValue::Object(vec![]).to_compact(), "{}");
    let array = JsonValue::Array(vec![
        JsonValue::Number(JsonNumber::PosInt(1)),
        text("a"),
        JsonValue::Null,
    ]);
    assert_eq!(array.to_compact(), "[1,\"a\",null]");
    let object = JsonValue::Object(vec![
        ("k".to_string(), array),
        ("a\"b".to_string(), JsonValue::Object(vec![])),
    ]);
    assert_eq!(object.to_compact(), "{\"k\":[1,\"a\",null],\"a\\\"b\":{}}");
}

#[test]
fn compact_text_agrees_with_serde_json() {
    let documents = [
        "null",
        "[]",
        "{}",
        "[[],{},[[]]]",
        "{\"a\":1,\"b\":[true,false,null],\"c\":{\"d\":\"e\\n\\\"f\\\"\",\"g\":-12}}",
        "[0,1,-1,18446744073709551615,-9223372036854775808,1.5,-0.25,1e100]",
        "{\"items\":{\"properties\":{\"id\":{},\"name\":{}}}}",
        "\"\\u0000\\u001f\\u007f é 日 😀 / \\\\\"",
    ];
    for document in documents {
        let (theirs, ours) = parse(document);
        assert_eq!(ours.to_compact(), serde_json::to_string(&theirs).unwrap());
    }
}

#[test]
fn pretty_text_of_nested_values() {
    assert_eq!(JsonValue::Array(vec![]).to_pretty(), "[]");
    assert_eq!(JsonValue::Object(vec![]).to_pretty(), "{}");
    assert_eq!(text("x").to_pretty(), "\"x\"");
    let value = JsonValue::Object(vec![
        (
            "a".to_string(),
            JsonValue::Array(vec![
                JsonValue::Number(JsonNumber::PosInt(1)),
                JsonValue::Object(vec![("b".to_string(), JsonValue::Null)]),
            ]),
        ),
        ("c".to_string(), JsonValue::Array(vec![])),
    ]);
    let expected = "\
{
  \"a\": [
    1,
    {
      \"b\": null
    }
  ],
  \"c\": []
}";
    assert_eq!(value.to_pretty(), expected);
}

#[test]
fn pretty_text_agrees_with_serde_json() {
    let documents = [
        "null",
        "[]",
        "{}",
        "[[],{},[[]]]",
        "{\"a\":1,\"b\":[true,false,null],\"c\":{\"d\":\"e\\n\\\"f\\\"\",\"g\":-12}}",
        "[0,1,-1,1.5,[1,[2,[3,{\"k\":[]}]]]]",
        "{\"items\":{\"properties\":{\"id\":{},\"name\":{}}}}",
    ];
    for document in documents {
        let (theirs, ours) = parse(document);
        assert_eq!(ours.to_pretty(), serde_json::to_string_pretty(&theirs).unwrap());
    }
}

#[test]
fn decimal_text_of_numbers() {
    assert_eq!(decimal_text(0), "0");
    assert_eq!(decimal_text(9), "9");
    assert_eq!(decimal_text(10), "10");
    assert_eq!(decimal_text(505), "505");
    assert_eq!(decimal_text(u64::MAX), u64::MAX.to_string());
}

#[test]
fn get_finds_the_first_member() {
    let object = JsonValue::Object(vec![
        ("a".to_string(), JsonValue::Bool(true)),
        ("b".to_string(), JsonValue::Null),
        ("a".to_string(), JsonValue::Bool(false)),
    ]);
    assert_eq!(object.get("a"), Some(&JsonValue::Bool(true)));
    assert_eq!(object.get("b"), Some(&JsonValue::Null));
    assert_eq!(object.get("c"), None);
    assert_eq!(object.get(""), None);
    assert_eq!(JsonValue::Array(vec![]).get("a"), None);
    assert_eq!(text("a").get("a"), None);
}

#[test]
fn keys_come_in_order() {
    let object = JsonValue::Object(vec![
        ("b".to_string(), JsonValue::Null),
        ("a".to_string(), JsonValue::Null),
    ]);
    assert_eq!(object.keys(), vec!["b".to_string(), "a".to_string()]);
    assert!(JsonValue::Null.keys().is_empty());
    assert!(JsonValue::Object(vec![]).keys().is_empty());
}

#[test]
fn members_are_found_by_key() {
    let members = vec![
        ("x".to_string(), JsonValue::Number(JsonNumber::PosInt(1))),
        ("y".to_string(), JsonValue::Number(JsonNumber::PosInt(2))),
    ];
    assert_eq!(find(&members, "y"), Some(&JsonValue::Number(JsonNumber::PosInt(2))));
    assert_eq!(find(&members, "z"), None);
    assert_eq!(keys_of(&members), vec!["x".to_string(), "y".to_string()]);
}

#[test]
fn deep_clone_copies_the_value() {
    let (_, value) = parse("{\"a\":[1,{\"b\":\"c\"},null,-2,1.5],\"d\":{}}");
    assert_eq!(value.deep_clone(), value);
}
