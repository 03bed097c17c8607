use bt::json::{JsonNumber, JsonValue};
use bt::response::{
    extract_headers, format_cell, format_response, render_table, DecodeError, FreshnessState,
    RealtimeState, SqlResponse,
};

fn convert(value: &serde_json::Value) -> JsonValue {
    match value {
        serde_json::Value::Null => JsonValue::Null,
        serde_json::Value::Bool(b) => JsonValue::Bool(*b),
        serde_json::Value::Number(n) => JsonValue::Number(if let Some(u) = n.as_u64() {
            JsonNumber::PosInt(u)
        } else if let Some(i) = n.as_i64() {
            JsonNumber::NegInt(i)
        } else {
            JsonNumber::Float(n.to_string())
        }),
        serde_json::Value::String(s) => JsonValue::String(s.clone()),
        serde_json::Value::Array(items) => JsonValue::Array(items.iter().map(convert).collect()),
        serde_json::Value::Object(map) => {
            JsonValue::Object(map.iter().map(|(k, v)| (k.clone(), convert(v))).collect())
        }
    }
}

fn json(text: &str) -> JsonValue {
    convert(&serde_json::from_str::<serde_json::Value>(text).unwrap())
}

fn members(text: &str) -> Vec<(String, JsonValue)> {
    match json(text) {
        JsonValue::Object(members) => members,
        _ => panic!("not an object"),
    }
}

fn response(schema: &str, rows: &[&str]) -> SqlResponse {
    SqlResponse {
        data: rows.iter().map(|row| members(row)).collect(),
        schema: json(schema),
        cursor: None,
        freshness_state: None,
        realtime_state: None,
        extra: vec![],
    }
}

#[test]
fn headers_come_from_the_schema() {
    let headers = extract_headers(&json("{\"items\":{\"properties\":{\"id\":{},\"name\":{}}}}"));
    assert_eq!(headers, vec!["id".to_string(), "name".to_string()]);
}

#[test]
fn schemas_of_other_shapes_give_no_headers() {
    for schema in [
        "null",
        "{}",
        "[]",
        "\"items\"",
        "{\"items\":null}",
        "{\"items\":[1]}",
        "{\"items\":{}}",
        "{\"items\":{\"properties\":null}}",
        "{\"items\":{\"properties\":[\"id\"]}}",
        "{\"items\":{\"properties\":{}}}",
        "{\"properties\":{\"id\":{}}}",
    ] {
        assert!(extract_headers(&json(schema)).is_empty());
    }
}

#[test]
fn cells_show_strings_as_they_are() {
    assert_eq!(format_cell(None), "");
    assert_eq!(format_cell(Some(&json("\"a \\\"b\\\"\""))), "a \"b\"");
    assert_eq!(format_cell(Some(&json("null"))), "null");
    assert_eq!(format_cell(Some(&json("true"))), "true");
    assert_eq!(format_cell(Some(&json("12"))), "12");
    assert_eq!(format_cell(Some(&json("-3"))), "-3");
    assert_eq!(format_cell(Some(&json("2.5"))), "2.5");
    assert_eq!(format_cell(Some(&json("[1, \"a\"]"))), "[1,\"a\"]");
    assert_eq!(format_cell(Some(&json("{\"k\": [ ]}"))), "{\"k\":[]}");
}

#[test]
fn empty_response_renders_placeholder() {
    assert_eq!(render_table(&response("null", &[])), Some("(no rows)".to_string()));
    assert_eq!(render_table(&response("{\"items\":{}}", &[])), Some("(no rows)".to_string()));
}

#[test]
fn rows_without_headers_render_no_table() {
    assert_eq!(render_table(&response("null", &["{}", "{\"a\":1}"])), None);
    assert_eq!(render_table(&response("{\"items\":[]}", &["{}"])), None);
}

#[test]
fn headers_fall_back_to_the_first_row() {
    let table = render_table(&response("null", &["{\"a\":1,\"b\":\"x\"}", "{\"b\":\"yy\",\"c\":3}"]));
    let expected = "\
+---+----+
| a | b  |
+---+----+
| 1 | x  |
|   | yy |
+---+----+";
    assert_eq!(table, Some(expected.to_string()));
}

#[test]
fn schema_without_rows_renders_headers() {
    let table = render_table(&response("{\"items\":{\"properties\":{\"id\":{}}}}", &[]));
    assert_eq!(table, Some("+----+\n| id |\n+----+\n+----+".to_string()));
}

#[test]
fn width_follows_display_columns() {
    let table = render_table(&response(
        "{\"items\":{\"properties\":{\"name\":{}}}}",
        &["{\"name\":\"é\"}", "{\"name\":\"ab\"}"],
    ));
    let expected = "\
+------+
| name |
+------+
| é    |
| ab   |
+------+";
    assert_eq!(table, Some(expected.to_string()));
}

#[test]
fn end_to_end_table() {
    let response = response(
        "{\"items\":{\"properties\":{\"id\":{},\"name\":{}}}}",
        &["{\"id\":1,\"name\":\"x\"}"],
    );
    let expected = "\
+----+------+
| id | name |
+----+------+
| 1  | x    |
+----+------+";
    assert_eq!(render_table(&response), Some(expected.to_string()));
    assert_eq!(format_response(&response, false), expected);
}

#[test]
fn end_to_end_json() {
    let response = response(
        "{\"items\":{\"properties\":{\"id\":{},\"name\":{}}}}",
        &["{\"id\":1,\"name\":\"x\"}"],
    );
    assert_eq!(
        format_response(&response, true),
        "{\"data\":[{\"id\":1,\"name\":\"x\"}],\"schema\":{\"items\":{\"properties\":{\"id\":{},\"name\":{}}}},\"cursor\":null,\"freshness_state\":null,\"realtime_state\":null}"
    );
}

#[test]
fn response_without_table_is_shown_as_indented_json() {
    let response = response("null", &["{}"]);
    let expected = "\
{
  \"data\": [
    {}
  ],
  \"schema\": null,
  \"cursor\": null,
  \"freshness_state\": null,
  \"realtime_state\": null
}";
    assert_eq!(format_response(&response, false), expected);
}

#[test]
fn states_are_written_as_objects() {
    let response = SqlResponse {
        data: vec![],
        schema: JsonValue::Null,
        cursor: Some("next".to_string()),
        freshness_state: Some(FreshnessState {
            last_considered_xact_id: "10".to_string(),
            last_processed_xact_id: "9".to_string(),
        }),
        realtime_state: Some(RealtimeState {
            actual_xact_id: "a".to_string(),
            minimum_xact_id: "m".to_string(),
            read_bytes: 4096,
            state_type: "on".to_string(),
        }),
        extra: vec![("took".to_string(), JsonValue::Number(JsonNumber::PosInt(3)))],
    };
    assert_eq!(
        response.to_json().to_compact(),
        "{\"data\":[],\"schema\":null,\"cursor\":\"next\",\"freshness_state\":{\"last_considered_xact_id\":\"10\",\"last_processed_xact_id\":\"9\"},\"realtime_state\":{\"actual_xact_id\":\"a\",\"minimum_xact_id\":\"m\",\"read_bytes\":4096,\"type\":\"on\"},\"took\":3}"
    );
    assert_eq!(SqlResponse::from_json(&response.to_json()), Ok(response));
}

#[test]
fn round_trip_keeps_unknown_fields() {
    let text = "{\"data\":[{\"id\":1}],\"schema\":{\"items\":{}},\"debug\":{\"plan\":[1,2,{\"x\":null}]},\"warning\":\"slow\"}";
    let decoded = SqlResponse::from_json(&json(text)).unwrap();
    assert_eq!(
        decoded.extra,
        vec![
            ("debug".to_string(), json("{\"plan\":[1,2,{\"x\":null}]}")),
            ("warning".to_string(), json("\"slow\"")),
        ]
    );
    let written = format_response(&decoded, true);
    assert!(written.contains("\"debug\":{\"plan\":[1,2,{\"x\":null}]}"));
    assert!(written.contains("\"warning\":\"slow\""));
    assert_eq!(
        written,
        "{\"data\":[{\"id\":1}],\"schema\":{\"items\":{}},\"cursor\":null,\"freshness_state\":null,\"realtime_state\":null,\"debug\":{\"plan\":[1,2,{\"x\":null}]},\"warning\":\"slow\"}"
    );
    let again = SqlResponse::from_json(&json(&written)).unwrap();
    assert_eq!(again, decoded);
}

#[test]
fn decode_reads_every_known_field() {
    let text = "{\"cursor\":\"c1\",\"data\":[{\"a\":1},{}],\"freshness_state\":{\"last_considered_xact_id\":\"5\",\"last_processed_xact_id\":\"4\",\"more\":1},\"realtime_state\":{\"actual_xact_id\":\"a\",\"minimum_xact_id\":\"m\",\"read_bytes\":7,\"type\":\"t\"},\"schema\":7}";
    let decoded = SqlResponse::from_json(&json(text)).unwrap();
    assert_eq!(decoded.data, vec![members("{\"a\":1}"), vec![]]);
    assert_eq!(decoded.schema, json("7"));
    assert_eq!(decoded.cursor, Some("c1".to_string()));
    assert_eq!(
        decoded.freshness_state,
        Some(FreshnessState {
            last_considered_xact_id: "5".to_string(),
            last_processed_xact_id: "4".to_string(),
        })
    );
    assert_eq!(
        decoded.realtime_state,
        Some(RealtimeState {
            actual_xact_id: "a".to_string(),
            minimum_xact_id: "m".to_string(),
            read_bytes: 7,
            state_type: "t".to_string(),
        })
    );
    assert!(decoded.extra.is_empty());
}

#[test]
fn decode_takes_null_for_missing() {
    let decoded = SqlResponse::from_json(&json(
        "{\"data\":[],\"schema\":null,\"cursor\":null,\"freshness_state\":null,\"realtime_state\":null}",
    ))
    .unwrap();
    assert_eq!(decoded, response("null", &[]));
    let decoded = SqlResponse::from_json(&json("{\"data\":[],\"schema\":null}")).unwrap();
    assert_eq!(decoded, response("null", &[]));
}

#[test]
fn decode_rejects_values_of_the_wrong_shape() {
    let cases = [
        ("[]", DecodeError::NotAnObject),
        ("null", DecodeError::NotAnObject),
        ("\"data\"", DecodeError::NotAnObject),
        ("{}", DecodeError::MissingData),
        ("{\"schema\":null}", DecodeError::MissingData),
        ("{\"data\":null,\"schema\":null}", DecodeError::InvalidData),
        ("{\"data\":{},\"schema\":null}", DecodeError::InvalidData),
        ("{\"data\":[1],\"schema\":null}", DecodeError::InvalidData),
        ("{\"data\":[{},[]],\"schema\":null}", DecodeError::InvalidData),
        ("{\"data\":[]}", DecodeError::MissingSchema),
        ("{\"data\":[],\"schema\":null,\"cursor\":1}", DecodeError::InvalidCursor),
        ("{\"data\":[],\"schema\":null,\"cursor\":[]}", DecodeError::InvalidCursor),
        (
            "{\"data\":[],\"schema\":null,\"freshness_state\":1}",
            DecodeError::InvalidFreshnessState,
        ),
        (
            "{\"data\":[],\"schema\":null,\"freshness_state\":{\"last_considered_xact_id\":\"1\"}}",
            DecodeError::InvalidFreshnessState,
        ),
        (
            "{\"data\":[],\"schema\":null,\"freshness_state\":{\"last_considered_xact_id\":\"1\",\"last_processed_xact_id\":2}}",
            DecodeError::InvalidFreshnessState,
        ),
        (
            "{\"data\":[],\"schema\":null,\"realtime_state\":\"on\"}",
            DecodeError::InvalidRealtimeState,
        ),
        (
            "{\"data\":[],\"schema\":null,\"realtime_state\":{\"actual_xact_id\":\"a\",\"minimum_xact_id\":\"m\",\"read_bytes\":-1,\"type\":\"t\"}}",
            DecodeError::InvalidRealtimeState,
        ),
        (
            "{\"data\":[],\"schema\":null,\"realtime_state\":{\"actual_xact_id\":\"a\",\"minimum_xact_id\":\"m\",\"read_bytes\":1.5,\"type\":\"t\"}}",
            DecodeError::InvalidRealtimeState,
        ),
        (
            "{\"data\":[],\"schema\":null,\"realtime_state\":{\"actual_xact_id\":\"a\",\"minimum_xact_id\":\"m\",\"read_bytes\":1}}",
            DecodeError::InvalidRealtimeState,
        ),
    ];
    for (text, error) in cases {
        assert_eq!(SqlResponse::from_json(&json(text)), Err(error));
    }
}

#[test]
fn decode_reports_the_first_fault() {
    assert_eq!(
        SqlResponse::from_json(&json("{\"data\":[1],\"cursor\":1}")),
        Err(DecodeError::InvalidData)
    );
    assert_eq!(
        SqlResponse::from_json(&json("{\"data\":[],\"cursor\":1,\"realtime_state\":1}")),
        Err(DecodeError::MissingSchema)
    );
    assert_eq!(
        SqlResponse::from_json(&json(
            "{\"data\":[],\"schema\":1,\"cursor\":1,\"freshness_state\":1}"
        )),
        Err(DecodeError::InvalidCursor)
    );
    assert_eq!(
        SqlResponse::from_json(&json(
            "{\"data\":[],\"schema\":1,\"freshness_state\":1,\"realtime_state\":1}"
        )),
        Err(DecodeError::InvalidFreshnessState)
    );
}

#[test]
fn rendering_is_deterministic() {
    let response = response(
        "{\"items\":{\"properties\":{\"id\":{},\"name\":{}}}}",
        &["{\"id\":1,\"name\":\"x\"}", "{\"id\":2,\"name\":[1,2]}"],
    );
    assert_eq!(render_table(&response), render_table(&response));
    assert_eq!(format_response(&response, true), format_response(&response, true));
}

#[test]
fn decode_errors_have_messages() {
    assert_eq!(DecodeError::NotAnObject.message(), "expected an object");
    assert_eq!(DecodeError::MissingData.message(), "missing field `data`");
    assert_eq!(DecodeError::InvalidData.message(), "field `data` is not an array of objects");
    assert_eq!(DecodeError::MissingSchema.message(), "missing field `schema`");
    assert_eq!(DecodeError::InvalidCursor.message(), "field `cursor` is not a string");
    assert_eq!(
        DecodeError::InvalidFreshnessState.message(),
        "field `freshness_state` is not a freshness state"
    );
    assert_eq!(
        DecodeError::InvalidRealtimeState.message(),
        "field `realtime_state` is not a realtime state"
    );
}
