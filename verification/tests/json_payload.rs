use control_plane::json::JsonValue;
use control_plane::orchestration_runtime::json_payload::escape_json_nul_characters;

fn s(text: &str) -> JsonValue {
    JsonValue::Str(text.to_string())
}

fn obj(entries: Vec<(&str, JsonValue)>) -> JsonValue {
    JsonValue::Object(entries.into_iter().map(|(k, v)| (k.to_string(), v)).collect())
}

#[test]
fn escapes_nul_characters_in_json_strings_and_keys() {
    let payload = obj(vec![(
        "tool\0key",
        JsonValue::Array(vec![s("before\0after"), obj(vec![("nested", s("ok"))])]),
    )]);

    let expected = obj(vec![(
        "tool\\u0000key",
        JsonValue::Array(vec![s("before\\u0000after"), obj(vec![("nested", s("ok"))])]),
    )]);
    assert_eq!(
        format!("{:?}", escape_json_nul_characters(payload)),
        format!("{:?}", expected)
    );
}

#[test]
fn keys_that_meet_once_escaped_are_merged_the_later_winning() {
    let value = JsonValue::Object(vec![
        ("a\0".to_string(), JsonValue::Number(1)),
        ("a\\u0000".to_string(), JsonValue::Number(2)),
    ]);
    let escaped = escape_json_nul_characters(value);
    match &escaped {
        JsonValue::Object(entries) => {
            assert_eq!(entries.len(), 1);
            assert_eq!(entries[0].0, "a\\u0000");
        }
        _ => panic!("expected an object"),
    }
    assert_eq!(escaped.get("a\\u0000").and_then(|v| v.as_i64()), Some(2));
}
