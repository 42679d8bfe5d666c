use control_plane::json::JsonValue;
use control_plane::orchestration_runtime::debug_artifacts::{
    build_runtime_debug_artifact_object_path, build_runtime_debug_artifact_preview,
    inline_budget_for_kind, is_runtime_debug_artifact_preview, truncate_utf8_by_bytes,
};

fn object(entries: Vec<(&str, JsonValue)>) -> JsonValue {
    JsonValue::Object(entries.into_iter().map(|(k, v)| (k.to_string(), v)).collect())
}

#[test]
fn artifact_preview_uses_ref_instead_of_complete_object() {
    let artifact_id = uuid::Uuid::now_v7();
    let value = object(vec![
        ("text", JsonValue::Str("x".repeat(64))),
        (
            "metadata",
            object(vec![("provider", JsonValue::Str("fixture".to_string()))]),
        ),
    ]);

    let preview = build_runtime_debug_artifact_preview(artifact_id.as_u128(), &value, 24).unwrap();

    assert_eq!(
        preview.preview_value.get_bool("__runtime_debug_artifact"),
        Some(true)
    );
    assert_eq!(
        preview.preview_value.get_str("artifact_ref"),
        Some(artifact_id.to_string().as_str())
    );
    assert_eq!(preview.preview_value.get_bool("is_truncated"), Some(true));
    assert!(preview.preview_value.get_str("preview").unwrap().len() <= 24);
    assert!(preview.original_size_bytes > preview.preview_size_bytes);
}

#[test]
fn existing_preview_is_not_offloaded_again() {
    let value = object(vec![
        ("__runtime_debug_artifact", JsonValue::Bool(true)),
        (
            "artifact_ref",
            JsonValue::Str(uuid::Uuid::now_v7().to_string()),
        ),
        ("preview", JsonValue::Str("{}".to_string())),
    ]);

    assert!(build_runtime_debug_artifact_preview(uuid::Uuid::now_v7().as_u128(), &value, 1).is_none());
}

#[test]
fn small_payload_stays_inline() {
    let value = object(vec![("a", JsonValue::Number(1))]);
    assert!(build_runtime_debug_artifact_preview(1, &value, 1024).is_none());
    assert!(!is_runtime_debug_artifact_preview(&value));
}

#[test]
fn preview_of_large_payload_records_exact_sizes() {
    let value = object(vec![("text", JsonValue::Str("abcdefghij".to_string()))]);
    // {"text":"abcdefghij"} is 21 bytes.
    let preview = build_runtime_debug_artifact_preview(5, &value, 10).unwrap();
    assert_eq!(preview.original_size_bytes, 21);
    assert_eq!(preview.full_bytes, br#"{"text":"abcdefghij"}"#.to_vec());
    assert_eq!(preview.preview_value.get_str("preview"), Some(r#"{"text":"a"#));
    assert_eq!(preview.preview_size_bytes, 10);
    assert_eq!(
        preview.preview_value.get_str("content_type"),
        Some("application/json")
    );
}

#[test]
fn inline_budgets_by_payload_kind() {
    assert_eq!(inline_budget_for_kind("flow_input_payload"), 2048);
    assert_eq!(inline_budget_for_kind("node_debug_payload"), 2048);
    assert_eq!(inline_budget_for_kind("provider_raw_event"), 1024);
    assert_eq!(inline_budget_for_kind("debug_snapshot_value"), 1024);
    assert_eq!(inline_budget_for_kind("something_else"), 2048);
}

#[test]
fn truncation_keeps_whole_characters() {
    assert_eq!(truncate_utf8_by_bytes("héllo", 2), "h");
    assert_eq!(truncate_utf8_by_bytes("héllo", 3), "hé");
    assert_eq!(truncate_utf8_by_bytes("abc", 10), "abc");
    assert_eq!(truncate_utf8_by_bytes("回答", 5), "回");
}

#[test]
fn artifact_object_path_names_run_when_there_is_one() {
    let w = uuid::Uuid::from_u128(1);
    let a = uuid::Uuid::from_u128(2);
    let r = uuid::Uuid::from_u128(3);
    let id = uuid::Uuid::from_u128(4);
    assert_eq!(
        build_runtime_debug_artifact_object_path(1, 2, Some(3), 4),
        format!("runtime-debug/{w}/{a}/{r}/{id}.json")
    );
    assert_eq!(
        build_runtime_debug_artifact_object_path(1, 2, None, 4),
        format!("runtime-debug/{w}/{a}/{id}.json")
    );
}
