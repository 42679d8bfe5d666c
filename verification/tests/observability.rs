use control_plane::json::{to_compact_string, JsonValue};
use control_plane::orchestration_runtime::observability::{
    model_attempt_payloads, model_attempts_from_metrics, model_input_payload, usage_i64,
    usage_ledger_fields, UsageLedgerStatus,
};

fn object(entries: Vec<(&str, JsonValue)>) -> JsonValue {
    JsonValue::Object(entries.into_iter().map(|(k, v)| (k.to_string(), v)).collect())
}

fn s(text: &str) -> JsonValue {
    JsonValue::Str(text.to_string())
}

const INSTANCE: &str = "01900000-0000-7000-8000-0000000000aa";

#[test]
fn a_call_without_listed_attempts_records_one() {
    let metrics = object(vec![
        ("provider_instance_id", s(INSTANCE)),
        ("provider_code", s("openai")),
        ("protocol", s("chat")),
        ("model", s("gpt")),
    ]);
    let payloads = model_attempt_payloads(&metrics, false);
    assert_eq!(payloads.len(), 1);
    assert_eq!(payloads[0].get_str("status"), Some("succeeded"));
    let records = model_attempts_from_metrics(&metrics, None);
    assert_eq!(records.len(), 1);
    let r = &records[0];
    assert_eq!(r.attempt_index, 0);
    assert_eq!(r.provider_code, "openai");
    assert_eq!(r.upstream_model_id, "gpt");
    assert_eq!(r.protocol, "chat");
    assert_eq!(r.status, "succeeded");
    assert_eq!(r.error_code, None);
    assert_eq!(r.provider_instance_id, Some(0x0190_0000_0000_7000_8000_0000_0000_00aa));
    assert_eq!(r.queue_snapshot_id, None);
}

#[test]
fn listed_attempts_are_recorded_in_order() {
    let metrics = object(vec![(
        "attempts",
        JsonValue::Array(vec![
            object(vec![("status", s("failed"))]),
            object(vec![
                ("status", s("succeeded")),
                ("attempt_index", JsonValue::Number(5)),
                ("upstream_model_id", JsonValue::Null),
                ("model", s("ignored")),
                ("failed_after_first_token", JsonValue::Bool(true)),
                ("response_ref", s("ref-1")),
            ]),
            object(vec![("model", s("fallback-model"))]),
        ]),
    )]);
    let error = object(vec![("error_kind", s("timeout"))]);
    let records = model_attempts_from_metrics(&metrics, Some(&error));
    assert_eq!(records.len(), 3);
    assert_eq!(records[0].attempt_index, 0);
    assert_eq!(records[0].error_code.as_deref(), Some("timeout"));
    assert_eq!(records[0].provider_code, "unknown");
    assert_eq!(records[1].attempt_index, 5);
    assert_eq!(records[1].upstream_model_id, "unknown");
    assert_eq!(records[1].error_code, None);
    assert!(records[1].failed_after_first_token);
    assert_eq!(records[1].response_ref.as_deref(), Some("ref-1"));
    assert_eq!(records[2].attempt_index, 2);
    assert_eq!(records[2].status, "failed");
    assert_eq!(records[2].upstream_model_id, "fallback-model");
    let without_kind = model_attempts_from_metrics(&metrics, Some(&JsonValue::Null));
    assert_eq!(without_kind[0].error_code.as_deref(), Some("provider_error"));
}

#[test]
fn usage_is_recorded_only_when_reported_and_the_node_succeeded() {
    let metrics = object(vec![
        ("model", s("m")),
        ("provider_instance_id", s("not-an-id")),
        (
            "usage",
            object(vec![("input_tokens", JsonValue::Number(3)), ("reasoning_tokens", JsonValue::Number(2))]),
        ),
    ]);
    let ok = usage_ledger_fields(&metrics, false, Some(7));
    assert_eq!(ok.usage_status, UsageLedgerStatus::Recorded);
    assert_eq!(ok.input_tokens, Some(3));
    assert_eq!(ok.reasoning_output_tokens, Some(2));
    assert_eq!(ok.output_tokens, None);
    assert_eq!(ok.model_id.as_deref(), Some("m"));
    assert_eq!(ok.provider_instance_id, None);
    assert_eq!(ok.failover_attempt_id, Some(7));
    let failed = usage_ledger_fields(&metrics, true, None);
    assert_eq!(failed.usage_status, UsageLedgerStatus::UnavailableError);
    let none = usage_ledger_fields(&object(vec![]), false, None);
    assert_eq!(none.usage_status, UsageLedgerStatus::UnavailableError);
    assert_eq!(to_compact_string(&none.raw_usage), "{}");
    assert_eq!(usage_i64(&object(vec![("n", s("3"))]), "n"), None);
}

#[test]
fn model_input_names_provider_and_model() {
    let metrics = object(vec![("provider_code", s("openai"))]);
    let input = model_input_payload(object(vec![("q", s("hi"))]), &metrics);
    assert_eq!(to_compact_string(&input), r#"{"model":null,"node_input":{"q":"hi"},"provider":"openai"}"#);
}
