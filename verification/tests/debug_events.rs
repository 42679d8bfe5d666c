use control_plane::json::JsonValue;
use control_plane::orchestration_runtime::debug_event_persister::{
    debug_stream_run_events, is_stream_delta_event, push_unique, RuntimeEventEnvelope,
};
use control_plane::orchestration_runtime::debug_stream_events::{
    flow_accepted, flow_failed, heartbeat, is_answer_presentation_delta_payload, node_started,
    text_delta, visible_internal_llm_tool_route, waiting_callback_with_task, CallbackTaskRecord,
    NodeRunRecord, RuntimeEventDurability,
};

fn object(entries: Vec<(&str, JsonValue)>) -> JsonValue {
    JsonValue::Object(entries.into_iter().map(|(k, v)| (k.to_string(), v)).collect())
}

fn s(text: &str) -> JsonValue {
    JsonValue::Str(text.to_string())
}

fn envelope(id: &str, event_type: &str, sequence: i64, text: Option<&str>, payload: JsonValue) -> RuntimeEventEnvelope {
    RuntimeEventEnvelope {
        event_id: id.to_string(),
        run_id: 1,
        node_run_id: Some(2),
        sequence,
        event_type: event_type.to_string(),
        persist_required: true,
        content_type: None,
        text: text.map(str::to_string),
        payload,
    }
}

#[test]
fn stream_deltas_are_recognized() {
    assert!(is_stream_delta_event("text_delta"));
    assert!(is_stream_delta_event("reasoning_delta"));
    assert!(!is_stream_delta_event("node_started"));
}

#[test]
fn push_unique_keeps_one_of_each() {
    let mut v = vec!["a".to_string()];
    push_unique(&mut v, "a".to_string());
    push_unique(&mut v, "b".to_string());
    assert_eq!(v, vec!["a".to_string(), "b".to_string()]);
}

#[test]
fn consecutive_deltas_of_one_stream_become_one_event() {
    let events = vec![
        envelope("e1", "text_delta", 1, Some("hel"), object(vec![("text_ref", s("runtime_artifact:1"))])),
        envelope("e2", "text_delta", 2, None, object(vec![("delta", s("lo")), ("original_bytes", JsonValue::Number(9))])),
        envelope("e3", "node_finished", 3, None, object(vec![("ok", JsonValue::Bool(true))])),
    ];
    let stored = debug_stream_run_events(&events);
    assert_eq!(stored.len(), 2);
    let merged = &stored[0];
    assert_eq!(merged.event_type, "text_delta");
    assert_eq!(merged.node_run_id, Some(2));
    assert_eq!(merged.payload.get_str("text"), Some("hello"));
    assert_eq!(merged.payload.get_str("node_run_id"), Some(uuid::Uuid::from_u128(2).to_string().as_str()));
    assert_eq!(merged.payload.get("sequence_start").unwrap().as_i64(), Some(1));
    assert_eq!(merged.payload.get("sequence_end").unwrap().as_i64(), Some(2));
    let truncation = merged.payload.get("truncation").unwrap();
    assert_eq!(truncation.get("original_bytes").unwrap().as_i64(), Some(9));
    assert_eq!(truncation.get("stored_bytes").unwrap().as_i64(), Some(5));
    let artifacts = merged.payload.get_array("artifact_refs").unwrap();
    assert_eq!(artifacts.len(), 1);
    assert_eq!(artifacts[0].as_str(), Some("runtime_artifact:1"));
    assert_eq!(stored[1].event_type, "node_finished");
    assert_eq!(stored[1].node_run_id, None);
}

#[test]
fn events_that_need_not_be_stored_are_skipped() {
    let mut e = envelope("e1", "text_delta", 1, Some("x"), object(vec![]));
    e.persist_required = false;
    assert!(debug_stream_run_events(&vec![e]).is_empty());
}

#[test]
fn a_new_stream_starts_a_new_event() {
    let events = vec![
        envelope("e1", "text_delta", 1, Some("a"), object(vec![])),
        envelope("e2", "reasoning_delta", 2, Some("b"), object(vec![])),
    ];
    let stored = debug_stream_run_events(&events);
    assert_eq!(stored.len(), 2);
    assert_eq!(stored[0].payload.get_str("text"), Some("a"));
    assert_eq!(stored[1].payload.get_str("text"), Some("b"));
}

#[test]
fn lifecycle_events_carry_their_payloads() {
    let e = flow_accepted(7);
    assert_eq!(e.event_type, "flow_accepted");
    assert_eq!(e.durability, RuntimeEventDurability::Ephemeral);
    assert_eq!(e.payload.get_str("run_id"), Some(uuid::Uuid::from_u128(7).to_string().as_str()));
    assert_eq!(heartbeat().payload.get_str("type"), Some("heartbeat"));
    let failed = flow_failed(7, object(vec![("message", s("boom"))]));
    assert_eq!(failed.payload.get_str("error"), Some("boom"));
    let failed = flow_failed(7, JsonValue::Null);
    assert_eq!(failed.payload.get_str("error"), Some("flow debug run failed"));
    let failed = flow_failed(7, object(vec![("code", JsonValue::Number(3))]));
    assert_eq!(failed.payload.get_str("error"), Some(r#"{"code":3}"#));
    let delta = text_delta("node-1", 2, "hi".to_string());
    assert!(delta.persist_required && !delta.trace_visible);
    assert!(!is_answer_presentation_delta_payload(&delta.payload));
}

#[test]
fn waiting_for_tool_calls_asks_for_tool_outputs() {
    let task = CallbackTaskRecord {
        id: 9,
        flow_run_id: 1,
        node_run_id: 2,
        callback_kind: "llm_tool_calls".to_string(),
        request_payload: object(vec![("tool_calls", JsonValue::Array(vec![]))]),
    };
    let e = waiting_callback_with_task(1, 2, "node-llm", &task);
    let action = e.payload.get("required_action").unwrap();
    assert_eq!(action.get_str("action_type"), Some("submit_tool_outputs"));
    assert!(e.payload.get_array("tool_calls").is_some());
}

#[test]
fn node_started_and_tool_routes() {
    let run = NodeRunRecord {
        id: 3,
        node_id: "node-1".to_string(),
        node_type: "llm".to_string(),
        node_alias: "LLM".to_string(),
        status: "running".to_string(),
        input_payload: object(vec![]),
        output_payload: object(vec![]),
        error_payload: JsonValue::Null,
        metrics_payload: object(vec![]),
        started_at: s("2024-01-01T00:00:00Z"),
        finished_at: JsonValue::Null,
    };
    assert_eq!(node_started(&run).payload.get_str("title"), Some("LLM"));
    let route = object(vec![("event_type", s("  ")), ("x", JsonValue::Number(1))]);
    let e = visible_internal_llm_tool_route(1, 2, "node-1", &route);
    assert_eq!(e.event_type, "visible_internal_llm_tool_event");
    assert_eq!(e.payload.get_str("node_id"), Some("node-1"));
    assert_eq!(e.payload.get("x").unwrap().as_i64(), Some(1));
}
