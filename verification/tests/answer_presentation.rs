use control_plane::json::JsonValue;
use control_plane::orchestration_runtime::answer_presentation::{
    split_think_tags, visible_answer_text, AnswerPresentationCursor, AnswerPresentationPlan,
    AnswerPresentationSegment, DebugDeltaKind, ProviderStreamEvent,
};
use control_plane::orchestration_runtime::debug_stream_events::RuntimeEventPayload;

fn cursor_with_segments(segments: Vec<AnswerPresentationSegment>) -> AnswerPresentationCursor {
    AnswerPresentationCursor::new(AnswerPresentationPlan {
        answer_node_id: "node-answer".to_string(),
        answer_output_key: "answer".to_string(),
        segments,
    })
}

fn node_output(node_id: &str, output_key: &str) -> AnswerPresentationSegment {
    AnswerPresentationSegment::NodeOutput {
        node_id: node_id.to_string(),
        output_key: output_key.to_string(),
    }
}

fn texts(events: &[RuntimeEventPayload]) -> Vec<String> {
    events
        .iter()
        .filter_map(|event| event.payload.get_str("text").map(str::to_string))
        .collect()
}

fn object(entries: Vec<(&str, JsonValue)>) -> JsonValue {
    JsonValue::Object(entries.into_iter().map(|(k, v)| (k.to_string(), v)).collect())
}

#[test]
fn leading_static_text_is_emitted_before_live_node_delta() {
    let mut cursor = cursor_with_segments(vec![
        AnswerPresentationSegment::StaticText("回答：".to_string()),
        node_output("node-llm", "text"),
    ]);
    let node_run_id = uuid::Uuid::now_v7().as_u128();

    let events = cursor.push_provider_event(
        "node-llm",
        node_run_id,
        &ProviderStreamEvent::TextDelta {
            delta: "he".to_string(),
        },
    );

    assert_eq!(texts(&events), vec!["回答：", "he"]);
}

#[test]
fn final_suffix_uses_visible_text_when_completed_output_contains_think_tags() {
    let mut cursor = cursor_with_segments(vec![node_output("node-llm", "text")]);
    let node_run_id = uuid::Uuid::now_v7().as_u128();
    cursor.push_provider_event(
        "node-llm",
        node_run_id,
        &ProviderStreamEvent::TextDelta {
            delta: "he".to_string(),
        },
    );

    let events = cursor.complete_node(
        "node-llm",
        node_run_id,
        &object(vec![(
            "text",
            JsonValue::Str("<think>reason</think>hello".to_string()),
        )]),
    );

    let text_deltas: Vec<String> = events
        .iter()
        .filter(|event| event.event_type == "text_delta")
        .filter_map(|event| event.payload.get_str("text").map(str::to_string))
        .collect();
    assert_eq!(text_deltas, vec!["llo"]);
}

#[test]
fn think_tags_split_text_and_reasoning() {
    let parts = split_think_tags("a<think>b</think>c<think>d");
    let kinds: Vec<(bool, String)> = parts
        .iter()
        .map(|p| (p.kind == DebugDeltaKind::Reasoning, p.text.clone()))
        .collect();
    assert_eq!(
        kinds,
        vec![
            (false, "a".to_string()),
            (true, "b".to_string()),
            (false, "c".to_string()),
            (true, "d".to_string()),
        ]
    );
    assert_eq!(visible_answer_text("a<think>b</think>c<think>d"), "ac");
    assert_eq!(visible_answer_text("plain"), "plain");
}

#[test]
fn completed_output_without_streaming_is_sent_in_pieces() {
    let mut cursor = cursor_with_segments(vec![
        node_output("node-llm", "text"),
        AnswerPresentationSegment::StaticText("!".to_string()),
    ]);
    let events = cursor.complete_node(
        "node-llm",
        7,
        &object(vec![("text", JsonValue::Str("<think>r</think>ok".to_string()))]),
    );
    let pieces: Vec<(String, String)> = events
        .iter()
        .map(|e| (e.event_type.clone(), e.payload.get_str("text").unwrap().to_string()))
        .collect();
    assert_eq!(
        pieces,
        vec![
            ("reasoning_delta".to_string(), "r".to_string()),
            ("text_delta".to_string(), "ok".to_string()),
            ("text_delta".to_string(), "!".to_string()),
        ]
    );
}

#[test]
fn delta_of_another_node_is_not_streamed_into_the_answer() {
    let mut cursor = cursor_with_segments(vec![node_output("node-llm", "text")]);
    let events = cursor.push_delta("node-other", 1, false, "x");
    assert!(events.is_empty());
    let events = cursor.push_provider_event("node-llm", 1, &ProviderStreamEvent::Other);
    assert!(events.is_empty());
}

#[test]
fn streamed_text_that_diverges_from_the_final_output_gets_no_suffix() {
    let mut cursor = cursor_with_segments(vec![node_output("node-llm", "text")]);
    cursor.push_delta("node-llm", 1, false, "xy");
    let events = cursor.complete_node(
        "node-llm",
        1,
        &object(vec![("text", JsonValue::Str("hello".to_string()))]),
    );
    assert!(events.is_empty());
}
