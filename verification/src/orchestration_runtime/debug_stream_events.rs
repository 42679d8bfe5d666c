//! The events a flow run streams to the debug console, and their payloads.

use vstd::prelude::*;
use crate::json::{
    clone_json, entries_insert, entry_views, lemma_object_view, object_insert, spec_as_str,
    spec_get, JsonSpec, JsonValue,
};
use crate::outside::{uuid_hyphenated, uuid_to_hyphenated};
use crate::text::{is_blank, is_blank_text, to_string};

verus! {

pub const ANSWER_PRESENTATION_KIND: &'static str = "answer";

/// Who produced a runtime event.
#[derive(Debug, Clone, Copy, PartialEq, Eq, Structural)]
pub enum RuntimeEventSource {
    Runtime,
    Provider,
    System,
}

/// Whether an event must be stored before it is acknowledged.
#[derive(Debug, Clone, Copy, PartialEq, Eq, Structural)]
pub enum RuntimeEventDurability {
    Ephemeral,
    DurableRequired,
}

/// An event of a flow run, with the JSON payload sent for it.
pub struct RuntimeEventPayload {
    pub event_type: String,
    pub source: RuntimeEventSource,
    pub durability: RuntimeEventDurability,
    pub persist_required: bool,
    pub trace_visible: bool,
    pub payload: JsonValue,
}

/// The plain facts of an event.
pub struct EventFacts {
    pub event_type: Seq<char>,
    pub source: RuntimeEventSource,
    pub durability: RuntimeEventDurability,
    pub persist_required: bool,
    pub trace_visible: bool,
    pub payload: JsonSpec,
}

pub open spec fn event_facts(e: RuntimeEventPayload) -> EventFacts {
    EventFacts {
        event_type: e.event_type@,
        source: e.source,
        durability: e.durability,
        persist_required: e.persist_required,
        trace_visible: e.trace_visible,
        payload: e.payload@,
    }
}

pub open spec fn events_facts(events: Seq<RuntimeEventPayload>) -> Seq<EventFacts> {
    events.map_values(|e: RuntimeEventPayload| event_facts(e))
}

pub open spec fn jstr(s: Seq<char>) -> JsonSpec {
    JsonSpec::Str(s)
}

pub open spec fn juuid(id: u128) -> JsonSpec {
    JsonSpec::Str(uuid_hyphenated(id))
}

/// An object value from its entries.
pub fn object_of(entries: Vec<(String, JsonValue)>) -> (v: JsonValue)
    ensures
        v@ == JsonSpec::Object(entry_views(entries@)),
{
    proof {
        lemma_object_view(entries);
    }
    JsonValue::Object(entries)
}

pub fn text_value(s: &str) -> (v: JsonValue)
    ensures
        v@ == jstr(s@),
{
    JsonValue::Str(to_string(s))
}

pub fn uuid_value(id: u128) -> (v: JsonValue)
    ensures
        v@ == juuid(id),
{
    JsonValue::Str(uuid_to_hyphenated(id))
}

fn runtime_event(
    event_type: &str,
    source: RuntimeEventSource,
    durability: RuntimeEventDurability,
    persist_required: bool,
    trace_visible: bool,
    payload: JsonValue,
) -> (e: RuntimeEventPayload)
    ensures
        event_facts(e) == (EventFacts {
            event_type: event_type@,
            source,
            durability,
            persist_required,
            trace_visible,
            payload: payload@,
        }),
{
    RuntimeEventPayload {
        event_type: to_string(event_type),
        source,
        durability,
        persist_required,
        trace_visible,
        payload,
    }
}

/// A run was accepted and waits in the queue.
pub open spec fn flow_accepted_facts(run_id: u128) -> EventFacts {
    EventFacts {
        event_type: "flow_accepted"@,
        source: RuntimeEventSource::Runtime,
        durability: RuntimeEventDurability::Ephemeral,
        persist_required: false,
        trace_visible: false,
        payload: JsonSpec::Object(
            seq![
                ("type"@, jstr("flow_accepted"@)),
                ("run_id"@, juuid(run_id)),
                ("status"@, jstr("queued"@)),
            ],
        ),
    }
}

pub fn flow_accepted(run_id: u128) -> (e: RuntimeEventPayload)
    ensures
        event_facts(e) == flow_accepted_facts(run_id),
{
    let mut entries: Vec<(String, JsonValue)> = Vec::new();
    entries.push((to_string("type"), text_value("flow_accepted")));
    entries.push((to_string("run_id"), uuid_value(run_id)));
    entries.push((to_string("status"), text_value("queued")));
    assert(entry_views(entries@) =~= flow_accepted_facts(run_id).payload->Object_0);
    runtime_event(
        "flow_accepted",
        RuntimeEventSource::Runtime,
        RuntimeEventDurability::Ephemeral,
        false,
        false,
        object_of(entries),
    )
}

/// A lifecycle event of a run: stored and shown in the trace.
pub open spec fn run_status_facts(event_type: Seq<char>, run_id: u128, status: Seq<char>) -> EventFacts {
    EventFacts {
        event_type,
        source: RuntimeEventSource::Runtime,
        durability: RuntimeEventDurability::DurableRequired,
        persist_required: true,
        trace_visible: true,
        payload: JsonSpec::Object(
            seq![("type"@, jstr(event_type)), ("run_id"@, juuid(run_id)), ("status"@, jstr(status))],
        ),
    }
}

fn run_status_event(event_type: &str, run_id: u128, status: &str) -> (e: RuntimeEventPayload)
    ensures
        event_facts(e) == run_status_facts(event_type@, run_id, status@),
{
    let mut entries: Vec<(String, JsonValue)> = Vec::new();
    entries.push((to_string("type"), text_value(event_type)));
    entries.push((to_string("run_id"), uuid_value(run_id)));
    entries.push((to_string("status"), text_value(status)));
    assert(entry_views(entries@) =~= run_status_facts(event_type@, run_id, status@).payload->Object_0);
    runtime_event(
        event_type,
        RuntimeEventSource::Runtime,
        RuntimeEventDurability::DurableRequired,
        true,
        true,
        object_of(entries),
    )
}

pub fn flow_started(run_id: u128) -> (e: RuntimeEventPayload)
    ensures
        event_facts(e) == run_status_facts("flow_started"@, run_id, "running"@),
{
    run_status_event("flow_started", run_id, "running")
}

/// A run finished; the payload carries its output.
pub open spec fn flow_finished_facts(run_id: u128, output: JsonSpec) -> EventFacts {
    EventFacts {
        event_type: "flow_finished"@,
        source: RuntimeEventSource::Runtime,
        durability: RuntimeEventDurability::DurableRequired,
        persist_required: true,
        trace_visible: true,
        payload: JsonSpec::Object(
            seq![
                ("type"@, jstr("flow_finished"@)),
                ("run_id"@, juuid(run_id)),
                ("status"@, jstr("succeeded"@)),
                ("output"@, output),
            ],
        ),
    }
}

pub fn flow_finished(run_id: u128, output: JsonValue) -> (e: RuntimeEventPayload)
    ensures
        event_facts(e) == flow_finished_facts(run_id, output@),
{
    let ghost out = output@;
    let mut entries: Vec<(String, JsonValue)> = Vec::new();
    entries.push((to_string("type"), text_value("flow_finished")));
    entries.push((to_string("run_id"), uuid_value(run_id)));
    entries.push((to_string("status"), text_value("succeeded")));
    entries.push((to_string("output"), output));
    assert(entry_views(entries@) =~= flow_finished_facts(run_id, out).payload->Object_0);
    runtime_event(
        "flow_finished",
        RuntimeEventSource::Runtime,
        RuntimeEventDurability::DurableRequired,
        true,
        true,
        object_of(entries),
    )
}

/// A run was stopped by hand.
pub open spec fn flow_cancelled_facts(run_id: u128) -> EventFacts {
    EventFacts {
        event_type: "flow_cancelled"@,
        source: RuntimeEventSource::Runtime,
        durability: RuntimeEventDurability::DurableRequired,
        persist_required: true,
        trace_visible: true,
        payload: JsonSpec::Object(
            seq![
                ("type"@, jstr("flow_cancelled"@)),
                ("run_id"@, juuid(run_id)),
                ("status"@, jstr("cancelled"@)),
                ("reason"@, jstr("manual_stop"@)),
                ("manual_stop"@, JsonSpec::Bool(true)),
            ],
        ),
    }
}

pub fn flow_cancelled(run_id: u128) -> (e: RuntimeEventPayload)
    ensures
        event_facts(e) == flow_cancelled_facts(run_id),
{
    let mut entries: Vec<(String, JsonValue)> = Vec::new();
    entries.push((to_string("type"), text_value("flow_cancelled")));
    entries.push((to_string("run_id"), uuid_value(run_id)));
    entries.push((to_string("status"), text_value("cancelled")));
    entries.push((to_string("reason"), text_value("manual_stop")));
    entries.push((to_string("manual_stop"), JsonValue::Bool(true)));
    assert(entry_views(entries@) =~= flow_cancelled_facts(run_id).payload->Object_0);
    runtime_event(
        "flow_cancelled",
        RuntimeEventSource::Runtime,
        RuntimeEventDurability::DurableRequired,
        true,
        true,
        object_of(entries),
    )
}

/// A node waits for something outside the run (a person or a callback).
pub open spec fn waiting_facts(status: Seq<char>, run_id: u128, node_run_id: u128, node_id: Seq<char>) -> EventFacts {
    EventFacts {
        event_type: status,
        source: RuntimeEventSource::Runtime,
        durability: RuntimeEventDurability::DurableRequired,
        persist_required: true,
        trace_visible: true,
        payload: JsonSpec::Object(
            seq![
                ("type"@, jstr(status)),
                ("run_id"@, juuid(run_id)),
                ("node_run_id"@, juuid(node_run_id)),
                ("node_id"@, jstr(node_id)),
                ("status"@, jstr(status)),
            ],
        ),
    }
}

fn waiting_event(status: &str, run_id: u128, node_run_id: u128, node_id: &str) -> (e: RuntimeEventPayload)
    ensures
        event_facts(e) == waiting_facts(status@, run_id, node_run_id, node_id@),
{
    let mut entries: Vec<(String, JsonValue)> = Vec::new();
    entries.push((to_string("type"), text_value(status)));
    entries.push((to_string("run_id"), uuid_value(run_id)));
    entries.push((to_string("node_run_id"), uuid_value(node_run_id)));
    entries.push((to_string("node_id"), text_value(node_id)));
    entries.push((to_string("status"), text_value(status)));
    assert(entry_views(entries@) =~= waiting_facts(status@, run_id, node_run_id, node_id@).payload->Object_0);
    runtime_event(
        status,
        RuntimeEventSource::Runtime,
        RuntimeEventDurability::DurableRequired,
        true,
        true,
        object_of(entries),
    )
}

pub fn waiting_human(run_id: u128, node_run_id: u128, node_id: &str) -> (e: RuntimeEventPayload)
    ensures
        event_facts(e) == waiting_facts("waiting_human"@, run_id, node_run_id, node_id@),
{
    waiting_event("waiting_human", run_id, node_run_id, node_id)
}

pub fn waiting_callback(run_id: u128, node_run_id: u128, node_id: &str) -> (e: RuntimeEventPayload)
    ensures
        event_facts(e) == waiting_facts("waiting_callback"@, run_id, node_run_id, node_id@),
{
    waiting_event("waiting_callback", run_id, node_run_id, node_id)
}

/// A streamed piece of a node's output (`text_delta`) or reasoning (`reasoning_delta`).
pub open spec fn node_delta_facts(event_type: Seq<char>, node_id: Seq<char>, node_run_id: u128, text: Seq<char>) -> EventFacts {
    EventFacts {
        event_type,
        source: RuntimeEventSource::Provider,
        durability: RuntimeEventDurability::DurableRequired,
        persist_required: true,
        trace_visible: false,
        payload: JsonSpec::Object(
            seq![
                ("type"@, jstr(event_type)),
                ("node_run_id"@, juuid(node_run_id)),
                ("node_id"@, jstr(node_id)),
                ("text"@, jstr(text)),
            ],
        ),
    }
}

fn node_delta(event_type: &str, node_id: &str, node_run_id: u128, text: String) -> (e: RuntimeEventPayload)
    ensures
        event_facts(e) == node_delta_facts(event_type@, node_id@, node_run_id, text@),
{
    let ghost tv = text@;
    let mut entries: Vec<(String, JsonValue)> = Vec::new();
    entries.push((to_string("type"), text_value(event_type)));
    entries.push((to_string("node_run_id"), uuid_value(node_run_id)));
    entries.push((to_string("node_id"), text_value(node_id)));
    entries.push((to_string("text"), JsonValue::Str(text)));
    assert(entry_views(entries@) =~= node_delta_facts(event_type@, node_id@, node_run_id, tv).payload->Object_0);
    runtime_event(
        event_type,
        RuntimeEventSource::Provider,
        RuntimeEventDurability::DurableRequired,
        true,
        false,
        object_of(entries),
    )
}

pub fn text_delta(node_id: &str, node_run_id: u128, text: String) -> (e: RuntimeEventPayload)
    ensures
        event_facts(e) == node_delta_facts("text_delta"@, node_id@, node_run_id, text@),
{
    node_delta("text_delta", node_id, node_run_id, text)
}

pub fn reasoning_delta(node_id: &str, node_run_id: u128, text: String) -> (e: RuntimeEventPayload)
    ensures
        event_facts(e) == node_delta_facts("reasoning_delta"@, node_id@, node_run_id, text@),
{
    node_delta("reasoning_delta", node_id, node_run_id, text)
}

/// Where a piece of the final answer comes from.
pub open spec fn presentation_facts(
    answer_node_id: Seq<char>,
    segment_index: int,
    source_node_id: Option<Seq<char>>,
    source_node_run_id: Option<u128>,
    source_output_key: Option<Seq<char>>,
) -> JsonSpec {
    let base = seq![
        ("kind"@, jstr("answer"@)),
        ("answer_node_id"@, jstr(answer_node_id)),
        ("segment_index"@, JsonSpec::Number(segment_index)),
    ];
    let a = match source_node_id {
        Some(n) => base.push(("source_node_id"@, jstr(n))),
        None => base,
    };
    let b = match source_node_run_id {
        Some(r) => a.push(("source_node_run_id"@, juuid(r))),
        None => a,
    };
    let c = match source_output_key {
        Some(k) => b.push(("source_output_key"@, jstr(k))),
        None => b,
    };
    JsonSpec::Object(c)
}

/// A piece of the final answer, streamed on behalf of the answer node.
pub open spec fn answer_delta_facts(
    event_type: Seq<char>,
    answer_node_id: Seq<char>,
    text: Seq<char>,
    segment_index: int,
    source_node_id: Option<Seq<char>>,
    source_node_run_id: Option<u128>,
    source_output_key: Option<Seq<char>>,
) -> EventFacts {
    EventFacts {
        event_type,
        source: RuntimeEventSource::Runtime,
        durability: RuntimeEventDurability::DurableRequired,
        persist_required: true,
        trace_visible: false,
        payload: JsonSpec::Object(
            seq![
                ("type"@, jstr(event_type)),
                ("node_id"@, jstr(answer_node_id)),
                ("text"@, jstr(text)),
                (
                    "presentation"@,
                    presentation_facts(
                        answer_node_id,
                        segment_index,
                        source_node_id,
                        source_node_run_id,
                        source_output_key,
                    ),
                ),
            ],
        ),
    }
}

fn answer_delta(
    event_type: &str,
    answer_node_id: &str,
    text: String,
    segment_index: usize,
    source_node_id: Option<&str>,
    source_node_run_id: Option<u128>,
    source_output_key: Option<&str>,
) -> (e: RuntimeEventPayload)
    requires
        segment_index <= i64::MAX,
    ensures
        event_facts(e) == answer_delta_facts(
            event_type@,
            answer_node_id@,
            text@,
            segment_index as int,
            crate::json::opt_str_view(source_node_id),
            source_node_run_id,
            crate::json::opt_str_view(source_output_key),
        ),
{
    let ghost tv = text@;
    let mut presentation: Vec<(String, JsonValue)> = Vec::new();
    presentation.push((to_string("kind"), text_value(ANSWER_PRESENTATION_KIND)));
    presentation.push((to_string("answer_node_id"), text_value(answer_node_id)));
    presentation.push((to_string("segment_index"), JsonValue::Number(segment_index as i64)));
    let ghost base = entry_views(presentation@);
    match source_node_id {
        Some(n) => presentation.push((to_string("source_node_id"), text_value(n))),
        None => {},
    }
    let ghost a = entry_views(presentation@);
    match source_node_run_id {
        Some(r) => presentation.push((to_string("source_node_run_id"), uuid_value(r))),
        None => {},
    }
    let ghost b = entry_views(presentation@);
    match source_output_key {
        Some(k) => presentation.push((to_string("source_output_key"), text_value(k))),
        None => {},
    }
    proof {
        let n = crate::json::opt_str_view(source_node_id);
        let k = crate::json::opt_str_view(source_output_key);
        assert(base =~= seq![
            ("kind"@, jstr("answer"@)),
            ("answer_node_id"@, jstr(answer_node_id@)),
            ("segment_index"@, JsonSpec::Number(segment_index as int)),
        ]);
        match source_node_id {
            Some(x) => assert(a =~= base.push(("source_node_id"@, jstr(x@)))),
            None => assert(a =~= base),
        }
        match source_node_run_id {
            Some(r) => assert(b =~= a.push(("source_node_run_id"@, juuid(r)))),
            None => assert(b =~= a),
        }
        match source_output_key {
            Some(x) => assert(entry_views(presentation@) =~= b.push(("source_output_key"@, jstr(x@)))),
            None => assert(entry_views(presentation@) =~= b),
        }
    }
    let pres = object_of(presentation);
    let ghost pv = pres@;
    let mut entries: Vec<(String, JsonValue)> = Vec::new();
    entries.push((to_string("type"), text_value(event_type)));
    entries.push((to_string("node_id"), text_value(answer_node_id)));
    entries.push((to_string("text"), JsonValue::Str(text)));
    entries.push((to_string("presentation"), pres));
    assert(entry_views(entries@) =~= seq![
        ("type"@, jstr(event_type@)),
        ("node_id"@, jstr(answer_node_id@)),
        ("text"@, jstr(tv)),
        ("presentation"@, pv),
    ]);
    runtime_event(
        event_type,
        RuntimeEventSource::Runtime,
        RuntimeEventDurability::DurableRequired,
        true,
        false,
        object_of(entries),
    )
}

pub fn answer_text_delta(
    answer_node_id: &str,
    text: String,
    segment_index: usize,
    source_node_id: Option<&str>,
    source_node_run_id: Option<u128>,
    source_output_key: Option<&str>,
) -> (e: RuntimeEventPayload)
    requires
        segment_index <= i64::MAX,
    ensures
        event_facts(e) == answer_delta_facts(
            "text_delta"@,
            answer_node_id@,
            text@,
            segment_index as int,
            crate::json::opt_str_view(source_node_id),
            source_node_run_id,
            crate::json::opt_str_view(source_output_key),
        ),
{
    answer_delta(
        "text_delta",
        answer_node_id,
        text,
        segment_index,
        source_node_id,
        source_node_run_id,
        source_output_key,
    )
}

pub fn answer_reasoning_delta(
    answer_node_id: &str,
    text: String,
    segment_index: usize,
    source_node_id: Option<&str>,
    source_node_run_id: Option<u128>,
    source_output_key: Option<&str>,
) -> (e: RuntimeEventPayload)
    requires
        segment_index <= i64::MAX,
    ensures
        event_facts(e) == answer_delta_facts(
            "reasoning_delta"@,
            answer_node_id@,
            text@,
            segment_index as int,
            crate::json::opt_str_view(source_node_id),
            source_node_run_id,
            crate::json::opt_str_view(source_output_key),
        ),
{
    answer_delta(
        "reasoning_delta",
        answer_node_id,
        text,
        segment_index,
        source_node_id,
        source_node_run_id,
        source_output_key,
    )
}

/// Whether a delta payload belongs to the final answer: its `presentation.kind` is `answer`.
pub open spec fn is_answer_payload(payload: JsonSpec) -> bool {
    match spec_get(payload, "presentation"@) {
        Some(p) => p is Object && match spec_get(p, "kind"@) {
            Some(k) => spec_as_str(k) == Some("answer"@),
            None => false,
        },
        None => false,
    }
}

pub fn is_answer_presentation_delta_payload(payload: &JsonValue) -> (b: bool)
    ensures
        b == is_answer_payload(payload@),
{
    match payload.get("presentation") {
        Some(p) => {
            if !p.is_object() {
                return false;
            }
            match p.get_str("kind") {
                Some(k) => crate::text::str_eq(k, ANSWER_PRESENTATION_KIND),
                None => false,
            }
        },
        None => false,
    }
}

/// Keeps an idle stream open.
pub open spec fn heartbeat_facts() -> EventFacts {
    EventFacts {
        event_type: "heartbeat"@,
        source: RuntimeEventSource::System,
        durability: RuntimeEventDurability::Ephemeral,
        persist_required: false,
        trace_visible: false,
        payload: JsonSpec::Object(seq![("type"@, jstr("heartbeat"@))]),
    }
}

pub fn heartbeat() -> (e: RuntimeEventPayload)
    ensures
        event_facts(e) == heartbeat_facts(),
{
    let mut entries: Vec<(String, JsonValue)> = Vec::new();
    entries.push((to_string("type"), text_value("heartbeat")));
    assert(entry_views(entries@) =~= heartbeat_facts().payload->Object_0);
    runtime_event(
        "heartbeat",
        RuntimeEventSource::System,
        RuntimeEventDurability::Ephemeral,
        false,
        false,
        object_of(entries),
    )
}

/// The event type of a visible internal tool route: the route's `event_type` when it is a
/// non-blank string, else `visible_internal_llm_tool_event`.
pub open spec fn route_event_type(route_event: JsonSpec) -> Seq<char> {
    match crate::json::get_str(route_event, "event_type"@) {
        Some(t) => if !is_blank(t) {
            t
        } else {
            "visible_internal_llm_tool_event"@
        },
        None => "visible_internal_llm_tool_event"@,
    }
}

/// The payload of a visible internal tool route: the route's own fields (when it is an object),
/// with `type`, `run_id`, `node_run_id` and `node_id` set.
pub open spec fn route_payload(route_event: JsonSpec, run_id: u128, node_run_id: u128, node_id: Seq<char>) -> JsonSpec {
    let base = match route_event {
        JsonSpec::Object(entries) => entries,
        _ => seq![],
    };
    JsonSpec::Object(
        entries_insert(
            entries_insert(
                entries_insert(
                    entries_insert(base, "type"@, jstr(route_event_type(route_event))),
                    "run_id"@,
                    juuid(run_id),
                ),
                "node_run_id"@,
                juuid(node_run_id),
            ),
            "node_id"@,
            jstr(node_id),
        ),
    )
}

pub fn visible_internal_llm_tool_route(
    run_id: u128,
    node_run_id: u128,
    node_id: &str,
    route_event: &JsonValue,
) -> (e: RuntimeEventPayload)
    ensures
        event_facts(e) == (EventFacts {
            event_type: route_event_type(route_event@),
            source: RuntimeEventSource::Runtime,
            durability: RuntimeEventDurability::DurableRequired,
            persist_required: true,
            trace_visible: true,
            payload: route_payload(route_event@, run_id, node_run_id, node_id@),
        }),
{
    let event_type = match route_event.get_str("event_type") {
        Some(t) => if !is_blank_text(t) {
            to_string(t)
        } else {
            to_string("visible_internal_llm_tool_event")
        },
        None => to_string("visible_internal_llm_tool_event"),
    };
    let copy = clone_json(route_event);
    let mut payload: Vec<(String, JsonValue)> = match copy {
        JsonValue::Object(entries) => {
            proof {
                lemma_object_view(entries);
            }
            entries
        },
        _ => Vec::new(),
    };
    assert(entry_views(payload@) =~= match route_event@ {
        JsonSpec::Object(entries) => entries,
        _ => seq![],
    });
    object_insert(&mut payload, to_string("type"), JsonValue::Str(event_type.clone()));
    object_insert(&mut payload, to_string("run_id"), uuid_value(run_id));
    object_insert(&mut payload, to_string("node_run_id"), uuid_value(node_run_id));
    object_insert(&mut payload, to_string("node_id"), text_value(node_id));
    RuntimeEventPayload {
        event_type,
        source: RuntimeEventSource::Runtime,
        durability: RuntimeEventDurability::DurableRequired,
        persist_required: true,
        trace_visible: true,
        payload: object_of(payload),
    }
}

/// The message of a failed run: the payload's `message` when it is a string, a fixed text for a
/// null payload, else the payload's compact JSON text.
pub open spec fn failure_message(error_payload: JsonSpec) -> Seq<char> {
    match crate::json::get_str(error_payload, "message"@) {
        Some(m) => m,
        None => if error_payload is Null {
            "flow debug run failed"@
        } else {
            vstd::utf8::decode_utf8(crate::outside::json_compact_bytes(error_payload))
        },
    }
}

pub open spec fn flow_failed_facts(run_id: u128, error_payload: JsonSpec) -> EventFacts {
    EventFacts {
        event_type: "flow_failed"@,
        source: RuntimeEventSource::Runtime,
        durability: RuntimeEventDurability::DurableRequired,
        persist_required: true,
        trace_visible: true,
        payload: JsonSpec::Object(
            seq![
                ("type"@, jstr("flow_failed"@)),
                ("run_id"@, juuid(run_id)),
                ("error"@, jstr(failure_message(error_payload))),
                ("error_payload"@, error_payload),
            ],
        ),
    }
}

/// A run failed; the payload carries the error and its message.
pub fn flow_failed(run_id: u128, error_payload: JsonValue) -> (e: RuntimeEventPayload)
    ensures
        event_facts(e) == flow_failed_facts(run_id, error_payload@),
{
    let ghost ep = error_payload@;
    let error = match error_payload.get_str("message") {
        Some(m) => to_string(m),
        None => if error_payload.is_null() {
            to_string("flow debug run failed")
        } else {
            crate::json::to_compact_string(&error_payload)
        },
    };
    let mut entries: Vec<(String, JsonValue)> = Vec::new();
    entries.push((to_string("type"), text_value("flow_failed")));
    entries.push((to_string("run_id"), uuid_value(run_id)));
    entries.push((to_string("error"), JsonValue::Str(error)));
    entries.push((to_string("error_payload"), error_payload));
    assert(entry_views(entries@) =~= flow_failed_facts(run_id, ep).payload->Object_0);
    runtime_event(
        "flow_failed",
        RuntimeEventSource::Runtime,
        RuntimeEventDurability::DurableRequired,
        true,
        true,
        object_of(entries),
    )
}

/// A callback task a node waits on.
pub struct CallbackTaskRecord {
    pub id: u128,
    pub flow_run_id: u128,
    pub node_run_id: u128,
    pub callback_kind: String,
    pub request_payload: JsonValue,
}

/// What the client is asked to do for a callback task: submit tool outputs for LLM tool calls,
/// else answer the callback.
pub open spec fn callback_action_type(callback_kind: Seq<char>) -> Seq<char> {
    if callback_kind == "llm_tool_calls"@ {
        "submit_tool_outputs"@
    } else {
        "callback"@
    }
}

/// The tool calls of a request payload, null when it names none.
pub open spec fn request_tool_calls(request_payload: JsonSpec) -> JsonSpec {
    match spec_get(request_payload, "tool_calls"@) {
        Some(t) => t,
        None => JsonSpec::Null,
    }
}

pub open spec fn waiting_callback_task_facts(
    run_id: u128,
    node_run_id: u128,
    node_id: Seq<char>,
    task_id: u128,
    task_flow_run_id: u128,
    task_node_run_id: u128,
    callback_kind: Seq<char>,
    request_payload: JsonSpec,
) -> EventFacts {
    let tool_calls = request_tool_calls(request_payload);
    EventFacts {
        event_type: "waiting_callback"@,
        source: RuntimeEventSource::Runtime,
        durability: RuntimeEventDurability::DurableRequired,
        persist_required: true,
        trace_visible: true,
        payload: JsonSpec::Object(
            seq![
                ("type"@, jstr("waiting_callback"@)),
                ("run_id"@, juuid(run_id)),
                ("node_run_id"@, juuid(node_run_id)),
                ("node_id"@, jstr(node_id)),
                ("status"@, jstr("waiting_callback"@)),
                ("callback_task_id"@, juuid(task_id)),
                ("callback_kind"@, jstr(callback_kind)),
                ("request_payload"@, request_payload),
                ("tool_calls"@, tool_calls),
                (
                    "required_action"@,
                    JsonSpec::Object(
                        seq![
                            ("action_type"@, jstr(callback_action_type(callback_kind))),
                            (
                                "payload"@,
                                JsonSpec::Object(
                                    seq![
                                        ("callback_task_id"@, juuid(task_id)),
                                        ("callback_kind"@, jstr(callback_kind)),
                                        ("flow_run_id"@, juuid(task_flow_run_id)),
                                        ("node_run_id"@, juuid(task_node_run_id)),
                                        ("request_payload"@, request_payload),
                                        ("tool_calls"@, tool_calls),
                                    ],
                                ),
                            ),
                        ],
                    ),
                ),
            ],
        ),
    }
}

/// A node waits on a callback task; the payload says what the client is to do.
pub fn waiting_callback_with_task(
    run_id: u128,
    node_run_id: u128,
    node_id: &str,
    task: &CallbackTaskRecord,
) -> (e: RuntimeEventPayload)
    ensures
        event_facts(e) == waiting_callback_task_facts(
            run_id,
            node_run_id,
            node_id@,
            task.id,
            task.flow_run_id,
            task.node_run_id,
            task.callback_kind@,
            task.request_payload@,
        ),
{
    let action_type = if crate::text::str_eq(task.callback_kind.as_str(), "llm_tool_calls") {
        "submit_tool_outputs"
    } else {
        "callback"
    };
    let tool_calls = match task.request_payload.get("tool_calls") {
        Some(t) => clone_json(t),
        None => JsonValue::Null,
    };
    let mut inner: Vec<(String, JsonValue)> = Vec::new();
    inner.push((to_string("callback_task_id"), uuid_value(task.id)));
    inner.push((to_string("callback_kind"), text_value(task.callback_kind.as_str())));
    inner.push((to_string("flow_run_id"), uuid_value(task.flow_run_id)));
    inner.push((to_string("node_run_id"), uuid_value(task.node_run_id)));
    inner.push((to_string("request_payload"), clone_json(&task.request_payload)));
    inner.push((to_string("tool_calls"), clone_json(&tool_calls)));
    let ghost f = waiting_callback_task_facts(
        run_id,
        node_run_id,
        node_id@,
        task.id,
        task.flow_run_id,
        task.node_run_id,
        task.callback_kind@,
        task.request_payload@,
    );
    assert(tool_calls@ == request_tool_calls(task.request_payload@));
    assert(entry_views(inner@) =~= f.payload->Object_0[9].1->Object_0[1].1->Object_0);
    let mut action: Vec<(String, JsonValue)> = Vec::new();
    action.push((to_string("action_type"), text_value(action_type)));
    action.push((to_string("payload"), object_of(inner)));
    let mut entries: Vec<(String, JsonValue)> = Vec::new();
    entries.push((to_string("type"), text_value("waiting_callback")));
    entries.push((to_string("run_id"), uuid_value(run_id)));
    entries.push((to_string("node_run_id"), uuid_value(node_run_id)));
    entries.push((to_string("node_id"), text_value(node_id)));
    entries.push((to_string("status"), text_value("waiting_callback")));
    entries.push((to_string("callback_task_id"), uuid_value(task.id)));
    entries.push((to_string("callback_kind"), text_value(task.callback_kind.as_str())));
    entries.push((to_string("request_payload"), clone_json(&task.request_payload)));
    entries.push((to_string("tool_calls"), tool_calls));
    entries.push((to_string("required_action"), object_of(action)));
    proof {
        let req = f.payload->Object_0[9].1;
        assert(entry_views(action@) =~= req->Object_0);
        assert(entry_views(entries@) =~= f.payload->Object_0);
    }
    runtime_event(
        "waiting_callback",
        RuntimeEventSource::Runtime,
        RuntimeEventDurability::DurableRequired,
        true,
        true,
        object_of(entries),
    )
}

/// A node run as the events about it show it; payloads and timestamps are given in their JSON
/// form.
pub struct NodeRunRecord {
    pub id: u128,
    pub node_id: String,
    pub node_type: String,
    pub node_alias: String,
    pub status: String,
    pub input_payload: JsonValue,
    pub output_payload: JsonValue,
    pub error_payload: JsonValue,
    pub metrics_payload: JsonValue,
    pub started_at: JsonValue,
    pub finished_at: JsonValue,
}

pub open spec fn node_started_facts(n: NodeRunRecord) -> EventFacts {
    EventFacts {
        event_type: "node_started"@,
        source: RuntimeEventSource::Runtime,
        durability: RuntimeEventDurability::DurableRequired,
        persist_required: true,
        trace_visible: true,
        payload: JsonSpec::Object(
            seq![
                ("type"@, jstr("node_started"@)),
                ("node_run_id"@, juuid(n.id)),
                ("node_id"@, jstr(n.node_id@)),
                ("node_type"@, jstr(n.node_type@)),
                ("title"@, jstr(n.node_alias@)),
                ("input_payload"@, n.input_payload@),
                ("started_at"@, n.started_at@),
            ],
        ),
    }
}

/// A node run started.
pub fn node_started(node_run: &NodeRunRecord) -> (e: RuntimeEventPayload)
    ensures
        event_facts(e) == node_started_facts(*node_run),
{
    let mut entries: Vec<(String, JsonValue)> = Vec::new();
    entries.push((to_string("type"), text_value("node_started")));
    entries.push((to_string("node_run_id"), uuid_value(node_run.id)));
    entries.push((to_string("node_id"), text_value(node_run.node_id.as_str())));
    entries.push((to_string("node_type"), text_value(node_run.node_type.as_str())));
    entries.push((to_string("title"), text_value(node_run.node_alias.as_str())));
    entries.push((to_string("input_payload"), clone_json(&node_run.input_payload)));
    entries.push((to_string("started_at"), clone_json(&node_run.started_at)));
    assert(entry_views(entries@) =~= node_started_facts(*node_run).payload->Object_0);
    runtime_event(
        "node_started",
        RuntimeEventSource::Runtime,
        RuntimeEventDurability::DurableRequired,
        true,
        true,
        object_of(entries),
    )
}

pub open spec fn node_finished_facts(n: NodeRunRecord) -> EventFacts {
    EventFacts {
        event_type: "node_finished"@,
        source: RuntimeEventSource::Runtime,
        durability: RuntimeEventDurability::DurableRequired,
        persist_required: true,
        trace_visible: true,
        payload: JsonSpec::Object(
            seq![
                ("type"@, jstr("node_finished"@)),
                ("node_run_id"@, juuid(n.id)),
                ("node_id"@, jstr(n.node_id@)),
                ("node_type"@, jstr(n.node_type@)),
                ("status"@, jstr(n.status@)),
                ("output_payload"@, n.output_payload@),
                ("error_payload"@, n.error_payload@),
                ("metrics_payload"@, n.metrics_payload@),
                ("started_at"@, n.started_at@),
                ("finished_at"@, n.finished_at@),
            ],
        ),
    }
}

/// A node run finished, with its outputs, error and metrics.
pub fn node_finished(node_run: &NodeRunRecord) -> (e: RuntimeEventPayload)
    ensures
        event_facts(e) == node_finished_facts(*node_run),
{
    let mut entries: Vec<(String, JsonValue)> = Vec::new();
    entries.push((to_string("type"), text_value("node_finished")));
    entries.push((to_string("node_run_id"), uuid_value(node_run.id)));
    entries.push((to_string("node_id"), text_value(node_run.node_id.as_str())));
    entries.push((to_string("node_type"), text_value(node_run.node_type.as_str())));
    entries.push((to_string("status"), text_value(node_run.status.as_str())));
    entries.push((to_string("output_payload"), clone_json(&node_run.output_payload)));
    entries.push((to_string("error_payload"), clone_json(&node_run.error_payload)));
    entries.push((to_string("metrics_payload"), clone_json(&node_run.metrics_payload)));
    entries.push((to_string("started_at"), clone_json(&node_run.started_at)));
    entries.push((to_string("finished_at"), clone_json(&node_run.finished_at)));
    assert(entry_views(entries@) =~= node_finished_facts(*node_run).payload->Object_0);
    runtime_event(
        "node_finished",
        RuntimeEventSource::Runtime,
        RuntimeEventDurability::DurableRequired,
        true,
        true,
        object_of(entries),
    )
}

} // verus!
