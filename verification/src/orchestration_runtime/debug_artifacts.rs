//! Large debug payloads are offloaded to artifacts; a preview stays inline.

use vstd::prelude::*;
use vstd::utf8::{decode_utf8, encode_utf8};
use crate::json::{get_bool, JsonSpec, JsonValue};
use crate::outside::{
    json_compact_bytes, json_to_vec, utf8_lossy, uuid_hyphenated, uuid_to_hyphenated,
};
use crate::text::{chars_of, char_utf8_width, char_width, lemma_encode_push, str_eq, to_string, utf8_byte_len};

verus! {

pub const RUNTIME_DEBUG_ARTIFACT_CONTENT_TYPE_JSON: &'static str = "application/json";

pub const RUNTIME_DEBUG_ARTIFACT_RETENTION_ACTIVE: &'static str = "active";

pub const FLOW_PAYLOAD_BUDGET_BYTES: usize = 2048;

pub const NODE_PAYLOAD_BUDGET_BYTES: usize = 2048;

pub const EVENT_PAYLOAD_BUDGET_BYTES: usize = 1024;

pub const SNAPSHOT_VALUE_BUDGET_BYTES: usize = 1024;

/// The inline byte budget of a payload kind.
pub open spec fn inline_budget(kind: Seq<char>) -> usize {
    if kind == "flow_input_payload"@ || kind == "flow_output_payload"@ || kind
        == "flow_error_payload"@ {
        FLOW_PAYLOAD_BUDGET_BYTES
    } else if kind == "node_input_payload"@ || kind == "node_output_payload"@ || kind
        == "node_error_payload"@ || kind == "node_metrics_payload"@ || kind
        == "node_debug_payload"@ {
        NODE_PAYLOAD_BUDGET_BYTES
    } else if kind == "run_event_payload"@ || kind == "provider_raw_event"@ || kind
        == "provider_raw_response"@ {
        EVENT_PAYLOAD_BUDGET_BYTES
    } else if kind == "debug_snapshot_value"@ {
        SNAPSHOT_VALUE_BUDGET_BYTES
    } else {
        NODE_PAYLOAD_BUDGET_BYTES
    }
}

/// Inline byte budget of a payload kind: flow payloads 2048, node payloads 2048, events and raw
/// provider traffic 1024, debug snapshot values 1024; any other kind is treated as a node payload.
pub fn inline_budget_for_kind(kind: &str) -> (budget: usize)
    ensures
        budget == inline_budget(kind@),
        kind@ == "run_event_payload"@ || kind@ == "provider_raw_event"@ || kind@ == "provider_raw_response"@
            ==> budget == 1024,
        kind@ == "debug_snapshot_value"@ ==> budget == 1024,
        flow_payload_kinds().contains(kind@) || node_payload_kinds().contains(kind@) ==> budget == 2048,
        !flow_payload_kinds().contains(kind@) && !node_payload_kinds().contains(kind@)
            && !event_traffic_kinds().contains(kind@) && kind@ != "debug_snapshot_value"@ ==> budget == 2048,
{
    proof {
        law_payload_budgets(kind@);
        assert(inline_budget("node_output_payload"@) == 2048) by {
            law_payload_budgets("node_output_payload"@);
            assert(node_payload_kinds()[1] == "node_output_payload"@);
        }
        if kind@ == "run_event_payload"@ || kind@ == "provider_raw_event"@ || kind@ == "provider_raw_response"@ {
            assert(event_traffic_kinds()[0] == "run_event_payload"@);
            assert(event_traffic_kinds()[1] == "provider_raw_event"@);
            assert(event_traffic_kinds()[2] == "provider_raw_response"@);
            law_event_traffic_shares_one_budget(kind@);
        }
    }
    if str_eq(kind, "flow_input_payload") || str_eq(kind, "flow_output_payload") || str_eq(
        kind,
        "flow_error_payload",
    ) {
        FLOW_PAYLOAD_BUDGET_BYTES
    } else if str_eq(kind, "node_input_payload") || str_eq(kind, "node_output_payload") || str_eq(
        kind,
        "node_error_payload",
    ) || str_eq(kind, "node_metrics_payload") || str_eq(kind, "node_debug_payload") {
        NODE_PAYLOAD_BUDGET_BYTES
    } else if str_eq(kind, "run_event_payload") || str_eq(kind, "provider_raw_event") || str_eq(
        kind,
        "provider_raw_response",
    ) {
        EVENT_PAYLOAD_BUDGET_BYTES
    } else if str_eq(kind, "debug_snapshot_value") {
        SNAPSHOT_VALUE_BUDGET_BYTES
    } else {
        NODE_PAYLOAD_BUDGET_BYTES
    }
}

/// The kinds of a run's event traffic: run events and the raw events and responses of providers.
pub open spec fn event_traffic_kinds() -> Seq<Seq<char>> {
    seq!["run_event_payload"@, "provider_raw_event"@, "provider_raw_response"@]
}

/// Every kind of event traffic gets the event budget, 1024 bytes, half a node payload's: run
/// events share the budget of raw provider events.
pub proof fn law_event_traffic_shares_one_budget(kind: Seq<char>)
    requires
        event_traffic_kinds().contains(kind),
    ensures
        inline_budget(kind) == 1024,
        inline_budget(kind) == inline_budget("provider_raw_event"@),
        2 * inline_budget(kind) == inline_budget("node_output_payload"@),
{
    reveal_strlit("run_event_payload");
    reveal_strlit("provider_raw_event");
    reveal_strlit("provider_raw_response");
    reveal_strlit("flow_input_payload");
    reveal_strlit("flow_output_payload");
    reveal_strlit("flow_error_payload");
    reveal_strlit("node_input_payload");
    reveal_strlit("node_output_payload");
    reveal_strlit("node_error_payload");
    reveal_strlit("node_metrics_payload");
    reveal_strlit("node_debug_payload");
    let k = choose|i: int| 0 <= i < event_traffic_kinds().len() && event_traffic_kinds()[i] == kind;
    assert(kind == event_traffic_kinds()[k]);
    // Event kinds start with `r` or `p`; flow and node kinds with `f` or `n`.
    assert(kind[0] == 'r' || kind[0] == 'p');
    assert(kind != "flow_input_payload"@ && kind != "flow_output_payload"@ && kind != "flow_error_payload"@) by {
        assert(("flow_input_payload"@)[0] == 'f');
        assert(("flow_output_payload"@)[0] == 'f');
        assert(("flow_error_payload"@)[0] == 'f');
    }
    assert(kind != "node_input_payload"@ && kind != "node_output_payload"@ && kind != "node_error_payload"@
        && kind != "node_metrics_payload"@ && kind != "node_debug_payload"@) by {
        assert(("node_input_payload"@)[0] == 'n');
        assert(("node_output_payload"@)[0] == 'n');
        assert(("node_error_payload"@)[0] == 'n');
        assert(("node_metrics_payload"@)[0] == 'n');
        assert(("node_debug_payload"@)[0] == 'n');
    }
    assert(("provider_raw_event"@)[0] == 'p');
    assert(("node_output_payload"@)[0] == 'n');
    assert("node_output_payload"@ != "flow_input_payload"@ && "node_output_payload"@ != "flow_output_payload"@
        && "node_output_payload"@ != "flow_error_payload"@) by {
        assert(("flow_input_payload"@)[0] == 'f');
        assert(("flow_output_payload"@)[0] == 'f');
        assert(("flow_error_payload"@)[0] == 'f');
    }
}

/// The kinds of a flow's own payloads.
pub open spec fn flow_payload_kinds() -> Seq<Seq<char>> {
    seq!["flow_input_payload"@, "flow_output_payload"@, "flow_error_payload"@]
}

/// The kinds of a node's payloads.
pub open spec fn node_payload_kinds() -> Seq<Seq<char>> {
    seq![
        "node_input_payload"@,
        "node_output_payload"@,
        "node_error_payload"@,
        "node_metrics_payload"@,
        "node_debug_payload"@,
    ]
}

/// Flow and node payloads keep up to 2048 bytes inline, debug snapshot values 1024; a kind that
/// is none of the listed ones is budgeted as a node payload.
pub proof fn law_payload_budgets(kind: Seq<char>)
    ensures
        flow_payload_kinds().contains(kind) ==> inline_budget(kind) == 2048,
        node_payload_kinds().contains(kind) ==> inline_budget(kind) == 2048,
        kind == "debug_snapshot_value"@ ==> inline_budget(kind) == 1024,
        !flow_payload_kinds().contains(kind) && !node_payload_kinds().contains(kind)
            && !event_traffic_kinds().contains(kind) && kind != "debug_snapshot_value"@ ==> inline_budget(kind)
            == inline_budget("node_output_payload"@),
{
    reveal_strlit("flow_input_payload");
    reveal_strlit("flow_output_payload");
    reveal_strlit("flow_error_payload");
    reveal_strlit("node_input_payload");
    reveal_strlit("node_output_payload");
    reveal_strlit("node_error_payload");
    reveal_strlit("node_metrics_payload");
    reveal_strlit("node_debug_payload");
    reveal_strlit("run_event_payload");
    reveal_strlit("provider_raw_event");
    reveal_strlit("provider_raw_response");
    reveal_strlit("debug_snapshot_value");
    assert(("flow_input_payload"@)[0] == 'f');
    assert(("flow_output_payload"@)[0] == 'f');
    assert(("flow_error_payload"@)[0] == 'f');
    assert(("node_input_payload"@)[0] == 'n');
    assert(("node_output_payload"@)[0] == 'n');
    assert(("node_error_payload"@)[0] == 'n');
    assert(("node_metrics_payload"@)[0] == 'n');
    assert(("node_debug_payload"@)[0] == 'n');
    assert(("run_event_payload"@)[0] == 'r');
    assert(("provider_raw_event"@)[0] == 'p');
    assert(("provider_raw_response"@)[0] == 'p');
    assert(("debug_snapshot_value"@)[0] == 'd');
    if flow_payload_kinds().contains(kind) {
        let k = choose|i: int| 0 <= i < flow_payload_kinds().len() && flow_payload_kinds()[i] == kind;
        assert(kind == flow_payload_kinds()[k]);
    }
    if node_payload_kinds().contains(kind) {
        let k = choose|i: int| 0 <= i < node_payload_kinds().len() && node_payload_kinds()[i] == kind;
        assert(kind == node_payload_kinds()[k]);
        assert(kind[0] == 'n');
    }
    if !flow_payload_kinds().contains(kind) && !node_payload_kinds().contains(kind) && !event_traffic_kinds().contains(
        kind,
    ) && kind != "debug_snapshot_value"@ {
        assert(kind != flow_payload_kinds()[0] && kind != flow_payload_kinds()[1] && kind != flow_payload_kinds()[2]);
        assert(kind != node_payload_kinds()[0] && kind != node_payload_kinds()[1] && kind != node_payload_kinds()[2]
            && kind != node_payload_kinds()[3] && kind != node_payload_kinds()[4]);
        assert(kind != event_traffic_kinds()[0] && kind != event_traffic_kinds()[1] && kind
            != event_traffic_kinds()[2]);
    }
}

/// Whether a value is itself an artifact preview.
pub open spec fn is_preview(v: JsonSpec) -> bool {
    get_bool(v, "__runtime_debug_artifact"@) == Some(true)
}

pub fn is_runtime_debug_artifact_preview(value: &JsonValue) -> (b: bool)
    ensures
        b == is_preview(value@),
{
    match value.get_bool("__runtime_debug_artifact") {
        Some(b) => b,
        None => false,
    }
}

/// The longest prefix of a text whose UTF-8 encoding fits in `max` bytes.
pub open spec fn truncate_by_bytes(s: Seq<char>, max: int) -> Seq<char>
    decreases s.len(),
{
    if s.len() == 0 {
        seq![]
    } else if char_width(s[0]) > max {
        seq![]
    } else {
        seq![s[0]] + truncate_by_bytes(s.drop_first(), max - char_width(s[0]))
    }
}

pub proof fn lemma_truncate_fits(s: Seq<char>, max: int)
    requires
        max >= 0,
    ensures
        utf8_byte_len(truncate_by_bytes(s, max)) <= max,
        truncate_by_bytes(s, max).len() <= s.len(),
    decreases s.len(),
{
    if s.len() > 0 && char_width(s[0]) <= max {
        let rest = truncate_by_bytes(s.drop_first(), max - char_width(s[0]));
        lemma_truncate_fits(s.drop_first(), max - char_width(s[0]));
        assert((seq![s[0]] + rest).drop_first() =~= rest);
    }
}

/// A truncated text is a prefix of the text that fits the byte budget, and it stops only where
/// the next character would no longer fit: no character is dropped that the budget could hold.
pub proof fn law_truncation_is_longest_fitting_prefix(s: Seq<char>, max: int)
    requires
        max >= 0,
    ensures
        truncate_by_bytes(s, max).len() <= s.len(),
        truncate_by_bytes(s, max) == s.take(truncate_by_bytes(s, max).len() as int),
        utf8_byte_len(truncate_by_bytes(s, max)) <= max,
        truncate_by_bytes(s, max).len() < s.len() ==> utf8_byte_len(truncate_by_bytes(s, max))
            + char_width(s[truncate_by_bytes(s, max).len() as int]) > max,
    decreases s.len(),
{
    let t = truncate_by_bytes(s, max);
    if s.len() == 0 || char_width(s[0]) > max {
        assert(t =~= s.take(0));
        assert(encode_utf8(t) =~= Seq::<u8>::empty());
    } else {
        let w = char_width(s[0]);
        let rest = s.drop_first();
        let tr = truncate_by_bytes(rest, max - w);
        law_truncation_is_longest_fitting_prefix(rest, max - w);
        assert(t == seq![s[0]] + tr);
        assert(t.drop_first() =~= tr);
        assert(t[0] == s[0]);
        assert(utf8_byte_len(t) == w + utf8_byte_len(tr));
        assert(t =~= s.take(t.len() as int));
        if t.len() < s.len() {
            assert(s[t.len() as int] == rest[tr.len() as int]);
        }
    }
}

/// The longest prefix of `value` whose UTF-8 encoding fits in `max_bytes` bytes.
pub fn truncate_utf8_by_bytes(value: &str, max_bytes: usize) -> (out: String)
    ensures
        out@ == truncate_by_bytes(value@, max_bytes as int),
        utf8_byte_len(out@) <= max_bytes,
{
    truncate_with_byte_len(value, max_bytes).0
}

/// The truncated prefix together with its length in bytes.
fn truncate_with_byte_len(value: &str, max_bytes: usize) -> (r: (String, usize))
    ensures
        r.0@ == truncate_by_bytes(value@, max_bytes as int),
        r.1 == utf8_byte_len(r.0@),
        r.1 <= max_bytes,
{
    let chars = chars_of(value);
    let ghost s = value@;
    let mut out = String::new();
    let mut used: usize = 0;
    let mut i: usize = 0;
    assert(s.skip(0) =~= s);
    while i < chars.len()
        invariant
            chars@ == s,
            i <= chars.len(),
            out@ == s.take(i as int),
            used == utf8_byte_len(out@),
            used <= max_bytes,
            truncate_by_bytes(s, max_bytes as int) == out@ + truncate_by_bytes(
                s.skip(i as int),
                max_bytes - used,
            ),
        ensures
            out@ == truncate_by_bytes(s, max_bytes as int),
            used == utf8_byte_len(out@),
            used <= max_bytes,
        decreases chars.len() - i,
    {
        let c = chars[i];
        let w = char_utf8_width(c);
        assert(s.skip(i as int)[0] == c);
        if w > max_bytes - used {
            assert(truncate_by_bytes(s.skip(i as int), max_bytes - used) =~= seq![]);
            assert(out@ + seq![] =~= out@);
            break;
        }
        proof {
            lemma_encode_push(out@, c);
            assert(s.skip(i as int).drop_first() =~= s.skip(i + 1));
            assert(s.take(i + 1) =~= s.take(i as int).push(c));
            assert(out@ + (seq![c] + truncate_by_bytes(s.skip(i + 1), max_bytes - used - w))
                =~= out@.push(c) + truncate_by_bytes(s.skip(i + 1), max_bytes - used - w));
        }
        out.push(c);
        used = used + w;
        i = i + 1;
    }
    (out, used)
}

/// An artifact that holds a payload too large to keep inline, with the preview that replaces it.
pub struct RuntimeDebugArtifactPreview {
    pub artifact_id: u128,
    pub full_bytes: Vec<u8>,
    pub preview_value: JsonValue,
    pub original_size_bytes: i64,
    pub preview_size_bytes: i64,
}

/// The preview object that stands in for an offloaded payload.
pub open spec fn preview_object(
    artifact_id: u128,
    original_size_bytes: i64,
    preview_size_bytes: i64,
    preview: Seq<char>,
) -> JsonSpec {
    JsonSpec::Object(
        seq![
            ("__runtime_debug_artifact"@, JsonSpec::Bool(true)),
            ("is_truncated"@, JsonSpec::Bool(true)),
            ("original_size_bytes"@, JsonSpec::Number(original_size_bytes as int)),
            ("preview_size_bytes"@, JsonSpec::Number(preview_size_bytes as int)),
            ("content_type"@, JsonSpec::Str("application/json"@)),
            ("artifact_ref"@, JsonSpec::Str(uuid_hyphenated(artifact_id))),
            ("preview"@, JsonSpec::Str(preview)),
        ],
    )
}

/// The preview text of a payload: its serialized text cut to the budget.
pub open spec fn preview_text(value: JsonSpec, budget_bytes: int) -> Seq<char> {
    truncate_by_bytes(decode_utf8(json_compact_bytes(value)), budget_bytes)
}

/// Offloads a payload whose serialized form exceeds the budget. Nothing is offloaded when the
/// value is already a preview or fits the budget.
pub fn build_runtime_debug_artifact_preview(
    artifact_id: u128,
    value: &JsonValue,
    budget_bytes: usize,
) -> (r: Option<RuntimeDebugArtifactPreview>)
    ensures
        match r {
            None => is_preview(value@) || json_compact_bytes(value@).len() <= budget_bytes,
            Some(p) => {
                &&& !is_preview(value@)
                &&& json_compact_bytes(value@).len() > budget_bytes
                &&& p.artifact_id == artifact_id
                &&& p.full_bytes@ == json_compact_bytes(value@)
                &&& p.original_size_bytes == json_compact_bytes(value@).len() as i64
                &&& p.preview_size_bytes == utf8_byte_len(
                    preview_text(value@, budget_bytes as int),
                ) as i64
                &&& utf8_byte_len(preview_text(value@, budget_bytes as int)) <= budget_bytes
                &&& p.preview_value@ == preview_object(
                    artifact_id,
                    p.original_size_bytes,
                    p.preview_size_bytes,
                    preview_text(value@, budget_bytes as int),
                )
            },
        },
{
    if is_runtime_debug_artifact_preview(value) {
        return None;
    }
    let full_bytes = json_to_vec(value);
    if full_bytes.len() <= budget_bytes {
        return None;
    }
    let full_text = utf8_lossy(full_bytes.as_slice());
    let (preview, preview_len) = truncate_with_byte_len(full_text.as_str(), budget_bytes);
    let preview_size_bytes = preview_len as i64;
    let original_size_bytes = full_bytes.len() as i64;
    let mut entries: Vec<(String, JsonValue)> = Vec::new();
    entries.push((to_string("__runtime_debug_artifact"), JsonValue::Bool(true)));
    entries.push((to_string("is_truncated"), JsonValue::Bool(true)));
    entries.push((to_string("original_size_bytes"), JsonValue::Number(original_size_bytes)));
    entries.push((to_string("preview_size_bytes"), JsonValue::Number(preview_size_bytes)));
    entries.push(
        (
            to_string("content_type"),
            JsonValue::Str(to_string(RUNTIME_DEBUG_ARTIFACT_CONTENT_TYPE_JSON)),
        ),
    );
    entries.push((to_string("artifact_ref"), JsonValue::Str(uuid_to_hyphenated(artifact_id))));
    entries.push((to_string("preview"), JsonValue::Str(preview)));
    let preview_value = JsonValue::Object(entries);
    proof {
        crate::json::lemma_object_view(entries);
        assert(crate::json::entry_views(entries@) =~= preview_object(
            artifact_id,
            original_size_bytes,
            preview_size_bytes,
            preview_text(value@, budget_bytes as int),
        )->Object_0);
    }
    Some(
        RuntimeDebugArtifactPreview {
            artifact_id,
            full_bytes,
            preview_value,
            original_size_bytes,
            preview_size_bytes,
        },
    )
}

/// Storage path of an artifact: `runtime-debug/{workspace}/{application}[/{flow_run}]/{artifact}.json`.
pub open spec fn artifact_object_path(
    workspace_id: u128,
    application_id: u128,
    flow_run_id: Option<u128>,
    artifact_id: u128,
) -> Seq<char> {
    let base = "runtime-debug/"@ + uuid_hyphenated(workspace_id) + "/"@ + uuid_hyphenated(
        application_id,
    ) + "/"@;
    match flow_run_id {
        Some(run) => base + uuid_hyphenated(run) + "/"@ + uuid_hyphenated(artifact_id) + ".json"@,
        None => base + uuid_hyphenated(artifact_id) + ".json"@,
    }
}

pub fn build_runtime_debug_artifact_object_path(
    workspace_id: u128,
    application_id: u128,
    flow_run_id: Option<u128>,
    artifact_id: u128,
) -> (path: String)
    ensures
        path@ == artifact_object_path(workspace_id, application_id, flow_run_id, artifact_id),
{
    let mut path = to_string("runtime-debug/");
    path.push_str(uuid_to_hyphenated(workspace_id).as_str());
    path.push_str("/");
    path.push_str(uuid_to_hyphenated(application_id).as_str());
    path.push_str("/");
    match flow_run_id {
        Some(run) => {
            path.push_str(uuid_to_hyphenated(run).as_str());
            path.push_str("/");
        },
        None => {},
    }
    path.push_str(uuid_to_hyphenated(artifact_id).as_str());
    path.push_str(".json");
    proof {
        match flow_run_id {
            Some(run) => {},
            None => {},
        }
    }
    path
}

} // verus!
