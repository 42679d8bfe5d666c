//! What a run's stream of debug events leaves to be stored: consecutive deltas of one node
//! stream are merged into one stored event, other events are stored as they are.

use vstd::prelude::*;
use crate::json::{
    clone_json, entry_views, get_array, get_bool, get_str, lemma_array_view, spec_as_i64,
    spec_as_str, spec_get, views, JsonSpec, JsonValue,
};
use crate::orchestration_runtime::debug_stream_events::{jstr, juuid, object_of, text_value, uuid_value};
use crate::text::{starts_with, str_eq, string_views, to_string, utf8_byte_len};

verus! {

/// A runtime event as the stream delivered it.
pub struct RuntimeEventEnvelope {
    pub event_id: String,
    pub run_id: u128,
    pub node_run_id: Option<u128>,
    pub sequence: i64,
    pub event_type: String,
    pub persist_required: bool,
    pub content_type: Option<String>,
    pub text: Option<String>,
    pub payload: JsonValue,
}

pub struct EnvelopeSpec {
    pub event_id: Seq<char>,
    pub run_id: u128,
    pub node_run_id: Option<u128>,
    pub sequence: int,
    pub event_type: Seq<char>,
    pub persist_required: bool,
    pub content_type: Option<Seq<char>>,
    pub text: Option<Seq<char>>,
    pub payload: JsonSpec,
}

pub open spec fn envelope_spec(e: RuntimeEventEnvelope) -> EnvelopeSpec {
    EnvelopeSpec {
        event_id: e.event_id@,
        run_id: e.run_id,
        node_run_id: e.node_run_id,
        sequence: e.sequence as int,
        event_type: e.event_type@,
        persist_required: e.persist_required,
        content_type: crate::json::opt_string_view(e.content_type),
        text: crate::json::opt_string_view(e.text),
        payload: e.payload@,
    }
}

pub open spec fn envelope_specs(events: Seq<RuntimeEventEnvelope>) -> Seq<EnvelopeSpec> {
    events.map_values(|e: RuntimeEventEnvelope| envelope_spec(e))
}

/// A run event to be stored.
pub struct AppendRunEventInput {
    pub flow_run_id: u128,
    pub node_run_id: Option<u128>,
    pub event_type: String,
    pub payload: JsonValue,
}

pub struct AppendSpec {
    pub flow_run_id: u128,
    pub node_run_id: Option<u128>,
    pub event_type: Seq<char>,
    pub payload: JsonSpec,
}

pub open spec fn append_spec(a: AppendRunEventInput) -> AppendSpec {
    AppendSpec {
        flow_run_id: a.flow_run_id,
        node_run_id: a.node_run_id,
        event_type: a.event_type@,
        payload: a.payload@,
    }
}

pub open spec fn append_specs(v: Seq<AppendRunEventInput>) -> Seq<AppendSpec> {
    v.map_values(|a: AppendRunEventInput| append_spec(a))
}

pub open spec fn is_stream_delta(event_type: Seq<char>) -> bool {
    event_type == "text_delta"@ || event_type == "reasoning_delta"@
}

/// Whether an event type is a streamed delta (`text_delta` or `reasoning_delta`).
pub fn is_stream_delta_event(event_type: &str) -> (b: bool)
    ensures
        b == is_stream_delta(event_type@),
{
    str_eq(event_type, "text_delta") || str_eq(event_type, "reasoning_delta")
}

/// The text a delta carries: its own text, else the payload's `text`, else the payload's
/// `delta`, else nothing.
pub open spec fn delta_text(e: EnvelopeSpec) -> Seq<char> {
    match e.text {
        Some(t) => t,
        None => match get_str(e.payload, "text"@) {
            Some(t) => t,
            None => match get_str(e.payload, "delta"@) {
                Some(t) => t,
                None => seq![],
            },
        },
    }
}

/// The model of deltas being merged: one run, one node run, one event type.
pub struct PendingSpec {
    pub run_id: u128,
    pub node_run_id: Option<u128>,
    pub sequence_start: int,
    pub sequence_end: int,
    pub event_ids: Seq<Seq<char>>,
    pub event_type: Seq<char>,
    pub content_type: Option<Seq<char>>,
    pub text: Seq<char>,
    pub content_refs: Seq<Seq<char>>,
    pub artifact_refs: Seq<Seq<char>>,
    pub truncated: bool,
    pub truncation_reason: Option<Seq<char>>,
    pub original_bytes: Option<int>,
}

/// `value` added at the end unless it is there already.
pub open spec fn push_unique_spec(out: Seq<Seq<char>>, value: Seq<char>) -> Seq<Seq<char>> {
    if out.contains(value) {
        out
    } else {
        out.push(value)
    }
}

/// The strings among `values`, each added as by `push_unique_spec`, in order.
pub open spec fn push_strs_unique(out: Seq<Seq<char>>, values: Seq<JsonSpec>) -> Seq<Seq<char>>
    decreases values.len(),
{
    if values.len() == 0 {
        out
    } else {
        let before = push_strs_unique(out, values.drop_last());
        match spec_as_str(values.last()) {
            Some(s) => push_unique_spec(before, s),
            None => before,
        }
    }
}

pub open spec fn collect_field(payload: JsonSpec, key: Seq<char>, out: Seq<Seq<char>>) -> Seq<Seq<char>> {
    match get_str(payload, key) {
        Some(v) => push_unique_spec(out, v),
        None => out,
    }
}

pub open spec fn collect_array(payload: JsonSpec, key: Seq<char>, out: Seq<Seq<char>>) -> Seq<Seq<char>> {
    match get_array(payload, key) {
        Some(values) => push_strs_unique(out, values),
        None => out,
    }
}

/// The content references that name runtime artifacts, added to the artifact references.
pub open spec fn promote_artifacts(content: Seq<Seq<char>>, artifacts: Seq<Seq<char>>) -> Seq<Seq<char>>
    decreases content.len(),
{
    if content.len() == 0 {
        artifacts
    } else {
        let before = promote_artifacts(content.drop_last(), artifacts);
        let r = content.last();
        if "runtime_artifact:"@.len() <= r.len() && r.take("runtime_artifact:"@.len() as int) == "runtime_artifact:"@ {
            push_unique_spec(before, r)
        } else {
            before
        }
    }
}

/// The payload's `truncation` member, when it is an object.
pub open spec fn truncation_object(payload: JsonSpec) -> Option<JsonSpec> {
    match spec_get(payload, "truncation"@) {
        Some(t) => if t is Object {
            Some(t)
        } else {
            None
        },
        None => None,
    }
}

/// Whether an event says it was truncated: its `truncated` (or, when absent, `is_truncated`)
/// flag, or the `truncated` flag of its `truncation` object.
pub open spec fn event_truncated(payload: JsonSpec) -> bool {
    let flag = match spec_get(payload, "truncated"@) {
        Some(v) => Some(v),
        None => spec_get(payload, "is_truncated"@),
    };
    let direct = match flag {
        Some(v) => crate::json::spec_as_bool(v) == Some(true),
        None => false,
    };
    let nested = match truncation_object(payload) {
        Some(t) => get_bool(t, "truncated"@) == Some(true),
        None => false,
    };
    direct || nested
}

pub open spec fn event_truncation_reason(payload: JsonSpec) -> Option<Seq<char>> {
    match get_str(payload, "truncation_reason"@) {
        Some(r) => Some(r),
        None => match truncation_object(payload) {
            Some(t) => get_str(t, "reason"@),
            None => None,
        },
    }
}

pub open spec fn event_original_bytes(payload: JsonSpec) -> Option<int> {
    let direct = match spec_get(payload, "original_bytes"@) {
        Some(v) => spec_as_i64(v),
        None => None,
    };
    match direct {
        Some(n) => Some(n),
        None => match truncation_object(payload) {
            Some(t) => match spec_get(t, "original_bytes"@) {
                Some(v) => spec_as_i64(v),
                None => None,
            },
            None => None,
        },
    }
}

/// What one event adds to the metadata of merged deltas: its references, whether it was
/// truncated, the first truncation reason and the largest original size.
pub open spec fn merge_metadata_spec(m: PendingSpec, payload: JsonSpec) -> PendingSpec {
    let c1 = collect_field(payload, "text_ref"@, m.content_refs);
    let c2 = collect_field(payload, "content_ref"@, c1);
    let c3 = collect_field(payload, "payload_ref"@, c2);
    let c4 = collect_array(payload, "content_refs"@, c3);
    let c5 = collect_array(payload, "payload_refs"@, c4);
    let a1 = collect_field(payload, "artifact_ref"@, m.artifact_refs);
    let a2 = collect_array(payload, "artifact_refs"@, a1);
    PendingSpec {
        content_refs: c5,
        artifact_refs: promote_artifacts(c5, a2),
        truncated: m.truncated || event_truncated(payload),
        truncation_reason: if m.truncation_reason is None {
            event_truncation_reason(payload)
        } else {
            m.truncation_reason
        },
        original_bytes: match event_original_bytes(payload) {
            Some(o) => {
                let cur = match m.original_bytes {
                    Some(c) => c,
                    None => 0,
                };
                Some(if cur >= o { cur } else { o })
            },
            None => m.original_bytes,
        },
        ..m
    }
}

pub open spec fn new_pending(e: EnvelopeSpec) -> PendingSpec {
    merge_metadata_spec(
        PendingSpec {
            run_id: e.run_id,
            node_run_id: e.node_run_id,
            sequence_start: e.sequence,
            sequence_end: e.sequence,
            event_ids: seq![e.event_id],
            event_type: e.event_type,
            content_type: e.content_type,
            text: delta_text(e),
            content_refs: seq![],
            artifact_refs: seq![],
            truncated: false,
            truncation_reason: None,
            original_bytes: None,
        },
        e.payload,
    )
}

pub open spec fn same_stream(p: PendingSpec, e: EnvelopeSpec) -> bool {
    p.run_id == e.run_id && p.node_run_id == e.node_run_id && p.event_type == e.event_type
}

pub open spec fn extend_pending(p: PendingSpec, e: EnvelopeSpec) -> PendingSpec {
    merge_metadata_spec(
        PendingSpec {
            text: p.text + delta_text(e),
            sequence_end: e.sequence,
            event_ids: p.event_ids.push(e.event_id),
            ..p
        },
        e.payload,
    )
}

pub open spec fn opt_str_json(o: Option<Seq<char>>) -> JsonSpec {
    match o {
        Some(s) => JsonSpec::Str(s),
        None => JsonSpec::Null,
    }
}

pub open spec fn opt_uuid_json(o: Option<u128>) -> JsonSpec {
    match o {
        Some(id) => juuid(id),
        None => JsonSpec::Null,
    }
}

pub open spec fn str_array(v: Seq<Seq<char>>) -> JsonSpec {
    JsonSpec::Array(v.map_values(|s: Seq<char>| JsonSpec::Str(s)))
}

/// Bytes of the merged text (`str::len() as i64`).
pub open spec fn stored_bytes(text: Seq<char>) -> int {
    ((utf8_byte_len(text) as usize) as i64) as int
}

/// The payload stored for merged deltas.
pub open spec fn flush_payload(p: PendingSpec) -> JsonSpec {
    let stored = stored_bytes(p.text);
    let original = match p.original_bytes {
        Some(o) => o,
        None => stored,
    };
    JsonSpec::Object(
        seq![
            ("type"@, jstr(p.event_type)),
            ("event_type"@, jstr(p.event_type)),
            ("node_run_id"@, opt_uuid_json(p.node_run_id)),
            ("text"@, jstr(p.text)),
            ("content_type"@, opt_str_json(p.content_type)),
            ("sequence_start"@, JsonSpec::Number(p.sequence_start)),
            ("sequence_end"@, JsonSpec::Number(p.sequence_end)),
            ("event_ids"@, str_array(p.event_ids)),
            ("truncated"@, JsonSpec::Bool(p.truncated)),
            (
                "truncation"@,
                JsonSpec::Object(
                    seq![
                        ("truncated"@, JsonSpec::Bool(p.truncated)),
                        ("reason"@, opt_str_json(p.truncation_reason)),
                        ("original_bytes"@, JsonSpec::Number(original)),
                        ("stored_bytes"@, JsonSpec::Number(stored)),
                    ],
                ),
            ),
            ("content_refs"@, str_array(p.content_refs)),
            ("artifact_refs"@, str_array(p.artifact_refs)),
            (
                "refs"@,
                JsonSpec::Object(
                    seq![("content"@, str_array(p.content_refs)), ("artifacts"@, str_array(p.artifact_refs))],
                ),
            ),
        ],
    )
}

pub open spec fn flushed(p: PendingSpec) -> AppendSpec {
    AppendSpec {
        flow_run_id: p.run_id,
        node_run_id: p.node_run_id,
        event_type: p.event_type,
        payload: flush_payload(p),
    }
}

pub open spec fn flush_out(out: Seq<AppendSpec>, pending: Option<PendingSpec>) -> Seq<AppendSpec> {
    match pending {
        Some(p) => out.push(flushed(p)),
        None => out,
    }
}

/// One event through the merge: events that need not be stored are skipped; a delta of the
/// stream being merged joins it, another delta starts a new one; any other event ends the
/// stream being merged and is stored as it is.
pub open spec fn coalesce_step(
    state: (Seq<AppendSpec>, Option<PendingSpec>),
    e: EnvelopeSpec,
) -> (Seq<AppendSpec>, Option<PendingSpec>) {
    let (out, pending) = state;
    if !e.persist_required {
        state
    } else if is_stream_delta(e.event_type) {
        if pending is Some && same_stream(pending->0, e) {
            (out, Some(extend_pending(pending->0, e)))
        } else {
            (flush_out(out, pending), Some(new_pending(e)))
        }
    } else {
        (
            flush_out(out, pending).push(
                AppendSpec {
                    flow_run_id: e.run_id,
                    node_run_id: None,
                    event_type: e.event_type,
                    payload: e.payload,
                },
            ),
            None,
        )
    }
}

pub open spec fn coalesce(events: Seq<EnvelopeSpec>) -> (Seq<AppendSpec>, Option<PendingSpec>)
    decreases events.len(),
{
    if events.len() == 0 {
        (seq![], None)
    } else {
        coalesce_step(coalesce(events.drop_last()), events.last())
    }
}

/// The run events that a batch of streamed events leaves to be stored.
pub open spec fn run_events_to_store(events: Seq<EnvelopeSpec>) -> Seq<AppendSpec> {
    flush_out(coalesce(events).0, coalesce(events).1)
}

struct PendingStreamDelta {
    run_id: u128,
    node_run_id: Option<u128>,
    sequence_start: i64,
    sequence_end: i64,
    event_ids: Vec<String>,
    event_type: String,
    content_type: Option<String>,
    text: String,
    content_refs: Vec<String>,
    artifact_refs: Vec<String>,
    truncated: bool,
    truncation_reason: Option<String>,
    original_bytes: Option<i64>,
}

spec fn pending_spec(p: PendingStreamDelta) -> PendingSpec {
    PendingSpec {
        run_id: p.run_id,
        node_run_id: p.node_run_id,
        sequence_start: p.sequence_start as int,
        sequence_end: p.sequence_end as int,
        event_ids: string_views(p.event_ids@),
        event_type: p.event_type@,
        content_type: crate::json::opt_string_view(p.content_type),
        text: p.text@,
        content_refs: string_views(p.content_refs@),
        artifact_refs: string_views(p.artifact_refs@),
        truncated: p.truncated,
        truncation_reason: crate::json::opt_string_view(p.truncation_reason),
        original_bytes: match p.original_bytes {
            Some(o) => Some(o as int),
            None => None,
        },
    }
}

spec fn opt_pending_spec(p: Option<PendingStreamDelta>) -> Option<PendingSpec> {
    match p {
        Some(x) => Some(pending_spec(x)),
        None => None,
    }
}

/// Adds `value` unless it is there already.
pub fn push_unique(output: &mut Vec<String>, value: String)
    ensures
        string_views(final(output)@) == push_unique_spec(string_views(old(output)@), value@),
{
    let ghost before = string_views(output@);
    let mut i: usize = 0;
    while i < output.len()
        invariant
            i <= output@.len(),
            output@ == old(output)@,
            before == string_views(output@),
            forall|k: int| 0 <= k < i ==> before[k] != value@,
        decreases output.len() - i,
    {
        if str_eq(output[i].as_str(), value.as_str()) {
            assert(before[i as int] == value@);
            assert(before.contains(value@));
            return;
        }
        i = i + 1;
    }
    assert(!before.contains(value@));
    let ghost v = value@;
    output.push(value);
    assert(string_views(output@) =~= before.push(v));
}

fn collect_string_field(payload: &JsonValue, key: &str, output: &mut Vec<String>)
    ensures
        string_views(final(output)@) == collect_field(payload@, key@, string_views(old(output)@)),
{
    match payload.get_str(key) {
        Some(v) => push_unique(output, to_string(v)),
        None => {},
    }
}

fn collect_string_array_field(payload: &JsonValue, key: &str, output: &mut Vec<String>)
    ensures
        string_views(final(output)@) == collect_array(payload@, key@, string_views(old(output)@)),
{
    match payload.get_array(key) {
        Some(values) => {
            let ghost vs = views(values@);
            let ghost start = string_views(output@);
            let mut i: usize = 0;
            assert(vs.take(0) =~= Seq::<JsonSpec>::empty());
            while i < values.len()
                invariant
                    i <= values@.len(),
                    vs == views(values@),
                    get_array(payload@, key@) == Some(vs),
                    start == string_views(old(output)@),
                    string_views(output@) == push_strs_unique(start, vs.take(i as int)),
                decreases values.len() - i,
            {
                assert(vs.take(i + 1).drop_last() =~= vs.take(i as int));
                assert(vs.take(i + 1).last() == values@[i as int]@);
                match values[i].as_str() {
                    Some(s) => push_unique(output, to_string(s)),
                    None => {},
                }
                i = i + 1;
            }
            assert(vs.take(values.len() as int) =~= vs);
        },
        None => {},
    }
}

fn truncation_of(payload: &JsonValue) -> (t: Option<&JsonValue>)
    ensures
        crate::json::opt_view(t) == truncation_object(payload@),
{
    match payload.get("truncation") {
        Some(t) => if t.is_object() {
            Some(t)
        } else {
            None
        },
        None => None,
    }
}

fn is_event_truncated(payload: &JsonValue) -> (b: bool)
    ensures
        b == event_truncated(payload@),
{
    let flag = match payload.get("truncated") {
        Some(v) => Some(v),
        None => payload.get("is_truncated"),
    };
    let direct = match flag {
        Some(v) => match v.as_bool() {
            Some(b) => b,
            None => false,
        },
        None => false,
    };
    let nested = match truncation_of(payload) {
        Some(t) => match t.get_bool("truncated") {
            Some(b) => b,
            None => false,
        },
        None => false,
    };
    direct || nested
}

fn truncation_reason_of(payload: &JsonValue) -> (r: Option<String>)
    ensures
        crate::json::opt_string_view(r) == event_truncation_reason(payload@),
{
    match payload.get_str("truncation_reason") {
        Some(r) => Some(to_string(r)),
        None => match truncation_of(payload) {
            Some(t) => match t.get_str("reason") {
                Some(r) => Some(to_string(r)),
                None => None,
            },
            None => None,
        },
    }
}

fn original_bytes_of(payload: &JsonValue) -> (r: Option<i64>)
    ensures
        match r {
            Some(n) => event_original_bytes(payload@) == Some(n as int),
            None => event_original_bytes(payload@) is None,
        },
{
    let direct = match payload.get("original_bytes") {
        Some(v) => v.as_i64(),
        None => None,
    };
    match direct {
        Some(n) => Some(n),
        None => match truncation_of(payload) {
            Some(t) => match t.get("original_bytes") {
                Some(v) => v.as_i64(),
                None => None,
            },
            None => None,
        },
    }
}

impl PendingStreamDelta {
    fn merge_metadata(&mut self, payload: &JsonValue)
        ensures
            pending_spec(*final(self)) == merge_metadata_spec(pending_spec(*old(self)), payload@),
    {
        let ghost m = pending_spec(*self);
        collect_string_field(payload, "text_ref", &mut self.content_refs);
        collect_string_field(payload, "content_ref", &mut self.content_refs);
        collect_string_field(payload, "payload_ref", &mut self.content_refs);
        collect_string_array_field(payload, "content_refs", &mut self.content_refs);
        collect_string_array_field(payload, "payload_refs", &mut self.content_refs);
        collect_string_field(payload, "artifact_ref", &mut self.artifact_refs);
        collect_string_array_field(payload, "artifact_refs", &mut self.artifact_refs);
        let ghost content = string_views(self.content_refs@);
        let ghost arts = string_views(self.artifact_refs@);
        let ghost s1 = pending_spec(*self);
        let mut i: usize = 0;
        assert(content.take(0) =~= Seq::<Seq<char>>::empty());
        while i < self.content_refs.len()
            invariant
                i <= self.content_refs@.len(),
                pending_spec(*self) == (PendingSpec { artifact_refs: string_views(self.artifact_refs@), ..s1 }),
                content == string_views(self.content_refs@),
                string_views(self.artifact_refs@) == promote_artifacts(content.take(i as int), arts),
            decreases self.content_refs.len() - i,
        {
            assert(content.take(i + 1).drop_last() =~= content.take(i as int));
            assert(content.take(i + 1).last() == self.content_refs@[i as int]@);
            if starts_with(self.content_refs[i].as_str(), "runtime_artifact:") {
                let r = to_string(self.content_refs[i].as_str());
                push_unique(&mut self.artifact_refs, r);
            }
            i = i + 1;
        }
        assert(content.take(self.content_refs.len() as int) =~= content);
        self.truncated = self.truncated || is_event_truncated(payload);
        if self.truncation_reason.is_none() {
            self.truncation_reason = truncation_reason_of(payload);
        }
        match original_bytes_of(payload) {
            Some(o) => {
                let cur = match self.original_bytes {
                    Some(c) => c,
                    None => 0,
                };
                self.original_bytes = Some(if cur >= o { cur } else { o });
            },
            None => {},
        }
        assert(pending_spec(*self) =~= merge_metadata_spec(m, payload@));
    }
}

/// The text a delta event carries.
fn event_delta_text(e: &RuntimeEventEnvelope) -> (t: &str)
    ensures
        t@ == delta_text(envelope_spec(*e)),
{
    match &e.text {
        Some(t) => t.as_str(),
        None => match e.payload.get_str("text") {
            Some(t) => t,
            None => match e.payload.get_str("delta") {
                Some(t) => t,
                None => {
                    proof {
                        reveal_strlit("");
                    }
                    ""
                },
            },
        },
    }
}

fn string_array(v: &Vec<String>) -> (out: JsonValue)
    ensures
        out@ == str_array(string_views(v@)),
{
    let mut items: Vec<JsonValue> = Vec::new();
    let mut i: usize = 0;
    while i < v.len()
        invariant
            i <= v@.len(),
            items@.len() == i,
            forall|k: int| 0 <= k < i ==> (#[trigger] items@[k])@ == JsonSpec::Str(v@[k]@),
        decreases v.len() - i,
    {
        items.push(text_value(v[i].as_str()));
        i = i + 1;
    }
    proof {
        lemma_array_view(items);
        assert(views(items@) =~= string_views(v@).map_values(|s: Seq<char>| JsonSpec::Str(s)));
    }
    JsonValue::Array(items)
}

fn opt_text_value(o: &Option<String>) -> (out: JsonValue)
    ensures
        out@ == opt_str_json(crate::json::opt_string_view(*o)),
{
    match o {
        Some(s) => text_value(s.as_str()),
        None => JsonValue::Null,
    }
}

fn flush_pending_delta(run_events: &mut Vec<AppendRunEventInput>, pending_delta: Option<PendingStreamDelta>)
    ensures
        append_specs(final(run_events)@) == flush_out(append_specs(old(run_events)@), opt_pending_spec(pending_delta)),
{
    let pending = match pending_delta {
        Some(p) => p,
        None => {
            return;
        },
    };
    let ghost ps = pending_spec(pending);
    let stored_bytes: i64 = pending.text.as_str().len() as i64;
    let original_bytes: i64 = match pending.original_bytes {
        Some(o) => o,
        None => stored_bytes,
    };
    let node_run_id = match pending.node_run_id {
        Some(id) => uuid_value(id),
        None => JsonValue::Null,
    };
    let mut truncation: Vec<(String, JsonValue)> = Vec::new();
    truncation.push((to_string("truncated"), JsonValue::Bool(pending.truncated)));
    truncation.push((to_string("reason"), opt_text_value(&pending.truncation_reason)));
    truncation.push((to_string("original_bytes"), JsonValue::Number(original_bytes)));
    truncation.push((to_string("stored_bytes"), JsonValue::Number(stored_bytes)));
    let mut refs: Vec<(String, JsonValue)> = Vec::new();
    refs.push((to_string("content"), string_array(&pending.content_refs)));
    refs.push((to_string("artifacts"), string_array(&pending.artifact_refs)));
    let ghost fp = flush_payload(ps);
    assert(entry_views(truncation@) =~= fp->Object_0[9].1->Object_0);
    assert(entry_views(refs@) =~= fp->Object_0[12].1->Object_0);
    let mut entries: Vec<(String, JsonValue)> = Vec::new();
    entries.push((to_string("type"), text_value(pending.event_type.as_str())));
    entries.push((to_string("event_type"), text_value(pending.event_type.as_str())));
    entries.push((to_string("node_run_id"), node_run_id));
    entries.push((to_string("text"), text_value(pending.text.as_str())));
    entries.push((to_string("content_type"), opt_text_value(&pending.content_type)));
    entries.push((to_string("sequence_start"), JsonValue::Number(pending.sequence_start)));
    entries.push((to_string("sequence_end"), JsonValue::Number(pending.sequence_end)));
    entries.push((to_string("event_ids"), string_array(&pending.event_ids)));
    entries.push((to_string("truncated"), JsonValue::Bool(pending.truncated)));
    entries.push((to_string("truncation"), object_of(truncation)));
    entries.push((to_string("content_refs"), string_array(&pending.content_refs)));
    entries.push((to_string("artifact_refs"), string_array(&pending.artifact_refs)));
    entries.push((to_string("refs"), object_of(refs)));
    assert(entry_views(entries@) =~= fp->Object_0);
    let ghost before = append_specs(run_events@);
    run_events.push(AppendRunEventInput {
        flow_run_id: pending.run_id,
        node_run_id: pending.node_run_id,
        event_type: pending.event_type,
        payload: object_of(entries),
    });
    assert(append_specs(run_events@) =~= before.push(flushed(ps)));
}

fn same_pending_stream(p: &PendingStreamDelta, e: &RuntimeEventEnvelope) -> (b: bool)
    ensures
        b == same_stream(pending_spec(*p), envelope_spec(*e)),
{
    let same_node = match (p.node_run_id, e.node_run_id) {
        (Some(a), Some(b)) => a == b,
        (None, None) => true,
        _ => false,
    };
    p.run_id == e.run_id && same_node && str_eq(p.event_type.as_str(), e.event_type.as_str())
}

fn clone_opt_string(o: &Option<String>) -> (out: Option<String>)
    ensures
        crate::json::opt_string_view(out) == crate::json::opt_string_view(*o),
{
    match o {
        Some(s) => Some(to_string(s.as_str())),
        None => None,
    }
}

/// The run events that a batch of streamed events leaves to be stored: events that need not be
/// stored are skipped, consecutive deltas of one node stream become one event, and every other
/// event is stored as it came.
pub fn debug_stream_run_events(events: &Vec<RuntimeEventEnvelope>) -> (run_events: Vec<AppendRunEventInput>)
    ensures
        append_specs(run_events@) == run_events_to_store(envelope_specs(events@)),
{
    let ghost es = envelope_specs(events@);
    let mut run_events: Vec<AppendRunEventInput> = Vec::new();
    let mut pending_delta: Option<PendingStreamDelta> = None;
    let mut i: usize = 0;
    assert(es.take(0) =~= Seq::<EnvelopeSpec>::empty());
    while i < events.len()
        invariant
            i <= events@.len(),
            es == envelope_specs(events@),
            (append_specs(run_events@), opt_pending_spec(pending_delta)) == coalesce(es.take(i as int)),
        decreases events.len() - i,
    {
        let event = &events[i];
        proof {
            assert(es.take(i + 1).drop_last() =~= es.take(i as int));
            assert(es.take(i + 1).last() == envelope_spec(*event));
        }
        if event.persist_required {
            if is_stream_delta_event(event.event_type.as_str()) {
                let text = event_delta_text(event);
                let cur = pending_delta;
                pending_delta = None;
                match cur {
                    Some(mut p) => {
                        if same_pending_stream(&p, event) {
                            let ghost before = pending_spec(p);
                            p.text.push_str(text);
                            p.sequence_end = event.sequence;
                            p.event_ids.push(to_string(event.event_id.as_str()));
                            proof {
                                assert(string_views(p.event_ids@) =~= before.event_ids.push(event.event_id@));
                                assert(pending_spec(p) =~= PendingSpec {
                                    text: before.text + delta_text(envelope_spec(*event)),
                                    sequence_end: event.sequence as int,
                                    event_ids: before.event_ids.push(event.event_id@),
                                    ..before
                                });
                            }
                            p.merge_metadata(&event.payload);
                            pending_delta = Some(p);
                        } else {
                            flush_pending_delta(&mut run_events, Some(p));
                            pending_delta = Some(start_pending(event, text));
                        }
                    },
                    None => {
                        pending_delta = Some(start_pending(event, text));
                    },
                }
            } else {
                flush_pending_delta(&mut run_events, pending_delta);
                pending_delta = None;
                let ghost before = append_specs(run_events@);
                run_events.push(AppendRunEventInput {
                    flow_run_id: event.run_id,
                    node_run_id: None,
                    event_type: to_string(event.event_type.as_str()),
                    payload: clone_json(&event.payload),
                });
                assert(append_specs(run_events@) =~= before.push(AppendSpec {
                    flow_run_id: event.run_id,
                    node_run_id: None,
                    event_type: event.event_type@,
                    payload: event.payload@,
                }));
            }
        }
        i = i + 1;
    }
    assert(es.take(events.len() as int) =~= es);
    flush_pending_delta(&mut run_events, pending_delta);
    run_events
}

fn start_pending(event: &RuntimeEventEnvelope, text: &str) -> (p: PendingStreamDelta)
    requires
        text@ == delta_text(envelope_spec(*event)),
    ensures
        pending_spec(p) == new_pending(envelope_spec(*event)),
{
    let mut ids: Vec<String> = Vec::new();
    ids.push(to_string(event.event_id.as_str()));
    let mut p = PendingStreamDelta {
        run_id: event.run_id,
        node_run_id: event.node_run_id,
        sequence_start: event.sequence,
        sequence_end: event.sequence,
        event_ids: ids,
        event_type: to_string(event.event_type.as_str()),
        content_type: clone_opt_string(&event.content_type),
        text: to_string(text),
        content_refs: Vec::new(),
        artifact_refs: Vec::new(),
        truncated: false,
        truncation_reason: None,
        original_bytes: None,
    };
    proof {
        let e = envelope_spec(*event);
        assert(string_views(p.event_ids@) =~= seq![e.event_id]);
        assert(string_views(p.content_refs@) =~= Seq::<Seq<char>>::empty());
        assert(string_views(p.artifact_refs@) =~= Seq::<Seq<char>>::empty());
    }
    p.merge_metadata(&event.payload);
    p
}


/// Events that need not be stored leave nothing to store.
pub proof fn law_unstored_events_leave_nothing(events: Seq<EnvelopeSpec>)
    requires
        forall|i: int| 0 <= i < events.len() ==> !(#[trigger] events[i]).persist_required,
    ensures
        run_events_to_store(events) == Seq::<AppendSpec>::empty(),
        coalesce(events) == (Seq::<AppendSpec>::empty(), None::<PendingSpec>),
    decreases events.len(),
{
    if events.len() > 0 {
        let prefix = events.drop_last();
        assert forall|i: int| 0 <= i < prefix.len() implies !(#[trigger] prefix[i]).persist_required by {
            assert(prefix[i] == events[i]);
        }
        law_unstored_events_leave_nothing(prefix);
        assert(!events[events.len() - 1].persist_required);
    }
}

/// The text of deltas, one after the other.
pub open spec fn joined_text(events: Seq<EnvelopeSpec>) -> Seq<char>
    decreases events.len(),
{
    if events.len() == 0 {
        seq![]
    } else {
        joined_text(events.drop_last()) + delta_text(events.last())
    }
}

/// Deltas of one node stream to be stored, one after another.
pub open spec fn one_stream(events: Seq<EnvelopeSpec>) -> bool {
    &&& events.len() > 0
    &&& forall|i: int|
        0 <= i < events.len() ==> (#[trigger] events[i]).persist_required && is_stream_delta(events[i].event_type)
            && events[i].run_id == events[0].run_id && events[i].node_run_id == events[0].node_run_id
            && events[i].event_type == events[0].event_type
}

/// Consecutive deltas of one node stream are stored as one event that carries their joined
/// text, the ids of all of them, and the sequence numbers of the first and the last.
pub proof fn law_one_stream_is_one_event(events: Seq<EnvelopeSpec>)
    requires
        one_stream(events),
    ensures
        coalesce(events).0 == Seq::<AppendSpec>::empty(),
        coalesce(events).1 is Some,
        coalesce(events).1->0.text == joined_text(events),
        coalesce(events).1->0.event_ids == events.map_values(|e: EnvelopeSpec| e.event_id),
        coalesce(events).1->0.sequence_start == events[0].sequence,
        coalesce(events).1->0.sequence_end == events.last().sequence,
        coalesce(events).1->0.run_id == events[0].run_id,
        coalesce(events).1->0.node_run_id == events[0].node_run_id,
        coalesce(events).1->0.event_type == events[0].event_type,
        run_events_to_store(events).len() == 1,
        run_events_to_store(events)[0] == flushed(coalesce(events).1->0),
    decreases events.len(),
{
    let last = events.last();
    assert(last == events[events.len() - 1]);
    if events.len() == 1 {
        assert(events.drop_last() =~= Seq::<EnvelopeSpec>::empty());
        assert(coalesce(events.drop_last()) == (Seq::<AppendSpec>::empty(), None::<PendingSpec>));
        assert(joined_text(events.drop_last()) =~= Seq::<char>::empty());
        assert(joined_text(events) =~= delta_text(last));
        assert(events.map_values(|e: EnvelopeSpec| e.event_id) =~= seq![last.event_id]);
    } else {
        let prefix = events.drop_last();
        assert(prefix[0] == events[0]);
        assert forall|i: int| 0 <= i < prefix.len() implies (#[trigger] prefix[i]).persist_required && is_stream_delta(
            prefix[i].event_type,
        ) && prefix[i].run_id == prefix[0].run_id && prefix[i].node_run_id == prefix[0].node_run_id
            && prefix[i].event_type == prefix[0].event_type by {
            assert(prefix[i] == events[i]);
        }
        law_one_stream_is_one_event(prefix);
        assert(events.map_values(|e: EnvelopeSpec| e.event_id) =~= prefix.map_values(|e: EnvelopeSpec| e.event_id).push(
            last.event_id,
        ));
    }
}

} // verus!
