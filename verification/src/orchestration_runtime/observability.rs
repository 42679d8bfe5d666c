//! What a run records of a model call, read from the metrics that a model node reports: the
//! attempts it made, the usage it reports, and the input it was given.

use vstd::prelude::*;
use crate::json::{
    clone_json, entry_views, get_array, get_bool, get_str, json_view, lemma_object_view, opt_str_view,
    opt_string_view, opt_view, spec_as_i64, spec_as_str, spec_get, views, JsonSpec, JsonValue,
};
use crate::outside::{uuid_parse, uuid_parsed};
use crate::text::{str_eq, to_string};

verus! {

/// `v.get(key)`, `null` where it is missing.
pub open spec fn get_or_null(v: JsonSpec, key: Seq<char>) -> JsonSpec {
    match spec_get(v, key) {
        Some(x) => x,
        None => JsonSpec::Null,
    }
}

fn value_or_null(v: &JsonValue, key: &str) -> (r: JsonValue)
    ensures
        r@ == get_or_null(v@, key@),
{
    match v.get(key) {
        Some(x) => clone_json(x),
        None => JsonValue::Null,
    }
}

/// The id a text names, where it parses as one.
pub open spec fn uuid_of_text(t: Seq<char>) -> Option<u128> {
    match uuid_parsed(t) {
        Ok(id) => Some(id),
        Err(_) => None,
    }
}

/// The id written as text under `key`, where there is text and it parses as an id.
pub open spec fn uuid_at(v: JsonSpec, key: Seq<char>) -> Option<u128> {
    match get_str(v, key) {
        Some(t) => uuid_of_text(t),
        None => None,
    }
}

fn uuid_field(v: &JsonValue, key: &str) -> (r: Option<u128>)
    ensures
        r == uuid_at(v@, key@),
{
    match v.get_str(key) {
        Some(t) => match uuid_parse(t) {
            Ok(id) => Some(id),
            Err(_) => None,
        },
        None => None,
    }
}

fn owned(o: Option<&str>) -> (r: Option<String>)
    ensures
        opt_string_view(r) == opt_str_view(o),
{
    match o {
        Some(t) => Some(to_string(t)),
        None => None,
    }
}

/// A text, `"unknown"` where there is none.
pub open spec fn or_unknown(o: Option<Seq<char>>) -> Seq<char> {
    match o {
        Some(t) => t,
        None => "unknown"@,
    }
}

fn text_or_unknown(o: Option<&str>) -> (r: String)
    ensures
        r@ == or_unknown(opt_str_view(o)),
{
    match o {
        Some(t) => to_string(t),
        None => to_string("unknown"),
    }
}

/// The status of an attempt that names none: failed where the node failed.
pub open spec fn default_status(failed: bool) -> Seq<char> {
    if failed {
        "failed"@
    } else {
        "succeeded"@
    }
}

fn default_status_text(failed: bool) -> (r: String)
    ensures
        r@ == default_status(failed),
{
    if failed {
        to_string("failed")
    } else {
        to_string("succeeded")
    }
}

/// The single attempt recorded for a call whose metrics list no attempts.
pub open spec fn fallback_attempt(metrics: JsonSpec, failed: bool) -> JsonSpec {
    JsonSpec::Object(
        seq![
            ("attempt_index"@, JsonSpec::Number(0)),
            ("provider_instance_id"@, get_or_null(metrics, "provider_instance_id"@)),
            ("provider_code"@, get_or_null(metrics, "provider_code"@)),
            ("protocol"@, get_or_null(metrics, "protocol"@)),
            ("upstream_model_id"@, get_or_null(metrics, "model"@)),
            ("status"@, JsonSpec::Str(default_status(failed))),
            ("failed_after_first_token"@, JsonSpec::Bool(false)),
        ],
    )
}

/// The attempts that a model node's metrics list, or the single attempt that stands for the
/// call where they list none.
pub open spec fn attempt_payloads(metrics: JsonSpec, failed: bool) -> Seq<JsonSpec> {
    let listed = match get_array(metrics, "attempts"@) {
        Some(items) => items,
        None => Seq::empty(),
    };
    if listed.len() > 0 {
        listed
    } else {
        seq![fallback_attempt(metrics, failed)]
    }
}

/// The attempts that a model node's metrics list, or the single attempt that stands for the
/// call where they list none.
pub fn model_attempt_payloads(metrics_payload: &JsonValue, failed: bool) -> (r: Vec<JsonValue>)
    ensures
        views(r@) == attempt_payloads(metrics_payload@, failed),
{
    let mut out: Vec<JsonValue> = Vec::new();
    match metrics_payload.get_array("attempts") {
        Some(items) => {
            let mut i: usize = 0;
            while i < items.len()
                invariant
                    i <= items.len(),
                    out@.len() == i,
                    forall|k: int| 0 <= k < i ==> json_view(#[trigger] out@[k]) == json_view(items@[k]),
                decreases items.len() - i,
            {
                out.push(clone_json(&items[i]));
                i = i + 1;
            }
            assert(views(out@) =~= views(items@));
        },
        None => {
            assert(views(out@) =~= Seq::<JsonSpec>::empty());
        },
    }
    if out.len() == 0 {
        let mut entries: Vec<(String, JsonValue)> = Vec::new();
        entries.push((to_string("attempt_index"), JsonValue::Number(0)));
        entries.push((to_string("provider_instance_id"), value_or_null(metrics_payload, "provider_instance_id")));
        entries.push((to_string("provider_code"), value_or_null(metrics_payload, "provider_code")));
        entries.push((to_string("protocol"), value_or_null(metrics_payload, "protocol")));
        entries.push((to_string("upstream_model_id"), value_or_null(metrics_payload, "model")));
        entries.push((to_string("status"), JsonValue::Str(default_status_text(failed))));
        entries.push((to_string("failed_after_first_token"), JsonValue::Bool(false)));
        proof {
            lemma_object_view(entries);
            assert(entry_views(entries@) =~= fallback_attempt(metrics_payload@, failed)->Object_0);
        }
        out.push(JsonValue::Object(entries));
        assert(views(out@) =~= seq![fallback_attempt(metrics_payload@, failed)]);
    }
    out
}

/// Every model call records at least one attempt, and a call whose metrics list attempts records
/// exactly those.
pub proof fn law_every_call_records_an_attempt(metrics: JsonSpec, failed: bool)
    ensures
        attempt_payloads(metrics, failed).len() >= 1,
        get_array(metrics, "attempts"@) matches Some(items) ==> (items.len() > 0 ==> attempt_payloads(
            metrics,
            failed,
        ) == items),
{
}

/// What the run records of one attempt of a model call.
pub struct ModelAttemptFields {
    pub queue_snapshot_id: Option<u128>,
    pub attempt_index: i32,
    pub provider_instance_id: Option<u128>,
    pub provider_code: String,
    pub upstream_model_id: String,
    pub protocol: String,
    pub status: String,
    pub failed_after_first_token: bool,
    pub upstream_request_id: Option<String>,
    pub error_code: Option<String>,
    pub error_message_ref: Option<String>,
    pub response_ref: Option<String>,
}

/// The plain facts of [`ModelAttemptFields`].
pub struct AttemptSpec {
    pub queue_snapshot_id: Option<u128>,
    pub attempt_index: int,
    pub provider_instance_id: Option<u128>,
    pub provider_code: Seq<char>,
    pub upstream_model_id: Seq<char>,
    pub protocol: Seq<char>,
    pub status: Seq<char>,
    pub failed_after_first_token: bool,
    pub upstream_request_id: Option<Seq<char>>,
    pub error_code: Option<Seq<char>>,
    pub error_message_ref: Option<Seq<char>>,
    pub response_ref: Option<Seq<char>>,
}

pub open spec fn attempt_spec(f: ModelAttemptFields) -> AttemptSpec {
    AttemptSpec {
        queue_snapshot_id: f.queue_snapshot_id,
        attempt_index: f.attempt_index as int,
        provider_instance_id: f.provider_instance_id,
        provider_code: f.provider_code@,
        upstream_model_id: f.upstream_model_id@,
        protocol: f.protocol@,
        status: f.status@,
        failed_after_first_token: f.failed_after_first_token,
        upstream_request_id: opt_string_view(f.upstream_request_id),
        error_code: opt_string_view(f.error_code),
        error_message_ref: opt_string_view(f.error_message_ref),
        response_ref: opt_string_view(f.response_ref),
    }
}

/// The model an attempt names: its `upstream_model_id` where it has that key, else its `model`.
pub open spec fn attempt_model(a: JsonSpec) -> Option<Seq<char>> {
    match spec_get(a, "upstream_model_id"@) {
        Some(v) => spec_as_str(v),
        None => get_str(a, "model"@),
    }
}

/// The status an attempt names, else the node's outcome.
pub open spec fn attempt_status(a: JsonSpec, failed: bool) -> Seq<char> {
    match get_str(a, "status"@) {
        Some(s) => s,
        None => default_status(failed),
    }
}

/// The error code an attempt names; an attempt that did not succeed and names none takes the
/// error kind of the node's error, else `provider_error`.
pub open spec fn attempt_error_code(a: JsonSpec, status: Seq<char>, error: Option<JsonSpec>) -> Option<Seq<char>> {
    match get_str(a, "error_code"@) {
        Some(c) => Some(c),
        None => if status != "succeeded"@ {
            Some(
                match error {
                    Some(e) => match get_str(e, "error_kind"@) {
                        Some(k) => k,
                        None => "provider_error"@,
                    },
                    None => "provider_error"@,
                },
            )
        } else {
            None
        },
    }
}

/// The index an attempt names, else its position.
pub open spec fn attempt_index_of(a: JsonSpec, position: int) -> int {
    match spec_get(a, "attempt_index"@) {
        Some(v) => match spec_as_i64(v) {
            Some(n) => n,
            None => (position as i64) as int,
        },
        None => (position as i64) as int,
    }
}

/// What the run records of the attempt `a` at `position`, for a node with these metrics and
/// error.
pub open spec fn attempt_fields(metrics: JsonSpec, a: JsonSpec, position: int, error: Option<JsonSpec>) -> AttemptSpec {
    let status = attempt_status(a, error is Some);
    AttemptSpec {
        queue_snapshot_id: uuid_at(metrics, "queue_snapshot_id"@),
        attempt_index: (attempt_index_of(a, position) as i64 as i32) as int,
        provider_instance_id: uuid_at(a, "provider_instance_id"@),
        provider_code: or_unknown(get_str(a, "provider_code"@)),
        upstream_model_id: or_unknown(attempt_model(a)),
        protocol: or_unknown(get_str(a, "protocol"@)),
        status,
        failed_after_first_token: match get_bool(a, "failed_after_first_token"@) {
            Some(b) => b,
            None => false,
        },
        upstream_request_id: get_str(a, "upstream_request_id"@),
        error_code: attempt_error_code(a, status, error),
        error_message_ref: get_str(a, "error_message_ref"@),
        response_ref: get_str(a, "response_ref"@),
    }
}

/// What the run records of the attempt `attempt` at `position`.
pub fn model_attempt_fields(
    metrics_payload: &JsonValue,
    attempt: &JsonValue,
    position: usize,
    error_payload: Option<&JsonValue>,
) -> (f: ModelAttemptFields)
    ensures
        attempt_spec(f) == attempt_fields(metrics_payload@, attempt@, position as int, opt_view(error_payload)),
{
    let failed = error_payload.is_some();
    let status = match attempt.get_str("status") {
        Some(s) => to_string(s),
        None => default_status_text(failed),
    };
    let position_index = position as i64;
    let index = match attempt.get("attempt_index") {
        Some(v) => match v.as_i64() {
            Some(n) => n,
            None => position_index,
        },
        None => position_index,
    };
    let upstream = match attempt.get("upstream_model_id") {
        Some(v) => v.as_str(),
        None => attempt.get_str("model"),
    };
    let error_code = match attempt.get_str("error_code") {
        Some(c) => Some(to_string(c)),
        None => if !str_eq(status.as_str(), "succeeded") {
            let kind = match error_payload {
                Some(e) => match e.get_str("error_kind") {
                    Some(k) => to_string(k),
                    None => to_string("provider_error"),
                },
                None => to_string("provider_error"),
            };
            Some(kind)
        } else {
            None
        },
    };
    let failed_after_first_token = match attempt.get_bool("failed_after_first_token") {
        Some(b) => b,
        None => false,
    };
    ModelAttemptFields {
        queue_snapshot_id: uuid_field(metrics_payload, "queue_snapshot_id"),
        attempt_index: index as i32,
        provider_instance_id: uuid_field(attempt, "provider_instance_id"),
        provider_code: text_or_unknown(attempt.get_str("provider_code")),
        upstream_model_id: text_or_unknown(upstream),
        protocol: text_or_unknown(attempt.get_str("protocol")),
        status,
        failed_after_first_token,
        upstream_request_id: owned(attempt.get_str("upstream_request_id")),
        error_code,
        error_message_ref: owned(attempt.get_str("error_message_ref")),
        response_ref: owned(attempt.get_str("response_ref")),
    }
}

/// What the run records of each attempt of a model call, in order.
pub fn model_attempts_from_metrics(metrics_payload: &JsonValue, error_payload: Option<&JsonValue>) -> (r: Vec<
    ModelAttemptFields,
>)
    ensures
        r@.len() == attempt_payloads(metrics_payload@, error_payload is Some).len(),
        forall|i: int|
            0 <= i < r@.len() ==> attempt_spec(#[trigger] r@[i]) == attempt_fields(
                metrics_payload@,
                attempt_payloads(metrics_payload@, error_payload is Some)[i],
                i,
                opt_view(error_payload),
            ),
{
    let payloads = model_attempt_payloads(metrics_payload, error_payload.is_some());
    let ghost ps = attempt_payloads(metrics_payload@, error_payload is Some);
    let mut records: Vec<ModelAttemptFields> = Vec::new();
    let mut i: usize = 0;
    while i < payloads.len()
        invariant
            views(payloads@) == ps,
            i <= payloads.len(),
            records@.len() == i,
            forall|k: int|
                0 <= k < i ==> attempt_spec(#[trigger] records@[k]) == attempt_fields(
                    metrics_payload@,
                    ps[k],
                    k,
                    opt_view(error_payload),
                ),
        decreases payloads.len() - i,
    {
        let f = model_attempt_fields(metrics_payload, &payloads[i], i, error_payload);
        records.push(f);
        i = i + 1;
    }
    records
}

/// `usage.get(field).and_then(Value::as_i64)`.
pub open spec fn usage_count(usage: JsonSpec, field: Seq<char>) -> Option<int> {
    match spec_get(usage, field) {
        Some(v) => spec_as_i64(v),
        None => None,
    }
}

/// A count the usage reports under `field`.
pub fn usage_i64(usage: &JsonValue, field: &str) -> (r: Option<i64>)
    ensures
        match r {
            Some(n) => usage_count(usage@, field@) == Some(n as int),
            None => usage_count(usage@, field@) is None,
        },
{
    match usage.get(field) {
        Some(v) => v.as_i64(),
        None => None,
    }
}

/// Whether a model call's usage was recorded.
#[derive(Debug, Clone, Copy, PartialEq, Eq, Structural)]
pub enum UsageLedgerStatus {
    Recorded,
    UnavailableError,
}

/// The usage a node reports, an empty object where it reports none.
pub open spec fn raw_usage(metrics: JsonSpec) -> JsonSpec {
    match spec_get(metrics, "usage"@) {
        Some(u) => u,
        None => JsonSpec::Object(Seq::empty()),
    }
}

/// Usage is recorded where the node reports it and did not fail.
pub open spec fn usage_status(metrics: JsonSpec, failed: bool) -> UsageLedgerStatus {
    if spec_get(metrics, "usage"@) is Some && !failed {
        UsageLedgerStatus::Recorded
    } else {
        UsageLedgerStatus::UnavailableError
    }
}

/// What the run records of a model call's usage.
pub struct UsageLedgerFields {
    pub failover_attempt_id: Option<u128>,
    pub provider_instance_id: Option<u128>,
    pub model_id: Option<String>,
    pub upstream_model_id: Option<String>,
    pub input_tokens: Option<i64>,
    pub cached_input_tokens: Option<i64>,
    pub output_tokens: Option<i64>,
    pub reasoning_output_tokens: Option<i64>,
    pub total_tokens: Option<i64>,
    pub input_cache_hit_tokens: Option<i64>,
    pub input_cache_miss_tokens: Option<i64>,
    pub cache_read_tokens: Option<i64>,
    pub cache_write_tokens: Option<i64>,
    pub usage_status: UsageLedgerStatus,
    pub raw_usage: JsonValue,
}

pub open spec fn opt_int(o: Option<i64>) -> Option<int> {
    match o {
        Some(n) => Some(n as int),
        None => None,
    }
}

/// The counts of a usage record, in the order of its fields.
pub open spec fn usage_counts(f: UsageLedgerFields) -> Seq<Option<int>> {
    seq![
        opt_int(f.input_tokens),
        opt_int(f.cached_input_tokens),
        opt_int(f.output_tokens),
        opt_int(f.reasoning_output_tokens),
        opt_int(f.total_tokens),
        opt_int(f.input_cache_hit_tokens),
        opt_int(f.input_cache_miss_tokens),
        opt_int(f.cache_read_tokens),
        opt_int(f.cache_write_tokens),
    ]
}

/// The usage fields the counts are read from, in the order of the record's fields.
pub open spec fn usage_count_keys() -> Seq<Seq<char>> {
    seq![
        "input_tokens"@,
        "cached_input_tokens"@,
        "output_tokens"@,
        "reasoning_tokens"@,
        "total_tokens"@,
        "input_cache_hit_tokens"@,
        "input_cache_miss_tokens"@,
        "cache_read_tokens"@,
        "cache_write_tokens"@,
    ]
}

/// A usage record read as [`usage_ledger_fields`] reads it takes each count from the usage key of
/// the same name (the reasoning output from `reasoning_tokens`): the output count is the
/// reported output, never the total.
pub proof fn law_usage_counts_are_read_by_name(metrics: JsonSpec, f: UsageLedgerFields)
    requires
        usage_counts(f) == usage_count_keys().map_values(|k: Seq<char>| usage_count(raw_usage(metrics), k)),
    ensures
        opt_int(f.input_tokens) == usage_count(raw_usage(metrics), "input_tokens"@),
        opt_int(f.cached_input_tokens) == usage_count(raw_usage(metrics), "cached_input_tokens"@),
        opt_int(f.output_tokens) == usage_count(raw_usage(metrics), "output_tokens"@),
        opt_int(f.reasoning_output_tokens) == usage_count(raw_usage(metrics), "reasoning_tokens"@),
        opt_int(f.total_tokens) == usage_count(raw_usage(metrics), "total_tokens"@),
        opt_int(f.input_cache_hit_tokens) == usage_count(raw_usage(metrics), "input_cache_hit_tokens"@),
        opt_int(f.input_cache_miss_tokens) == usage_count(raw_usage(metrics), "input_cache_miss_tokens"@),
        opt_int(f.cache_read_tokens) == usage_count(raw_usage(metrics), "cache_read_tokens"@),
        opt_int(f.cache_write_tokens) == usage_count(raw_usage(metrics), "cache_write_tokens"@),
{
    let counts = usage_counts(f);
    let read = usage_count_keys().map_values(|k: Seq<char>| usage_count(raw_usage(metrics), k));
    assert(counts[0] == read[0]);
    assert(counts[1] == read[1]);
    assert(counts[2] == read[2]);
    assert(counts[3] == read[3]);
    assert(counts[4] == read[4]);
    assert(counts[5] == read[5]);
    assert(counts[6] == read[6]);
    assert(counts[7] == read[7]);
    assert(counts[8] == read[8]);
}

/// What the run records of a model call's usage, for a node with these metrics that failed or
/// not, linked to the attempt that won.
pub fn usage_ledger_fields(metrics_payload: &JsonValue, failed: bool, failover_attempt_id: Option<u128>) -> (f:
    UsageLedgerFields)
    ensures
        f.failover_attempt_id == failover_attempt_id,
        f.provider_instance_id == uuid_at(metrics_payload@, "provider_instance_id"@),
        opt_string_view(f.model_id) == get_str(metrics_payload@, "model"@),
        opt_string_view(f.upstream_model_id) == get_str(metrics_payload@, "model"@),
        usage_counts(f) == usage_count_keys().map_values(|k: Seq<char>| usage_count(raw_usage(metrics_payload@), k)),
        f.usage_status == usage_status(metrics_payload@, failed),
        f.raw_usage@ == raw_usage(metrics_payload@),
        opt_int(f.input_tokens) == usage_count(raw_usage(metrics_payload@), "input_tokens"@),
        opt_int(f.cached_input_tokens) == usage_count(raw_usage(metrics_payload@), "cached_input_tokens"@),
        opt_int(f.output_tokens) == usage_count(raw_usage(metrics_payload@), "output_tokens"@),
        opt_int(f.reasoning_output_tokens) == usage_count(raw_usage(metrics_payload@), "reasoning_tokens"@),
        opt_int(f.total_tokens) == usage_count(raw_usage(metrics_payload@), "total_tokens"@),
        opt_int(f.input_cache_hit_tokens) == usage_count(raw_usage(metrics_payload@), "input_cache_hit_tokens"@),
        opt_int(f.input_cache_miss_tokens) == usage_count(
            raw_usage(metrics_payload@),
            "input_cache_miss_tokens"@,
        ),
        opt_int(f.cache_read_tokens) == usage_count(raw_usage(metrics_payload@), "cache_read_tokens"@),
        opt_int(f.cache_write_tokens) == usage_count(raw_usage(metrics_payload@), "cache_write_tokens"@),
        (f.usage_status == UsageLedgerStatus::Recorded) <==> (spec_get(metrics_payload@, "usage"@) is Some
            && !failed),
{
    let (raw, reported) = match metrics_payload.get("usage") {
        Some(u) => (clone_json(u), true),
        None => {
            let empty: Vec<(String, JsonValue)> = Vec::new();
            proof {
                lemma_object_view(empty);
                assert(entry_views(empty@) =~= Seq::<(Seq<char>, JsonSpec)>::empty());
            }
            (JsonValue::Object(empty), false)
        },
    };
    let usage_status = if reported && !failed {
        UsageLedgerStatus::Recorded
    } else {
        UsageLedgerStatus::UnavailableError
    };
    let f = UsageLedgerFields {
        failover_attempt_id,
        provider_instance_id: uuid_field(metrics_payload, "provider_instance_id"),
        model_id: owned(metrics_payload.get_str("model")),
        upstream_model_id: owned(metrics_payload.get_str("model")),
        input_tokens: usage_i64(&raw, "input_tokens"),
        cached_input_tokens: usage_i64(&raw, "cached_input_tokens"),
        output_tokens: usage_i64(&raw, "output_tokens"),
        reasoning_output_tokens: usage_i64(&raw, "reasoning_tokens"),
        total_tokens: usage_i64(&raw, "total_tokens"),
        input_cache_hit_tokens: usage_i64(&raw, "input_cache_hit_tokens"),
        input_cache_miss_tokens: usage_i64(&raw, "input_cache_miss_tokens"),
        cache_read_tokens: usage_i64(&raw, "cache_read_tokens"),
        cache_write_tokens: usage_i64(&raw, "cache_write_tokens"),
        usage_status,
        raw_usage: raw,
    };
    assert(usage_counts(f) =~= usage_count_keys().map_values(
        |k: Seq<char>| usage_count(raw_usage(metrics_payload@), k),
    ));
    proof {
        law_usage_counts_are_read_by_name(metrics_payload@, f);
    }
    f
}

/// The input a model call is recorded as having been given: the node's input, with the provider
/// and model its metrics name.
pub open spec fn model_input_spec(node_input: JsonSpec, metrics: JsonSpec) -> JsonSpec {
    JsonSpec::Object(
        seq![
            ("node_input"@, node_input),
            ("provider"@, get_or_null(metrics, "provider_code"@)),
            ("model"@, get_or_null(metrics, "model"@)),
        ],
    )
}

/// The input a model call is recorded as having been given.
pub fn model_input_payload(node_input: JsonValue, metrics_payload: &JsonValue) -> (v: JsonValue)
    ensures
        v@ == model_input_spec(node_input@, metrics_payload@),
{
    let ghost input = node_input@;
    let mut entries: Vec<(String, JsonValue)> = Vec::new();
    entries.push((to_string("node_input"), node_input));
    entries.push((to_string("provider"), value_or_null(metrics_payload, "provider_code")));
    entries.push((to_string("model"), value_or_null(metrics_payload, "model")));
    proof {
        lemma_object_view(entries);
        assert(entry_views(entries@) =~= model_input_spec(input, metrics_payload@)->Object_0);
    }
    JsonValue::Object(entries)
}

} // verus!
