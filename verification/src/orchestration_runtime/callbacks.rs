//! Checks on what a client sends back for a waiting node: the results of an LLM's tool calls,
//! and the answer to a data model write that waits for confirmation.

use vstd::prelude::*;
use crate::json::{
    clone_json, entry_views, get_array, get_str, lemma_array_view, lemma_object_view, spec_as_bool, spec_get, views,
    JsonSpec, JsonValue,
};
use crate::orchestration_runtime::data_model_runtime::{
    confirmation_error_spec, confirmation_metadata_check, ensure_side_effect_confirmation_metadata,
    ConfirmationErrorSpec, ConfirmationMetadataError, DataModelNodeExecution,
};
use crate::orchestration_runtime::json_payload::{escape_json_nul, escape_json_nul_characters};
use crate::outside::{uuid_hyphenated, uuid_to_hyphenated};
use crate::text::{lemma_text_lt_irreflexive, lemma_text_lt_total, lemma_text_lt_transitive, str_eq, text_less, text_lt, to_string};

verus! {

/// The ids of the tool calls, in order; the first call without a text `id` makes it an error.
pub open spec fn call_ids(calls: Seq<JsonSpec>) -> Option<Seq<Seq<char>>>
    decreases calls.len(),
{
    if calls.len() == 0 {
        Some(seq![])
    } else {
        match call_ids(calls.drop_last()) {
            None => None,
            Some(ids) => match get_str(calls.last(), "id"@) {
                None => None,
                Some(id) => Some(ids.push(id)),
            },
        }
    }
}

/// The results checked in order against the expected ids: each names a text `tool_call_id` that
/// is expected and not answered yet. The ids answered, or the first error.
pub open spec fn received_ids(results: Seq<JsonSpec>, expected: Seq<Seq<char>>) -> Result<Seq<Seq<char>>, Seq<char>>
    decreases results.len(),
{
    if results.len() == 0 {
        Ok(seq![])
    } else {
        match received_ids(results.drop_last(), expected) {
            Err(m) => Err(m),
            Ok(received) => match get_str(results.last(), "tool_call_id"@) {
                None => Err("llm tool callback result is missing tool_call_id"@),
                Some(id) => if !expected.contains(id) {
                    Err("unexpected tool result for "@ + id)
                } else if received.contains(id) {
                    Err("duplicate tool result for "@ + id)
                } else {
                    Ok(received.push(id))
                },
            },
        }
    }
}

/// Every tool call of the request must be answered exactly once, and nothing else. When some
/// are left unanswered, the error names the first of them in text order.
pub open spec fn tool_results_check(request: JsonSpec, response: JsonSpec) -> Result<(), Seq<char>> {
    match get_array(request, "tool_calls"@) {
        None => Err("llm tool callback request is missing tool_calls"@),
        Some(calls) => match get_array(response, "tool_results"@) {
            None => Err("llm tool callback response requires tool_results"@),
            Some(results) => match call_ids(calls) {
                None => Err("llm tool callback request has tool call without id"@),
                Some(expected) => match received_ids(results, expected) {
                    Err(m) => Err(m),
                    Ok(received) => if exists|i: int|
                        0 <= i < expected.len() && !received.contains(#[trigger] expected[i]) {
                        let i = choose|i: int|
                            0 <= i < expected.len() && !received.contains(expected[i]) && forall|k: int|
                                0 <= k < expected.len() && !received.contains(#[trigger] expected[k]) ==> !text_lt(
                                    expected[k],
                                    expected[i],
                                );
                        Err("missing tool result for "@ + expected[i])
                    } else {
                        Ok(())
                    },
                },
            },
        },
    }
}

proof fn lemma_call_ids_none_stays(calls: Seq<JsonSpec>, i: int)
    requires
        0 <= i <= calls.len(),
        call_ids(calls.take(i)) is None,
    ensures
        call_ids(calls) is None,
    decreases calls.len() - i,
{
    if i < calls.len() {
        assert(calls.take(i + 1).drop_last() =~= calls.take(i));
        lemma_call_ids_none_stays(calls, i + 1);
    } else {
        assert(calls.take(i) =~= calls);
    }
}

proof fn lemma_received_err_stays(results: Seq<JsonSpec>, expected: Seq<Seq<char>>, i: int)
    requires
        0 <= i <= results.len(),
        received_ids(results.take(i), expected) is Err,
    ensures
        received_ids(results, expected) == received_ids(results.take(i), expected),
    decreases results.len() - i,
{
    if i < results.len() {
        assert(results.take(i + 1).drop_last() =~= results.take(i));
        lemma_received_err_stays(results, expected, i + 1);
    } else {
        assert(results.take(i) =~= results);
    }
}

fn contains_id(ids: &Vec<Vec<char>>, id: &Vec<char>) -> (b: bool)
    ensures
        b == ids@.map_values(|v: Vec<char>| v@).contains(id@),
{
    let ghost vs = ids@.map_values(|v: Vec<char>| v@);
    let mut i: usize = 0;
    while i < ids.len()
        invariant
            i <= ids@.len(),
            vs == ids@.map_values(|v: Vec<char>| v@),
            forall|k: int| 0 <= k < i ==> vs[k] != id@,
        decreases ids.len() - i,
    {
        if ids[i].len() == id.len() && crate::text::matches_at(&ids[i], id, 0) {
            assert(ids@[i as int]@ =~= id@);
            assert(vs[i as int] == id@);
            return true;
        }
        proof {
            if vs[i as int] == id@ {
                assert(ids@[i as int]@.subrange(0, id@.len() as int) =~= id@);
            }
        }
        i = i + 1;
    }
    false
}

/// Checks the results a client sends for an LLM's tool calls.
pub fn ensure_llm_tool_callback_results_complete(request_payload: &JsonValue, response_payload: &JsonValue) -> (r:
    Result<(), String>)
    ensures
        match tool_results_check(request_payload@, response_payload@) {
            Ok(()) => r is Ok,
            Err(m) => r is Err && r->Err_0@ == m,
        },
{
    let tool_calls = match request_payload.get_array("tool_calls") {
        Some(t) => t,
        None => {
            return Err(to_string("llm tool callback request is missing tool_calls"));
        },
    };
    let tool_results = match response_payload.get_array("tool_results") {
        Some(t) => t,
        None => {
            return Err(to_string("llm tool callback response requires tool_results"));
        },
    };
    let ghost calls = views(tool_calls@);
    let ghost results = views(tool_results@);
    let mut expected: Vec<Vec<char>> = Vec::new();
    let mut i: usize = 0;
    assert(calls.take(0) =~= Seq::<JsonSpec>::empty());
    assert(expected@.map_values(|v: Vec<char>| v@) =~= Seq::<Seq<char>>::empty());
    while i < tool_calls.len()
        invariant
            i <= tool_calls@.len(),
            calls == views(tool_calls@),
            get_array(request_payload@, "tool_calls"@) == Some(calls),
            get_array(response_payload@, "tool_results"@) == Some(results),
            call_ids(calls.take(i as int)) == Some(expected@.map_values(|v: Vec<char>| v@)),
        decreases tool_calls.len() - i,
    {
        assert(calls.take(i + 1).drop_last() =~= calls.take(i as int));
        assert(calls.take(i + 1).last() == tool_calls@[i as int]@);
        match tool_calls[i].get_str("id") {
            Some(id) => {
                let ghost before = expected@.map_values(|v: Vec<char>| v@);
                let c = crate::text::chars_of(id);
                expected.push(c);
                assert(expected@.map_values(|v: Vec<char>| v@) =~= before.push(id@));
            },
            None => {
                proof {
                    lemma_call_ids_none_stays(calls, i + 1);
                }
                return Err(to_string("llm tool callback request has tool call without id"));
            },
        }
        i = i + 1;
    }
    assert(calls.take(tool_calls.len() as int) =~= calls);
    let ghost ex = expected@.map_values(|v: Vec<char>| v@);
    let mut received: Vec<Vec<char>> = Vec::new();
    let mut j: usize = 0;
    assert(results.take(0) =~= Seq::<JsonSpec>::empty());
    assert(received@.map_values(|v: Vec<char>| v@) =~= Seq::<Seq<char>>::empty());
    while j < tool_results.len()
        invariant
            j <= tool_results@.len(),
            results == views(tool_results@),
            ex == expected@.map_values(|v: Vec<char>| v@),
            call_ids(calls) == Some(ex),
            get_array(request_payload@, "tool_calls"@) == Some(calls),
            get_array(response_payload@, "tool_results"@) == Some(results),
            received_ids(results.take(j as int), ex) == Ok::<Seq<Seq<char>>, Seq<char>>(
                received@.map_values(|v: Vec<char>| v@),
            ),
        decreases tool_results.len() - j,
    {
        assert(results.take(j + 1).drop_last() =~= results.take(j as int));
        assert(results.take(j + 1).last() == tool_results@[j as int]@);
        let id = match tool_results[j].get_str("tool_call_id") {
            Some(id) => id,
            None => {
                proof {
                    lemma_received_err_stays(results, ex, j + 1);
                }
                return Err(to_string("llm tool callback result is missing tool_call_id"));
            },
        };
        let c = crate::text::chars_of(id);
        if !contains_id(&expected, &c) {
            proof {
                lemma_received_err_stays(results, ex, j + 1);
            }
            let mut m = to_string("unexpected tool result for ");
            m.push_str(id);
            return Err(m);
        }
        if contains_id(&received, &c) {
            proof {
                lemma_received_err_stays(results, ex, j + 1);
            }
            let mut m = to_string("duplicate tool result for ");
            m.push_str(id);
            return Err(m);
        }
        let ghost before = received@.map_values(|v: Vec<char>| v@);
        received.push(c);
        assert(received@.map_values(|v: Vec<char>| v@) =~= before.push(id@));
        j = j + 1;
    }
    assert(results.take(tool_results.len() as int) =~= results);
    let ghost rv = received@.map_values(|v: Vec<char>| v@);
    let mut best: Option<usize> = None;
    let mut k: usize = 0;
    while k < expected.len()
        invariant
            k <= expected@.len(),
            ex == expected@.map_values(|v: Vec<char>| v@),
            rv == received@.map_values(|v: Vec<char>| v@),
            match best {
                None => forall|x: int| 0 <= x < k ==> rv.contains(#[trigger] ex[x]),
                Some(b) => b < k && !rv.contains(ex[b as int]) && forall|x: int|
                    0 <= x < k && !rv.contains(#[trigger] ex[x]) ==> !text_lt(ex[x], ex[b as int]),
            },
        decreases expected.len() - k,
    {
        assert(ex[k as int] == expected@[k as int]@);
        if !contains_id(&received, &expected[k]) {
            match best {
                None => {
                    proof {
                        lemma_text_lt_irreflexive(ex[k as int]);
                    }
                    best = Some(k);
                },
                Some(b) => {
                    if text_less(&expected[k], &expected[b]) {
                        proof {
                            assert forall|x: int| 0 <= x < k + 1 && !rv.contains(#[trigger] ex[x]) implies !text_lt(
                                ex[x],
                                ex[k as int],
                            ) by {
                                if x < k && text_lt(ex[x], ex[k as int]) {
                                    lemma_text_lt_transitive(ex[x], ex[k as int], ex[b as int]);
                                }
                                if x == k {
                                    lemma_text_lt_irreflexive(ex[x]);
                                }
                            }
                        }
                        best = Some(k);
                    }
                },
            }
        }
        k = k + 1;
    }
    match best {
        None => Ok(()),
        Some(b) => {
            let mut m = to_string("missing tool result for ");
            let id = crate::text::string_from_chars(&expected[b], 0, expected[b].len());
            m.push_str(id.as_str());
            proof {
                assert(expected@[b as int]@.subrange(0, expected@[b as int]@.len() as int) =~= ex[b as int]);
                let witness = b as int;
                assert(0 <= witness < ex.len() && !rv.contains(ex[witness]));
                let i = choose|i: int|
                    0 <= i < ex.len() && !rv.contains(ex[i]) && forall|x: int|
                        0 <= x < ex.len() && !rv.contains(#[trigger] ex[x]) ==> !text_lt(ex[x], ex[i]);
                lemma_least_missing_unique(ex, rv, i, witness);
            }
            Err(m)
        },
    }
}

proof fn lemma_least_missing_unique(ex: Seq<Seq<char>>, rv: Seq<Seq<char>>, i: int, b: int)
    requires
        0 <= i < ex.len(),
        0 <= b < ex.len(),
        !rv.contains(ex[i]),
        !rv.contains(ex[b]),
        forall|x: int| 0 <= x < ex.len() && !rv.contains(#[trigger] ex[x]) ==> !text_lt(ex[x], ex[i]),
        forall|x: int| 0 <= x < ex.len() && !rv.contains(#[trigger] ex[x]) ==> !text_lt(ex[x], ex[b]),
    ensures
        ex[i] == ex[b],
{
    if ex[i] != ex[b] {
        lemma_text_lt_total(ex[i], ex[b]);
    }
}

/// A write that waited for confirmation goes on only when the answer approves it (`approved`,
/// or, when absent, `confirmed`).
pub open spec fn confirmation_approved(response: JsonSpec) -> bool {
    let flag = match spec_get(response, "approved"@) {
        Some(v) => Some(v),
        None => spec_get(response, "confirmed"@),
    };
    match flag {
        Some(v) => spec_as_bool(v) == Some(true),
        None => false,
    }
}

pub fn ensure_data_model_side_effect_confirmation_approved(response_payload: &JsonValue) -> (r: Result<(), String>)
    ensures
        r is Ok <==> confirmation_approved(response_payload@),
        r is Err ==> r->Err_0@
            == "DATA_MODEL_SIDE_EFFECT_CONFIRMATION_REJECTED: data_model write requires approved confirmation"@,
{
    let flag = match response_payload.get("approved") {
        Some(v) => Some(v),
        None => response_payload.get("confirmed"),
    };
    let approved = match flag {
        Some(v) => match v.as_bool() {
            Some(b) => b,
            None => false,
        },
        None => false,
    };
    if approved {
        Ok(())
    } else {
        Err(
            to_string(
                "DATA_MODEL_SIDE_EFFECT_CONFIRMATION_REJECTED: data_model write requires approved confirmation",
            ),
        )
    }
}


/// A callback task a run waits on, as far as completing it reads it.
pub struct CallbackTaskFacts {
    pub id: u128,
    pub node_run_id: u128,
    pub callback_kind: String,
    pub request_payload: JsonValue,
    pub external_ref_payload: Option<JsonValue>,
}

/// The confirmation a data model callback task carries: its external reference, else its request.
pub open spec fn task_confirmation(t: CallbackTaskFacts) -> JsonSpec {
    match t.external_ref_payload {
        Some(p) => p@,
        None => t.request_payload@,
    }
}

/// The checks on the (escaped) response that completes a callback task, by its kind: a data model
/// confirmation must approve, come from its actor and be in time; tool calls must all have
/// results.
pub open spec fn callback_response_check(t: CallbackTaskFacts, actor_user_id: u128, response: JsonSpec, now: int) -> Result<
    (),
    ConfirmationErrorSpec,
> {
    let first = if t.callback_kind@ == "data_model_side_effect_confirmation"@ {
        if !confirmation_approved(response) {
            Err(
                ConfirmationErrorSpec::Invalid(
                    "DATA_MODEL_SIDE_EFFECT_CONFIRMATION_REJECTED: data_model write requires approved confirmation"@,
                ),
            )
        } else {
            confirmation_metadata_check(actor_user_id, task_confirmation(t), now)
        }
    } else {
        Ok(())
    };
    match first {
        Err(e) => Err(e),
        Ok(()) => if t.callback_kind@ == "llm_tool_calls"@ {
            match tool_results_check(t.request_payload@, response) {
                Err(m) => Err(ConfirmationErrorSpec::Invalid(m)),
                Ok(()) => Ok(()),
            }
        } else {
            Ok(())
        },
    }
}

/// Checks the response that completes a callback task at `now_unix_nanos`, after escaping its
/// NUL characters, and gives the escaped response.
pub fn check_callback_completion(
    task: &CallbackTaskFacts,
    actor_user_id: u128,
    response_payload: JsonValue,
    now_unix_nanos: i128,
) -> (r: Result<JsonValue, ConfirmationMetadataError>)
    ensures
        match callback_response_check(*task, actor_user_id, escape_json_nul(response_payload@), now_unix_nanos as int) {
            Ok(()) => r is Ok && r->Ok_0@ == escape_json_nul(response_payload@),
            Err(e) => r is Err && confirmation_error_spec(r->Err_0) == e,
        },
{
    let response = escape_json_nul_characters(response_payload);
    if str_eq(task.callback_kind.as_str(), "data_model_side_effect_confirmation") {
        match ensure_data_model_side_effect_confirmation_approved(&response) {
            Ok(()) => {},
            Err(m) => {
                return Err(ConfirmationMetadataError::Invalid(m));
            },
        }
        let confirmation = match &task.external_ref_payload {
            Some(p) => p,
            None => &task.request_payload,
        };
        match ensure_side_effect_confirmation_metadata(actor_user_id, confirmation, now_unix_nanos) {
            Ok(()) => {},
            Err(e) => {
                return Err(e);
            },
        }
    }
    if str_eq(task.callback_kind.as_str(), "llm_tool_calls") {
        match ensure_llm_tool_callback_results_complete(&task.request_payload, &response) {
            Ok(()) => {},
            Err(m) => {
                return Err(ConfirmationMetadataError::Invalid(m));
            },
        }
    }
    Ok(response)
}

/// How the node that waited on a callback is resumed.
pub struct WaitingNodeResume {
    pub node_run_id: u128,
    pub output_payload: JsonValue,
    pub metrics_payload: JsonValue,
    pub debug_payload: JsonValue,
}

/// The output a waiting node is resumed with: a tool-call node keeps its own output, any other
/// takes the response that completed its task.
pub open spec fn resumed_output(kind: Seq<char>, waiting_output: JsonSpec, response: Option<JsonSpec>) -> Result<
    JsonSpec,
    Seq<char>,
> {
    if kind == "llm_tool_calls"@ {
        Ok(waiting_output)
    } else {
        match response {
            Some(r) => Ok(r),
            None => Err("completed callback task is missing response payload"@),
        }
    }
}

/// How the node that waited on a completed callback task is resumed: with its output (see
/// [`resumed_output`]), metrics saying it resumed and for which kind of callback, and debug
/// facts naming the task.
pub fn callback_waiting_node_resume(
    task: &CallbackTaskFacts,
    waiting_output: &JsonValue,
    completed_response: Option<&JsonValue>,
) -> (r: Result<WaitingNodeResume, String>)
    ensures
        match resumed_output(task.callback_kind@, waiting_output@, crate::json::opt_view(completed_response)) {
            Ok(o) => r is Ok && r->Ok_0.node_run_id == task.node_run_id && r->Ok_0.output_payload@ == o
                && r->Ok_0.metrics_payload@ == JsonSpec::Object(
                seq![("resumed"@, JsonSpec::Bool(true)), ("callback_kind"@, JsonSpec::Str(task.callback_kind@))],
            ) && r->Ok_0.debug_payload@ == JsonSpec::Object(
                seq![
                    ("callback_task_id"@, JsonSpec::Str(uuid_hyphenated(task.id))),
                    ("callback_kind"@, JsonSpec::Str(task.callback_kind@)),
                ],
            ),
            Err(m) => r is Err && r->Err_0@ == m,
        },
{
    let output = if str_eq(task.callback_kind.as_str(), "llm_tool_calls") {
        clone_json(waiting_output)
    } else {
        match completed_response {
            Some(p) => clone_json(p),
            None => {
                return Err(to_string("completed callback task is missing response payload"));
            },
        }
    };
    let mut metrics: Vec<(String, JsonValue)> = Vec::new();
    metrics.push((to_string("resumed"), JsonValue::Bool(true)));
    metrics.push((to_string("callback_kind"), JsonValue::Str(task.callback_kind.clone())));
    let mut debug: Vec<(String, JsonValue)> = Vec::new();
    debug.push((to_string("callback_task_id"), JsonValue::Str(uuid_to_hyphenated(task.id))));
    debug.push((to_string("callback_kind"), JsonValue::Str(task.callback_kind.clone())));
    proof {
        lemma_object_view(metrics);
        lemma_object_view(debug);
        assert(entry_views(metrics@) =~= seq![
            ("resumed"@, JsonSpec::Bool(true)),
            ("callback_kind"@, JsonSpec::Str(task.callback_kind@)),
        ]);
        assert(entry_views(debug@) =~= seq![
            ("callback_task_id"@, JsonSpec::Str(uuid_hyphenated(task.id))),
            ("callback_kind"@, JsonSpec::Str(task.callback_kind@)),
        ]);
    }
    Ok(
        WaitingNodeResume {
            node_run_id: task.node_run_id,
            output_payload: output,
            metrics_payload: JsonValue::Object(metrics),
            debug_payload: JsonValue::Object(debug),
        },
    )
}

/// A checkpoint of a run, as far as finding the one of a waiting node reads it.
pub struct CheckpointFacts {
    pub id: u128,
    pub node_run_id: Option<u128>,
}

/// The position of the last checkpoint of a node run among the first `n`.
pub open spec fn last_checkpoint_of(checkpoints: Seq<CheckpointFacts>, node_run_id: u128, n: int) -> Option<int>
    decreases n,
{
    if n <= 0 {
        None
    } else if checkpoints[n - 1].node_run_id == Some(node_run_id) {
        Some(n - 1)
    } else {
        last_checkpoint_of(checkpoints, node_run_id, n - 1)
    }
}

/// The checkpoint a waiting node resumes from: the last one taken for its node run.
pub fn latest_checkpoint_for_node(checkpoints: &Vec<CheckpointFacts>, node_run_id: u128) -> (r: Result<usize, String>)
    ensures
        match last_checkpoint_of(checkpoints@, node_run_id, checkpoints@.len() as int) {
            Some(p) => r == Ok::<usize, String>(p as usize),
            None => r is Err && r->Err_0@ == "checkpoint not found for callback task"@,
        },
{
    let mut n: usize = checkpoints.len();
    while n > 0
        invariant
            n <= checkpoints@.len(),
            last_checkpoint_of(checkpoints@, node_run_id, checkpoints@.len() as int) == last_checkpoint_of(
                checkpoints@,
                node_run_id,
                n as int,
            ),
        decreases n,
    {
        if checkpoints[n - 1].node_run_id == Some(node_run_id) {
            return Ok(n - 1);
        }
        n = n - 1;
    }
    Err(to_string("checkpoint not found for callback task"))
}

/// What the run records as the cause of its resumption after a callback task.
pub fn callback_resumed_trigger_payload(task_id: u128, response_payload: &JsonValue) -> (v: JsonValue)
    ensures
        v@ == JsonSpec::Object(
            seq![
                ("callback_task_id"@, JsonSpec::Str(uuid_hyphenated(task_id))),
                ("response_payload"@, response_payload@),
            ],
        ),
{
    let mut entries: Vec<(String, JsonValue)> = Vec::new();
    entries.push((to_string("callback_task_id"), JsonValue::Str(uuid_to_hyphenated(task_id))));
    entries.push((to_string("response_payload"), clone_json(response_payload)));
    proof {
        lemma_object_view(entries);
        assert(entry_views(entries@) =~= seq![
            ("callback_task_id"@, JsonSpec::Str(uuid_hyphenated(task_id))),
            ("response_payload"@, response_payload@),
        ]);
    }
    JsonValue::Object(entries)
}


/// What completing a confirmed data model write does to the run that waited on it.
pub enum SideEffectCallbackOutcome {
    /// The write failed: the waiting node and the run fail with the error, and a
    /// `flow_run_failed` event carries it.
    Failed { error_payload: JsonValue, metrics_payload: JsonValue, debug_payload: JsonValue },
    /// The write was made: the run resumes from the node with its output, and records why.
    Resumed {
        output_payload: JsonValue,
        metrics_payload: JsonValue,
        debug_payload: JsonValue,
        trigger_payload: JsonValue,
    },
}

/// The plain facts of a [`SideEffectCallbackOutcome`]: its kind (failed 0, resumed 1), then the
/// error or output, the metrics, the debug facts and the trigger payload.
pub open spec fn outcome_view(o: SideEffectCallbackOutcome) -> (int, JsonSpec, JsonSpec, JsonSpec, JsonSpec) {
    match o {
        SideEffectCallbackOutcome::Failed { error_payload, metrics_payload, debug_payload } => (
            0,
            error_payload@,
            metrics_payload@,
            debug_payload@,
            JsonSpec::Null,
        ),
        SideEffectCallbackOutcome::Resumed { output_payload, metrics_payload, debug_payload, trigger_payload } => (
            1,
            output_payload@,
            metrics_payload@,
            debug_payload@,
            trigger_payload@,
        ),
    }
}

/// The debug facts of a node resumed by a confirmation.
pub open spec fn confirmed_debug_json(task: CallbackTaskFacts) -> JsonSpec {
    JsonSpec::Object(
        seq![
            ("callback_task_id"@, JsonSpec::Str(uuid_hyphenated(task.id))),
            ("callback_kind"@, JsonSpec::Str(task.callback_kind@)),
            ("confirmed"@, JsonSpec::Bool(true)),
        ],
    )
}

/// The debug facts of a node that failed its confirmed write.
pub open spec fn callback_debug_json(task: CallbackTaskFacts) -> JsonSpec {
    JsonSpec::Object(
        seq![
            ("callback_task_id"@, JsonSpec::Str(uuid_hyphenated(task.id))),
            ("callback_kind"@, JsonSpec::Str(task.callback_kind@)),
        ],
    )
}

/// The receipt that a confirmed write's metrics carry, or null.
pub open spec fn side_effect_receipt_of(metrics: JsonSpec) -> JsonSpec {
    match spec_get(metrics, "side_effect_receipt"@) {
        Some(v) => v,
        None => JsonSpec::Null,
    }
}

/// What completing a confirmed data model write does to the run that waited on it, given the
/// node's outcome and the response that confirmed it.
pub fn side_effect_callback_outcome(
    task: &CallbackTaskFacts,
    execution: &DataModelNodeExecution,
    response_payload: &JsonValue,
) -> (r: SideEffectCallbackOutcome)
    ensures
        execution.error_payload is Some ==> outcome_view(r) == (
            0int,
            execution.error_payload->Some_0@,
            execution.metrics_payload@,
            callback_debug_json(*task),
            JsonSpec::Null,
        ),
        execution.error_payload is None ==> outcome_view(r) == (
            1int,
            execution.output_payload@,
            execution.metrics_payload@,
            confirmed_debug_json(*task),
            JsonSpec::Object(
                seq![
                    ("callback_task_id"@, JsonSpec::Str(uuid_hyphenated(task.id))),
                    ("response_payload"@, response_payload@),
                    ("side_effect_receipt"@, side_effect_receipt_of(execution.metrics_payload@)),
                ],
            ),
        ),
{
    let mut debug: Vec<(String, JsonValue)> = Vec::new();
    debug.push((to_string("callback_task_id"), JsonValue::Str(uuid_to_hyphenated(task.id))));
    debug.push((to_string("callback_kind"), JsonValue::Str(task.callback_kind.clone())));
    match &execution.error_payload {
        Some(error) => {
            proof {
                lemma_object_view(debug);
                assert(entry_views(debug@) =~= callback_debug_json(*task)->Object_0);
            }
            let d = JsonValue::Object(debug);
            assert(d@ == callback_debug_json(*task));
            let e = clone_json(error);
            let m = clone_json(&execution.metrics_payload);
            assert(execution.error_payload == Some(*error));
            SideEffectCallbackOutcome::Failed { error_payload: e, metrics_payload: m, debug_payload: d }
        },
        None => {
            debug.push((to_string("confirmed"), JsonValue::Bool(true)));
            let receipt = match execution.metrics_payload.get("side_effect_receipt") {
                Some(v) => clone_json(v),
                None => JsonValue::Null,
            };
            let ghost receipt_view = receipt@;
            assert(receipt_view == side_effect_receipt_of(execution.metrics_payload@));
            let mut trigger: Vec<(String, JsonValue)> = Vec::new();
            trigger.push((to_string("callback_task_id"), JsonValue::Str(uuid_to_hyphenated(task.id))));
            trigger.push((to_string("response_payload"), clone_json(response_payload)));
            trigger.push((to_string("side_effect_receipt"), receipt));
            proof {
                lemma_object_view(debug);
                lemma_object_view(trigger);
                assert(entry_views(debug@) =~= confirmed_debug_json(*task)->Object_0);
                assert(entry_views(trigger@) =~= seq![
                    ("callback_task_id"@, JsonSpec::Str(uuid_hyphenated(task.id))),
                    ("response_payload"@, response_payload@),
                    ("side_effect_receipt"@, receipt_view),
                ]);
            }
            let o = clone_json(&execution.output_payload);
            let m = clone_json(&execution.metrics_payload);
            let d = JsonValue::Object(debug);
            let t = JsonValue::Object(trigger);
            assert(d@ == confirmed_debug_json(*task));
            let ghost expected_trigger = JsonSpec::Object(
                seq![
                    ("callback_task_id"@, JsonSpec::Str(uuid_hyphenated(task.id))),
                    ("response_payload"@, response_payload@),
                    ("side_effect_receipt"@, receipt_view),
                ],
            );
            assert(t@ == expected_trigger);
            let r = SideEffectCallbackOutcome::Resumed { output_payload: o, metrics_payload: m, debug_payload: d, trigger_payload: t };
            assert(outcome_view(r) == (1int, execution.output_payload@, execution.metrics_payload@, confirmed_debug_json(*task), expected_trigger));
            r
        },
    }
}

/// What a node that waits on a client's callback writes: its run's metrics while it waits, the
/// checkpoint the run resumes from, and the callback task the client completes. The request is
/// the node's resolved inputs, sent to the client and kept as the checkpoint's reference.
pub struct CallbackWait {
    pub node_metrics_payload: JsonValue,
    pub checkpoint_status: String,
    pub checkpoint_reason: String,
    pub callback_kind: String,
    pub request_payload: JsonValue,
}

/// What a waiting node of this type, with these resolved inputs, writes before the run waits.
pub fn callback_wait(node_type: &str, resolved_inputs: &Vec<(String, JsonValue)>) -> (w: CallbackWait)
    ensures
        w.node_metrics_payload@ == JsonSpec::Object(
            seq![("preview_mode"@, JsonSpec::Bool(true)), ("waiting"@, JsonSpec::Str(node_type@))],
        ),
        w.checkpoint_status@ == "waiting_callback"@,
        w.checkpoint_reason@ == "等待 callback 回填"@,
        w.callback_kind@ == node_type@,
        w.request_payload@ == JsonSpec::Object(entry_views(resolved_inputs@)),
{
    let mut metrics: Vec<(String, JsonValue)> = Vec::new();
    metrics.push((to_string("preview_mode"), JsonValue::Bool(true)));
    metrics.push((to_string("waiting"), JsonValue::Str(to_string(node_type))));
    let mut request: Vec<(String, JsonValue)> = Vec::new();
    let mut i: usize = 0;
    while i < resolved_inputs.len()
        invariant
            i <= resolved_inputs@.len(),
            request@.len() == i,
            entry_views(request@) == entry_views(resolved_inputs@.subrange(0, i as int)),
        decreases resolved_inputs.len() - i,
    {
        let k = resolved_inputs[i].0.clone();
        let v = clone_json(&resolved_inputs[i].1);
        let ghost before = request@;
        request.push((k, v));
        proof {
            let lhs = entry_views(request@);
            let rhs = entry_views(resolved_inputs@.subrange(0, i + 1));
            assert forall|j: int| 0 <= j < lhs.len() implies #[trigger] lhs[j] == rhs[j] by {
                if j < i {
                    assert(request@[j] == before[j]);
                    assert(lhs[j] == entry_views(before)[j]);
                    assert(resolved_inputs@.subrange(0, i + 1)[j] == resolved_inputs@.subrange(0, i as int)[j]);
                } else {
                    assert(request@[j] == (k, v));
                    assert(resolved_inputs@.subrange(0, i + 1)[j] == resolved_inputs@[i as int]);
                }
            }
            assert(lhs =~= rhs);
        }
        i = i + 1;
    }
    proof {
        assert(resolved_inputs@.subrange(0, resolved_inputs@.len() as int) =~= resolved_inputs@);
        lemma_object_view(metrics);
        lemma_object_view(request);
        assert(entry_views(metrics@) =~= seq![
            ("preview_mode"@, JsonSpec::Bool(true)),
            ("waiting"@, JsonSpec::Str(node_type@)),
        ]);
    }
    CallbackWait {
        node_metrics_payload: JsonValue::Object(metrics),
        checkpoint_status: to_string("waiting_callback"),
        checkpoint_reason: to_string("等待 callback 回填"),
        callback_kind: to_string(node_type),
        request_payload: JsonValue::Object(request),
    }
}

/// What resuming a run from a checkpoint by hand writes: the input that resumes the waiting
/// node, the update of the node's run where the checkpoint names one, and the cause recorded
/// with the resumption.
pub struct CheckpointResume {
    pub resume_input: JsonValue,
    pub waiting_node_resume: Option<WaitingNodeResume>,
    pub trigger_payload: JsonValue,
}

/// How a run resumes from a checkpoint with an input: the input must be an object holding an
/// entry for the waiting node, which resumes it; the node's run (where the checkpoint names
/// one) takes that entry as its output, with metrics saying it resumed; the cause names the
/// checkpoint and the whole input.
pub fn checkpoint_resume(
    checkpoint_id: u128,
    node_run_id: Option<u128>,
    waiting_node_id: &str,
    input_payload: &JsonValue,
) -> (r: Result<CheckpointResume, String>)
    ensures
        match spec_get(input_payload@, waiting_node_id@) {
            None => r is Err && r->Err_0@ == "resume payload is missing node input for "@ + waiting_node_id@,
            Some(patch) => r matches Ok(c) && {
                &&& c.resume_input@ == patch
                &&& match node_run_id {
                    None => c.waiting_node_resume is None,
                    Some(id) => c.waiting_node_resume matches Some(w) && {
                        &&& w.node_run_id == id
                        &&& w.output_payload@ == patch
                        &&& w.metrics_payload@ == JsonSpec::Object(seq![("resumed"@, JsonSpec::Bool(true))])
                        &&& w.debug_payload@ == JsonSpec::Object(Seq::empty())
                    },
                }
                &&& c.trigger_payload@ == JsonSpec::Object(
                    seq![
                        ("checkpoint_id"@, JsonSpec::Str(uuid_hyphenated(checkpoint_id))),
                        ("input_payload"@, input_payload@),
                    ],
                )
            },
        },
{
    let patch = match input_payload.get(waiting_node_id) {
        Some(p) => clone_json(p),
        None => {
            let mut message = to_string("resume payload is missing node input for ");
            message.push_str(waiting_node_id);
            return Err(message);
        },
    };
    let waiting_node_resume = match node_run_id {
        None => None,
        Some(id) => {
            let mut metrics: Vec<(String, JsonValue)> = Vec::new();
            metrics.push((to_string("resumed"), JsonValue::Bool(true)));
            let debug: Vec<(String, JsonValue)> = Vec::new();
            proof {
                lemma_object_view(metrics);
                lemma_object_view(debug);
                assert(entry_views(metrics@) =~= seq![("resumed"@, JsonSpec::Bool(true))]);
                assert(entry_views(debug@) =~= Seq::<(Seq<char>, JsonSpec)>::empty());
            }
            Some(WaitingNodeResume {
                node_run_id: id,
                output_payload: clone_json(&patch),
                metrics_payload: JsonValue::Object(metrics),
                debug_payload: JsonValue::Object(debug),
            })
        },
    };
    let mut trigger: Vec<(String, JsonValue)> = Vec::new();
    trigger.push((to_string("checkpoint_id"), JsonValue::Str(uuid_to_hyphenated(checkpoint_id))));
    trigger.push((to_string("input_payload"), clone_json(input_payload)));
    proof {
        lemma_object_view(trigger);
        assert(entry_views(trigger@) =~= seq![
            ("checkpoint_id"@, JsonSpec::Str(uuid_hyphenated(checkpoint_id))),
            ("input_payload"@, input_payload@),
        ]);
    }
    Ok(CheckpointResume { resume_input: patch, waiting_node_resume, trigger_payload: JsonValue::Object(trigger) })
}

/// What a node that waits on a person writes: its run's metrics while it waits, the checkpoint
/// the run resumes from, and the reference the checkpoint keeps: the prompt shown to the person.
pub struct HumanInputWait {
    pub node_metrics_payload: JsonValue,
    pub checkpoint_status: String,
    pub checkpoint_reason: String,
    pub external_ref_payload: JsonValue,
}

/// The prompt a waiting node shows: its rendered `prompt` text, else a default request.
pub open spec fn human_prompt(rendered_templates: JsonSpec) -> Seq<char> {
    match get_str(rendered_templates, "prompt"@) {
        Some(p) => p,
        None => "请提供人工输入"@,
    }
}

/// What a node waiting on a person, with these rendered templates, writes before the run waits.
pub fn human_input_wait(rendered_templates: &JsonValue) -> (w: HumanInputWait)
    ensures
        w.node_metrics_payload@ == JsonSpec::Object(
            seq![("preview_mode"@, JsonSpec::Bool(true)), ("waiting"@, JsonSpec::Str("human_input"@))],
        ),
        w.checkpoint_status@ == "waiting_human"@,
        w.checkpoint_reason@ == "等待人工输入"@,
        w.external_ref_payload@ == JsonSpec::Object(
            seq![("prompt"@, JsonSpec::Str(human_prompt(rendered_templates@)))],
        ),
{
    let prompt = match rendered_templates.get_str("prompt") {
        Some(p) => to_string(p),
        None => to_string("请提供人工输入"),
    };
    let ghost prompt_view = prompt@;
    assert(prompt_view == human_prompt(rendered_templates@));
    let mut metrics: Vec<(String, JsonValue)> = Vec::new();
    metrics.push((to_string("preview_mode"), JsonValue::Bool(true)));
    metrics.push((to_string("waiting"), JsonValue::Str(to_string("human_input"))));
    let mut reference: Vec<(String, JsonValue)> = Vec::new();
    reference.push((to_string("prompt"), JsonValue::Str(prompt)));
    proof {
        lemma_object_view(metrics);
        lemma_object_view(reference);
        assert(entry_views(metrics@) =~= seq![
            ("preview_mode"@, JsonSpec::Bool(true)),
            ("waiting"@, JsonSpec::Str("human_input"@)),
        ]);
        assert(entry_views(reference@) =~= seq![("prompt"@, JsonSpec::Str(prompt_view))]);
    }
    HumanInputWait {
        node_metrics_payload: JsonValue::Object(metrics),
        checkpoint_status: to_string("waiting_human"),
        checkpoint_reason: to_string("等待人工输入"),
        external_ref_payload: JsonValue::Object(reference),
    }
}

} // verus!
