//! Decisions of a live debug run: where the run goes after a node, what a start or template
//! node is given, and whether a failed run can still finish its answer.

use vstd::prelude::*;
use crate::json::{
    clone_json, entries_insert, entry_views, get_str, json_equal, json_equal_spec, lemma_object_view, object_insert,
    object_lookup, spec_get, JsonSpec, JsonValue,
};
use crate::orchestration_runtime::compiled_plan::{find_node, node_index, CompiledNode, CompiledPlan};
use crate::text::{contains_seq, contains_str, str_eq, string_views, to_string, trim, trim_to_string};

verus! {

/// The position of the first occurrence of an id, from position `i` on.
pub open spec fn position_from(ids: Seq<Seq<char>>, id: Seq<char>, i: int) -> Option<int>
    decreases ids.len() - i,
{
    if i < 0 || i >= ids.len() {
        None
    } else if ids[i] == id {
        Some(i)
    } else {
        position_from(ids, id, i + 1)
    }
}

/// The position after a node in the topological order.
pub fn next_node_index(compiled_plan: &CompiledPlan, node_id: &str) -> (r: Result<usize, String>)
    ensures
        match position_from(string_views(compiled_plan.topological_order@), node_id@, 0) {
            Some(i) => r is Ok && r->Ok_0 == i + 1,
            None => r is Err && r->Err_0@ == "compiled node missing from topological order: "@ + node_id@,
        },
{
    let order = &compiled_plan.topological_order;
    let ghost ids = string_views(order@);
    let mut i: usize = 0;
    while i < order.len()
        invariant
            i <= order@.len(),
            ids == string_views(order@),
            ids == string_views(compiled_plan.topological_order@),
            position_from(ids, node_id@, 0) == position_from(ids, node_id@, i as int),
        decreases order.len() - i,
    {
        if str_eq(order[i].as_str(), node_id) {
            assert(ids[i as int] == node_id@);
            return Ok(i + 1);
        }
        i = i + 1;
    }
    let mut m = to_string("compiled node missing from topological order: ");
    m.push_str(node_id);
    Err(m)
}

/// The key of a node's first output, `output` when it declares none.
pub fn first_output_key(node: &CompiledNode) -> (key: String)
    ensures
        node.outputs@.len() > 0 ==> key@ == node.outputs@[0].key@,
        node.outputs@.len() == 0 ==> key@ == "output"@,
{
    if node.outputs.len() > 0 {
        to_string(node.outputs[0].key.as_str())
    } else {
        to_string("output")
    }
}

/// The first start node of a plan, in the order of node ids.
pub open spec fn start_node_of(nodes: Seq<CompiledNode>) -> Option<Seq<char>>
    decreases nodes.len(),
{
    if nodes.len() == 0 {
        None
    } else if nodes[0].node_type@ == "start"@ {
        Some(nodes[0].node_id@)
    } else {
        start_node_of(nodes.drop_first())
    }
}

pub fn compiled_plan_start_node_id(compiled_plan: &CompiledPlan) -> (r: Option<String>)
    ensures
        crate::json::opt_string_view(r) == start_node_of(compiled_plan.nodes@),
{
    let nodes = &compiled_plan.nodes;
    let mut i: usize = 0;
    assert(nodes@.skip(0) =~= nodes@);
    while i < nodes.len()
        invariant
            i <= nodes@.len(),
            nodes@ == compiled_plan.nodes@,
            start_node_of(nodes@) == start_node_of(nodes@.skip(i as int)),
        decreases nodes.len() - i,
    {
        assert(nodes@.skip(i as int).drop_first() =~= nodes@.skip(i + 1));
        assert(nodes@.skip(i as int)[0] == nodes@[i as int]);
        if str_eq(nodes[i].node_type.as_str(), "start") {
            return Some(to_string(nodes[i].node_id.as_str()));
        }
        i = i + 1;
    }
    None
}

/// The reasoning effort that model parameters ask for: `reasoning.effort`, trimmed, unless blank.
pub open spec fn reasoning_effort_of(model_parameters: JsonSpec) -> Option<Seq<char>> {
    match spec_get(model_parameters, "reasoning"@) {
        Some(r) => match get_str(r, "effort"@) {
            Some(e) => if trim(e).len() > 0 {
                Some(trim(e))
            } else {
                None
            },
            None => None,
        },
        None => None,
    }
}

pub fn external_reasoning_effort(model_parameters: &JsonValue) -> (r: Option<String>)
    ensures
        crate::json::opt_string_view(r) == reasoning_effort_of(model_parameters@),
{
    match model_parameters.get("reasoning") {
        Some(reasoning) => match reasoning.get_str("effort") {
            Some(e) => {
                let t = trim_to_string(e);
                if t.as_str().is_empty() {
                    None
                } else {
                    Some(t)
                }
            },
            None => None,
        },
        None => None,
    }
}

/// The input of a start node: its own entry of the variable pool (when an object), with the
/// pool's `sys` and `env` put in.
pub open spec fn start_input(pool: Seq<(Seq<char>, JsonSpec)>, node_id: Seq<char>) -> Seq<(Seq<char>, JsonSpec)> {
    let own = match object_lookup(pool, node_id) {
        Some(JsonSpec::Object(e)) => e,
        _ => seq![],
    };
    let with_sys = match object_lookup(pool, "sys"@) {
        Some(s) => entries_insert(own, "sys"@, s),
        None => own,
    };
    match object_lookup(pool, "env"@) {
        Some(e) => entries_insert(with_sys, "env"@, e),
        None => with_sys,
    }
}

fn lookup<'a>(pool: &'a Vec<(String, JsonValue)>, key: &str) -> (r: Option<&'a JsonValue>)
    ensures
        crate::json::opt_view(r) == object_lookup(entry_views(pool@), key@),
{
    crate::json::lookup_entry(pool, key)
}

fn clone_object_entries(v: &JsonValue) -> (out: Vec<(String, JsonValue)>)
    ensures
        entry_views(out@) == match v@ {
            JsonSpec::Object(e) => e,
            _ => seq![],
        },
{
    match clone_json(v) {
        JsonValue::Object(entries) => {
            proof {
                lemma_object_view(entries);
            }
            entries
        },
        _ => {
            let e: Vec<(String, JsonValue)> = Vec::new();
            assert(entry_views(e@) =~= Seq::<(Seq<char>, JsonSpec)>::empty());
            e
        },
    }
}

pub fn start_node_input_payload(variable_pool: &Vec<(String, JsonValue)>, node_id: &str) -> (payload: JsonValue)
    ensures
        payload@ == JsonSpec::Object(start_input(entry_views(variable_pool@), node_id@)),
{
    let mut payload: Vec<(String, JsonValue)> = match lookup(variable_pool, node_id) {
        Some(v) => clone_object_entries(v),
        None => {
            let e: Vec<(String, JsonValue)> = Vec::new();
            assert(entry_views(e@) =~= Seq::<(Seq<char>, JsonSpec)>::empty());
            e
        },
    };
    match lookup(variable_pool, "sys") {
        Some(sys) => object_insert(&mut payload, to_string("sys"), clone_json(sys)),
        None => {},
    }
    match lookup(variable_pool, "env") {
        Some(env) => object_insert(&mut payload, to_string("env"), clone_json(env)),
        None => {},
    }
    proof {
        lemma_object_view(payload);
    }
    JsonValue::Object(payload)
}

/// The output of a template node: its output under its key; an answer node also passes on the
/// pool's `sys` and `env`.
pub open spec fn template_output(
    node_type: Seq<char>,
    output_key: Seq<char>,
    output_value: JsonSpec,
    pool: Seq<(Seq<char>, JsonSpec)>,
) -> Seq<(Seq<char>, JsonSpec)> {
    let base = seq![(output_key, output_value)];
    if node_type == "answer"@ {
        let with_sys = match object_lookup(pool, "sys"@) {
            Some(s) => entries_insert(base, "sys"@, s),
            None => base,
        };
        match object_lookup(pool, "env"@) {
            Some(e) => entries_insert(with_sys, "env"@, e),
            None => with_sys,
        }
    } else {
        base
    }
}

pub fn template_output_payload(
    node: &CompiledNode,
    output_key: String,
    output_value: JsonValue,
    variable_pool: &Vec<(String, JsonValue)>,
) -> (payload: JsonValue)
    ensures
        payload@ == JsonSpec::Object(template_output(node.node_type@, output_key@, output_value@, entry_views(variable_pool@))),
{
    let ghost kv = output_key@;
    let ghost vv = output_value@;
    let mut payload: Vec<(String, JsonValue)> = Vec::new();
    payload.push((output_key, output_value));
    assert(entry_views(payload@) =~= seq![(kv, vv)]);
    if str_eq(node.node_type.as_str(), "answer") {
        match lookup(variable_pool, "sys") {
            Some(sys) => object_insert(&mut payload, to_string("sys"), clone_json(sys)),
            None => {},
        }
        match lookup(variable_pool, "env") {
            Some(env) => object_insert(&mut payload, to_string("env"), clone_json(env)),
            None => {},
        }
    }
    proof {
        lemma_object_view(payload);
    }
    JsonValue::Object(payload)
}

/// The pool entry of the start node: the given id, trimmed, unless blank; else `node-start`.
pub open spec fn start_key(start_node_id: Option<Seq<char>>) -> Seq<char> {
    match start_node_id {
        Some(s) => if trim(s).len() > 0 {
            trim(s)
        } else {
            "node-start"@
        },
        None => "node-start"@,
    }
}

/// The pool with the reasoning effort put into the start node's entry (made an object first
/// when it is missing or not one).
pub open spec fn with_start_reasoning_effort(
    pool: Seq<(Seq<char>, JsonSpec)>,
    start_node_id: Option<Seq<char>>,
    effort: Seq<char>,
) -> Seq<(Seq<char>, JsonSpec)> {
    let key = start_key(start_node_id);
    let own = match object_lookup(pool, key) {
        Some(JsonSpec::Object(e)) => e,
        _ => seq![],
    };
    entries_insert(pool, key, JsonSpec::Object(entries_insert(own, "reasoning_effort"@, JsonSpec::Str(effort))))
}

pub fn insert_start_reasoning_effort(
    variable_pool: &mut Vec<(String, JsonValue)>,
    start_node_id: Option<&str>,
    reasoning_effort: String,
)
    ensures
        entry_views(final(variable_pool)@) == with_start_reasoning_effort(
            entry_views(old(variable_pool)@),
            crate::json::opt_str_view(start_node_id),
            reasoning_effort@,
        ),
{
    let key = match start_node_id {
        Some(s) => {
            let t = trim_to_string(s);
            if t.as_str().is_empty() {
                to_string("node-start")
            } else {
                t
            }
        },
        None => to_string("node-start"),
    };
    let mut own: Vec<(String, JsonValue)> = match lookup(variable_pool, key.as_str()) {
        Some(v) => clone_object_entries(v),
        None => {
            let e: Vec<(String, JsonValue)> = Vec::new();
            assert(entry_views(e@) =~= Seq::<(Seq<char>, JsonSpec)>::empty());
            e
        },
    };
    object_insert(&mut own, to_string("reasoning_effort"), JsonValue::Str(reasoning_effort));
    proof {
        lemma_object_view(own);
    }
    object_insert(variable_pool, key, JsonValue::Object(own));
}

/// After a node fails, the run can still finish when every node after it in the topological
/// order is a template or answer node of the plan, and there is at least one.
pub open spec fn only_templates_after(plan_nodes: Seq<CompiledNode>, order: Seq<Seq<char>>, failed: int) -> bool {
    &&& failed + 1 < order.len()
    &&& forall|k: int|
        failed + 1 <= k < order.len() ==> match node_index(plan_nodes, #[trigger] order[k]) {
            Some(n) => plan_nodes[n].node_type@ == "template_transform"@ || plan_nodes[n].node_type@ == "answer"@,
            None => false,
        }
}

pub fn can_continue_to_terminal_template_nodes(plan: &CompiledPlan, failed_node_index: usize) -> (b: bool)
    requires
        failed_node_index < usize::MAX,
    ensures
        b == only_templates_after(plan.nodes@, string_views(plan.topological_order@), failed_node_index as int),
{
    let ghost order = string_views(plan.topological_order@);
    let mut has_terminal_template_node = false;
    let mut i: usize = failed_node_index + 1;
    if i >= plan.topological_order.len() {
        return false;
    }
    while i < plan.topological_order.len()
        invariant
            failed_node_index + 1 <= i <= plan.topological_order@.len(),
            failed_node_index + 1 < plan.topological_order@.len(),
            order == string_views(plan.topological_order@),
            forall|k: int|
                failed_node_index + 1 <= k < i ==> match node_index(plan.nodes@, #[trigger] order[k]) {
                    Some(n) => plan.nodes@[n].node_type@ == "template_transform"@ || plan.nodes@[n].node_type@
                        == "answer"@,
                    None => false,
                },
        decreases plan.topological_order.len() - i,
    {
        let node_id = plan.topological_order[i].as_str();
        assert(order[i as int] == node_id@);
        match find_node(&plan.nodes, node_id) {
            None => {
                return false;
            },
            Some(n) => {
                let t = plan.nodes[n].node_type.as_str();
                if !(str_eq(t, "template_transform") || str_eq(t, "answer")) {
                    return false;
                }
            },
        }
        has_terminal_template_node = true;
        i = i + 1;
    }
    true
}

/// The error of a prepared run whose shell does not match the prepare command.
pub fn shell_mismatch_error() -> (m: String)
    ensures
        m@ == "flow debug run shell does not match prepare command"@,
{
    to_string("flow debug run shell does not match prepare command")
}

/// Whether an error (by its message) only says that the run's event stream was already closed
/// or never opened.
pub fn is_expected_runtime_event_stream_closed_error(message: &str) -> (b: bool)
    ensures
        b == (contains_seq(message@, "runtime event stream is closed"@) || contains_seq(
            message@,
            "runtime event stream is not open"@,
        )),
{
    contains_str(message, "runtime event stream is closed") || contains_str(message, "runtime event stream is not open")
}

/// The error payload of a failed run: the error's text read as JSON when it is an object, else
/// an object with the text as its `message`.
pub open spec fn error_payload_of(text: Seq<char>) -> JsonSpec {
    match crate::outside::json_parsed(text) {
        Some(v) => if v is Object {
            v
        } else {
            JsonSpec::Object(seq![("message"@, JsonSpec::Str(text))])
        },
        None => JsonSpec::Object(seq![("message"@, JsonSpec::Str(text))]),
    }
}

pub fn serde_error_payload(error_text: &str) -> (payload: JsonValue)
    ensures
        payload@ == error_payload_of(error_text@),
{
    match crate::outside::json_from_str(error_text) {
        Some(v) => {
            if v.is_object() {
                return v;
            }
        },
        None => {},
    }
    let mut entries: Vec<(String, JsonValue)> = Vec::new();
    entries.push((to_string("message"), JsonValue::Str(to_string(error_text))));
    assert(entry_views(entries@) =~= seq![("message"@, JsonSpec::Str(error_text@))]);
    proof {
        lemma_object_view(entries);
    }
    JsonValue::Object(entries)
}

/// A failover attempt of a model call, as far as the run records it.
#[derive(Clone, Copy)]
pub struct ModelAttemptOutcome {
    pub id: u128,
    pub succeeded: bool,
}

/// The first attempt that succeeded.
pub open spec fn first_success(attempts: Seq<ModelAttemptOutcome>) -> Option<u128>
    decreases attempts.len(),
{
    if attempts.len() == 0 {
        None
    } else if attempts[0].succeeded {
        Some(attempts[0].id)
    } else {
        first_success(attempts.drop_first())
    }
}

pub fn winner_attempt_id(attempts: &[ModelAttemptOutcome]) -> (r: Option<u128>)
    ensures
        r == first_success(attempts@),
{
    let mut i: usize = 0;
    assert(attempts@.skip(0) =~= attempts@);
    while i < attempts.len()
        invariant
            i <= attempts@.len(),
            first_success(attempts@) == first_success(attempts@.skip(i as int)),
        decreases attempts.len() - i,
    {
        assert(attempts@.skip(i as int).drop_first() =~= attempts@.skip(i + 1));
        assert(attempts@.skip(i as int)[0] == attempts@[i as int]);
        if attempts[i].succeeded {
            return Some(attempts[i].id);
        }
        i = i + 1;
    }
    None
}


/// A variable of an application's environment.
pub struct ApplicationEnvironmentVariable {
    pub name: String,
    pub value: JsonValue,
}

/// The environment as an object: each variable by its name, a later one in place of an earlier
/// one with the same name.
pub open spec fn environment_entries(vars: Seq<ApplicationEnvironmentVariable>) -> Seq<(Seq<char>, JsonSpec)>
    decreases vars.len(),
{
    if vars.len() == 0 {
        seq![]
    } else {
        entries_insert(environment_entries(vars.drop_last()), vars.last().name@, vars.last().value@)
    }
}

pub fn application_environment_variable_payload(variables: &[ApplicationEnvironmentVariable]) -> (out: Vec<
    (String, JsonValue),
>)
    ensures
        entry_views(out@) == environment_entries(variables@),
{
    let mut out: Vec<(String, JsonValue)> = Vec::new();
    let mut i: usize = 0;
    assert(variables@.take(0) =~= Seq::<ApplicationEnvironmentVariable>::empty());
    assert(entry_views(out@) =~= Seq::<(Seq<char>, JsonSpec)>::empty());
    while i < variables.len()
        invariant
            i <= variables@.len(),
            entry_views(out@) == environment_entries(variables@.take(i as int)),
        decreases variables.len() - i,
    {
        assert(variables@.take(i + 1).drop_last() =~= variables@.take(i as int));
        assert(variables@.take(i + 1).last() == variables@[i as int]);
        object_insert(&mut out, to_string(variables[i].name.as_str()), clone_json(&variables[i].value));
        i = i + 1;
    }
    assert(variables@.take(variables.len() as int) =~= variables@);
    out
}

/// The run input with the application's environment frozen into it as `env` (an input that
/// is not an object counts as an empty one).
pub open spec fn frozen_input(input: JsonSpec, vars: Seq<ApplicationEnvironmentVariable>) -> JsonSpec {
    let base = match input {
        JsonSpec::Object(e) => e,
        _ => seq![],
    };
    JsonSpec::Object(entries_insert(base, "env"@, JsonSpec::Object(environment_entries(vars))))
}

pub fn freeze_run_input_environment(input_payload: JsonValue, variables: &[ApplicationEnvironmentVariable]) -> (out:
    JsonValue)
    ensures
        out@ == frozen_input(input_payload@, variables@),
{
    let mut payload = clone_object_entries(&input_payload);
    let env = application_environment_variable_payload(variables);
    proof {
        lemma_object_view(env);
    }
    object_insert(&mut payload, to_string("env"), JsonValue::Object(env));
    proof {
        lemma_object_view(payload);
    }
    JsonValue::Object(payload)
}

/// The variable pool with the application's environment as `env`.
pub fn inject_application_environment_variables(
    variable_pool: &mut Vec<(String, JsonValue)>,
    variables: &[ApplicationEnvironmentVariable],
)
    ensures
        entry_views(final(variable_pool)@) == entries_insert(
            entry_views(old(variable_pool)@),
            "env"@,
            JsonSpec::Object(environment_entries(variables@)),
        ),
{
    let env = application_environment_variable_payload(variables);
    proof {
        lemma_object_view(env);
    }
    object_insert(variable_pool, to_string("env"), JsonValue::Object(env));
}

/// The first entry with a key removed (`Map::remove`).
pub open spec fn entries_remove(entries: Seq<(Seq<char>, JsonSpec)>, key: Seq<char>) -> Seq<(Seq<char>, JsonSpec)> {
    match crate::json::key_position(entries, key) {
        Some(p) => entries.remove(p),
        None => entries,
    }
}

fn object_remove(entries: &mut Vec<(String, JsonValue)>, key: &str)
    ensures
        entry_views(final(entries)@) == entries_remove(entry_views(old(entries)@), key@),
{
    let ghost before = entry_views(entries@);
    let mut i: usize = 0;
    while i < entries.len()
        invariant
            i <= entries@.len(),
            entries@ == old(entries)@,
            before == entry_views(entries@),
            forall|k: int| 0 <= k < i ==> entries@[k].0@ != key@,
        decreases entries.len() - i,
    {
        if str_eq(entries[i].0.as_str(), key) {
            proof {
                crate::json::lemma_key_position_found(before, key@, i as int);
            }
            entries.remove(i);
            assert(entry_views(entries@) =~= before.remove(i as int));
            return;
        }
        i = i + 1;
    }
    proof {
        crate::json::lemma_key_position_absent(before, key@);
    }
}

/// What the user gave as a run's input: the stored input without the `sys` and `env` the run
/// added.
pub open spec fn user_input(input: JsonSpec) -> JsonSpec {
    match input {
        JsonSpec::Object(e) => JsonSpec::Object(entries_remove(entries_remove(e, "sys"@), "env"@)),
        _ => input,
    }
}

pub fn user_input_payload(input_payload: &JsonValue) -> (out: JsonValue)
    ensures
        out@ == user_input(input_payload@),
{
    if !input_payload.is_object() {
        return clone_json(input_payload);
    }
    let mut user_input = clone_object_entries(input_payload);
    object_remove(&mut user_input, "sys");
    object_remove(&mut user_input, "env");
    proof {
        lemma_object_view(user_input);
    }
    JsonValue::Object(user_input)
}


/// The hash a flow document is recorded by: `sha256:` and the hex digest of its compact JSON.
pub fn flow_document_hash(document: &JsonValue) -> (h: String)
    ensures
        h@ == crate::orchestration_runtime::data_model_runtime::json_hash(document@),
{
    crate::orchestration_runtime::data_model_runtime::stable_json_hash(document)
}

/// The schema version of a flow document: its `schemaVersion`, else the draft's.
pub fn flow_document_schema_version(draft_schema_version: &str, document: &JsonValue) -> (v: String)
    ensures
        v@ == match get_str(document@, "schemaVersion"@) {
            Some(s) => s,
            None => draft_schema_version@,
        },
{
    match document.get_str("schemaVersion") {
        Some(s) => to_string(s),
        None => to_string(draft_schema_version),
    }
}


/// What the system variables of a run are made from.
pub struct FlowRunFacts {
    pub id: u128,
    pub created_by: u128,
    pub application_id: u128,
    pub flow_id: u128,
    pub debug_session_id: String,
    pub external_conversation_id: Option<String>,
}

/// A member of the pool's `sys` entry.
pub open spec fn sys_member(pool: Seq<(Seq<char>, JsonSpec)>, key: Seq<char>) -> Option<JsonSpec> {
    match object_lookup(pool, "sys"@) {
        Some(s) => spec_get(s, key),
        None => None,
    }
}

pub open spec fn object_has(v: Option<JsonSpec>, key: Seq<char>) -> bool {
    match v {
        Some(JsonSpec::Object(e)) => object_lookup(e, key) is Some,
        _ => false,
    }
}

pub open spec fn trimmed_text(v: Option<JsonSpec>) -> Option<Seq<char>> {
    match v {
        Some(JsonSpec::Str(s)) => if trim(s).len() > 0 {
            Some(trim(s))
        } else {
            None
        },
        _ => None,
    }
}

/// The conversation of a run: its external conversation when it has a non-empty one, else its
/// debug session.
pub open spec fn conversation_of(external: Option<Seq<char>>, debug_session: Seq<char>) -> Seq<char> {
    match external {
        Some(c) => if c.len() > 0 {
            c
        } else {
            debug_session
        },
        None => debug_session,
    }
}

/// The reasoning effort a run starts with: the start node's, else the system's, else the one
/// its model parameters ask for.
pub open spec fn run_reasoning_effort(pool: Seq<(Seq<char>, JsonSpec)>, start_node_id: Option<Seq<char>>) -> Option<
    Seq<char>,
> {
    let start = match start_node_id {
        Some(s) => s,
        None => "node-start"@,
    };
    let from_start = match object_lookup(pool, start) {
        Some(v) => trimmed_text(spec_get(v, "reasoning_effort"@)),
        None => None,
    };
    match from_start {
        Some(e) => Some(e),
        None => match trimmed_text(sys_member(pool, "reasoning_effort"@)) {
            Some(e) => Some(e),
            None => match sys_member(pool, "model_parameters"@) {
                Some(p) => reasoning_effort_of(p),
                None => None,
            },
        },
    }
}

/// The system variables of a run; its model parameters are kept.
pub open spec fn system_variables(pool: Seq<(Seq<char>, JsonSpec)>, f: FlowRunFacts) -> Seq<(Seq<char>, JsonSpec)> {
    let base = seq![
        ("conversation_id"@, JsonSpec::Str(conversation_of(crate::json::opt_string_view(f.external_conversation_id), f.debug_session_id@))),
        ("dialog_count"@, JsonSpec::Number(0)),
        ("user_id"@, crate::orchestration_runtime::debug_stream_events::juuid(f.created_by)),
        ("application_id"@, crate::orchestration_runtime::debug_stream_events::juuid(f.application_id)),
        ("workflow_id"@, crate::orchestration_runtime::debug_stream_events::juuid(f.flow_id)),
        ("workflow_run_id"@, crate::orchestration_runtime::debug_stream_events::juuid(f.id)),
    ];
    match sys_member(pool, "model_parameters"@) {
        Some(p) => entries_insert(base, "model_parameters"@, p),
        None => base,
    }
}

/// The pool with the run's system variables as `sys`; when the start node or the system named a
/// reasoning effort, or model parameters were given, the start node is given the effort found
/// (empty when none).
pub open spec fn with_system_variables(
    pool: Seq<(Seq<char>, JsonSpec)>,
    f: FlowRunFacts,
    start_node_id: Option<Seq<char>>,
) -> Seq<(Seq<char>, JsonSpec)> {
    let start_has = match start_node_id {
        Some(id) => object_has(object_lookup(pool, id), "reasoning_effort"@),
        None => false,
    };
    let sys_has = object_has(object_lookup(pool, "sys"@), "reasoning_effort"@);
    let has_params = sys_member(pool, "model_parameters"@) is Some;
    let effort = match run_reasoning_effort(pool, start_node_id) {
        Some(e) => e,
        None => seq![],
    };
    let with_sys = entries_insert(pool, "sys"@, JsonSpec::Object(system_variables(pool, f)));
    if start_has || sys_has || has_params {
        with_start_reasoning_effort(with_sys, start_node_id, effort)
    } else {
        with_sys
    }
}

fn object_has_key(v: Option<&JsonValue>, key: &str) -> (b: bool)
    ensures
        b == object_has(crate::json::opt_view(v), key@),
{
    match v {
        Some(JsonValue::Object(entries)) => {
            proof {
                lemma_object_view(*entries);
            }
            crate::json::lookup_entry(entries, key).is_some()
        },
        _ => false,
    }
}

fn trimmed_text_of(v: Option<&JsonValue>) -> (r: Option<String>)
    ensures
        crate::json::opt_string_view(r) == trimmed_text(crate::json::opt_view(v)),
{
    match v {
        Some(JsonValue::Str(s)) => {
            let t = trim_to_string(s.as_str());
            if t.as_str().is_empty() {
                None
            } else {
                Some(t)
            }
        },
        _ => None,
    }
}

fn sys_member_of<'a>(pool: &'a Vec<(String, JsonValue)>, key: &str) -> (r: Option<&'a JsonValue>)
    ensures
        crate::json::opt_view(r) == sys_member(entry_views(pool@), key@),
{
    match lookup(pool, "sys") {
        Some(s) => s.get(key),
        None => None,
    }
}

/// Puts the run's system variables into the pool, and the reasoning effort into the start node
/// where one was asked for.
pub fn inject_system_variables(
    variable_pool: &mut Vec<(String, JsonValue)>,
    flow_run: &FlowRunFacts,
    start_node_id: Option<&str>,
)
    ensures
        entry_views(final(variable_pool)@) == with_system_variables(
            entry_views(old(variable_pool)@),
            *flow_run,
            crate::json::opt_str_view(start_node_id),
        ),
{
    let conversation_id = match &flow_run.external_conversation_id {
        Some(c) => if !c.as_str().is_empty() {
            to_string(c.as_str())
        } else {
            to_string(flow_run.debug_session_id.as_str())
        },
        None => to_string(flow_run.debug_session_id.as_str()),
    };
    let model_parameters = match sys_member_of(variable_pool, "model_parameters") {
        Some(p) => Some(clone_json(p)),
        None => None,
    };
    let has_model_parameters = model_parameters.is_some();
    let start_has_reasoning_effort = match start_node_id {
        Some(id) => object_has_key(lookup(variable_pool, id), "reasoning_effort"),
        None => false,
    };
    let sys_has_reasoning_effort = object_has_key(lookup(variable_pool, "sys"), "reasoning_effort");
    let start_key = match start_node_id {
        Some(s) => s,
        None => {
            proof {
                reveal_strlit("node-start");
            }
            "node-start"
        },
    };
    let from_start = match lookup(variable_pool, start_key) {
        Some(v) => trimmed_text_of(v.get("reasoning_effort")),
        None => None,
    };
    let reasoning_effort = match from_start {
        Some(e) => Some(e),
        None => match trimmed_text_of(sys_member_of(variable_pool, "reasoning_effort")) {
            Some(e) => Some(e),
            None => match &model_parameters {
                Some(p) => external_reasoning_effort(p),
                None => None,
            },
        },
    };
    let ghost before = entry_views(variable_pool@);
    let mut sys: Vec<(String, JsonValue)> = Vec::new();
    sys.push((to_string("conversation_id"), JsonValue::Str(conversation_id)));
    sys.push((to_string("dialog_count"), JsonValue::Number(0)));
    sys.push((to_string("user_id"), crate::orchestration_runtime::debug_stream_events::uuid_value(flow_run.created_by)));
    sys.push((
        to_string("application_id"),
        crate::orchestration_runtime::debug_stream_events::uuid_value(flow_run.application_id),
    ));
    sys.push((to_string("workflow_id"), crate::orchestration_runtime::debug_stream_events::uuid_value(flow_run.flow_id)));
    sys.push((to_string("workflow_run_id"), crate::orchestration_runtime::debug_stream_events::uuid_value(flow_run.id)));
    proof {
        assert(entry_views(sys@) =~= seq![
            ("conversation_id"@, JsonSpec::Str(conversation_of(crate::json::opt_string_view(flow_run.external_conversation_id), flow_run.debug_session_id@))),
            ("dialog_count"@, JsonSpec::Number(0)),
            ("user_id"@, crate::orchestration_runtime::debug_stream_events::juuid(flow_run.created_by)),
            ("application_id"@, crate::orchestration_runtime::debug_stream_events::juuid(flow_run.application_id)),
            ("workflow_id"@, crate::orchestration_runtime::debug_stream_events::juuid(flow_run.flow_id)),
            ("workflow_run_id"@, crate::orchestration_runtime::debug_stream_events::juuid(flow_run.id)),
        ]);
    }
    match model_parameters {
        Some(p) => object_insert(&mut sys, to_string("model_parameters"), p),
        None => {},
    }
    proof {
        lemma_object_view(sys);
    }
    object_insert(variable_pool, to_string("sys"), JsonValue::Object(sys));
    if start_has_reasoning_effort || sys_has_reasoning_effort || has_model_parameters {
        let effort = match reasoning_effort {
            Some(e) => e,
            None => String::new(),
        };
        insert_start_reasoning_effort(variable_pool, start_node_id, effort);
    }
}


/// A queued debug run, as far as preparing it reads it.
pub struct FlowRunShell {
    pub created_by: u128,
    /// Whether the run is a debug run of the whole flow.
    pub is_debug_flow_run: bool,
    pub target_node_id: Option<String>,
    /// Whether the run waits in the queue.
    pub is_queued: bool,
    pub compiled_plan_id: Option<u128>,
    pub debug_session_id: String,
    pub flow_schema_version: String,
    pub document_hash: String,
    pub input_payload: JsonValue,
    pub flow_id: u128,
    pub draft_id: u128,
}

/// A request to prepare a queued debug run.
pub struct PrepareFlowDebugRun {
    pub actor_user_id: u128,
    pub debug_session_id: String,
    pub input_payload: JsonValue,
    pub document_snapshot: Option<JsonValue>,
}

/// The flow and draft a debug run is prepared from.
pub struct FlowEditorDraft {
    pub flow_id: u128,
    pub draft_id: u128,
    pub schema_version: String,
    pub document: JsonValue,
}

/// The document a debug run runs: the snapshot it was given, else the draft's.
pub open spec fn debug_document(command: PrepareFlowDebugRun, editor: FlowEditorDraft) -> JsonSpec {
    match command.document_snapshot {
        Some(d) => d@,
        None => editor.document@,
    }
}

/// Whether a queued run is the shell of this request: created by its actor as a debug run of
/// the whole flow, queued, with no target node and no plan yet, in the same debug session, of the
/// same schema version and document, with the same user input, for the same flow and draft.
pub open spec fn shell_matches(run: FlowRunShell, command: PrepareFlowDebugRun, editor: FlowEditorDraft) -> bool {
    let document = debug_document(command, editor);
    let version = match get_str(document, "schemaVersion"@) {
        Some(v) => v,
        None => editor.schema_version@,
    };
    &&& run.created_by == command.actor_user_id
    &&& run.is_debug_flow_run
    &&& run.target_node_id is None
    &&& run.is_queued
    &&& run.compiled_plan_id is None
    &&& run.debug_session_id@ == command.debug_session_id@
    &&& run.flow_schema_version@ == version
    &&& run.document_hash@ == crate::orchestration_runtime::data_model_runtime::json_hash(document)
    &&& json_equal_spec(user_input(run.input_payload@), command.input_payload@)
    &&& run.flow_id == editor.flow_id
    &&& run.draft_id == editor.draft_id
}

/// Checks that a queued run is the shell of a request to prepare it.
pub fn validate_flow_debug_run_shell(flow_run: &FlowRunShell, command: &PrepareFlowDebugRun, editor: &FlowEditorDraft) -> (r:
    Result<(), String>)
    ensures
        r is Ok <==> shell_matches(*flow_run, *command, *editor),
        r is Err ==> r->Err_0@ == "flow debug run shell does not match prepare command"@,
{
    let debug_document = match &command.document_snapshot {
        Some(d) => d,
        None => &editor.document,
    };
    let flow_schema_version = flow_document_schema_version(editor.schema_version.as_str(), debug_document);
    let document_hash = flow_document_hash(debug_document);
    let user_input = user_input_payload(&flow_run.input_payload);
    if flow_run.created_by != command.actor_user_id || !flow_run.is_debug_flow_run || flow_run.target_node_id.is_some()
        || !flow_run.is_queued || flow_run.compiled_plan_id.is_some() || !str_eq(
        flow_run.debug_session_id.as_str(),
        command.debug_session_id.as_str(),
    ) || !str_eq(flow_run.flow_schema_version.as_str(), flow_schema_version.as_str()) || !str_eq(
        flow_run.document_hash.as_str(),
        document_hash.as_str(),
    ) || !json_equal(&user_input, &command.input_payload) || flow_run.flow_id != editor.flow_id
        || flow_run.draft_id != editor.draft_id {
        return Err(shell_mismatch_error());
    }
    Ok(())
}

} // verus!
