use control_plane::errors::ControlPlaneError;
use control_plane::json::{json_equal, json_same, JsonValue};
use control_plane::orchestration_runtime::callbacks::{
    ensure_data_model_side_effect_confirmation_approved, ensure_llm_tool_callback_results_complete,
};
use control_plane::orchestration_runtime::compile_context::{
    collect_target_node_dependency_scope, compile_contribution_outputs, compile_issue_field,
    ensure_compiled_plan_runnable, ensure_compiled_plan_runnable_for_node,
    node_contribution_lookup_key, provider_families, CompileProviderInstance,
    allow_custom_models, available_models_for_instance, compile_provider_instance,
    installation_is_runnable, CatalogEntryFacts, InstallationState,
};
use control_plane::model_provider::ModelProviderInstanceStatus;
use control_plane::orchestration_runtime::compiled_plan::{
    CompileIssue, CompileIssueCode, CompiledNode, CompiledOutput, CompiledPlan,
};
use control_plane::orchestration_runtime::live_debug_run::{
    can_continue_to_terminal_template_nodes, compiled_plan_start_node_id,
    external_reasoning_effort, first_output_key, flow_document_schema_version,
    freeze_run_input_environment, insert_start_reasoning_effort,
    is_expected_runtime_event_stream_closed_error, next_node_index, serde_error_payload,
    shell_mismatch_error, start_node_input_payload, template_output_payload, user_input_payload,
    winner_attempt_id, ApplicationEnvironmentVariable, ModelAttemptOutcome,
    flow_document_hash, validate_flow_debug_run_shell, FlowEditorDraft, FlowRunShell,
    PrepareFlowDebugRun,
};

fn object(entries: Vec<(&str, JsonValue)>) -> JsonValue {
    JsonValue::Object(entries.into_iter().map(|(k, v)| (k.to_string(), v)).collect())
}

fn s(text: &str) -> JsonValue {
    JsonValue::Str(text.to_string())
}

fn node(id: &str, node_type: &str, deps: &[&str]) -> CompiledNode {
    CompiledNode {
        node_id: id.to_string(),
        node_type: node_type.to_string(),
        dependency_node_ids: deps.iter().map(|d| d.to_string()).collect(),
        outputs: vec![],
        config: JsonValue::Null,
    }
}

fn plan(nodes: Vec<CompiledNode>, order: &[&str], issues: Vec<CompileIssue>) -> CompiledPlan {
    CompiledPlan {
        nodes,
        topological_order: order.iter().map(|o| o.to_string()).collect(),
        compile_issues: issues,
    }
}

fn issue(node_id: &str, code: CompileIssueCode, message: &str) -> CompileIssue {
    CompileIssue {
        node_id: node_id.to_string(),
        code,
        message: message.to_string(),
    }
}

fn err<T>(r: Result<T, String>) -> String {
    match r {
        Ok(_) => panic!("expected an error"),
        Err(m) => m,
    }
}

#[test]
fn dependency_scope_is_closed_and_holds_the_target() {
    let p = plan(
        vec![node("a", "start", &[]), node("b", "llm", &["a"]), node("c", "answer", &["b"]), node("d", "llm", &["a"])],
        &["a", "b", "d", "c"],
        vec![],
    );
    let mut scope = collect_target_node_dependency_scope(&p, "c");
    scope.sort();
    assert_eq!(scope, vec!["a".to_string(), "b".to_string(), "c".to_string()]);
}

#[test]
fn compile_issues_block_runs_in_scope() {
    let p = plan(
        vec![node("a", "start", &[]), node("b", "llm", &["a"]), node("x", "llm", &[])],
        &["a", "b", "x"],
        vec![issue("x", CompileIssueCode::MissingModel, "no model")],
    );
    assert!(matches!(ensure_compiled_plan_runnable(&p), Err(ControlPlaneError::InvalidInput("model"))));
    assert!(ensure_compiled_plan_runnable_for_node(&p, "b").is_ok());
    assert!(matches!(
        ensure_compiled_plan_runnable_for_node(&p, "x"),
        Err(ControlPlaneError::InvalidInput("model"))
    ));
    assert_eq!(
        compile_issue_field(&issue("a", CompileIssueCode::MissingProviderInstance, "source_instance_id missing")),
        "source_instance_id"
    );
    assert_eq!(
        compile_issue_field(&issue("a", CompileIssueCode::InvalidCodeIsolationProfile, "")),
        "isolation"
    );
}

#[test]
fn contribution_outputs_are_read_from_the_snapshot() {
    let snapshot = object(vec![(
        "outputs",
        JsonValue::Array(vec![
            object(vec![("key", s("text")), ("title", s("Text")), ("valueType", s("string"))]),
            object(vec![
                ("key", s("data")),
                ("title", s("Data")),
                ("valueType", s("object")),
                ("selector", JsonValue::Array(vec![s("data"), JsonValue::Number(1), s("inner")])),
                ("jsonSchema", object(vec![("type", s("object"))])),
            ]),
        ]),
    )]);
    let outputs = compile_contribution_outputs(&snapshot).ok().unwrap();
    assert_eq!(outputs[0].selector, vec!["text".to_string()]);
    assert_eq!(outputs[1].selector, vec!["data".to_string(), "inner".to_string()]);
    assert!(outputs[1].json_schema.is_some());
    let missing = object(vec![("outputs", JsonValue::Array(vec![object(vec![("key", s("k"))])]))]);
    assert!(matches!(compile_contribution_outputs(&missing), Err(ControlPlaneError::InvalidInput("title"))));
    assert!(matches!(
        compile_contribution_outputs(&object(vec![])),
        Err(ControlPlaneError::InvalidInput("output_schema_snapshot"))
    ));
    assert_eq!(node_contribution_lookup_key("p", "1", "c", "s", "v1"), "p::1::c::s::v1");
}

#[test]
fn run_positions_and_start_node() {
    let mut n = node("b", "llm", &[]);
    n.outputs = vec![CompiledOutput {
        key: "text".to_string(),
        title: "Text".to_string(),
        value_type: "string".to_string(),
        selector: vec![],
        json_schema: None,
    }];
    let p = plan(vec![node("a", "start", &[]), n, node("c", "answer", &[])], &["a", "b", "c"], vec![]);
    assert_eq!(next_node_index(&p, "b").unwrap(), 2);
    assert_eq!(
        err(next_node_index(&p, "z")),
        "compiled node missing from topological order: z"
    );
    assert_eq!(first_output_key(&p.nodes[1]), "text");
    assert_eq!(first_output_key(&p.nodes[0]), "output");
    assert_eq!(compiled_plan_start_node_id(&p).as_deref(), Some("a"));
    assert!(can_continue_to_terminal_template_nodes(&p, 1));
    assert!(!can_continue_to_terminal_template_nodes(&p, 0));
    assert!(!can_continue_to_terminal_template_nodes(&p, 2));
}

#[test]
fn start_and_template_payloads() {
    let pool = vec![
        ("node-start".to_string(), object(vec![("q", s("hi"))])),
        ("sys".to_string(), object(vec![("user_id", s("u"))])),
        ("env".to_string(), object(vec![("K", s("V"))])),
    ];
    let input = start_node_input_payload(&pool, "node-start");
    assert_eq!(input.get_str("q"), Some("hi"));
    assert!(input.get("sys").is_some() && input.get("env").is_some());
    let answer = template_output_payload(&node("c", "answer", &[]), "answer".to_string(), s("x"), &pool);
    assert!(answer.get("sys").is_some());
    let template = template_output_payload(&node("t", "template_transform", &[]), "output".to_string(), s("x"), &pool);
    assert!(template.get("sys").is_none());

    let mut pool = pool;
    insert_start_reasoning_effort(&mut pool, Some("  "), "high".to_string());
    let start = &pool[0].1;
    assert_eq!(start.get_str("reasoning_effort"), Some("high"));
    assert_eq!(start.get_str("q"), Some("hi"));

    let params = object(vec![("reasoning", object(vec![("effort", s(" low "))]))]);
    assert_eq!(external_reasoning_effort(&params).as_deref(), Some("low"));
    assert!(external_reasoning_effort(&object(vec![])).is_none());
}

#[test]
fn run_inputs_and_environment() {
    let vars = vec![
        ApplicationEnvironmentVariable { name: "A".to_string(), value: s("1") },
        ApplicationEnvironmentVariable { name: "A".to_string(), value: s("2") },
    ];
    let frozen = freeze_run_input_environment(object(vec![("q", s("x"))]), &vars);
    assert_eq!(frozen.get("env").unwrap().get_str("A"), Some("2"));
    let user = user_input_payload(&frozen);
    assert!(user.get("env").is_none());
    assert_eq!(user.get_str("q"), Some("x"));
    assert_eq!(flow_document_schema_version("1.0", &object(vec![("schemaVersion", s("2.0"))])), "2.0");
    assert_eq!(flow_document_schema_version("1.0", &object(vec![])), "1.0");
}

#[test]
fn errors_and_outcomes_of_runs() {
    assert_eq!(shell_mismatch_error(), "flow debug run shell does not match prepare command");
    assert!(is_expected_runtime_event_stream_closed_error("x: runtime event stream is closed"));
    assert!(!is_expected_runtime_event_stream_closed_error("other"));
    assert_eq!(serde_error_payload(r#"{"message":"m","code":1}"#).get_str("message"), Some("m"));
    assert_eq!(serde_error_payload("plain text").get_str("message"), Some("plain text"));
    assert_eq!(serde_error_payload("[1]").get_str("message"), Some("[1]"));
    let attempts = [
        ModelAttemptOutcome { id: 1, succeeded: false },
        ModelAttemptOutcome { id: 2, succeeded: true },
        ModelAttemptOutcome { id: 3, succeeded: true },
    ];
    assert_eq!(winner_attempt_id(&attempts), Some(2));
}

fn call(id: &str) -> JsonValue {
    object(vec![("id", s(id))])
}

fn result(id: &str) -> JsonValue {
    object(vec![("tool_call_id", s(id))])
}

#[test]
fn tool_results_must_answer_every_call_once() {
    let request = object(vec![("tool_calls", JsonValue::Array(vec![call("b"), call("a"), call("c")]))]);
    let all = object(vec![("tool_results", JsonValue::Array(vec![result("c"), result("a"), result("b")]))]);
    assert!(ensure_llm_tool_callback_results_complete(&request, &all).is_ok());
    let missing = object(vec![("tool_results", JsonValue::Array(vec![result("b")]))]);
    assert_eq!(err(ensure_llm_tool_callback_results_complete(&request, &missing)), "missing tool result for a");
    let dup = object(vec![("tool_results", JsonValue::Array(vec![result("a"), result("a")]))]);
    assert_eq!(err(ensure_llm_tool_callback_results_complete(&request, &dup)), "duplicate tool result for a");
    let unexpected = object(vec![("tool_results", JsonValue::Array(vec![result("z")]))]);
    assert_eq!(err(ensure_llm_tool_callback_results_complete(&request, &unexpected)), "unexpected tool result for z");
    assert_eq!(
        err(ensure_llm_tool_callback_results_complete(&object(vec![]), &all)),
        "llm tool callback request is missing tool_calls"
    );
    assert_eq!(
        err(ensure_llm_tool_callback_results_complete(&request, &object(vec![]))),
        "llm tool callback response requires tool_results"
    );
}

#[test]
fn confirmations_must_be_approved() {
    assert!(ensure_data_model_side_effect_confirmation_approved(&object(vec![("approved", JsonValue::Bool(true))])).is_ok());
    assert!(ensure_data_model_side_effect_confirmation_approved(&object(vec![("confirmed", JsonValue::Bool(true))])).is_ok());
    assert!(ensure_data_model_side_effect_confirmation_approved(&object(vec![
        ("approved", JsonValue::Bool(false)),
        ("confirmed", JsonValue::Bool(true)),
    ]))
    .is_err());
    assert!(ensure_data_model_side_effect_confirmation_approved(&object(vec![])).is_err());
}

#[test]
fn json_equality_ignores_key_order() {
    let a = object(vec![("x", JsonValue::Number(1)), ("y", JsonValue::Array(vec![s("p")]))]);
    let b = object(vec![("y", JsonValue::Array(vec![s("p")])), ("x", JsonValue::Number(1))]);
    assert!(json_equal(&a, &b));
    assert!(!json_same(&a, &b));
    assert!(json_same(&a, &a));
    let c = object(vec![("x", JsonValue::Number(2)), ("y", JsonValue::Array(vec![s("p")]))]);
    assert!(!json_equal(&a, &c));
    assert!(!json_equal(&JsonValue::Array(vec![s("p"), s("q")]), &JsonValue::Array(vec![s("q"), s("p")])));
}

fn shell_parts() -> (FlowRunShell, PrepareFlowDebugRun, FlowEditorDraft) {
    let document = object(vec![("schemaVersion", s("2")), ("nodes", JsonValue::Array(vec![]))]);
    let hash = flow_document_hash(&document);
    let run = FlowRunShell {
        created_by: 7,
        is_debug_flow_run: true,
        target_node_id: None,
        is_queued: true,
        compiled_plan_id: None,
        debug_session_id: "session".to_string(),
        flow_schema_version: "2".to_string(),
        document_hash: hash,
        input_payload: object(vec![
            ("sys", object(vec![("run_id", s("r"))])),
            ("start", object(vec![("q", s("hi"))])),
            ("env", object(vec![])),
        ]),
        flow_id: 1,
        draft_id: 2,
    };
    let command = PrepareFlowDebugRun {
        actor_user_id: 7,
        debug_session_id: "session".to_string(),
        input_payload: object(vec![("start", object(vec![("q", s("hi"))]))]),
        document_snapshot: None,
    };
    let editor = FlowEditorDraft { flow_id: 1, draft_id: 2, schema_version: "1".to_string(), document };
    (run, command, editor)
}

#[test]
fn a_queued_shell_matches_its_prepare_command() {
    let (run, command, editor) = shell_parts();
    assert!(validate_flow_debug_run_shell(&run, &command, &editor).is_ok());
}

#[test]
fn a_shell_that_differs_is_refused() {
    let (run, command, editor) = shell_parts();
    let other_actor = FlowRunShell { created_by: 8, ..run };
    assert_eq!(
        validate_flow_debug_run_shell(&other_actor, &command, &editor).unwrap_err(),
        "flow debug run shell does not match prepare command"
    );
    let (run, command, editor) = shell_parts();
    let other_input = PrepareFlowDebugRun { input_payload: object(vec![]), ..command };
    assert!(validate_flow_debug_run_shell(&run, &other_input, &editor).is_err());
    let (run, command, editor) = shell_parts();
    let snapshot = PrepareFlowDebugRun { document_snapshot: Some(object(vec![])), ..command };
    assert!(validate_flow_debug_run_shell(&run, &snapshot, &editor).is_err());
    let (run, command, editor) = shell_parts();
    let started = FlowRunShell { compiled_plan_id: Some(3), ..run };
    assert!(validate_flow_debug_run_shell(&started, &command, &editor).is_err());
}

fn provider_instance(code: &str, ready: bool, runnable: bool, main: bool, models: &[&str], custom: bool) -> CompileProviderInstance {
    CompileProviderInstance {
        provider_code: code.to_string(),
        protocol: format!("{code}-protocol"),
        is_ready: ready,
        is_runnable: runnable,
        included_in_main: main,
        available_models: models.iter().map(|m| m.to_string()).collect(),
        allow_custom_models: custom,
    }
}

#[test]
fn providers_gather_what_their_runnable_main_instances_offer() {
    let instances = vec![
        provider_instance("openai", false, true, true, &["gpt-a"], false),
        provider_instance("mistral", true, false, true, &["large"], true),
        provider_instance("openai", true, true, true, &["gpt-b", "gpt-a"], true),
        provider_instance("openai", true, true, false, &["gpt-c"], false),
    ];
    let families = provider_families(&instances);
    assert_eq!(families.len(), 1);
    let openai = &families[0];
    assert_eq!(openai.provider_code, "openai");
    assert_eq!(openai.protocol, "openai-protocol");
    assert!(openai.is_ready);
    assert!(openai.allow_custom_models);
    assert_eq!(openai.available_models, vec!["gpt-a".to_string(), "gpt-b".to_string()]);
    assert!(provider_families(&vec![]).is_empty());
}

fn entry(status: &str, model: &str) -> CatalogEntryFacts {
    CatalogEntryFacts { status: status.to_string(), upstream_model_id: model.to_string() }
}

#[test]
fn an_instance_is_compiled_from_its_stored_records() {
    let ok = InstallationState { disabled: false, available: true };
    let off = InstallationState { disabled: true, available: true };
    let gone = InstallationState { disabled: false, available: false };
    assert!(installation_is_runnable(true, Some(&ok)));
    assert!(!installation_is_runnable(false, Some(&ok)));
    assert!(!installation_is_runnable(true, None));
    assert!(!installation_is_runnable(true, Some(&off)));
    assert!(!installation_is_runnable(true, Some(&gone)));
    assert!(allow_custom_models(&vec![]));
    assert!(!allow_custom_models(&vec!["m".to_string()]));

    let catalog = vec![entry("active", "z"), entry("retired", "y"), entry("active", "a"), entry("active", "z")];
    assert_eq!(available_models_for_instance(&vec![], &catalog), vec!["a".to_string(), "z".to_string()]);
    let enabled = vec!["m2".to_string(), "m1".to_string(), "m2".to_string()];
    assert_eq!(available_models_for_instance(&enabled, &catalog), vec!["m1".to_string(), "m2".to_string()]);

    let c = compile_provider_instance("openai", "openai", ModelProviderInstanceStatus::Ready, true, &vec![], &catalog, true, Some(&ok));
    assert!(c.is_ready && c.is_runnable && c.included_in_main && c.allow_custom_models);
    assert_eq!(c.available_models, vec!["a".to_string(), "z".to_string()]);
    let d = compile_provider_instance("openai", "openai", ModelProviderInstanceStatus::Draft, false, &enabled, &catalog, false, None);
    assert!(!d.is_ready && !d.is_runnable && !d.included_in_main && !d.allow_custom_models);
}
