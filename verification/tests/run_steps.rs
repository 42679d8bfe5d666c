use control_plane::errors::ControlPlaneError;
use control_plane::json::{to_compact_string, JsonValue};
use control_plane::orchestration_runtime::callbacks::{
    callback_resumed_trigger_payload, callback_wait, checkpoint_resume, human_input_wait, callback_waiting_node_resume, check_callback_completion,
    latest_checkpoint_for_node, side_effect_callback_outcome, CallbackTaskFacts, CheckpointFacts,
    SideEffectCallbackOutcome,
};
use control_plane::orchestration_runtime::compiled_plan::{
    CompileIssue, CompileIssueCode, CompiledNode, CompiledPlan,
};
use control_plane::orchestration_runtime::data_model_runtime::{
    ConfirmationMetadataError, DataModelNodeExecution,
};
use control_plane::orchestration_runtime::run_steps::{
    continue_run_step, node_preview_completion, node_preview_start, prepare_step,
    public_run_started_payload, published_run_start, run_completion, RunCompletion, PublishedRunFacts, PublishedRunState, PublishedStart,
    ContinuationAction, ContinuationEvent, ContinuationState, NodeOutcome, PrepareAction,
    PrepareEvent, PrepareState, RunEnd,
};

const TASK: u128 = 0x0190_0000_0000_7000_8000_0000_0000_0005;
const NODE_RUN: u128 = 0x0190_0000_0000_7000_8000_0000_0000_0006;
const ACTOR: u128 = 0x0190_0000_0000_7000_8000_0000_0000_0001;

fn object(entries: Vec<(&str, JsonValue)>) -> JsonValue {
    JsonValue::Object(entries.into_iter().map(|(k, v)| (k.to_string(), v)).collect())
}

fn s(text: &str) -> JsonValue {
    JsonValue::Str(text.to_string())
}

fn compact(v: &JsonValue) -> String {
    to_compact_string(v)
}

fn expiry_2030() -> JsonValue {
    JsonValue::Array(vec![
        JsonValue::Number(2030),
        JsonValue::Number(1),
        JsonValue::Number(0),
        JsonValue::Number(0),
        JsonValue::Number(0),
        JsonValue::Number(0),
        JsonValue::Number(0),
        JsonValue::Number(0),
        JsonValue::Number(0),
    ])
}

fn confirmation_task() -> CallbackTaskFacts {
    CallbackTaskFacts {
        id: TASK,
        node_run_id: NODE_RUN,
        callback_kind: "data_model_side_effect_confirmation".to_string(),
        request_payload: object(vec![]),
        external_ref_payload: Some(object(vec![
            ("actor_user_id", s("01900000-0000-7000-8000-000000000001")),
            ("expires_at", expiry_2030()),
        ])),
    }
}

fn tool_task() -> CallbackTaskFacts {
    CallbackTaskFacts {
        id: TASK,
        node_run_id: NODE_RUN,
        callback_kind: "llm_tool_calls".to_string(),
        request_payload: object(vec![(
            "tool_calls",
            JsonValue::Array(vec![object(vec![("id", s("a"))])]),
        )]),
        external_ref_payload: None,
    }
}

#[test]
fn a_confirmation_completes_only_when_approved_by_its_actor_in_time() {
    let task = confirmation_task();
    let approved = object(vec![("approved", JsonValue::Bool(true)), ("note", s("ok\u{0}"))]);
    let response = check_callback_completion(&task, ACTOR, approved, 0).ok().unwrap();
    assert_eq!(compact(&response), r#"{"approved":true,"note":"ok\\u0000"}"#);

    match check_callback_completion(&task, ACTOR, object(vec![("approved", JsonValue::Bool(false))]), 0) {
        Err(ConfirmationMetadataError::Invalid(m)) => assert_eq!(
            m,
            "DATA_MODEL_SIDE_EFFECT_CONFIRMATION_REJECTED: data_model write requires approved confirmation"
        ),
        _ => panic!("expected a rejected confirmation"),
    }
    assert!(matches!(
        check_callback_completion(&task, ACTOR + 1, object(vec![("approved", JsonValue::Bool(true))]), 0),
        Err(ConfirmationMetadataError::Denied(ControlPlaneError::PermissionDenied(
            "data_model_side_effect_confirmation_actor"
        )))
    ));
    let late: i128 = 1_893_456_000 * 1_000_000_000 + 1;
    match check_callback_completion(&task, ACTOR, object(vec![("approved", JsonValue::Bool(true))]), late) {
        Err(ConfirmationMetadataError::Invalid(m)) => assert_eq!(
            m,
            "DATA_MODEL_SIDE_EFFECT_CONFIRMATION_EXPIRED: data_model write confirmation expired"
        ),
        _ => panic!("expected an expired confirmation"),
    }
}

#[test]
fn tool_calls_complete_only_with_every_result() {
    let task = tool_task();
    let complete = object(vec![(
        "tool_results",
        JsonValue::Array(vec![object(vec![("tool_call_id", s("a")), ("content", s("x"))])]),
    )]);
    assert!(check_callback_completion(&task, ACTOR, complete, 0).is_ok());
    match check_callback_completion(&task, ACTOR, object(vec![("tool_results", JsonValue::Array(vec![]))]), 0) {
        Err(ConfirmationMetadataError::Invalid(m)) => assert_eq!(m, "missing tool result for a"),
        _ => panic!("expected a missing tool result"),
    }
}

#[test]
fn a_waiting_node_resumes_with_the_response_or_its_own_tool_output() {
    let task = confirmation_task();
    let waiting = object(vec![("draft", JsonValue::Bool(true))]);
    let response = object(vec![("approved", JsonValue::Bool(true))]);
    let resume = callback_waiting_node_resume(&task, &waiting, Some(&response)).ok().unwrap();
    assert_eq!(resume.node_run_id, NODE_RUN);
    assert_eq!(compact(&resume.output_payload), r#"{"approved":true}"#);
    assert_eq!(
        compact(&resume.metrics_payload),
        r#"{"callback_kind":"data_model_side_effect_confirmation","resumed":true}"#
    );
    assert_eq!(
        compact(&resume.debug_payload),
        r#"{"callback_kind":"data_model_side_effect_confirmation","callback_task_id":"01900000-0000-7000-8000-000000000005"}"#
    );
    match callback_waiting_node_resume(&task, &waiting, None) {
        Err(m) => assert_eq!(m, "completed callback task is missing response payload"),
        Ok(_) => panic!("expected a missing response"),
    }
    let tools = callback_waiting_node_resume(&tool_task(), &waiting, None).ok().unwrap();
    assert_eq!(
        compact(&tools.metrics_payload),
        r#"{"callback_kind":"llm_tool_calls","resumed":true}"#
    );
    assert_eq!(compact(&tools.output_payload), r#"{"draft":true}"#);
}

#[test]
fn the_latest_checkpoint_of_the_node_is_resumed_from() {
    let checkpoints = vec![
        CheckpointFacts { id: 1, node_run_id: Some(NODE_RUN) },
        CheckpointFacts { id: 2, node_run_id: None },
        CheckpointFacts { id: 3, node_run_id: Some(NODE_RUN) },
        CheckpointFacts { id: 4, node_run_id: Some(NODE_RUN + 1) },
    ];
    assert_eq!(latest_checkpoint_for_node(&checkpoints, NODE_RUN), Ok(2));
    assert_eq!(
        latest_checkpoint_for_node(&checkpoints, NODE_RUN + 9),
        Err("checkpoint not found for callback task".to_string())
    );
    let trigger = callback_resumed_trigger_payload(TASK, &object(vec![("ok", JsonValue::Bool(true))]));
    assert_eq!(
        compact(&trigger),
        r#"{"callback_task_id":"01900000-0000-7000-8000-000000000005","response_payload":{"ok":true}}"#
    );
}

#[test]
fn a_confirmed_write_resumes_the_run_or_fails_it() {
    let task = confirmation_task();
    let response = object(vec![("approved", JsonValue::Bool(true))]);
    let done = DataModelNodeExecution {
        output_payload: object(vec![("record_id", s("r1"))]),
        error_payload: None,
        metrics_payload: object(vec![("side_effect_receipt", object(vec![("id", s("x"))]))]),
        waiting_confirmation: None,
    };
    match side_effect_callback_outcome(&task, &done, &response) {
        SideEffectCallbackOutcome::Resumed { output_payload, debug_payload, trigger_payload, .. } => {
            assert_eq!(compact(&output_payload), r#"{"record_id":"r1"}"#);
            assert_eq!(
                compact(&debug_payload),
                r#"{"callback_kind":"data_model_side_effect_confirmation","callback_task_id":"01900000-0000-7000-8000-000000000005","confirmed":true}"#
            );
            assert_eq!(
                compact(&trigger_payload),
                r#"{"callback_task_id":"01900000-0000-7000-8000-000000000005","response_payload":{"approved":true},"side_effect_receipt":{"id":"x"}}"#
            );
        }
        SideEffectCallbackOutcome::Failed { .. } => panic!("expected the run to resume"),
    }
    let failed = DataModelNodeExecution {
        output_payload: JsonValue::Null,
        error_payload: Some(object(vec![("message", s("boom"))])),
        metrics_payload: object(vec![]),
        waiting_confirmation: None,
    };
    match side_effect_callback_outcome(&task, &failed, &response) {
        SideEffectCallbackOutcome::Failed { error_payload, debug_payload, .. } => {
            assert_eq!(compact(&error_payload), r#"{"message":"boom"}"#);
            assert_eq!(
                compact(&debug_payload),
                r#"{"callback_kind":"data_model_side_effect_confirmation","callback_task_id":"01900000-0000-7000-8000-000000000005"}"#
            );
        }
        SideEffectCallbackOutcome::Resumed { .. } => panic!("expected the run to fail"),
    }
}

fn plan_of(nodes: &[(&str, &str)]) -> CompiledPlan {
    CompiledPlan {
        nodes: nodes
            .iter()
            .map(|(id, t)| CompiledNode {
                node_id: id.to_string(),
                node_type: t.to_string(),
                dependency_node_ids: vec![],
                outputs: vec![],
                config: JsonValue::Null,
            })
            .collect(),
        topological_order: nodes.iter().map(|(id, _)| id.to_string()).collect(),
        compile_issues: vec![],
    }
}

fn plan_with_issue(on: &str) -> CompiledPlan {
    CompiledPlan {
        nodes: vec![CompiledNode {
            node_id: "llm".to_string(),
            node_type: "llm".to_string(),
            dependency_node_ids: vec![],
            outputs: vec![],
            config: JsonValue::Null,
        }],
        topological_order: vec!["llm".to_string()],
        compile_issues: vec![CompileIssue {
            node_id: on.to_string(),
            code: CompileIssueCode::MissingProviderInstance,
            message: "source_instance_id missing".to_string(),
        }],
    }
}

#[test]
fn a_node_preview_starts_only_without_issues_in_its_scope() {
    let draft = object(vec![("schemaVersion", s("1"))]);
    let snapshot = object(vec![("schemaVersion", s("2"))]);
    assert!(matches!(
        node_preview_start(&plan_with_issue("llm"), "llm", None, &draft),
        Err(ControlPlaneError::InvalidInput("source_instance_id"))
    ));
    let start = node_preview_start(&plan_with_issue("other"), "llm", Some(&snapshot), &draft).ok().unwrap();
    assert_eq!(compact(&start.document), r#"{"schemaVersion":"2"}"#);
    assert!(start.document_hash.starts_with("sha256:"));
    assert_eq!(start.document_hash.len(), 7 + 64);
    let from_draft = node_preview_start(&plan_with_issue("other"), "llm", None, &draft).ok().unwrap();
    assert_eq!(compact(&from_draft.document), r#"{"schemaVersion":"1"}"#);
    assert_ne!(from_draft.document_hash, start.document_hash);
}

#[test]
fn a_node_preview_ends_as_its_node_and_keeps_the_output_in_the_cache() {
    let input = object(vec![("query", s("hi")), ("llm", s("old"))]);
    let output = object(vec![("text", s("hello"))]);
    let done = node_preview_completion(&input, "llm", false, &output);
    assert_eq!(done.node_status, RunEnd::Succeeded);
    assert_eq!(done.flow_status, RunEnd::Succeeded);
    assert_eq!(done.variable_cache.len(), 2);
    assert_eq!(done.variable_cache[1].0, "llm");
    assert_eq!(
        compact(&JsonValue::Object(done.variable_cache)),
        r#"{"llm":{"text":"hello"},"query":"hi"}"#
    );
    let failed = node_preview_completion(&s("not an object"), "llm", true, &output);
    assert_eq!(failed.node_status, RunEnd::Failed);
    assert_eq!(failed.flow_status, RunEnd::Failed);
    assert_eq!(compact(&JsonValue::Object(failed.variable_cache)), r#"{"llm":{"text":"hello"}}"#);
}

#[test]
fn a_failure_before_the_start_fails_the_queued_shell() {
    let (state, action) = prepare_step(PrepareState::CheckingShell, PrepareEvent::ShellChecked(Ok(())));
    assert_eq!(state, PrepareState::Compiling);
    assert!(matches!(action, PrepareAction::CompilePlan));
    let (state, action) = prepare_step(state, PrepareEvent::Compiled(Err("bad flow".to_string())));
    assert_eq!(state, PrepareState::Done);
    match action {
        PrepareAction::FailQueuedShell { error_payload, message } => {
            assert_eq!(message, "bad flow");
            assert_eq!(compact(&error_payload), r#"{"message":"bad flow"}"#);
        }
        _ => panic!("expected the shell to fail"),
    }
    let (_, action) = prepare_step(PrepareState::Attaching, PrepareEvent::Attached(Ok(())));
    assert!(matches!(action, PrepareAction::RecordStart));
    let (state, action) = prepare_step(PrepareState::Started, PrepareEvent::StartRecorded(Err("late".to_string())));
    assert_eq!(state, PrepareState::Done);
    assert!(matches!(action, PrepareAction::FailRun { .. }));
    let (state, action) =
        prepare_step(PrepareState::CheckingShell, PrepareEvent::ShellChecked(Err("mismatch".to_string())));
    assert_eq!(state, PrepareState::Done);
    assert!(matches!(action, PrepareAction::ReportError { .. }));
}

#[test]
fn nodes_run_in_order_each_after_a_cancellation_check() {
    let order = plan_of(&[("a", "llm"), ("b", "llm")]);
    let (state, action) = continue_run_step(
        &order,
        ContinuationState::Loading,
        ContinuationEvent::RunLoaded { running: true, input_is_object: true },
    );
    assert_eq!(state, ContinuationState::CheckingCancellation(0));
    assert!(matches!(action, ContinuationAction::CheckCancellation));
    let (state, action) =
        continue_run_step(&order, state, ContinuationEvent::CancellationChecked { cancelled: false });
    assert_eq!(state, ContinuationState::RunningNode(0));
    match action {
        ContinuationAction::RunNode { index, node_id } => {
            assert_eq!(index, 0);
            assert_eq!(node_id, "a");
        }
        _ => panic!("expected the first node to run"),
    }
    let (state, _) = continue_run_step(&order, state, ContinuationEvent::NodeFinished(NodeOutcome::Succeeded));
    assert_eq!(state, ContinuationState::CheckingCancellation(1));
    let (state, action) =
        continue_run_step(&order, state, ContinuationEvent::CancellationChecked { cancelled: false });
    assert!(matches!(action, ContinuationAction::RunNode { index: 1, .. }));
    let (state, action) = continue_run_step(&order, state, ContinuationEvent::NodeFinished(NodeOutcome::Succeeded));
    assert_eq!(state, ContinuationState::Done);
    assert!(matches!(action, ContinuationAction::FinishRun));
}

#[test]
fn a_run_that_cannot_continue_runs_no_node() {
    let order = plan_of(&[("a", "llm")]);
    let (state, action) = continue_run_step(
        &order,
        ContinuationState::Loading,
        ContinuationEvent::RunLoaded { running: false, input_is_object: true },
    );
    assert_eq!(state, ContinuationState::Done);
    assert!(matches!(action, ContinuationAction::ReturnDetail));
    let (_, action) = continue_run_step(
        &order,
        ContinuationState::Loading,
        ContinuationEvent::RunLoaded { running: true, input_is_object: false },
    );
    match action {
        ContinuationAction::Fail { message } => assert_eq!(message, "input payload must be an object"),
        _ => panic!("expected the run to fail"),
    }
    let (state, action) = continue_run_step(
        &order,
        ContinuationState::CheckingCancellation(0),
        ContinuationEvent::CancellationChecked { cancelled: true },
    );
    assert_eq!(state, ContinuationState::Done);
    assert!(matches!(action, ContinuationAction::ReturnDetail));
    let (_, action) = continue_run_step(
        &order,
        ContinuationState::RunningNode(0),
        ContinuationEvent::NodeFinished(NodeOutcome::Waiting),
    );
    assert!(matches!(action, ContinuationAction::WaitForCallback));
}

#[test]
fn a_tool_callback_wait_sends_the_resolved_inputs() {
    let inputs = vec![("prompt".to_string(), s("hi")), ("tools".to_string(), JsonValue::Array(vec![]))];
    let wait = callback_wait("llm_tool_calls", &inputs);
    assert_eq!(compact(&wait.node_metrics_payload), r#"{"preview_mode":true,"waiting":"llm_tool_calls"}"#);
    assert_eq!(wait.checkpoint_status, "waiting_callback");
    assert_eq!(wait.checkpoint_reason, "等待 callback 回填");
    assert_eq!(wait.callback_kind, "llm_tool_calls");
    assert_eq!(compact(&wait.request_payload), r#"{"prompt":"hi","tools":[]}"#);
}

#[test]
fn a_run_resumes_from_a_checkpoint_with_the_waiting_node_input() {
    let input = object(vec![("human", object(vec![("answer", s("yes"))]))]);
    let resume = checkpoint_resume(TASK, Some(NODE_RUN), "human", &input).ok().unwrap();
    assert_eq!(compact(&resume.resume_input), r#"{"answer":"yes"}"#);
    let node = resume.waiting_node_resume.unwrap();
    assert_eq!(node.node_run_id, NODE_RUN);
    assert_eq!(compact(&node.output_payload), r#"{"answer":"yes"}"#);
    assert_eq!(compact(&node.metrics_payload), r#"{"resumed":true}"#);
    assert_eq!(compact(&node.debug_payload), "{}");
    assert_eq!(
        compact(&resume.trigger_payload),
        r#"{"checkpoint_id":"01900000-0000-7000-8000-000000000005","input_payload":{"human":{"answer":"yes"}}}"#
    );
    assert!(checkpoint_resume(TASK, None, "human", &input).ok().unwrap().waiting_node_resume.is_none());
    match checkpoint_resume(TASK, None, "other", &input) {
        Err(m) => assert_eq!(m, "resume payload is missing node input for other"),
        Ok(_) => panic!("expected a missing node input"),
    }
}

#[test]
fn a_human_input_wait_shows_the_rendered_prompt_or_a_default() {
    let wait = human_input_wait(&object(vec![("prompt", s("Approve?"))]));
    assert_eq!(compact(&wait.node_metrics_payload), r#"{"preview_mode":true,"waiting":"human_input"}"#);
    assert_eq!(wait.checkpoint_status, "waiting_human");
    assert_eq!(wait.checkpoint_reason, "等待人工输入");
    assert_eq!(compact(&wait.external_ref_payload), r#"{"prompt":"Approve?"}"#);
    let fallback = human_input_wait(&object(vec![("prompt", JsonValue::Number(1))]));
    assert_eq!(compact(&fallback.external_ref_payload), r#"{"prompt":"请提供人工输入"}"#);
}

#[test]
fn only_a_published_api_run_starts_and_its_start_names_its_caller() {
    assert!(matches!(
        published_run_start(false, PublishedRunState::Queued),
        PublishedStart::Refuse(ControlPlaneError::InvalidInput("run_mode"))
    ));
    assert!(matches!(published_run_start(true, PublishedRunState::Queued), PublishedStart::MarkRunning));
    assert!(matches!(published_run_start(true, PublishedRunState::Running), PublishedStart::Continue));
    assert!(matches!(published_run_start(true, PublishedRunState::Settled), PublishedStart::ReturnDetail));
    let payload = public_run_started_payload(&PublishedRunFacts {
        api_key_id: Some(TASK),
        application_id: NODE_RUN,
        publication_version_id: None,
        created_by: ACTOR,
        external_user: Some("u-1".to_string()),
        external_conversation_id: None,
        external_trace_id: Some("t-1".to_string()),
        compatibility_mode: None,
    });
    assert_eq!(
        compact(&payload),
        r#"{"api_key_id":"01900000-0000-7000-8000-000000000005","application_id":"01900000-0000-7000-8000-000000000006","compatibility_mode":null,"creator_user_id":"01900000-0000-7000-8000-000000000001","external_conversation_id":null,"external_trace_id":"t-1","external_user":"u-1","publication_version_id":null}"#
    );
}

#[test]
fn a_finished_run_fails_with_a_pending_failure_or_succeeds() {
    let output = object(vec![("answer", s("42"))]);
    assert!(matches!(run_completion(true, None, &output), RunCompletion::ReturnDetail));
    let failure = object(vec![("message", s("boom"))]);
    match run_completion(false, Some(&failure), &output) {
        RunCompletion::Finish { status, output_payload, error_payload, event_type, event_payload } => {
            assert_eq!(status, RunEnd::Failed);
            assert_eq!(compact(&output_payload), r#"{"answer":"42"}"#);
            assert_eq!(compact(&error_payload.unwrap()), r#"{"message":"boom"}"#);
            assert_eq!(event_type, "flow_run_failed");
            assert_eq!(compact(&event_payload), r#"{"message":"boom"}"#);
        }
        RunCompletion::ReturnDetail => panic!("expected the run to fail"),
    }
    match run_completion(false, None, &output) {
        RunCompletion::Finish { status, error_payload, event_type, event_payload, .. } => {
            assert_eq!(status, RunEnd::Succeeded);
            assert!(error_payload.is_none());
            assert_eq!(event_type, "flow_run_completed");
            assert_eq!(compact(&event_payload), r#"{"answer":"42"}"#);
        }
        RunCompletion::ReturnDetail => panic!("expected the run to succeed"),
    }
}

#[test]
fn a_failure_before_only_template_nodes_is_held_until_they_ran() {
    let plan = plan_of(&[("llm", "llm"), ("tpl", "template_transform"), ("ans", "answer")]);
    let (state, action) = continue_run_step(&plan, ContinuationState::RunningNode(0), ContinuationEvent::NodeFinished(NodeOutcome::Failed));
    assert_eq!(state, ContinuationState::CheckingCancellation(1));
    assert!(matches!(action, ContinuationAction::HoldFailure));
    let strict = plan_of(&[("llm", "llm"), ("tool", "tool"), ("ans", "answer")]);
    let (state, action) = continue_run_step(&strict, ContinuationState::RunningNode(0), ContinuationEvent::NodeFinished(NodeOutcome::Failed));
    assert_eq!(state, ContinuationState::Done);
    assert!(matches!(action, ContinuationAction::FailRun));
    let (_, action) = continue_run_step(&plan, ContinuationState::RunningNode(2), ContinuationEvent::NodeFinished(NodeOutcome::Failed));
    assert!(matches!(action, ContinuationAction::FailRun));
}
