use control_plane::json::{to_compact_string, JsonValue};
use control_plane::orchestration_runtime::compiled_plan::CompiledNode;
use control_plane::orchestration_runtime::data_model_runtime::{
    data_model_action, data_model_side_effect_policy, ensure_object_payload,
    ensure_receipt_replayable, ensure_supported_sort_direction, input_or_config_value,
    optional_integer, output_record_id, parse_filters, parse_side_effect_request, parse_sorts,
    parse_string_list, parse_workflow_filter_operator, required_config_string,
    required_record_id, side_effect_idempotency_key, side_effect_write_outcome,
    stable_json_hash, validate_list_options, verify_side_effect_confirmation,
    DataModelRunContext, DataModelSideEffectPolicy, ListOptions, ModelFieldMetadata,
    ResourceFilterOperator, build_data_model_node_execution, data_model_node_execution,
    elapsed_milliseconds, receipt_payload, DataModelExecutionResult,
    DataModelSideEffectConfirmation, DataModelSideEffectReceiptRecord,
    data_model_node_request, data_model_write_call, plan_data_model_write, replay_claimed_receipt,
    side_effect_receipt_upsert, write_request_payload, ClaimedReceipt, DataModelNodeRequest,
    DataModelWriteCall, DataModelWritePlan, ReceiptStage, CONFIRMATION_WINDOW_NANOS,
    write_step, WriteAction, WriteEvent, WriteState,
    side_effect_confirmation_payload, ensure_side_effect_confirmation_metadata,
    ConfirmationMetadataError,
};
use sha2::Digest;

fn object(entries: Vec<(&str, JsonValue)>) -> JsonValue {
    JsonValue::Object(entries.into_iter().map(|(k, v)| (k.to_string(), v)).collect())
}

fn s(text: &str) -> JsonValue {
    JsonValue::Str(text.to_string())
}

fn node(node_type: &str, config: JsonValue) -> CompiledNode {
    CompiledNode {
        node_id: "node-1".to_string(),
        node_type: node_type.to_string(),
        dependency_node_ids: vec![],
        outputs: vec![],
        config,
    }
}

fn err<T>(r: Result<T, String>) -> String {
    match r {
        Ok(_) => panic!("expected an error"),
        Err(m) => m,
    }
}

#[test]
fn node_types_name_actions() {
    assert_eq!(data_model_action(&node("data_model_get", JsonValue::Null)).unwrap(), "get");
    assert_eq!(data_model_action(&node("data_model_delete", JsonValue::Null)).unwrap(), "delete");
    assert_eq!(
        err(data_model_action(&node("llm", JsonValue::Null))),
        "unsupported data_model node type: llm"
    );
}

#[test]
fn configuration_and_inputs() {
    let config = object(vec![("data_model_code", s(" orders ")), ("record_id", s("cfg"))]);
    assert_eq!(required_config_string(&config, "data_model_code").unwrap(), "orders");
    assert_eq!(
        err(required_config_string(&config, "missing")),
        "data_model config.missing is required"
    );
    let inputs = object(vec![("record_id", s(" r1 "))]);
    assert_eq!(required_record_id(&config, &inputs).unwrap(), "r1");
    assert_eq!(required_record_id(&config, &object(vec![])).unwrap(), "cfg");
    assert_eq!(
        err(required_record_id(&object(vec![]), &object(vec![]))),
        "data_model config.record_id is required"
    );
    assert!(input_or_config_value(&config, &inputs, "nothing").is_none());
    assert!(ensure_object_payload(&object(vec![])).is_ok());
    assert_eq!(err(ensure_object_payload(&s("x"))), "data_model payload must be object");
}

#[test]
fn list_queries_are_parsed() {
    let query = object(vec![
        ("page", JsonValue::Number(0)),
        ("page_size", JsonValue::Number(500)),
        (
            "filters",
            JsonValue::Array(vec![object(vec![
                ("operator", s("gte")),
                ("field_code", s(" total ")),
                ("value", JsonValue::Number(3)),
            ])]),
        ),
        ("sorts", JsonValue::Array(vec![object(vec![("field_code", s("total")), ("direction", s("DESC"))])])),
        ("expand_relations", JsonValue::Array(vec![s("owner")])),
    ]);
    let options = ListOptions::from_value(&query).unwrap();
    assert_eq!(options.page, 1);
    assert_eq!(options.page_size, 100);
    assert_eq!(options.filters.len(), 1);
    assert_eq!(options.filters[0].field, "total");
    assert_eq!(options.filters[0].operator, ResourceFilterOperator::Gte);
    assert_eq!(options.sorts[0].direction, "desc");
    assert_eq!(options.expand_relations, vec!["owner".to_string()]);

    let defaults = ListOptions::from_value(&JsonValue::Null).unwrap();
    assert_eq!((defaults.page, defaults.page_size), (1, 20));
    assert_eq!(err(ListOptions::from_value(&s("x"))), "data_model list query must be object");
    assert_eq!(
        err(ListOptions::from_value(&object(vec![("page", s("2"))]))),
        "data_model list page must be integer"
    );
}

#[test]
fn list_query_errors() {
    assert_eq!(err(parse_filters(Some(&s("x")))), "data_model list filters must be array");
    assert_eq!(
        err(parse_filters(Some(&JsonValue::Array(vec![s("x")])))),
        "data_model list filter must be object"
    );
    assert_eq!(
        err(parse_filters(Some(&JsonValue::Array(vec![object(vec![("field_code", s("a"))])])))),
        "data_model list operator is required"
    );
    assert_eq!(
        err(parse_filters(Some(&JsonValue::Array(vec![object(vec![("operator", s("like")), ("field_code", s("a"))])])))),
        "data_model list filter operator is unsupported"
    );
    assert_eq!(err(parse_sorts(Some(&JsonValue::Number(1)))), "data_model list sorts must be array");
    assert_eq!(
        err(parse_sorts(Some(&JsonValue::Array(vec![object(vec![("field_code", s("a")), ("direction", s("up"))])])))),
        "data_model list sort direction is unsupported"
    );
    assert_eq!(
        err(parse_string_list(Some(&JsonValue::Array(vec![JsonValue::Number(1)])))),
        "data_model list expand_relations item must be string"
    );
    assert!(parse_filters(None).unwrap().is_empty());
    assert_eq!(optional_integer(None, "page", 7).unwrap(), 7);
    assert_eq!(parse_workflow_filter_operator("ne").unwrap(), ResourceFilterOperator::Ne);
    assert!(ensure_supported_sort_direction("Asc").is_ok());
}

#[test]
fn list_queries_are_checked_against_the_model() {
    let fields = vec![
        ModelFieldMetadata { code: "total".to_string(), is_relation: false },
        ModelFieldMetadata { code: "owner".to_string(), is_relation: true },
    ];
    let ok = ListOptions::from_value(&object(vec![("expand_relations", JsonValue::Array(vec![s("owner")]))])).unwrap();
    assert!(validate_list_options(&fields, &ok).is_ok());
    let bad = ListOptions::from_value(&object(vec![("expand_relations", JsonValue::Array(vec![s("total")]))])).unwrap();
    assert_eq!(err(validate_list_options(&fields, &bad)), "unsupported relation expansion");
    let bad = ListOptions::from_value(&object(vec![(
        "sorts",
        JsonValue::Array(vec![object(vec![("field_code", s("nope"))])]),
    )]))
    .unwrap();
    assert_eq!(err(validate_list_options(&fields, &bad)), "undeclared sort field: nope");
    let bad = ListOptions::from_value(&object(vec![(
        "filters",
        JsonValue::Array(vec![object(vec![("operator", s("eq")), ("field_code", s("x"))])]),
    )]))
    .unwrap();
    assert_eq!(err(validate_list_options(&fields, &bad)), "undeclared field code: x");
}

#[test]
fn side_effect_policies() {
    assert_eq!(
        data_model_side_effect_policy(&node("data_model_create", JsonValue::Null)).unwrap(),
        DataModelSideEffectPolicy::Disabled
    );
    let config = object(vec![("side_effect_policy", s("confirm_each_run"))]);
    assert_eq!(
        data_model_side_effect_policy(&node("data_model_create", config)).unwrap(),
        DataModelSideEffectPolicy::ConfirmEachRun
    );
    let config = object(vec![("side_effect_policy", s("always"))]);
    assert_eq!(
        err(data_model_side_effect_policy(&node("data_model_create", config))),
        "unsupported data_model side_effect_policy: always"
    );
}

#[test]
fn stable_hash_is_sha256_of_compact_json() {
    let value = object(vec![("a", JsonValue::Number(1))]);
    let digest = sha2::Sha256::digest(br#"{"a":1}"#);
    assert_eq!(stable_json_hash(&value), format!("sha256:{:x}", digest));
}

#[test]
fn confirmed_side_effects_are_checked() {
    let ctx = DataModelRunContext {
        workspace_id: 1,
        application_id: 2,
        draft_id: 3,
        flow_run_id: 4,
        node_run_id: 5,
    };
    let config = object(vec![("data_model_code", s("orders"))]);
    let n = node("data_model_update", config);
    let request = object(vec![
        ("action", s("update")),
        ("model_code", s("orders")),
        ("record_id", s(" r9 ")),
        ("payload", object(vec![("total", JsonValue::Number(3))])),
    ]);
    let hash = stable_json_hash(&request);
    let key = side_effect_idempotency_key(&ctx, &n, "update", &hash);
    assert_eq!(
        key,
        format!(
            "data_model:{}:{}:{}:{}:node-1:update:{}",
            uuid::Uuid::from_u128(1),
            uuid::Uuid::from_u128(2),
            uuid::Uuid::from_u128(3),
            uuid::Uuid::from_u128(4),
            hash
        )
    );
    let confirmation = object(vec![
        ("request_payload", request_copy()),
        ("payload_hash", s(&hash)),
        ("idempotency_key", s(&key)),
    ]);
    let confirmed = verify_side_effect_confirmation(&n, &ctx, &confirmation).unwrap();
    assert_eq!(confirmed.request.record_id.as_deref(), Some("r9"));
    assert_eq!(confirmed.idempotency_key, key);

    let wrong_hash = object(vec![
        ("request_payload", request_copy()),
        ("payload_hash", s("sha256:0")),
        ("idempotency_key", s(&key)),
    ]);
    assert_eq!(
        err(verify_side_effect_confirmation(&n, &ctx, &wrong_hash)),
        "data_model side-effect confirmation payload hash mismatch"
    );
    let wrong_key = object(vec![
        ("request_payload", request_copy()),
        ("payload_hash", s(&hash)),
        ("idempotency_key", s("other")),
    ]);
    assert_eq!(
        err(verify_side_effect_confirmation(&n, &ctx, &wrong_key)),
        "data_model side-effect confirmation idempotency key mismatch"
    );
    assert_eq!(
        err(verify_side_effect_confirmation(&n, &ctx, &object(vec![]))),
        "data_model side-effect confirmation is missing request payload"
    );
    let other_node = node("data_model_delete", object(vec![("data_model_code", s("orders"))]));
    assert_eq!(
        err(verify_side_effect_confirmation(&other_node, &ctx, &confirmation)),
        "data_model side-effect confirmation action does not match node"
    );
}

fn request_copy() -> JsonValue {
    object(vec![
        ("action", s("update")),
        ("model_code", s("orders")),
        ("record_id", s(" r9 ")),
        ("payload", object(vec![("total", JsonValue::Number(3))])),
    ])
}

#[test]
fn side_effect_requests_and_outcomes() {
    assert_eq!(
        err(parse_side_effect_request(&object(vec![("action", s("create"))]))),
        "data_model side-effect payload model_code is required"
    );
    assert_eq!(
        err(parse_side_effect_request(&s("x"))),
        "data_model side-effect request payload must be object"
    );
    let output = object(vec![
        ("record", object(vec![("id", s("r1"))])),
        ("affected_count", JsonValue::Number(2)),
    ]);
    assert_eq!(output_record_id(&output).as_deref(), Some("r1"));
    assert_eq!(side_effect_write_outcome(&output), (Some("r1".to_string()), None, 2));
    assert_eq!(side_effect_write_outcome(&object(vec![])), (None, None, 1));
    assert!(ensure_receipt_replayable("create", "succeeded").is_ok());
    assert_eq!(
        err(ensure_receipt_replayable("create", "failed")),
        "DATA_MODEL_SIDE_EFFECT_RECEIPT_NOT_REPLAYABLE: data_model create receipt status is failed"
    );
}

#[test]
fn receipts_are_reported_as_json() {
    let receipt = DataModelSideEffectReceiptRecord {
        id: 0x0190_0000_0000_7000_8000_0000_0000_0001,
        idempotency_key: "key".to_string(),
        payload_hash: "hash".to_string(),
        status: "succeeded".to_string(),
        action: "create".to_string(),
        model_code: "orders".to_string(),
        record_id: Some("r-1".to_string()),
        deleted_id: None,
        affected_count: 1,
    };
    let value = receipt_payload(&receipt);
    assert_eq!(value.get_str("id"), Some("01900000-0000-7000-8000-000000000001"));
    assert_eq!(value.get_str("record_id"), Some("r-1"));
    assert!(value.get("deleted_id").map(|v| v.is_null()).unwrap_or(false));
    assert_eq!(value.get("affected_count").and_then(|v| v.as_i64()), Some(1));
    assert_eq!(value.get_str("status"), Some("succeeded"));
}

#[test]
fn elapsed_time_is_whole_milliseconds_and_never_negative() {
    assert_eq!(elapsed_milliseconds(1_000_000_000, 1_002_999_999), 2);
    assert_eq!(elapsed_milliseconds(5_000_000, 1_000_000), 0);
    assert_eq!(elapsed_milliseconds(i128::MIN, i128::MAX), i64::MAX);
}

#[test]
fn node_outcomes_carry_their_metrics() {
    let completed = data_model_node_execution(
        12,
        Ok(DataModelExecutionResult::Completed {
            output_payload: object(vec![("ok", JsonValue::Bool(true))]),
            side_effect_receipt: None,
            replayed: false,
        }),
    );
    assert!(completed.error_payload.is_none());
    assert!(completed.waiting_confirmation.is_none());
    assert_eq!(
        to_compact_string(&completed.metrics_payload),
        r#"{"duration_ms":12,"runtime":"data_model","side_effect_receipt":null,"side_effect_replayed":false}"#
    );
    let waiting = data_model_node_execution(
        3,
        Ok(DataModelExecutionResult::WaitingConfirmation(DataModelSideEffectConfirmation {
            idempotency_key: "k".to_string(),
            payload_hash: "h".to_string(),
            request_payload: JsonValue::Null,
            expires_at_unix_nanos: 0,
        })),
    );
    assert_eq!(to_compact_string(&waiting.output_payload), "{}");
    assert_eq!(waiting.metrics_payload.get_str("waiting"), Some("data_model_side_effect_confirmation"));
    assert_eq!(waiting.metrics_payload.get_str("idempotency_key"), Some("k"));
    assert!(waiting.waiting_confirmation.is_some());
    let failed = data_model_node_execution(0, Err("boom".to_string()));
    assert_eq!(to_compact_string(failed.error_payload.as_ref().unwrap()), r#"{"message":"boom"}"#);
    assert_eq!(to_compact_string(&failed.metrics_payload), r#"{"duration_ms":0,"runtime":"data_model"}"#);
    let timed = build_data_model_node_execution(0, Err("late".to_string()));
    assert!(timed.metrics_payload.get("duration_ms").and_then(|v| v.as_i64()).unwrap() > 0);
}

fn ctx() -> DataModelRunContext {
    DataModelRunContext {
        workspace_id: 1,
        application_id: 2,
        draft_id: 3,
        flow_run_id: 4,
        node_run_id: 5,
    }
}

fn receipt(status: &str) -> DataModelSideEffectReceiptRecord {
    DataModelSideEffectReceiptRecord {
        id: 9,
        idempotency_key: "key".to_string(),
        payload_hash: "hash".to_string(),
        status: status.to_string(),
        action: "create".to_string(),
        model_code: "orders".to_string(),
        record_id: None,
        deleted_id: None,
        affected_count: 0,
    }
}

#[test]
fn nodes_ask_for_what_their_action_needs() {
    let list = node("data_model_list", object(vec![("data_model_code", s(" orders "))]));
    let inputs = object(vec![("query", object(vec![("page", JsonValue::Number(2))]))]);
    match data_model_node_request(&list, &inputs).unwrap() {
        DataModelNodeRequest::List { model_code, query } => {
            assert_eq!(model_code, "orders");
            assert_eq!(to_compact_string(&query), r#"{"page":2}"#);
        }
        _ => panic!("expected a list"),
    }
    let get = node("data_model_get", object(vec![("data_model_code", s("orders"))]));
    assert_eq!(err(data_model_node_request(&get, &object(vec![]))), "data_model config.record_id is required");
    let update = node(
        "data_model_update",
        object(vec![
            ("data_model_code", s("orders")),
            ("record_id", s("r1")),
            ("payload", object(vec![("a", JsonValue::Number(1))])),
        ]),
    );
    match data_model_node_request(&update, &object(vec![])).unwrap() {
        DataModelNodeRequest::Write { action, record_id, payload, .. } => {
            assert_eq!(action, "update");
            assert_eq!(record_id.as_deref(), Some("r1"));
            assert_eq!(to_compact_string(&payload), r#"{"a":1}"#);
        }
        _ => panic!("expected a write"),
    }
    let delete = node("data_model_delete", object(vec![("data_model_code", s("orders"))]));
    match data_model_node_request(&delete, &object(vec![("record_id", s("r2"))])).unwrap() {
        DataModelNodeRequest::Write { action, record_id, payload, .. } => {
            assert_eq!(action, "delete");
            assert_eq!(record_id.as_deref(), Some("r2"));
            assert!(payload.is_null());
        }
        _ => panic!("expected a write"),
    }
    let create = node("data_model_create", object(vec![]));
    assert_eq!(err(data_model_node_request(&create, &object(vec![]))), "data_model config.data_model_code is required");
    let other = node("other", object(vec![("data_model_code", s("orders"))]));
    assert_eq!(err(data_model_node_request(&other, &object(vec![]))), "unsupported data_model node type: other");
}

#[test]
fn writes_follow_the_side_effect_policy() {
    let payload = object(vec![("a", JsonValue::Number(1))]);
    let disabled = node("data_model_create", object(vec![("data_model_code", s("orders"))]));
    assert_eq!(
        err(plan_data_model_write(&disabled, &ctx(), "create", "orders", &None, &payload, 0)),
        "DATA_MODEL_SIDE_EFFECT_DISABLED: data_model create requires explicit side-effect policy"
    );
    let confirm = node(
        "data_model_create",
        object(vec![("data_model_code", s("orders")), ("side_effect_policy", s("confirm_each_run"))]),
    );
    let request = write_request_payload("create", "orders", &None, &payload);
    assert_eq!(
        to_compact_string(&request),
        r#"{"action":"create","model_code":"orders","payload":{"a":1},"record_id":null}"#
    );
    let hash = stable_json_hash(&request);
    let key = side_effect_idempotency_key(&ctx(), &confirm, "create", &hash);
    match plan_data_model_write(&confirm, &ctx(), "create", "orders", &None, &payload, 1_000).unwrap() {
        DataModelWritePlan::WaitForConfirmation(c) => {
            assert_eq!(c.payload_hash, hash);
            assert_eq!(c.idempotency_key, key);
            assert_eq!(c.expires_at_unix_nanos, 1_000 + CONFIRMATION_WINDOW_NANOS);
            assert_eq!(CONFIRMATION_WINDOW_NANOS, 600_000_000_000);
        }
        _ => panic!("expected to wait for confirmation"),
    }
    let allow = node(
        "data_model_delete",
        object(vec![("data_model_code", s("orders")), ("side_effect_policy", s("allow_with_idempotency"))]),
    );
    assert_eq!(
        err(plan_data_model_write(&allow, &ctx(), "create", "orders", &None, &JsonValue::Null, 0)),
        "data_model payload must be object"
    );
    match plan_data_model_write(&allow, &ctx(), "delete", "orders", &Some("r".to_string()), &JsonValue::Null, 0).unwrap() {
        DataModelWritePlan::WriteWithIdempotency { idempotency_key, payload_hash } => {
            assert!(payload_hash.starts_with("sha256:"));
            assert!(idempotency_key.ends_with(&payload_hash));
        }
        _ => panic!("expected a write"),
    }
}

#[test]
fn write_calls_and_receipts() {
    assert!(matches!(data_model_write_call("create", &None), Ok(DataModelWriteCall::Create)));
    assert!(matches!(
        data_model_write_call("update", &Some("r".to_string())),
        Ok(DataModelWriteCall::Update { .. })
    ));
    assert_eq!(err(data_model_write_call("delete", &None)), "data_model config.record_id is required");
    assert_eq!(err(data_model_write_call("list", &None)), "unsupported data_model write action: list");

    let claimed = replay_claimed_receipt(
        true,
        "create",
        ClaimedReceipt { receipt: receipt("pending"), output_payload: JsonValue::Null },
    );
    assert!(matches!(claimed, Ok(None)));
    let replayed = replay_claimed_receipt(
        false,
        "create",
        ClaimedReceipt { receipt: receipt("succeeded"), output_payload: object(vec![("ok", JsonValue::Bool(true))]) },
    );
    match replayed {
        Ok(Some(DataModelExecutionResult::Completed { output_payload, side_effect_receipt, replayed })) => {
            assert!(replayed);
            assert_eq!(to_compact_string(&output_payload), r#"{"ok":true}"#);
            assert_eq!(side_effect_receipt.unwrap().get_str("status"), Some("succeeded"));
        }
        _ => panic!("expected a replay"),
    }
    let refused = replay_claimed_receipt(
        false,
        "update",
        ClaimedReceipt { receipt: receipt("failed"), output_payload: JsonValue::Null },
    );
    assert_eq!(
        err(refused),
        "DATA_MODEL_SIDE_EFFECT_RECEIPT_NOT_REPLAYABLE: data_model update receipt status is failed"
    );

    let n = node("data_model_update", JsonValue::Null);
    let pending = side_effect_receipt_upsert(&ctx(), &n, "update", "orders", "k", "h", 7, 8, ReceiptStage::Pending);
    assert_eq!(pending.status, "pending");
    assert_eq!(pending.affected_count, 0);
    assert_eq!(to_compact_string(&pending.output_payload), "{}");
    let failed = side_effect_receipt_upsert(
        &ctx(),
        &n,
        "update",
        "orders",
        "k",
        "h",
        7,
        8,
        ReceiptStage::Failed("boom".to_string()),
    );
    assert_eq!(failed.status, "failed");
    assert_eq!(to_compact_string(&failed.output_payload), r#"{"error":"boom"}"#);
    let output = object(vec![
        ("record", object(vec![("id", s("r-9"))])),
        ("affected_count", JsonValue::Number(3)),
    ]);
    let done = side_effect_receipt_upsert(&ctx(), &n, "update", "orders", "k", "h", 7, 8, ReceiptStage::Succeeded(output));
    assert_eq!(done.status, "succeeded");
    assert_eq!(done.record_id.as_deref(), Some("r-9"));
    assert_eq!(done.deleted_id, None);
    assert_eq!(done.affected_count, 3);
    assert_eq!(done.node_id, "node-1");
    assert_eq!(done.actor_user_id, 7);
    assert_eq!(done.scope_id, 8);
}

#[test]
fn a_write_waiting_for_confirmation_is_accepted_by_its_own_payload() {
    let n = node(
        "data_model_update",
        object(vec![("data_model_code", s("orders")), ("side_effect_policy", s("confirm_each_run"))]),
    );
    let payload = object(vec![("qty", JsonValue::Number(2))]);
    let record = Some("r-1".to_string());
    let confirmation = match plan_data_model_write(&n, &ctx(), "update", "orders", &record, &payload, 5).unwrap() {
        DataModelWritePlan::WaitForConfirmation(c) => c,
        _ => panic!("expected to wait for confirmation"),
    };
    let waiting = side_effect_confirmation_payload(11, &n, 4, &confirmation, JsonValue::Number(605));
    assert_eq!(waiting.get_str("kind"), Some("data_model_side_effect_confirmation"));
    let confirmed = verify_side_effect_confirmation(&n, &ctx(), &waiting).unwrap();
    assert_eq!(confirmed.idempotency_key, confirmation.idempotency_key);
    assert_eq!(confirmed.payload_hash, confirmation.payload_hash);
    assert_eq!(confirmed.request.action, "update");
    assert_eq!(confirmed.request.model_code, "orders");
    assert_eq!(confirmed.request.record_id.as_deref(), Some("r-1"));
    assert_eq!(to_compact_string(&confirmed.request.payload), r#"{"qty":2}"#);
}

fn expiry_2030() -> JsonValue {
    JsonValue::Array(vec![
        JsonValue::Number(2030),
        JsonValue::Number(1),
        JsonValue::Number(0),
        JsonValue::Number(0),
        JsonValue::Number(0),
        JsonValue::Number(0),
        JsonValue::Number(0),
        JsonValue::Number(0),
        JsonValue::Number(0),
    ])
}

#[test]
fn only_the_actor_confirms_before_the_expiry() {
    let actor: u128 = 0x0190_0000_0000_7000_8000_0000_0000_0001;
    let payload = object(vec![
        ("actor_user_id", s("01900000-0000-7000-8000-000000000001")),
        ("expires_at", expiry_2030()),
    ]);
    let expiry: i128 = 1_893_456_000 * 1_000_000_000;
    assert!(ensure_side_effect_confirmation_metadata(actor, &payload, expiry).is_ok());
    match ensure_side_effect_confirmation_metadata(actor, &payload, expiry + 1) {
        Err(ConfirmationMetadataError::Invalid(m)) => {
            assert_eq!(m, "DATA_MODEL_SIDE_EFFECT_CONFIRMATION_EXPIRED: data_model write confirmation expired")
        }
        _ => panic!("expected the confirmation to have expired"),
    }
    assert!(matches!(
        ensure_side_effect_confirmation_metadata(actor + 1, &payload, 0),
        Err(ConfirmationMetadataError::Denied(control_plane::errors::ControlPlaneError::PermissionDenied(
            "data_model_side_effect_confirmation_actor"
        )))
    ));
    match ensure_side_effect_confirmation_metadata(actor, &object(vec![]), 0) {
        Err(ConfirmationMetadataError::Invalid(m)) => assert_eq!(m, "data_model side-effect confirmation actor is required"),
        _ => panic!("expected a missing actor"),
    }
    let no_expiry = object(vec![("actor_user_id", s("01900000-0000-7000-8000-000000000001"))]);
    match ensure_side_effect_confirmation_metadata(actor, &no_expiry, 0) {
        Err(ConfirmationMetadataError::Invalid(m)) => assert_eq!(m, "data_model side-effect confirmation expiry is required"),
        _ => panic!("expected a missing expiry"),
    }
    let bad_actor = object(vec![("actor_user_id", s("nope")), ("expires_at", expiry_2030())]);
    assert!(matches!(
        ensure_side_effect_confirmation_metadata(actor, &bad_actor, 0),
        Err(ConfirmationMetadataError::Invalid(_))
    ));
    let bad_expiry = object(vec![
        ("actor_user_id", s("01900000-0000-7000-8000-000000000001")),
        ("expires_at", s("soon")),
    ]);
    assert!(matches!(
        ensure_side_effect_confirmation_metadata(actor, &bad_expiry, 0),
        Err(ConfirmationMetadataError::Invalid(_))
    ));
}

#[test]
fn an_idempotent_write_claims_writes_and_records_its_receipt() {
    let id = Some("r-1".to_string());
    let (state, action) = write_step(
        "update",
        &id,
        WriteState::Claiming,
        WriteEvent::Claimed { claimed: true, found: ClaimedReceipt { receipt: receipt("pending"), output_payload: JsonValue::Null } },
    );
    assert!(matches!(state, WriteState::Writing));
    assert!(matches!(action, WriteAction::Write(DataModelWriteCall::Update { .. })));
    let (state, action) = write_step("update", &id, state, WriteEvent::Written(Ok(object(vec![("id", s("r-1"))]))));
    assert!(matches!(state, WriteState::RecordingSuccess { .. }));
    assert!(matches!(action, WriteAction::RecordSuccess { .. }));
    let (state, action) = write_step("update", &id, state, WriteEvent::SuccessRecorded(Ok(receipt("succeeded"))));
    assert!(matches!(state, WriteState::Done));
    match action {
        WriteAction::Complete(DataModelExecutionResult::Completed { output_payload, side_effect_receipt, replayed }) => {
            assert_eq!(to_compact_string(&output_payload), r#"{"id":"r-1"}"#);
            assert_eq!(side_effect_receipt.unwrap().get_str("status"), Some("succeeded"));
            assert!(!replayed);
        }
        _ => panic!("expected the write to complete"),
    }
    match write_step("update", &id, WriteState::Writing, WriteEvent::Written(Err("down".to_string()))).1 {
        WriteAction::RecordFailure { message } => assert_eq!(message, "down"),
        _ => panic!("expected a failed receipt"),
    }
    let replay = write_step(
        "create",
        &None,
        WriteState::Claiming,
        WriteEvent::Claimed { claimed: false, found: ClaimedReceipt { receipt: receipt("succeeded"), output_payload: JsonValue::Null } },
    );
    assert!(matches!(replay.1, WriteAction::Replay(DataModelExecutionResult::Completed { replayed: true, .. })));
    match write_step(
        "create",
        &None,
        WriteState::Claiming,
        WriteEvent::Claimed { claimed: false, found: ClaimedReceipt { receipt: receipt("failed"), output_payload: JsonValue::Null } },
    )
    .1
    {
        WriteAction::Fail { message } => {
            assert_eq!(message, "DATA_MODEL_SIDE_EFFECT_RECEIPT_NOT_REPLAYABLE: data_model create receipt status is failed")
        }
        _ => panic!("expected a refusal"),
    }
    assert!(matches!(
        write_step("update", &None, WriteState::Claiming, WriteEvent::Claimed { claimed: true, found: ClaimedReceipt { receipt: receipt("pending"), output_payload: JsonValue::Null } }).1,
        WriteAction::Fail { .. }
    ));
}
