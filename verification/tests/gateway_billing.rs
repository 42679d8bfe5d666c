use control_plane::json::to_compact_string;
use control_plane::orchestration_runtime::gateway_billing::{
    gateway_billing_reserved_payload, gateway_route, reservation_price_snapshot,
    reservation_billing_session, reservation_cost_ledger, reservation_credit_ledger,
    billing_session_audit_payload, cost_ledger_audit_payload, credit_ledger_audit_payload,
    reservation_session_metadata, BillingSessionStatus, LlmRoutingMode, LlmRuntimeRoute,
    ReservationRecords,
};

const RUN: u128 = 0x0190_0000_0000_7000_8000_0000_0000_0001;
const ROUTE: u128 = 0x0190_0000_0000_7000_8000_0000_0000_0002;

#[test]
fn a_run_without_an_llm_node_reserves_for_the_debug_run() {
    let route = gateway_route(RUN, ROUTE, None);
    assert_eq!(route.logical_model_id, "debug_run");
    assert_eq!(route.upstream_model_id, None);
    assert_eq!(route.provider_instance_id, None);
    assert_eq!(route.idempotency_key, "gateway:01900000-0000-7000-8000-000000000001:reserve");
    assert_eq!(
        to_compact_string(&route.route_trace),
        r#"{"logical_model_id":"debug_run","provider_account_id":null,"provider_instance_id":null,"route_id":"01900000-0000-7000-8000-000000000002","routing_mode":"debug_run","trust_level":"host_fact","upstream_model_id":null}"#
    );
}

#[test]
fn a_run_with_an_llm_node_reserves_for_its_model() {
    let llm = LlmRuntimeRoute {
        provider_instance_id: "01900000-0000-7000-8000-0000000000aa".to_string(),
        model: "gpt".to_string(),
        routing_mode: Some(LlmRoutingMode::FailoverQueue),
    };
    let route = gateway_route(RUN, ROUTE, Some(&llm));
    assert_eq!(route.logical_model_id, "gpt");
    assert_eq!(route.upstream_model_id.as_deref(), Some("gpt"));
    assert_eq!(route.provider_instance_id, Some(0x0190_0000_0000_7000_8000_0000_0000_00aa));
    assert_eq!(route.route_trace.get_str("routing_mode"), Some("failover_queue"));
    let fixed = LlmRuntimeRoute { routing_mode: Some(LlmRoutingMode::FixedModel), ..llm };
    assert_eq!(gateway_route(RUN, ROUTE, Some(&fixed)).route_trace.get_str("routing_mode"), Some("fixed_model"));
    let unnamed = LlmRuntimeRoute { provider_instance_id: "bad".to_string(), routing_mode: None, ..fixed };
    let unnamed_route = gateway_route(RUN, ROUTE, Some(&unnamed));
    assert_eq!(unnamed_route.provider_instance_id, None);
    assert_eq!(unnamed_route.route_trace.get_str("routing_mode"), Some("debug_run"));
}

#[test]
fn reservation_payloads_carry_the_route_trace() {
    let route = gateway_route(RUN, ROUTE, None);
    assert_eq!(reservation_price_snapshot(&route).get_str("source"), Some("gateway_debug_run_start"));
    assert_eq!(reservation_session_metadata(&route).get_str("fail_safe"), Some("continue"));
    let records = ReservationRecords {
        billing_session_id: 3,
        billing_session_status: "reserved".to_string(),
        billing_idempotency_key: route.idempotency_key.clone(),
        cost_ledger_id: 4,
        cost_status: "pending_usage".to_string(),
        credit_ledger_id: 5,
        transaction_type: "reserve".to_string(),
        audit_hash_ids: vec![6, 7, 8],
    };
    let payload = gateway_billing_reserved_payload(&records, &route);
    let hashes = payload.get("audit_hashes").and_then(|v| v.as_array()).unwrap();
    assert_eq!(hashes.len(), 3);
    assert_eq!(hashes[0].as_str(), Some("00000000-0000-0000-0000-000000000006"));
    assert_eq!(
        payload.get("cost_ledger").and_then(|v| v.get_str("cost_status")),
        Some("pending_usage")
    );
    assert_eq!(
        payload.get("billing_session").and_then(|v| v.get_str("idempotency_key")),
        Some("gateway:01900000-0000-7000-8000-000000000001:reserve")
    );
    assert!(payload.get("route_trace").is_some());
}

#[test]
fn a_reservation_appends_a_cost_entry_a_credit_entry_and_a_session() {
    let workspace: u128 = 0x0190_0000_0000_7000_8000_0000_0000_0010;
    let actor: u128 = 0x0190_0000_0000_7000_8000_0000_0000_0011;
    let app: u128 = 0x0190_0000_0000_7000_8000_0000_0000_0012;
    let cost_id: u128 = 0x0190_0000_0000_7000_8000_0000_0000_0020;
    let credit_id: u128 = 0x0190_0000_0000_7000_8000_0000_0000_0021;
    let route = gateway_route(RUN, ROUTE, None);

    let cost = reservation_cost_ledger(RUN, workspace, &route);
    assert_eq!(cost.flow_run_id, Some(RUN));
    assert_eq!(cost.workspace_id, workspace);
    assert_eq!(cost.gateway_route_id, Some(ROUTE));
    assert_eq!(cost.model_id.as_deref(), Some("debug_run"));
    assert_eq!(cost.raw_cost.as_deref(), Some("0"));
    assert_eq!(cost.normalized_cost.as_deref(), Some("0"));
    assert_eq!(cost.settlement_currency.as_deref(), Some("credit"));
    assert_eq!(cost.cost_source, "gateway_reservation");
    assert_eq!(cost.cost_status, "pending_usage");
    assert_eq!(
        to_compact_string(&cost.price_snapshot),
        to_compact_string(&reservation_price_snapshot(&route))
    );

    let credit = reservation_credit_ledger(workspace, actor, app, RUN, &route, cost_id);
    assert_eq!(credit.user_id, Some(actor));
    assert_eq!(credit.app_id, Some(app));
    assert_eq!(credit.cost_ledger_id, Some(cost_id));
    assert_eq!(credit.transaction_type, "reserve");
    assert_eq!(credit.amount, "0");
    assert_eq!(credit.credit_unit, "credit");
    assert_eq!(credit.reason, "gateway_billing_session_reserved");
    assert_eq!(credit.idempotency_key, "gateway:01900000-0000-7000-8000-000000000001:reserve");
    assert_eq!(credit.status, "posted");

    let session = reservation_billing_session(workspace, RUN, &route, credit_id);
    assert_eq!(session.status, BillingSessionStatus::Reserved);
    assert_eq!(session.reserved_credit_ledger_id, Some(credit_id));
    assert_eq!(session.route_id, Some(ROUTE));
    assert_eq!(session.idempotency_key, credit.idempotency_key);
    assert_eq!(
        to_compact_string(&session.metadata),
        to_compact_string(&reservation_session_metadata(&route))
    );
}

#[test]
fn the_audit_hashes_cover_each_reserved_record() {
    let route = gateway_route(RUN, ROUTE, None);
    let cost = reservation_cost_ledger(RUN, 10, &route);
    let trace = to_compact_string(&route.route_trace);
    assert_eq!(
        to_compact_string(&cost_ledger_audit_payload(&cost, &route)),
        format!(r#"{{"cost_source":"gateway_reservation","cost_status":"pending_usage","route_trace":{trace}}}"#)
    );
    let credit = reservation_credit_ledger(10, 11, 12, RUN, &route, 20);
    assert_eq!(
        to_compact_string(&credit_ledger_audit_payload(&credit)),
        r#"{"amount":"0","idempotency_key":"gateway:01900000-0000-7000-8000-000000000001:reserve","reason":"gateway_billing_session_reserved","transaction_type":"reserve"}"#
    );
    let session = reservation_billing_session(10, RUN, &route, 21);
    assert_eq!(
        to_compact_string(&billing_session_audit_payload("reserved", &session, &route)),
        format!(r#"{{"idempotency_key":"gateway:01900000-0000-7000-8000-000000000001:reserve","route_trace":{trace},"status":"reserved"}}"#)
    );
}
