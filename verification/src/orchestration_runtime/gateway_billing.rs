//! The billing reservation a debug run records when it starts: the route its model call takes,
//! and the payloads of the ledgers, the billing session and the event that report it.

use vstd::prelude::*;
use crate::json::{clone_json, entry_views, lemma_object_view, JsonSpec, JsonValue};
use crate::outside::{uuid_hyphenated, uuid_parse, uuid_to_hyphenated};
use crate::text::to_string;

verus! {

/// How the model of an LLM node is chosen.
#[derive(Debug, Clone, Copy, PartialEq, Eq, Structural)]
pub enum LlmRoutingMode {
    FixedModel,
    FailoverQueue,
}

/// The model runtime of the first LLM node of a plan.
pub struct LlmRuntimeRoute {
    pub provider_instance_id: String,
    pub model: String,
    pub routing_mode: Option<LlmRoutingMode>,
}

/// The name a routing mode is reported by; a run without one is a debug run.
pub open spec fn routing_mode_name(llm: Option<LlmRuntimeRoute>) -> Seq<char> {
    match llm {
        Some(r) => match r.routing_mode {
            Some(LlmRoutingMode::FixedModel) => "fixed_model"@,
            Some(LlmRoutingMode::FailoverQueue) => "failover_queue"@,
            None => "debug_run"@,
        },
        None => "debug_run"@,
    }
}

/// The model a run's billing is reserved for: the LLM node's model, else the debug run.
pub open spec fn logical_model(llm: Option<LlmRuntimeRoute>) -> Seq<char> {
    match llm {
        Some(r) => r.model@,
        None => "debug_run"@,
    }
}

/// The provider instance the LLM node names, where its text parses as an id.
pub open spec fn route_provider_instance(llm: Option<LlmRuntimeRoute>) -> Option<u128> {
    match llm {
        Some(r) => crate::orchestration_runtime::observability::uuid_of_text(r.provider_instance_id@),
        None => None,
    }
}

/// The trace of the route a run's model call takes.
pub open spec fn route_trace_json(route_id: u128, llm: Option<LlmRuntimeRoute>) -> JsonSpec {
    JsonSpec::Object(
        seq![
            ("logical_model_id"@, JsonSpec::Str(logical_model(llm))),
            ("route_id"@, JsonSpec::Str(uuid_hyphenated(route_id))),
            (
                "provider_instance_id"@,
                match route_provider_instance(llm) {
                    Some(id) => JsonSpec::Str(uuid_hyphenated(id)),
                    None => JsonSpec::Null,
                },
            ),
            ("provider_account_id"@, JsonSpec::Null),
            (
                "upstream_model_id"@,
                match llm {
                    Some(r) => JsonSpec::Str(r.model@),
                    None => JsonSpec::Null,
                },
            ),
            ("routing_mode"@, JsonSpec::Str(routing_mode_name(llm))),
            ("trust_level"@, JsonSpec::Str("host_fact"@)),
        ],
    )
}

/// The idempotency key of a run's billing reservation.
pub open spec fn reservation_key(flow_run_id: u128) -> Seq<char> {
    "gateway:"@ + uuid_hyphenated(flow_run_id) + ":reserve"@
}

/// The route of a run's billing reservation, and what its records are keyed and traced by.
pub struct GatewayRoute {
    pub route_id: u128,
    pub provider_instance_id: Option<u128>,
    pub logical_model_id: String,
    pub upstream_model_id: Option<String>,
    pub route_trace: JsonValue,
    pub idempotency_key: String,
}

fn routing_mode_text(llm: Option<&LlmRuntimeRoute>) -> (s: String)
    ensures
        s@ == routing_mode_name(match llm {
            Some(r) => Some(*r),
            None => None,
        }),
{
    match llm {
        Some(r) => match r.routing_mode {
            Some(LlmRoutingMode::FixedModel) => to_string("fixed_model"),
            Some(LlmRoutingMode::FailoverQueue) => to_string("failover_queue"),
            None => to_string("debug_run"),
        },
        None => to_string("debug_run"),
    }
}

/// The route of the billing reservation of run `flow_run_id`, on route `route_id`, for the model
/// runtime of the plan's first LLM node, if it has one.
pub fn gateway_route(flow_run_id: u128, route_id: u128, llm: Option<&LlmRuntimeRoute>) -> (g: GatewayRoute)
    ensures
        ({
            let l = match llm {
                Some(r) => Some(*r),
                None => None,
            };
            &&& g.route_id == route_id
            &&& g.provider_instance_id == route_provider_instance(l)
            &&& g.logical_model_id@ == logical_model(l)
            &&& crate::json::opt_string_view(g.upstream_model_id) == match l {
                Some(r) => Some(r.model@),
                None => None::<Seq<char>>,
            }
            &&& g.route_trace@ == route_trace_json(route_id, l)
            &&& g.idempotency_key@ == reservation_key(flow_run_id)
        }),
{
    let ghost l = match llm {
        Some(r) => Some(*r),
        None => None,
    };
    let provider_instance_id = match llm {
        Some(r) => match uuid_parse(r.provider_instance_id.as_str()) {
            Ok(id) => Some(id),
            Err(_) => None,
        },
        None => None,
    };
    let logical_model_id = match llm {
        Some(r) => r.model.clone(),
        None => to_string("debug_run"),
    };
    let upstream_model_id = match llm {
        Some(r) => Some(r.model.clone()),
        None => None,
    };
    let mut entries: Vec<(String, JsonValue)> = Vec::new();
    entries.push((to_string("logical_model_id"), JsonValue::Str(logical_model_id.clone())));
    entries.push((to_string("route_id"), JsonValue::Str(uuid_to_hyphenated(route_id))));
    entries.push((
        to_string("provider_instance_id"),
        match provider_instance_id {
            Some(id) => JsonValue::Str(uuid_to_hyphenated(id)),
            None => JsonValue::Null,
        },
    ));
    entries.push((to_string("provider_account_id"), JsonValue::Null));
    entries.push((
        to_string("upstream_model_id"),
        match &upstream_model_id {
            Some(m) => JsonValue::Str(m.clone()),
            None => JsonValue::Null,
        },
    ));
    entries.push((to_string("routing_mode"), JsonValue::Str(routing_mode_text(llm))));
    entries.push((to_string("trust_level"), JsonValue::Str(to_string("host_fact"))));
    proof {
        lemma_object_view(entries);
        assert(entry_views(entries@) =~= route_trace_json(route_id, l)->Object_0);
    }
    let mut key = to_string("gateway:");
    key.push_str(uuid_to_hyphenated(flow_run_id).as_str());
    key.push_str(":reserve");
    GatewayRoute {
        route_id,
        provider_instance_id,
        logical_model_id,
        upstream_model_id,
        route_trace: JsonValue::Object(entries),
        idempotency_key: key,
    }
}

/// An object of two entries.
pub open spec fn pair_json(k1: Seq<char>, v1: JsonSpec, k2: Seq<char>, v2: JsonSpec) -> JsonSpec {
    JsonSpec::Object(seq![(k1, v1), (k2, v2)])
}

fn pair(k1: &str, v1: JsonValue, k2: &str, v2: JsonValue) -> (v: JsonValue)
    ensures
        v@ == pair_json(k1@, v1@, k2@, v2@),
{
    let ghost (a, b) = (v1@, v2@);
    let mut entries: Vec<(String, JsonValue)> = Vec::new();
    entries.push((to_string(k1), v1));
    entries.push((to_string(k2), v2));
    proof {
        lemma_object_view(entries);
        assert(entry_views(entries@) =~= seq![(k1@, a), (k2@, b)]);
    }
    JsonValue::Object(entries)
}

/// The price snapshot of the cost ledger entry of a reservation.
pub open spec fn price_snapshot_json(route_trace: JsonSpec) -> JsonSpec {
    pair_json("route_trace"@, route_trace, "source"@, JsonSpec::Str("gateway_debug_run_start"@))
}

pub fn reservation_price_snapshot(route: &GatewayRoute) -> (v: JsonValue)
    ensures
        v@ == price_snapshot_json(route.route_trace@),
{
    pair(
        "route_trace",
        crate::json::clone_json(&route.route_trace),
        "source",
        JsonValue::Str(to_string("gateway_debug_run_start")),
    )
}

/// The metadata of the billing session of a reservation: it fails safe by letting the run go on.
pub open spec fn session_metadata_json(route_trace: JsonSpec) -> JsonSpec {
    pair_json("route_trace"@, route_trace, "fail_safe"@, JsonSpec::Str("continue"@))
}

pub fn reservation_session_metadata(route: &GatewayRoute) -> (v: JsonValue)
    ensures
        v@ == session_metadata_json(route.route_trace@),
{
    pair(
        "route_trace",
        crate::json::clone_json(&route.route_trace),
        "fail_safe",
        JsonValue::Str(to_string("continue")),
    )
}

/// What the stored records of a reservation are reported by.
pub struct ReservationRecords {
    pub billing_session_id: u128,
    pub billing_session_status: String,
    pub billing_idempotency_key: String,
    pub cost_ledger_id: u128,
    pub cost_status: String,
    pub credit_ledger_id: u128,
    pub transaction_type: String,
    pub audit_hash_ids: Vec<u128>,
}

/// The payload of the event that reports a reservation.
pub open spec fn reserved_event_json(r: ReservationRecords, route_trace: JsonSpec) -> JsonSpec {
    JsonSpec::Object(
        seq![
            (
                "billing_session"@,
                JsonSpec::Object(
                    seq![
                        ("id"@, JsonSpec::Str(uuid_hyphenated(r.billing_session_id))),
                        ("status"@, JsonSpec::Str(r.billing_session_status@)),
                        ("idempotency_key"@, JsonSpec::Str(r.billing_idempotency_key@)),
                    ],
                ),
            ),
            (
                "cost_ledger"@,
                pair_json(
                    "id"@,
                    JsonSpec::Str(uuid_hyphenated(r.cost_ledger_id)),
                    "cost_status"@,
                    JsonSpec::Str(r.cost_status@),
                ),
            ),
            (
                "credit_ledger"@,
                pair_json(
                    "id"@,
                    JsonSpec::Str(uuid_hyphenated(r.credit_ledger_id)),
                    "transaction_type"@,
                    JsonSpec::Str(r.transaction_type@),
                ),
            ),
            (
                "audit_hashes"@,
                JsonSpec::Array(r.audit_hash_ids@.map_values(|id: u128| JsonSpec::Str(uuid_hyphenated(id)))),
            ),
            ("route_trace"@, route_trace),
        ],
    )
}

/// The payload of the event that reports a reservation.
pub fn gateway_billing_reserved_payload(records: &ReservationRecords, route: &GatewayRoute) -> (v: JsonValue)
    ensures
        v@ == reserved_event_json(*records, route.route_trace@),
{
    let mut session: Vec<(String, JsonValue)> = Vec::new();
    session.push((to_string("id"), JsonValue::Str(uuid_to_hyphenated(records.billing_session_id))));
    session.push((to_string("status"), JsonValue::Str(records.billing_session_status.clone())));
    session.push((to_string("idempotency_key"), JsonValue::Str(records.billing_idempotency_key.clone())));
    proof {
        lemma_object_view(session);
        assert(entry_views(session@) =~= reserved_event_json(*records, route.route_trace@)->Object_0[0].1->Object_0);
    }
    let mut hashes: Vec<JsonValue> = Vec::new();
    let mut i: usize = 0;
    while i < records.audit_hash_ids.len()
        invariant
            i <= records.audit_hash_ids@.len(),
            hashes@.len() == i,
            forall|k: int|
                0 <= k < i ==> crate::json::json_view(#[trigger] hashes@[k]) == JsonSpec::Str(
                    uuid_hyphenated(records.audit_hash_ids@[k]),
                ),
        decreases records.audit_hash_ids.len() - i,
    {
        hashes.push(JsonValue::Str(uuid_to_hyphenated(records.audit_hash_ids[i])));
        i = i + 1;
    }
    proof {
        crate::json::lemma_array_view(hashes);
        assert(crate::json::views(hashes@) =~= records.audit_hash_ids@.map_values(
            |id: u128| JsonSpec::Str(uuid_hyphenated(id)),
        ));
    }
    let mut entries: Vec<(String, JsonValue)> = Vec::new();
    entries.push((to_string("billing_session"), JsonValue::Object(session)));
    entries.push((
        to_string("cost_ledger"),
        pair(
            "id",
            JsonValue::Str(uuid_to_hyphenated(records.cost_ledger_id)),
            "cost_status",
            JsonValue::Str(records.cost_status.clone()),
        ),
    ));
    entries.push((
        to_string("credit_ledger"),
        pair(
            "id",
            JsonValue::Str(uuid_to_hyphenated(records.credit_ledger_id)),
            "transaction_type",
            JsonValue::Str(records.transaction_type.clone()),
        ),
    ));
    entries.push((to_string("audit_hashes"), JsonValue::Array(hashes)));
    entries.push((to_string("route_trace"), crate::json::clone_json(&route.route_trace)));
    proof {
        lemma_object_view(entries);
        assert(entry_views(entries@) =~= reserved_event_json(*records, route.route_trace@)->Object_0);
    }
    JsonValue::Object(entries)
}


/// The cost ledger entry of a reservation.
pub struct CostLedgerAppend {
    pub flow_run_id: Option<u128>,
    pub workspace_id: u128,
    pub provider_instance_id: Option<u128>,
    pub gateway_route_id: Option<u128>,
    pub model_id: Option<String>,
    pub upstream_model_id: Option<String>,
    pub price_snapshot: JsonValue,
    pub raw_cost: Option<String>,
    pub normalized_cost: Option<String>,
    pub settlement_currency: Option<String>,
    pub cost_source: String,
    pub cost_status: String,
}

/// The cost ledger entry that reserves billing for run `flow_run_id` on a route: nothing spent
/// yet, in credits, waiting for usage.
pub fn reservation_cost_ledger(flow_run_id: u128, workspace_id: u128, route: &GatewayRoute) -> (c: CostLedgerAppend)
    ensures
        c.flow_run_id == Some(flow_run_id),
        c.workspace_id == workspace_id,
        c.provider_instance_id == route.provider_instance_id,
        c.gateway_route_id == Some(route.route_id),
        crate::json::opt_string_view(c.model_id) == Some(route.logical_model_id@),
        crate::json::opt_string_view(c.upstream_model_id) == crate::json::opt_string_view(route.upstream_model_id),
        c.price_snapshot@ == price_snapshot_json(route.route_trace@),
        crate::json::opt_string_view(c.raw_cost) == Some("0"@),
        crate::json::opt_string_view(c.normalized_cost) == Some("0"@),
        crate::json::opt_string_view(c.settlement_currency) == Some("credit"@),
        c.cost_source@ == "gateway_reservation"@,
        c.cost_status@ == "pending_usage"@,
{
    CostLedgerAppend {
        flow_run_id: Some(flow_run_id),
        workspace_id,
        provider_instance_id: route.provider_instance_id,
        gateway_route_id: Some(route.route_id),
        model_id: Some(route.logical_model_id.clone()),
        upstream_model_id: match &route.upstream_model_id {
            Some(m) => Some(m.clone()),
            None => None,
        },
        price_snapshot: reservation_price_snapshot(route),
        raw_cost: Some(to_string("0")),
        normalized_cost: Some(to_string("0")),
        settlement_currency: Some(to_string("credit")),
        cost_source: to_string("gateway_reservation"),
        cost_status: to_string("pending_usage"),
    }
}

/// The credit ledger entry of a reservation.
pub struct CreditLedgerAppend {
    pub workspace_id: u128,
    pub user_id: Option<u128>,
    pub app_id: Option<u128>,
    pub flow_run_id: Option<u128>,
    pub cost_ledger_id: Option<u128>,
    pub transaction_type: String,
    pub amount: String,
    pub credit_unit: String,
    pub reason: String,
    pub idempotency_key: String,
    pub status: String,
}

/// The credit ledger entry that reserves nothing yet for the run, against its cost entry, under
/// the reservation's idempotency key.
pub fn reservation_credit_ledger(
    workspace_id: u128,
    actor_user_id: u128,
    application_id: u128,
    flow_run_id: u128,
    route: &GatewayRoute,
    cost_ledger_id: u128,
) -> (c: CreditLedgerAppend)
    ensures
        c.workspace_id == workspace_id,
        c.user_id == Some(actor_user_id),
        c.app_id == Some(application_id),
        c.flow_run_id == Some(flow_run_id),
        c.cost_ledger_id == Some(cost_ledger_id),
        c.transaction_type@ == "reserve"@,
        c.amount@ == "0"@,
        c.credit_unit@ == "credit"@,
        c.reason@ == "gateway_billing_session_reserved"@,
        c.idempotency_key@ == route.idempotency_key@,
        c.status@ == "posted"@,
{
    CreditLedgerAppend {
        workspace_id,
        user_id: Some(actor_user_id),
        app_id: Some(application_id),
        flow_run_id: Some(flow_run_id),
        cost_ledger_id: Some(cost_ledger_id),
        transaction_type: to_string("reserve"),
        amount: to_string("0"),
        credit_unit: to_string("credit"),
        reason: to_string("gateway_billing_session_reserved"),
        idempotency_key: route.idempotency_key.clone(),
        status: to_string("posted"),
    }
}

/// The state of a billing session.
#[derive(Debug, Clone, Copy, PartialEq, Eq, Structural)]
pub enum BillingSessionStatus {
    Reserved,
}

/// The billing session of a reservation.
pub struct BillingSessionAppend {
    pub workspace_id: u128,
    pub flow_run_id: Option<u128>,
    pub idempotency_key: String,
    pub route_id: Option<u128>,
    pub status: BillingSessionStatus,
    pub reserved_credit_ledger_id: Option<u128>,
    pub metadata: JsonValue,
}

/// The billing session that a reservation opens, reserved against its credit entry.
pub fn reservation_billing_session(
    workspace_id: u128,
    flow_run_id: u128,
    route: &GatewayRoute,
    credit_ledger_id: u128,
) -> (b: BillingSessionAppend)
    ensures
        b.workspace_id == workspace_id,
        b.flow_run_id == Some(flow_run_id),
        b.idempotency_key@ == route.idempotency_key@,
        b.route_id == Some(route.route_id),
        b.status == BillingSessionStatus::Reserved,
        b.reserved_credit_ledger_id == Some(credit_ledger_id),
        b.metadata@ == session_metadata_json(route.route_trace@),
{
    BillingSessionAppend {
        workspace_id,
        flow_run_id: Some(flow_run_id),
        idempotency_key: route.idempotency_key.clone(),
        route_id: Some(route.route_id),
        status: BillingSessionStatus::Reserved,
        reserved_credit_ledger_id: Some(credit_ledger_id),
        metadata: reservation_session_metadata(route),
    }
}

/// What the audit hash of a reservation's cost entry covers: its source, its status and the
/// route trace.
pub fn cost_ledger_audit_payload(cost: &CostLedgerAppend, route: &GatewayRoute) -> (v: JsonValue)
    ensures
        v@ == JsonSpec::Object(
            seq![
                ("cost_source"@, JsonSpec::Str(cost.cost_source@)),
                ("cost_status"@, JsonSpec::Str(cost.cost_status@)),
                ("route_trace"@, route.route_trace@),
            ],
        ),
{
    let mut entries: Vec<(String, JsonValue)> = Vec::new();
    entries.push((to_string("cost_source"), JsonValue::Str(cost.cost_source.clone())));
    entries.push((to_string("cost_status"), JsonValue::Str(cost.cost_status.clone())));
    entries.push((to_string("route_trace"), clone_json(&route.route_trace)));
    proof {
        lemma_object_view(entries);
        assert(entry_views(entries@) =~= seq![
            ("cost_source"@, JsonSpec::Str(cost.cost_source@)),
            ("cost_status"@, JsonSpec::Str(cost.cost_status@)),
            ("route_trace"@, route.route_trace@),
        ]);
    }
    JsonValue::Object(entries)
}

/// What the audit hash of a reservation's credit entry covers: its kind, amount, reason and
/// idempotency key.
pub fn credit_ledger_audit_payload(credit: &CreditLedgerAppend) -> (v: JsonValue)
    ensures
        v@ == JsonSpec::Object(
            seq![
                ("transaction_type"@, JsonSpec::Str(credit.transaction_type@)),
                ("amount"@, JsonSpec::Str(credit.amount@)),
                ("reason"@, JsonSpec::Str(credit.reason@)),
                ("idempotency_key"@, JsonSpec::Str(credit.idempotency_key@)),
            ],
        ),
{
    let mut entries: Vec<(String, JsonValue)> = Vec::new();
    entries.push((to_string("transaction_type"), JsonValue::Str(credit.transaction_type.clone())));
    entries.push((to_string("amount"), JsonValue::Str(credit.amount.clone())));
    entries.push((to_string("reason"), JsonValue::Str(credit.reason.clone())));
    entries.push((to_string("idempotency_key"), JsonValue::Str(credit.idempotency_key.clone())));
    proof {
        lemma_object_view(entries);
        assert(entry_views(entries@) =~= seq![
            ("transaction_type"@, JsonSpec::Str(credit.transaction_type@)),
            ("amount"@, JsonSpec::Str(credit.amount@)),
            ("reason"@, JsonSpec::Str(credit.reason@)),
            ("idempotency_key"@, JsonSpec::Str(credit.idempotency_key@)),
        ]);
    }
    JsonValue::Object(entries)
}

/// What the audit hash of a reservation's billing session covers: its stored status text, its
/// idempotency key and the route trace.
pub fn billing_session_audit_payload(status: &str, session: &BillingSessionAppend, route: &GatewayRoute) -> (v: JsonValue)
    ensures
        v@ == JsonSpec::Object(
            seq![
                ("status"@, JsonSpec::Str(status@)),
                ("idempotency_key"@, JsonSpec::Str(session.idempotency_key@)),
                ("route_trace"@, route.route_trace@),
            ],
        ),
{
    let mut entries: Vec<(String, JsonValue)> = Vec::new();
    entries.push((to_string("status"), JsonValue::Str(to_string(status))));
    entries.push((to_string("idempotency_key"), JsonValue::Str(session.idempotency_key.clone())));
    entries.push((to_string("route_trace"), clone_json(&route.route_trace)));
    proof {
        lemma_object_view(entries);
        assert(entry_views(entries@) =~= seq![
            ("status"@, JsonSpec::Str(status@)),
            ("idempotency_key"@, JsonSpec::Str(session.idempotency_key@)),
            ("route_trace"@, route.route_trace@),
        ]);
    }
    JsonValue::Object(entries)
}

} // verus!
