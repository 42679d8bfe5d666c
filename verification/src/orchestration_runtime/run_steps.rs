//! The decisions of preparing and continuing a debug run, as steps from a state and an event to
//! the next state and the action to take. The caller performs each action and reports what came
//! of it as the next event.

use vstd::prelude::*;
use crate::errors::ControlPlaneError;
use crate::json::{clone_json, entries_insert, entry_views, lemma_object_view, object_insert, JsonSpec, JsonValue};
use crate::orchestration_runtime::compile_context::{
    dependency_scope, ensure_compiled_plan_runnable_for_node, first_issue_in, issue_field,
};
use crate::orchestration_runtime::compiled_plan::{CompiledNode, CompiledPlan};
use crate::orchestration_runtime::live_debug_run::{can_continue_to_terminal_template_nodes, only_templates_after};
use crate::orchestration_runtime::data_model_runtime::json_hash;
use crate::orchestration_runtime::live_debug_run::flow_document_hash;
use crate::outside::{uuid_hyphenated, uuid_to_hyphenated};
use crate::text::{string_views, to_string};

verus! {

/// An object with the single entry `message`.
pub open spec fn message_json(message: Seq<char>) -> JsonSpec {
    JsonSpec::Object(seq![("message"@, JsonSpec::Str(message))])
}

fn message_payload(message: &str) -> (v: JsonValue)
    ensures
        v@ == message_json(message@),
{
    let mut entries: Vec<(String, JsonValue)> = Vec::new();
    entries.push((to_string("message"), JsonValue::Str(to_string(message))));
    proof {
        lemma_object_view(entries);
        assert(entry_views(entries@) =~= seq![("message"@, JsonSpec::Str(message@))]);
    }
    JsonValue::Object(entries)
}

// ---------------------------------------------------------------------------------------------
// Preparing a queued debug run
// ---------------------------------------------------------------------------------------------

/// Where the preparation of a queued debug run stands.
#[derive(Debug, Clone, Copy, PartialEq, Eq, Structural)]
pub enum PrepareState {
    /// The run's shell is being checked against the request.
    CheckingShell,
    /// The flow is being compiled and its plan stored.
    Compiling,
    /// The plan is being attached to the run, which then runs.
    Attaching,
    /// The run has started; its start is being recorded.
    Started,
    /// Nothing more is done.
    Done,
}

/// What came of the last action: its success, or the message of its error.
pub enum PrepareEvent {
    ShellChecked(Result<(), String>),
    Compiled(Result<(), String>),
    Attached(Result<(), String>),
    StartRecorded(Result<(), String>),
}

/// What to do next.
pub enum PrepareAction {
    /// Compile the flow and store the plan.
    CompilePlan,
    /// Attach the stored plan to the run and mark it running.
    AttachPlan,
    /// Record that the run started (the `flow_run_started` event, the stream event and the
    /// billing reservation), then load the run's detail.
    RecordStart,
    /// Mark the queued shell failed with this error payload, then report the error.
    FailQueuedShell { error_payload: JsonValue, message: String },
    /// Mark the running run failed, then report the error.
    FailRun { message: String },
    /// Report the error; nothing was written.
    ReportError { message: String },
    /// Give the run's detail back.
    ReturnDetail,
    /// The event does not belong to this state: nothing is done.
    Ignore,
}

/// The plain facts of a [`PrepareAction`]: its kind (in declaration order), its message and its
/// error payload.
pub open spec fn prepare_action_spec(a: PrepareAction) -> (int, Seq<char>, JsonSpec) {
    match a {
        PrepareAction::CompilePlan => (0, Seq::empty(), JsonSpec::Null),
        PrepareAction::AttachPlan => (1, Seq::empty(), JsonSpec::Null),
        PrepareAction::RecordStart => (2, Seq::empty(), JsonSpec::Null),
        PrepareAction::FailQueuedShell { error_payload, message } => (3, message@, error_payload@),
        PrepareAction::FailRun { message } => (4, message@, JsonSpec::Null),
        PrepareAction::ReportError { message } => (5, message@, JsonSpec::Null),
        PrepareAction::ReturnDetail => (6, Seq::empty(), JsonSpec::Null),
        PrepareAction::Ignore => (7, Seq::empty(), JsonSpec::Null),
    }
}

/// The step of a preparation: a shell that does not match is reported with nothing written; a
/// failure before the run starts marks the queued shell failed with `{"message": e}` and reports
/// `e`; a failure after it started marks the run failed and reports `e`; only an attached plan
/// leads to recording the start.
pub open spec fn prepare_step_spec(s: PrepareState, e: PrepareEvent) -> (PrepareState, (int, Seq<char>, JsonSpec)) {
    match (s, e) {
        (PrepareState::CheckingShell, PrepareEvent::ShellChecked(r)) => match r {
            Ok(()) => (PrepareState::Compiling, (0, Seq::empty(), JsonSpec::Null)),
            Err(m) => (PrepareState::Done, (5, m@, JsonSpec::Null)),
        },
        (PrepareState::Compiling, PrepareEvent::Compiled(r)) => match r {
            Ok(()) => (PrepareState::Attaching, (1, Seq::empty(), JsonSpec::Null)),
            Err(m) => (PrepareState::Done, (3, m@, message_json(m@))),
        },
        (PrepareState::Attaching, PrepareEvent::Attached(r)) => match r {
            Ok(()) => (PrepareState::Started, (2, Seq::empty(), JsonSpec::Null)),
            Err(m) => (PrepareState::Done, (3, m@, message_json(m@))),
        },
        (PrepareState::Started, PrepareEvent::StartRecorded(r)) => match r {
            Ok(()) => (PrepareState::Done, (6, Seq::empty(), JsonSpec::Null)),
            Err(m) => (PrepareState::Done, (4, m@, JsonSpec::Null)),
        },
        _ => (s, (7, Seq::empty(), JsonSpec::Null)),
    }
}

/// The next state of a preparation, and what to do, once `event` came of the last action.
pub fn prepare_step(state: PrepareState, event: PrepareEvent) -> (r: (PrepareState, PrepareAction))
    ensures
        (r.0, prepare_action_spec(r.1)) == prepare_step_spec(state, event),
{
    match (state, event) {
        (PrepareState::CheckingShell, PrepareEvent::ShellChecked(r)) => match r {
            Ok(()) => (PrepareState::Compiling, PrepareAction::CompilePlan),
            Err(m) => (PrepareState::Done, PrepareAction::ReportError { message: m }),
        },
        (PrepareState::Compiling, PrepareEvent::Compiled(r)) => match r {
            Ok(()) => (PrepareState::Attaching, PrepareAction::AttachPlan),
            Err(m) => {
                let error_payload = message_payload(m.as_str());
                (PrepareState::Done, PrepareAction::FailQueuedShell { error_payload, message: m })
            },
        },
        (PrepareState::Attaching, PrepareEvent::Attached(r)) => match r {
            Ok(()) => (PrepareState::Started, PrepareAction::RecordStart),
            Err(m) => {
                let error_payload = message_payload(m.as_str());
                (PrepareState::Done, PrepareAction::FailQueuedShell { error_payload, message: m })
            },
        },
        (PrepareState::Started, PrepareEvent::StartRecorded(r)) => match r {
            Ok(()) => (PrepareState::Done, PrepareAction::ReturnDetail),
            Err(m) => (PrepareState::Done, PrepareAction::FailRun { message: m }),
        },
        (s, _) => (s, PrepareAction::Ignore),
    }
}

/// A failure before the run starts never records a start: it marks the queued shell failed
/// with the error's message and ends the preparation.
pub proof fn law_failure_before_start_fails_the_shell(s: PrepareState, e: PrepareEvent, m: String)
    requires
        (s == PrepareState::Compiling && e == PrepareEvent::Compiled(Err(m))) || (s == PrepareState::Attaching && e
            == PrepareEvent::Attached(Err(m))),
    ensures
        prepare_step_spec(s, e) == (PrepareState::Done, (3int, m@, message_json(m@))),
{
}

// ---------------------------------------------------------------------------------------------
// Continuing a running debug run
// ---------------------------------------------------------------------------------------------

/// Where the continuation of a run stands.
#[derive(Debug, Clone, Copy, PartialEq, Eq, Structural)]
pub enum ContinuationState {
    /// The run is being loaded.
    Loading,
    /// Whether the run was cancelled is being checked, before the node at this position of the
    /// topological order.
    CheckingCancellation(usize),
    /// The node at this position of the topological order runs.
    RunningNode(usize),
    /// Nothing more is done.
    Done,
}

/// How a node's run ended.
#[derive(Debug, Clone, Copy, PartialEq, Eq, Structural)]
pub enum NodeOutcome {
    Succeeded,
    Waiting,
    Failed,
}

/// What came of the last action.
#[derive(Debug, Clone, Copy, PartialEq, Eq, Structural)]
pub enum ContinuationEvent {
    /// The run was loaded: whether it is running, and whether its input is an object.
    RunLoaded { running: bool, input_is_object: bool },
    /// Whether the run was cancelled.
    CancellationChecked { cancelled: bool },
    /// How the running node ended.
    NodeFinished(NodeOutcome),
}

/// What to do next.
pub enum ContinuationAction {
    /// Give the run's detail back as it is, writing nothing.
    ReturnDetail,
    /// Report this error; no node run was created.
    Fail { message: String },
    /// Check whether the run was cancelled.
    CheckCancellation,
    /// Create the run of this node (its position and id) and run it.
    RunNode { index: usize, node_id: String },
    /// The node waits on a callback: the run waits.
    WaitForCallback,
    /// A node failed: the run is failed.
    FailRun,
    /// Every node ran: the run is finished (failed with a failure held, else succeeded).
    FinishRun,
    /// The event does not belong to this state: nothing is done.
    Ignore,
    /// A node failed but only template and answer nodes follow: hold its failure, to fail the
    /// run with once they ran, and check whether the run was cancelled before the next node.
    HoldFailure,
}

/// The plain facts of a [`ContinuationAction`]: its kind (in declaration order), the position
/// and id of a node to run, and an error's message.
pub open spec fn continuation_action_spec(a: ContinuationAction) -> (int, int, Seq<char>) {
    match a {
        ContinuationAction::ReturnDetail => (0, 0, Seq::empty()),
        ContinuationAction::Fail { message } => (1, 0, message@),
        ContinuationAction::CheckCancellation => (2, 0, Seq::empty()),
        ContinuationAction::RunNode { index, node_id } => (3, index as int, node_id@),
        ContinuationAction::WaitForCallback => (4, 0, Seq::empty()),
        ContinuationAction::FailRun => (5, 0, Seq::empty()),
        ContinuationAction::FinishRun => (6, 0, Seq::empty()),
        ContinuationAction::Ignore => (7, 0, Seq::empty()),
        ContinuationAction::HoldFailure => (8, 0, Seq::empty()),
    }
}

/// Whether a state names a position of the order.
pub open spec fn continuation_state_valid(order: Seq<Seq<char>>, s: ContinuationState) -> bool {
    match s {
        ContinuationState::CheckingCancellation(i) => i < order.len(),
        ContinuationState::RunningNode(i) => i < order.len(),
        _ => true,
    }
}

/// The step of a continuation over nodes in topological order `order`: a run that is not running
/// is given back unchanged; a run whose input is not an object fails before any node run is
/// made; before each node the run is checked for cancellation, and a cancelled run is given back
/// unchanged; nodes run in the order, one after the other; a waiting node makes the run wait; a
/// failed one fails it, unless only template and answer nodes of the plan follow it, in which
/// case its failure is held and they run; after the last node the run is finished.
pub open spec fn continuation_step(
    nodes: Seq<CompiledNode>,
    order: Seq<Seq<char>>,
    s: ContinuationState,
    e: ContinuationEvent,
) -> (
    ContinuationState,
    (int, int, Seq<char>),
) {
    match (s, e) {
        (ContinuationState::Loading, ContinuationEvent::RunLoaded { running, input_is_object }) => if !running {
            (ContinuationState::Done, (0, 0, Seq::empty()))
        } else if !input_is_object {
            (ContinuationState::Done, (1, 0, "input payload must be an object"@))
        } else if order.len() == 0 {
            (ContinuationState::Done, (6, 0, Seq::empty()))
        } else {
            (ContinuationState::CheckingCancellation(0), (2, 0, Seq::empty()))
        },
        (ContinuationState::CheckingCancellation(i), ContinuationEvent::CancellationChecked { cancelled }) => if cancelled {
            (ContinuationState::Done, (0, 0, Seq::empty()))
        } else {
            (ContinuationState::RunningNode(i), (3, i as int, order[i as int]))
        },
        (ContinuationState::RunningNode(i), ContinuationEvent::NodeFinished(outcome)) => match outcome {
            NodeOutcome::Succeeded => if i + 1 < order.len() {
                (ContinuationState::CheckingCancellation((i + 1) as usize), (2, 0, Seq::empty()))
            } else {
                (ContinuationState::Done, (6, 0, Seq::empty()))
            },
            NodeOutcome::Waiting => (ContinuationState::Done, (4, 0, Seq::empty())),
            NodeOutcome::Failed => if only_templates_after(nodes, order, i as int) {
                (ContinuationState::CheckingCancellation((i + 1) as usize), (8, 0, Seq::empty()))
            } else {
                (ContinuationState::Done, (5, 0, Seq::empty()))
            },
        },
        _ => (s, (7, 0, Seq::empty())),
    }
}

/// The next state of a continuation of a run of `plan` over its topological order, and what to
/// do, once `event` came of the last action.
pub fn continue_run_step(plan: &CompiledPlan, state: ContinuationState, event: ContinuationEvent) -> (r: (
    ContinuationState,
    ContinuationAction,
))
    requires
        continuation_state_valid(string_views(plan.topological_order@), state),
    ensures
        (r.0, continuation_action_spec(r.1)) == continuation_step(
            plan.nodes@,
            string_views(plan.topological_order@),
            state,
            event,
        ),
        continuation_state_valid(string_views(plan.topological_order@), r.0),
{
    let topological_order = &plan.topological_order;
    let ghost order = string_views(topological_order@);
    assert(order.len() == topological_order@.len());
    match (state, event) {
        (ContinuationState::Loading, ContinuationEvent::RunLoaded { running, input_is_object }) => {
            if !running {
                (ContinuationState::Done, ContinuationAction::ReturnDetail)
            } else if !input_is_object {
                (
                    ContinuationState::Done,
                    ContinuationAction::Fail { message: to_string("input payload must be an object") },
                )
            } else if topological_order.len() == 0 {
                (ContinuationState::Done, ContinuationAction::FinishRun)
            } else {
                (ContinuationState::CheckingCancellation(0), ContinuationAction::CheckCancellation)
            }
        },
        (ContinuationState::CheckingCancellation(i), ContinuationEvent::CancellationChecked { cancelled }) => {
            if cancelled {
                (ContinuationState::Done, ContinuationAction::ReturnDetail)
            } else {
                let node_id = topological_order[i].clone();
                (ContinuationState::RunningNode(i), ContinuationAction::RunNode { index: i, node_id })
            }
        },
        (ContinuationState::RunningNode(i), ContinuationEvent::NodeFinished(outcome)) => match outcome {
            NodeOutcome::Succeeded => {
                if i < topological_order.len() - 1 {
                    (ContinuationState::CheckingCancellation(i + 1), ContinuationAction::CheckCancellation)
                } else {
                    (ContinuationState::Done, ContinuationAction::FinishRun)
                }
            },
            NodeOutcome::Waiting => (ContinuationState::Done, ContinuationAction::WaitForCallback),
            NodeOutcome::Failed => {
                let n = topological_order.len();
                assert(i < n);
                if can_continue_to_terminal_template_nodes(plan, i) {
                    assert(i + 1 < order.len());
                    (ContinuationState::CheckingCancellation(i + 1), ContinuationAction::HoldFailure)
                } else {
                    (ContinuationState::Done, ContinuationAction::FailRun)
                }
            },
        },
        (s, _) => (s, ContinuationAction::Ignore),
    }
}

/// A node runs only right after a check found the run not cancelled, and it is the node at that
/// position of the topological order.
pub proof fn law_nodes_run_in_order_after_a_cancellation_check(
    nodes: Seq<CompiledNode>,
    order: Seq<Seq<char>>,
    s: ContinuationState,
    e: ContinuationEvent,
)
    requires
        continuation_state_valid(order, s),
        continuation_step(nodes, order, s, e).1.0 == 3,
    ensures
        s is CheckingCancellation,
        e == (ContinuationEvent::CancellationChecked { cancelled: false }),
        continuation_step(nodes, order, s, e).1.1 == s->CheckingCancellation_0 as int,
        continuation_step(nodes, order, s, e).1.2 == order[s->CheckingCancellation_0 as int],
{
}

/// A failed node fails the run, unless only template and answer nodes of the plan follow it;
/// then its failure is held and the next node runs after a cancellation check.
pub proof fn law_failure_is_held_only_before_template_nodes(nodes: Seq<CompiledNode>, order: Seq<Seq<char>>, i: usize)
    requires
        i < order.len(),
    ensures
        continuation_step(nodes, order, ContinuationState::RunningNode(i), ContinuationEvent::NodeFinished(NodeOutcome::Failed))
            == if only_templates_after(nodes, order, i as int) {
            (ContinuationState::CheckingCancellation((i + 1) as usize), (8int, 0int, Seq::<char>::empty()))
        } else {
            (ContinuationState::Done, (5int, 0int, Seq::<char>::empty()))
        },
{
}

/// A run that is not running is given back as it is, and a run whose input is not an object
/// fails, before any node runs.
pub proof fn law_no_node_runs_for_a_run_that_cannot_continue(
    nodes: Seq<CompiledNode>,
    order: Seq<Seq<char>>,
    running: bool,
    input_is_object: bool,
)
    requires
        !running || !input_is_object,
    ensures
        continuation_step(
            nodes,
            order,
            ContinuationState::Loading,
            ContinuationEvent::RunLoaded { running, input_is_object },
        ).0 == ContinuationState::Done,
        continuation_step(
            nodes,
            order,
            ContinuationState::Loading,
            ContinuationEvent::RunLoaded { running, input_is_object },
        ).1.0 == if !running {
            0int
        } else {
            1int
        },
{
}


// ---------------------------------------------------------------------------------------------
// Previewing one node
// ---------------------------------------------------------------------------------------------

/// How a run, or the run of a node, ended.
#[derive(Debug, Clone, Copy, PartialEq, Eq, Structural)]
pub enum RunEnd {
    Succeeded,
    Failed,
}

/// The error that keeps a node of a compiled plan from being previewed: the first compile issue
/// on the node or on what it depends on.
pub open spec fn preview_blocker(plan: CompiledPlan, node_id: Seq<char>) -> Option<ControlPlaneError> {
    match first_issue_in(plan.compile_issues@, dependency_scope(plan.nodes@, node_id)) {
        None => None,
        Some(k) => Some(ControlPlaneError::InvalidInput(
            issue_field(plan.compile_issues@[k].code, plan.compile_issues@[k].message@),
        )),
    }
}

/// The document a node preview runs: the snapshot sent with the request, else the draft's.
pub open spec fn preview_document_of(snapshot: Option<JsonSpec>, draft: JsonSpec) -> JsonSpec {
    match snapshot {
        Some(d) => d,
        None => draft,
    }
}

/// What a node preview records before its node runs.
pub struct NodePreviewStart {
    /// The document previewed.
    pub document: JsonValue,
    /// The hash its plan and its run are recorded by.
    pub document_hash: String,
}

/// Whether a node of the plan compiled from the previewed document may be previewed, and if so
/// the document and the hash it is recorded by. Nothing is written when the node may not run.
pub fn node_preview_start(
    plan: &CompiledPlan,
    node_id: &str,
    document_snapshot: Option<&JsonValue>,
    draft_document: &JsonValue,
) -> (r: Result<NodePreviewStart, ControlPlaneError>)
    ensures
        match preview_blocker(*plan, node_id@) {
            Some(e) => r == Err::<NodePreviewStart, ControlPlaneError>(e),
            None => r matches Ok(start) && {
                let document = preview_document_of(
                    match document_snapshot {
                        Some(d) => Some(d@),
                        None => None,
                    },
                    draft_document@,
                );
                &&& start.document@ == document
                &&& start.document_hash@ == json_hash(document)
            },
        },
{
    match ensure_compiled_plan_runnable_for_node(plan, node_id) {
        Err(e) => Err(e),
        Ok(()) => {
            let document = match document_snapshot {
                Some(d) => clone_json(d),
                None => clone_json(draft_document),
            };
            let document_hash = flow_document_hash(&document);
            Ok(NodePreviewStart { document, document_hash })
        },
    }
}

/// The entries of an object, or none for any other value.
pub open spec fn object_entries_or_empty(v: JsonSpec) -> Seq<(Seq<char>, JsonSpec)> {
    match v {
        JsonSpec::Object(entries) => entries,
        _ => Seq::empty(),
    }
}

/// What a node preview writes once its node ran.
pub struct NodePreviewCompletion {
    /// How the node run ends.
    pub node_status: RunEnd,
    /// How the preview's run ends.
    pub flow_status: RunEnd,
    /// The variables the debug session keeps: the preview's input, with the node's output under
    /// the node's id.
    pub variable_cache: Vec<(String, JsonValue)>,
}

/// How a node preview ends: the node run and the run fail exactly when the preview failed, and
/// the session's variables are the input's entries with the node's output set under its id.
pub fn node_preview_completion(
    input_payload: &JsonValue,
    node_id: &str,
    preview_failed: bool,
    node_output_payload: &JsonValue,
) -> (c: NodePreviewCompletion)
    ensures
        c.node_status == (if preview_failed { RunEnd::Failed } else { RunEnd::Succeeded }),
        c.flow_status == c.node_status,
        entry_views(c.variable_cache@) == entries_insert(
            object_entries_or_empty(input_payload@),
            node_id@,
            node_output_payload@,
        ),
{
    let mut cache: Vec<(String, JsonValue)> = Vec::new();
    match input_payload {
        JsonValue::Object(entries) => {
            let mut i: usize = 0;
            while i < entries.len()
                invariant
                    i <= entries@.len(),
                    cache@.len() == i,
                    entry_views(cache@) == entry_views(entries@.subrange(0, i as int)),
                decreases entries.len() - i,
            {
                let k = entries[i].0.clone();
                let v = clone_json(&entries[i].1);
                assert(k@ == entries@[i as int].0@);
                let ghost before = cache@;
                cache.push((k, v));
                proof {
                    assert(entries@.subrange(0, i + 1) =~= entries@.subrange(0, i as int).push(entries@[i as int]));
                    let lhs = entry_views(cache@);
                    let rhs = entry_views(entries@.subrange(0, i + 1));
                    let prev = entry_views(entries@.subrange(0, i as int));
                    assert(before.len() == i);
                    assert(lhs.len() == rhs.len());
                    assert forall|j: int| 0 <= j < lhs.len() implies #[trigger] lhs[j] == rhs[j] by {
                        if j < i {
                            assert(cache@[j] == before[j]);
                            assert(lhs[j] == entry_views(before)[j]);
                            assert(entry_views(before)[j] == prev[j]);
                            assert(entries@.subrange(0, i + 1)[j] == entries@.subrange(0, i as int)[j]);
                        } else {
                            assert(cache@[j] == (k, v));
                            assert(entries@.subrange(0, i + 1)[j] == entries@[i as int]);
                        }
                    }
                    assert(entry_views(cache@) =~= entry_views(entries@.subrange(0, i + 1)));
                }
                i = i + 1;
            }
            proof {
                assert(entries@.subrange(0, entries@.len() as int) =~= entries@);
                lemma_object_view(*entries);
            }
        },
        _ => {
            proof {
                assert(entry_views(cache@) =~= Seq::<(Seq<char>, JsonSpec)>::empty());
            }
        },
    }
    object_insert(&mut cache, to_string(node_id), clone_json(node_output_payload));
    let status = if preview_failed { RunEnd::Failed } else { RunEnd::Succeeded };
    NodePreviewCompletion { node_status: status, flow_status: status, variable_cache: cache }
}

// ---------------------------------------------------------------------------------------------
// Starting a published run
// ---------------------------------------------------------------------------------------------

/// Where a run stands when its published start is asked for.
#[derive(Debug, Clone, Copy, PartialEq, Eq, Structural)]
pub enum PublishedRunState {
    Queued,
    Running,
    /// Waiting, finished, failed or cancelled.
    Settled,
}

/// What starting a published run does first.
#[derive(Debug, Clone, Copy)]
pub enum PublishedStart {
    /// The run is not a published API run: the request is refused.
    Refuse(ControlPlaneError),
    /// Move the queued run to running, then continue it.
    MarkRunning,
    /// The run already runs: continue it.
    Continue,
    /// The run is past starting: give its detail back.
    ReturnDetail,
}

/// What starting a published run does first: only a published API run starts; a queued one is
/// moved to running, a running one continued, and any other given back as it is.
pub fn published_run_start(is_published_api_run: bool, state: PublishedRunState) -> (r: PublishedStart)
    ensures
        !is_published_api_run ==> r matches PublishedStart::Refuse(ControlPlaneError::InvalidInput("run_mode")),
        is_published_api_run && state == PublishedRunState::Queued ==> r matches PublishedStart::MarkRunning,
        is_published_api_run && state == PublishedRunState::Running ==> r matches PublishedStart::Continue,
        is_published_api_run && state == PublishedRunState::Settled ==> r matches PublishedStart::ReturnDetail,
{
    if !is_published_api_run {
        return PublishedStart::Refuse(ControlPlaneError::InvalidInput("run_mode"));
    }
    match state {
        PublishedRunState::Queued => PublishedStart::MarkRunning,
        PublishedRunState::Running => PublishedStart::Continue,
        PublishedRunState::Settled => PublishedStart::ReturnDetail,
    }
}

/// The facts of a published run that its start event records.
pub struct PublishedRunFacts {
    pub api_key_id: Option<u128>,
    pub application_id: u128,
    pub publication_version_id: Option<u128>,
    pub created_by: u128,
    pub external_user: Option<String>,
    pub external_conversation_id: Option<String>,
    pub external_trace_id: Option<String>,
    pub compatibility_mode: Option<String>,
}

/// An id as JSON: its hyphenated text, or null.
pub open spec fn opt_id_json(id: Option<u128>) -> JsonSpec {
    match id {
        Some(i) => JsonSpec::Str(uuid_hyphenated(i)),
        None => JsonSpec::Null,
    }
}

/// A text as JSON: the text, or null.
pub open spec fn opt_text_json(t: Option<String>) -> JsonSpec {
    match t {
        Some(s) => JsonSpec::Str(s@),
        None => JsonSpec::Null,
    }
}

fn opt_id_value(id: Option<u128>) -> (v: JsonValue)
    ensures
        v@ == opt_id_json(id),
{
    match id {
        Some(i) => JsonValue::Str(uuid_to_hyphenated(i)),
        None => JsonValue::Null,
    }
}

fn opt_text_value(t: &Option<String>) -> (v: JsonValue)
    ensures
        v@ == opt_text_json(*t),
{
    match t {
        Some(s) => JsonValue::Str(s.clone()),
        None => JsonValue::Null,
    }
}

/// The payload of `public_run_execution_started`: who and what the published run is for.
pub fn public_run_started_payload(run: &PublishedRunFacts) -> (v: JsonValue)
    ensures
        v@ == JsonSpec::Object(
            seq![
                ("api_key_id"@, opt_id_json(run.api_key_id)),
                ("application_id"@, JsonSpec::Str(uuid_hyphenated(run.application_id))),
                ("publication_version_id"@, opt_id_json(run.publication_version_id)),
                ("creator_user_id"@, JsonSpec::Str(uuid_hyphenated(run.created_by))),
                ("external_user"@, opt_text_json(run.external_user)),
                ("external_conversation_id"@, opt_text_json(run.external_conversation_id)),
                ("external_trace_id"@, opt_text_json(run.external_trace_id)),
                ("compatibility_mode"@, opt_text_json(run.compatibility_mode)),
            ],
        ),
{
    let mut entries: Vec<(String, JsonValue)> = Vec::new();
    entries.push((to_string("api_key_id"), opt_id_value(run.api_key_id)));
    entries.push((to_string("application_id"), JsonValue::Str(uuid_to_hyphenated(run.application_id))));
    entries.push((to_string("publication_version_id"), opt_id_value(run.publication_version_id)));
    entries.push((to_string("creator_user_id"), JsonValue::Str(uuid_to_hyphenated(run.created_by))));
    entries.push((to_string("external_user"), opt_text_value(&run.external_user)));
    entries.push((to_string("external_conversation_id"), opt_text_value(&run.external_conversation_id)));
    entries.push((to_string("external_trace_id"), opt_text_value(&run.external_trace_id)));
    entries.push((to_string("compatibility_mode"), opt_text_value(&run.compatibility_mode)));
    proof {
        lemma_object_view(entries);
        assert(entry_views(entries@) =~= seq![
            ("api_key_id"@, opt_id_json(run.api_key_id)),
            ("application_id"@, JsonSpec::Str(uuid_hyphenated(run.application_id))),
            ("publication_version_id"@, opt_id_json(run.publication_version_id)),
            ("creator_user_id"@, JsonSpec::Str(uuid_hyphenated(run.created_by))),
            ("external_user"@, opt_text_json(run.external_user)),
            ("external_conversation_id"@, opt_text_json(run.external_conversation_id)),
            ("external_trace_id"@, opt_text_json(run.external_trace_id)),
            ("compatibility_mode"@, opt_text_json(run.compatibility_mode)),
        ]);
    }
    JsonValue::Object(entries)
}

// ---------------------------------------------------------------------------------------------
// Finishing a continued run
// ---------------------------------------------------------------------------------------------

/// How a run that ran its nodes is finished.
pub enum RunCompletion {
    /// The run was cancelled meanwhile: it is given back as it is.
    ReturnDetail,
    /// The running run ends with this status, output and error, and this event records it.
    Finish {
        status: RunEnd,
        output_payload: JsonValue,
        error_payload: Option<JsonValue>,
        event_type: String,
        event_payload: JsonValue,
    },
}

/// How a run that ran its nodes is finished: a cancelled run is given back; a run with a pending
/// failure fails with its last output and the failure, recorded as `flow_run_failed`; any other
/// succeeds with its last output, recorded as `flow_run_completed`.
pub fn run_completion(cancelled: bool, pending_failure: Option<&JsonValue>, last_output: &JsonValue) -> (r:
    RunCompletion)
    ensures
        cancelled ==> r matches RunCompletion::ReturnDetail,
        !cancelled ==> match pending_failure {
            Some(e) => r matches RunCompletion::Finish { status, output_payload, error_payload, event_type, event_payload }
                && {
                &&& status == RunEnd::Failed
                &&& output_payload@ == last_output@
                &&& error_payload matches Some(x) && x@ == e@
                &&& event_type@ == "flow_run_failed"@
                &&& event_payload@ == e@
            },
            None => r matches RunCompletion::Finish { status, output_payload, error_payload, event_type, event_payload }
                && {
                &&& status == RunEnd::Succeeded
                &&& output_payload@ == last_output@
                &&& error_payload is None
                &&& event_type@ == "flow_run_completed"@
                &&& event_payload@ == last_output@
            },
        },
{
    if cancelled {
        return RunCompletion::ReturnDetail;
    }
    match pending_failure {
        Some(e) => RunCompletion::Finish {
            status: RunEnd::Failed,
            output_payload: clone_json(last_output),
            error_payload: Some(clone_json(e)),
            event_type: to_string("flow_run_failed"),
            event_payload: clone_json(e),
        },
        None => RunCompletion::Finish {
            status: RunEnd::Succeeded,
            output_payload: clone_json(last_output),
            error_payload: None,
            event_type: to_string("flow_run_completed"),
            event_payload: clone_json(last_output),
        },
    }
}

} // verus!
