//! The compiled form of a flow that the runtime executes, held as plain values.

use vstd::prelude::*;
use crate::json::JsonValue;
use crate::text::str_eq;

verus! {

/// One declared output of a compiled node.
pub struct CompiledOutput {
    pub key: String,
    pub title: String,
    pub value_type: String,
    pub selector: Vec<String>,
    pub json_schema: Option<JsonValue>,
}

/// A node of a compiled flow and the nodes it depends on.
pub struct CompiledNode {
    pub node_id: String,
    pub node_type: String,
    pub dependency_node_ids: Vec<String>,
    pub outputs: Vec<CompiledOutput>,
    pub config: JsonValue,
}

/// Why a flow cannot run as compiled.
#[derive(Debug, Clone, Copy, PartialEq, Eq, Structural)]
pub enum CompileIssueCode {
    MissingProviderInstance,
    ProviderInstanceNotFound,
    ProviderInstanceNotReady,
    MissingModel,
    ModelNotAvailable,
    MissingPluginId,
    MissingPluginVersion,
    MissingContributionCode,
    MissingNodeShell,
    MissingSchemaVersion,
    MissingPluginUniqueIdentifier,
    MissingPackageId,
    MissingContributionChecksum,
    MissingCompiledContributionHash,
    MissingOutputSchemaSnapshot,
    PluginContributionOutputSchemaMismatch,
    UnsupportedPluginContributionSchemaVersion,
    PluginContributionChecksumMismatch,
    MissingPluginContribution,
    PluginContributionDependencyNotReady,
    JsDependencyImportNotEnabled,
    InvalidJsDependencyImport,
    InvalidCodeIsolationProfile,
    DuplicateAnswerPresentationReference,
    InvalidAnswerPresentationOrder,
    InvalidLlmContextSelector,
    IncompatibleLlmContextSchema,
}

/// A problem found while compiling a node.
pub struct CompileIssue {
    pub node_id: String,
    pub code: CompileIssueCode,
    pub message: String,
}

/// A compiled flow. `nodes` holds the plan's nodes in the order of their ids, each id once.
pub struct CompiledPlan {
    pub nodes: Vec<CompiledNode>,
    pub topological_order: Vec<String>,
    pub compile_issues: Vec<CompileIssue>,
}

/// The position of the node with this id.
pub open spec fn node_index(nodes: Seq<CompiledNode>, id: Seq<char>) -> Option<int>
    decreases nodes.len(),
{
    if nodes.len() == 0 {
        None
    } else {
        match node_index(nodes.drop_last(), id) {
            Some(k) => Some(k),
            None => if nodes.last().node_id@ == id {
                Some(nodes.len() - 1)
            } else {
                None
            },
        }
    }
}

pub proof fn lemma_node_index_found(nodes: Seq<CompiledNode>, id: Seq<char>, i: int)
    requires
        0 <= i < nodes.len(),
        nodes[i].node_id@ == id,
        forall|k: int| 0 <= k < i ==> nodes[k].node_id@ != id,
    ensures
        node_index(nodes, id) == Some(i),
    decreases nodes.len(),
{
    if i < nodes.len() - 1 {
        lemma_node_index_found(nodes.drop_last(), id, i);
    } else {
        lemma_node_index_absent(nodes.drop_last(), id);
    }
}

pub proof fn lemma_node_index_absent(nodes: Seq<CompiledNode>, id: Seq<char>)
    requires
        forall|k: int| 0 <= k < nodes.len() ==> nodes[k].node_id@ != id,
    ensures
        node_index(nodes, id) is None,
    decreases nodes.len(),
{
    if nodes.len() > 0 {
        lemma_node_index_absent(nodes.drop_last(), id);
    }
}

pub proof fn lemma_node_index_bounds(nodes: Seq<CompiledNode>, id: Seq<char>)
    ensures
        node_index(nodes, id) matches Some(k) ==> 0 <= k < nodes.len() && nodes[k].node_id@ == id,
    decreases nodes.len(),
{
    if nodes.len() > 0 {
        lemma_node_index_bounds(nodes.drop_last(), id);
    }
}

/// Finds the node with this id.
pub fn find_node(nodes: &Vec<CompiledNode>, id: &str) -> (r: Option<usize>)
    ensures
        match r {
            Some(k) => node_index(nodes@, id@) == Some(k as int) && k < nodes@.len(),
            None => node_index(nodes@, id@) is None,
        },
{
    let mut i: usize = 0;
    while i < nodes.len()
        invariant
            i <= nodes@.len(),
            forall|k: int| 0 <= k < i ==> nodes@[k].node_id@ != id@,
        decreases nodes.len() - i,
    {
        if str_eq(nodes[i].node_id.as_str(), id) {
            proof {
                lemma_node_index_found(nodes@, id@, i as int);
            }
            return Some(i);
        }
        i = i + 1;
    }
    proof {
        lemma_node_index_absent(nodes@, id@);
    }
    None
}

} // verus!
