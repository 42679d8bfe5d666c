//! Whether a compiled flow, or the part of it a node needs, may run.

use vstd::prelude::*;
use crate::errors::ControlPlaneError;
use crate::json::{JsonSpec, JsonValue};
use crate::orchestration_runtime::compiled_plan::{
    find_node, lemma_node_index_bounds, node_index, CompileIssue, CompileIssueCode, CompiledNode,
    CompiledOutput, CompiledPlan,
};
use crate::model_provider::ModelProviderInstanceStatus;
use crate::text::{
    contains_seq, contains_str, insert_text_sorted, insert_texts_sorted, str_eq, string_views, texts_ascending, to_string,
};

verus! {

/// The ids a node depends on (none for an id that names no node).
pub open spec fn deps_of(nodes: Seq<CompiledNode>, x: Seq<char>) -> Seq<Seq<char>> {
    match node_index(nodes, x) {
        Some(k) => string_views(nodes[k].dependency_node_ids@),
        None => seq![],
    }
}

/// A set of node ids that holds the dependencies of each of its nodes.
pub open spec fn dependency_closed(nodes: Seq<CompiledNode>, s: Set<Seq<char>>) -> bool {
    forall|x: Seq<char>, d: Seq<char>|
        #![trigger s.contains(x), deps_of(nodes, x).contains(d)]
        s.contains(x) && deps_of(nodes, x).contains(d) ==> s.contains(d)
}

/// The ids a target node depends on, directly or not, and the target itself: the least
/// dependency-closed set that holds the target.
pub open spec fn dependency_scope(nodes: Seq<CompiledNode>, target: Seq<char>) -> Set<Seq<char>> {
    Set::new(
        |x: Seq<char>|
            forall|s: Set<Seq<char>>|
                #![trigger dependency_closed(nodes, s)]
                dependency_closed(nodes, s) && s.contains(target) ==> s.contains(x),
    )
}

/// Every dependency id of the plan, node after node.
pub open spec fn all_deps(nodes: Seq<CompiledNode>) -> Seq<Seq<char>>
    decreases nodes.len(),
{
    if nodes.len() == 0 {
        seq![]
    } else {
        all_deps(nodes.drop_last()) + string_views(nodes.last().dependency_node_ids@)
    }
}

proof fn lemma_all_deps_contains(nodes: Seq<CompiledNode>, k: int, d: Seq<char>)
    requires
        0 <= k < nodes.len(),
        string_views(nodes[k].dependency_node_ids@).contains(d),
    ensures
        all_deps(nodes).contains(d),
    decreases nodes.len(),
{
    let last = string_views(nodes.last().dependency_node_ids@);
    if k < nodes.len() - 1 {
        lemma_all_deps_contains(nodes.drop_last(), k, d);
        let j = choose|j: int| 0 <= j < all_deps(nodes.drop_last()).len() && all_deps(nodes.drop_last())[j] == d;
        assert((all_deps(nodes.drop_last()) + last)[j] == d);
    } else {
        let j = choose|j: int| 0 <= j < last.len() && last[j] == d;
        assert((all_deps(nodes.drop_last()) + last)[all_deps(nodes.drop_last()).len() + j] == d);
    }
}

proof fn lemma_unique_within(s: Seq<Seq<char>>, u: Seq<Seq<char>>)
    requires
        s.no_duplicates(),
        forall|k: int| 0 <= k < s.len() ==> u.contains(#[trigger] s[k]),
    ensures
        s.len() <= u.len(),
{
    s.unique_seq_to_set();
    u.lemma_cardinality_of_set();
    assert(s.to_set().subset_of(u.to_set())) by {
        assert forall|x: Seq<char>| s.to_set().contains(x) implies u.to_set().contains(x) by {
            let k = choose|k: int| 0 <= k < s.len() && s[k] == x;
            assert(u.contains(s[k]));
        }
    }
    vstd::set_lib::lemma_len_subset(s.to_set(), u.to_set());
}

fn contains_string(v: &Vec<String>, s: &str) -> (b: bool)
    ensures
        b == string_views(v@).contains(s@),
{
    let mut i: usize = 0;
    while i < v.len()
        invariant
            i <= v@.len(),
            forall|k: int| 0 <= k < i ==> v@[k]@ != s@,
        decreases v.len() - i,
    {
        if str_eq(v[i].as_str(), s) {
            assert(string_views(v@)[i as int] == s@);
            return true;
        }
        i = i + 1;
    }
    false
}

/// The ids the target node depends on, directly or through other nodes, with the target
/// itself; each once.
pub fn collect_target_node_dependency_scope(plan: &CompiledPlan, target_node_id: &str) -> (scope:
    Vec<String>)
    ensures
        string_views(scope@).no_duplicates(),
        string_views(scope@).to_set() == dependency_scope(plan.nodes@, target_node_id@),
{
    let ghost nodes = plan.nodes@;
    let ghost target = target_node_id@;
    let ghost u = seq![target] + all_deps(nodes);
    let mut scope: Vec<String> = Vec::new();
    scope.push(to_string(target_node_id));
    proof {
        assert(string_views(scope@) =~= seq![target]);
        assert(u[0] == target);
        lemma_unique_within(string_views(scope@), u);
    }
    let mut i: usize = 0;
    while i < scope.len()
        invariant
            nodes == plan.nodes@,
            target == target_node_id@,
            u == seq![target] + all_deps(nodes),
            string_views(scope@).no_duplicates(),
            string_views(scope@).len() > 0,
            string_views(scope@)[0] == target,
            forall|k: int| 0 <= k < scope@.len() ==> u.contains(#[trigger] string_views(scope@)[k]),
            scope@.len() <= u.len(),
            i <= scope@.len(),
            forall|p: int, d: Seq<char>|
                #![trigger deps_of(nodes, string_views(scope@)[p]).contains(d)]
                0 <= p < i && deps_of(nodes, string_views(scope@)[p]).contains(d)
                    ==> string_views(scope@).contains(d),
            forall|s: Set<Seq<char>>|
                #![trigger dependency_closed(nodes, s)]
                dependency_closed(nodes, s) && s.contains(target) ==> forall|k: int|
                    0 <= k < scope@.len() ==> s.contains(#[trigger] string_views(scope@)[k]),
        decreases u.len() - i,
    {
        let ghost x = string_views(scope@)[i as int];
        let found = find_node(&plan.nodes, scope[i].as_str());
        match found {
            Some(k) => {
                proof {
                    lemma_node_index_bounds(nodes, x);
                }
                let deps = &plan.nodes[k].dependency_node_ids;
                let ghost dv = string_views(deps@);
                assert(deps_of(nodes, x) == dv);
                let mut j: usize = 0;
                while j < deps.len()
                    invariant
                        nodes == plan.nodes@,
                        target == target_node_id@,
                        u == seq![target] + all_deps(nodes),
                        k < nodes.len(),
                        node_index(nodes, x) == Some(k as int),
                        dv == string_views(deps@),
                        *deps == nodes[k as int].dependency_node_ids,
                        deps_of(nodes, x) == dv,
                        i < scope@.len(),
                        x == string_views(scope@)[i as int],
                        string_views(scope@).no_duplicates(),
                        string_views(scope@)[0] == target,
                        forall|m: int| 0 <= m < scope@.len() ==> u.contains(#[trigger] string_views(scope@)[m]),
                        scope@.len() <= u.len(),
                        j <= deps@.len(),
                        forall|p: int, d: Seq<char>|
                            #![trigger deps_of(nodes, string_views(scope@)[p]).contains(d)]
                            0 <= p < i && deps_of(nodes, string_views(scope@)[p]).contains(d)
                                ==> string_views(scope@).contains(d),
                        forall|m: int| 0 <= m < j ==> string_views(scope@).contains(#[trigger] dv[m]),
                        forall|s: Set<Seq<char>>|
                            #![trigger dependency_closed(nodes, s)]
                            dependency_closed(nodes, s) && s.contains(target) ==> forall|m: int|
                                0 <= m < scope@.len() ==> s.contains(#[trigger] string_views(scope@)[m]),
                    decreases deps.len() - j,
                {
                    let dep = deps[j].as_str();
                    assert(dv[j as int] == dep@);
                    if !contains_string(&scope, dep) {
                        let ghost before = string_views(scope@);
                        scope.push(to_string(dep));
                        proof {
                            let after = string_views(scope@);
                            assert(after =~= before.push(dep@));
                            assert(dv.contains(dep@));
                            lemma_all_deps_contains(nodes, k as int, dep@);
                            assert(u.contains(dep@)) by {
                                let w = choose|w: int| 0 <= w < all_deps(nodes).len() && all_deps(nodes)[w] == dep@;
                                assert(u[w + 1] == dep@);
                            }
                            assert forall|m: int| 0 <= m < scope@.len() implies u.contains(#[trigger] after[m]) by {
                                if m < before.len() {
                                    assert(after[m] == before[m]);
                                }
                            }
                            lemma_unique_within(after, u);
                            assert forall|p: int, d: Seq<char>|
                                #![trigger deps_of(nodes, after[p]).contains(d)]
                                0 <= p < i && deps_of(nodes, after[p]).contains(d) implies after.contains(d) by {
                                assert(after[p] == before[p]);
                                assert(before.contains(d));
                                let w = choose|w: int| 0 <= w < before.len() && before[w] == d;
                                assert(after[w] == d);
                            }
                            assert forall|m: int| 0 <= m < j + 1 implies after.contains(#[trigger] dv[m]) by {
                                if m < j {
                                    let w = choose|w: int| 0 <= w < before.len() && before[w] == dv[m];
                                    assert(after[w] == dv[m]);
                                } else {
                                    assert(after[before.len() as int] == dv[m]);
                                }
                            }
                            assert forall|s: Set<Seq<char>>|
                                #![trigger dependency_closed(nodes, s)]
                                dependency_closed(nodes, s) && s.contains(target) implies forall|m: int|
                                    0 <= m < scope@.len() ==> s.contains(#[trigger] after[m]) by {
                                assert(s.contains(before[i as int]));
                                assert(s.contains(x));
                                assert(deps_of(nodes, x).contains(dep@));
                                assert(s.contains(dep@));
                                assert forall|m: int| 0 <= m < scope@.len() implies s.contains(#[trigger] after[m]) by {
                                    if m < before.len() {
                                        assert(after[m] == before[m]);
                                    }
                                }
                            }
                        }
                    }
                    j = j + 1;
                }
                proof {
                    assert forall|p: int, d: Seq<char>|
                        #![trigger deps_of(nodes, string_views(scope@)[p]).contains(d)]
                        0 <= p < i + 1 && deps_of(nodes, string_views(scope@)[p]).contains(d)
                            implies string_views(scope@).contains(d) by {
                        if p == i {
                            let w = choose|w: int| 0 <= w < dv.len() && dv[w] == d;
                            assert(string_views(scope@).contains(dv[w]));
                        }
                    }
                }
            },
            None => {
                proof {
                    assert(deps_of(nodes, x) =~= Seq::<Seq<char>>::empty());
                }
            },
        }
        i = i + 1;
    }
    proof {
        let r = string_views(scope@);
        assert forall|x: Seq<char>| r.to_set().contains(x) implies #[trigger] dependency_scope(nodes, target).contains(x) by {
            let k = choose|k: int| 0 <= k < r.len() && r[k] == x;
            assert forall|s: Set<Seq<char>>|
                #![trigger dependency_closed(nodes, s)]
                dependency_closed(nodes, s) && s.contains(target) implies s.contains(x) by {
                assert(s.contains(r[k]));
            }
        }
        assert(dependency_closed(nodes, r.to_set())) by {
            assert forall|x: Seq<char>, d: Seq<char>|
                #![trigger r.to_set().contains(x), deps_of(nodes, x).contains(d)]
                r.to_set().contains(x) && deps_of(nodes, x).contains(d) implies r.to_set().contains(d) by {
                let p = choose|p: int| 0 <= p < r.len() && r[p] == x;
                assert(deps_of(nodes, r[p]).contains(d));
            }
        }
        assert(r.to_set().contains(target)) by {
            assert(r[0] == target);
        }
        assert forall|x: Seq<char>| #[trigger] dependency_scope(nodes, target).contains(x) implies r.to_set().contains(x) by {
            assert(dependency_closed(nodes, r.to_set()));
        }
        assert(r.to_set() =~= dependency_scope(nodes, target));
    }
    scope
}

/// The request field a compile issue is reported against.
pub open spec fn issue_field(code: CompileIssueCode, message: Seq<char>) -> &'static str {
    match code {
        CompileIssueCode::MissingProviderInstance => if contains_seq(message, "source_instance_id"@) {
            "source_instance_id"
        } else {
            "provider_code"
        },
        CompileIssueCode::ProviderInstanceNotFound | CompileIssueCode::ProviderInstanceNotReady => "provider_code",
        CompileIssueCode::MissingModel | CompileIssueCode::ModelNotAvailable => "model",
        CompileIssueCode::MissingPluginId => "plugin_id",
        CompileIssueCode::MissingPluginVersion => "plugin_version",
        CompileIssueCode::MissingContributionCode => "contribution_code",
        CompileIssueCode::MissingNodeShell => "node_shell",
        CompileIssueCode::MissingSchemaVersion => "schema_version",
        CompileIssueCode::MissingPluginUniqueIdentifier => "plugin_unique_identifier",
        CompileIssueCode::MissingPackageId => "package_id",
        CompileIssueCode::MissingContributionChecksum => "contribution_checksum",
        CompileIssueCode::MissingCompiledContributionHash => "compiled_contribution_hash",
        CompileIssueCode::MissingOutputSchemaSnapshot
        | CompileIssueCode::PluginContributionOutputSchemaMismatch => "output_schema_snapshot",
        CompileIssueCode::UnsupportedPluginContributionSchemaVersion => "schema_version",
        CompileIssueCode::PluginContributionChecksumMismatch => "contribution_checksum",
        CompileIssueCode::MissingPluginContribution
        | CompileIssueCode::PluginContributionDependencyNotReady => "contribution_code",
        CompileIssueCode::JsDependencyImportNotEnabled
        | CompileIssueCode::InvalidJsDependencyImport => "imports",
        CompileIssueCode::InvalidCodeIsolationProfile => "isolation",
        CompileIssueCode::DuplicateAnswerPresentationReference
        | CompileIssueCode::InvalidAnswerPresentationOrder => "answer_template",
        CompileIssueCode::InvalidLlmContextSelector
        | CompileIssueCode::IncompatibleLlmContextSchema => "context_policy",
    }
}

/// A missing provider instance is reported against `source_instance_id` when the message names
/// it, else against `provider_code`.
pub fn missing_provider_field(message: &str) -> (f: &'static str)
    ensures
        f == issue_field(CompileIssueCode::MissingProviderInstance, message@),
{
    if contains_str(message, "source_instance_id") {
        "source_instance_id"
    } else {
        "provider_code"
    }
}

/// The request field a compile issue is reported against.
pub fn compile_issue_field(issue: &CompileIssue) -> (f: &'static str)
    ensures
        f == issue_field(issue.code, issue.message@),
{
    match issue.code {
        CompileIssueCode::MissingProviderInstance => missing_provider_field(issue.message.as_str()),
        CompileIssueCode::ProviderInstanceNotFound | CompileIssueCode::ProviderInstanceNotReady => "provider_code",
        CompileIssueCode::MissingModel | CompileIssueCode::ModelNotAvailable => "model",
        CompileIssueCode::MissingPluginId => "plugin_id",
        CompileIssueCode::MissingPluginVersion => "plugin_version",
        CompileIssueCode::MissingContributionCode => "contribution_code",
        CompileIssueCode::MissingNodeShell => "node_shell",
        CompileIssueCode::MissingSchemaVersion => "schema_version",
        CompileIssueCode::MissingPluginUniqueIdentifier => "plugin_unique_identifier",
        CompileIssueCode::MissingPackageId => "package_id",
        CompileIssueCode::MissingContributionChecksum => "contribution_checksum",
        CompileIssueCode::MissingCompiledContributionHash => "compiled_contribution_hash",
        CompileIssueCode::MissingOutputSchemaSnapshot
        | CompileIssueCode::PluginContributionOutputSchemaMismatch => "output_schema_snapshot",
        CompileIssueCode::UnsupportedPluginContributionSchemaVersion => "schema_version",
        CompileIssueCode::PluginContributionChecksumMismatch => "contribution_checksum",
        CompileIssueCode::MissingPluginContribution
        | CompileIssueCode::PluginContributionDependencyNotReady => "contribution_code",
        CompileIssueCode::JsDependencyImportNotEnabled
        | CompileIssueCode::InvalidJsDependencyImport => "imports",
        CompileIssueCode::InvalidCodeIsolationProfile => "isolation",
        CompileIssueCode::DuplicateAnswerPresentationReference
        | CompileIssueCode::InvalidAnswerPresentationOrder => "answer_template",
        CompileIssueCode::InvalidLlmContextSelector
        | CompileIssueCode::IncompatibleLlmContextSchema => "context_policy",
    }
}

/// A compiled plan runs only with no compile issue; the first one is reported.
pub fn ensure_compiled_plan_runnable(plan: &CompiledPlan) -> (r: Result<(), ControlPlaneError>)
    ensures
        plan.compile_issues@.len() == 0 ==> r is Ok,
        plan.compile_issues@.len() > 0 ==> r == Err::<(), _>(ControlPlaneError::InvalidInput(
            issue_field(plan.compile_issues@[0].code, plan.compile_issues@[0].message@),
        )),
{
    if plan.compile_issues.len() > 0 {
        return Err(ControlPlaneError::InvalidInput(compile_issue_field(&plan.compile_issues[0])));
    }
    Ok(())
}

/// The position of the first issue raised on a node of the scope.
pub open spec fn first_issue_in(issues: Seq<CompileIssue>, scope: Set<Seq<char>>) -> Option<int>
    decreases issues.len(),
{
    if issues.len() == 0 {
        None
    } else {
        match first_issue_in(issues.drop_last(), scope) {
            Some(k) => Some(k),
            None => if scope.contains(issues.last().node_id@) {
                Some(issues.len() - 1)
            } else {
                None
            },
        }
    }
}

proof fn lemma_first_issue_found(issues: Seq<CompileIssue>, scope: Set<Seq<char>>, i: int)
    requires
        0 <= i < issues.len(),
        scope.contains(issues[i].node_id@),
        forall|k: int| 0 <= k < i ==> !scope.contains(#[trigger] issues[k].node_id@),
    ensures
        first_issue_in(issues, scope) == Some(i),
    decreases issues.len(),
{
    if i < issues.len() - 1 {
        lemma_first_issue_found(issues.drop_last(), scope, i);
    } else {
        lemma_first_issue_absent(issues.drop_last(), scope);
    }
}

proof fn lemma_first_issue_absent(issues: Seq<CompileIssue>, scope: Set<Seq<char>>)
    requires
        forall|k: int| 0 <= k < issues.len() ==> !scope.contains(#[trigger] issues[k].node_id@),
    ensures
        first_issue_in(issues, scope) is None,
    decreases issues.len(),
{
    if issues.len() > 0 {
        lemma_first_issue_absent(issues.drop_last(), scope);
    }
}

/// A node may run when no compile issue lies on it or on what it depends on; the first such
/// issue is reported.
pub fn ensure_compiled_plan_runnable_for_node(plan: &CompiledPlan, target_node_id: &str) -> (r:
    Result<(), ControlPlaneError>)
    ensures
        ({
            let scope = dependency_scope(plan.nodes@, target_node_id@);
            match first_issue_in(plan.compile_issues@, scope) {
                None => r is Ok,
                Some(k) => r == Err::<(), _>(ControlPlaneError::InvalidInput(
                    issue_field(plan.compile_issues@[k].code, plan.compile_issues@[k].message@),
                )),
            }
        }),
{
    let scope = collect_target_node_dependency_scope(plan, target_node_id);
    let ghost set = string_views(scope@).to_set();
    let mut i: usize = 0;
    while i < plan.compile_issues.len()
        invariant
            i <= plan.compile_issues@.len(),
            set == string_views(scope@).to_set(),
            set == dependency_scope(plan.nodes@, target_node_id@),
            forall|k: int| 0 <= k < i ==> !set.contains(#[trigger] plan.compile_issues@[k].node_id@),
        decreases plan.compile_issues.len() - i,
    {
        if contains_string(&scope, plan.compile_issues[i].node_id.as_str()) {
            proof {
                lemma_first_issue_found(plan.compile_issues@, set, i as int);
            }
            return Err(ControlPlaneError::InvalidInput(compile_issue_field(&plan.compile_issues[i])));
        }
        i = i + 1;
    }
    proof {
        lemma_first_issue_absent(plan.compile_issues@, set);
    }
    Ok(())
}

/// The key a node's plugin contribution is looked up by:
/// `{plugin_id}::{plugin_version}::{contribution_code}::{node_shell}::{schema_version}`.
pub fn node_contribution_lookup_key(
    plugin_id: &str,
    plugin_version: &str,
    contribution_code: &str,
    node_shell: &str,
    schema_version: &str,
) -> (key: String)
    ensures
        key@ == plugin_id@ + "::"@ + plugin_version@ + "::"@ + contribution_code@ + "::"@ + node_shell@ + "::"@
            + schema_version@,
{
    let mut key = crate::text::to_string(plugin_id);
    key.push_str("::");
    key.push_str(plugin_version);
    key.push_str("::");
    key.push_str(contribution_code);
    key.push_str("::");
    key.push_str(node_shell);
    key.push_str("::");
    key.push_str(schema_version);
    key
}


/// A required text of a declared output, trimmed; blank or missing text is invalid input
/// named by the field.
pub fn required_output_string(output: &JsonValue, field: &'static str) -> (r: Result<String, ControlPlaneError>)
    ensures
        match crate::orchestration_runtime::data_model_runtime::required_text(output@, field@) {
            Some(s) => r is Ok && r->Ok_0@ == s,
            None => r == Err::<String, _>(ControlPlaneError::InvalidInput(field)),
        },
{
    match output.get_str(field) {
        Some(s) => {
            let t = crate::text::trim_to_string(s);
            if t.as_str().is_empty() {
                Err(ControlPlaneError::InvalidInput(field))
            } else {
                Ok(t)
            }
        },
        None => Err(ControlPlaneError::InvalidInput(field)),
    }
}

/// The text segments of a declared selector, in order, non-text ones left out.
pub open spec fn text_segments(items: Seq<JsonSpec>) -> Seq<Seq<char>>
    decreases items.len(),
{
    if items.len() == 0 {
        seq![]
    } else {
        let before = text_segments(items.drop_last());
        match crate::json::spec_as_str(items.last()) {
            Some(s) => before.push(s),
            None => before,
        }
    }
}

/// An output's selector: the text segments of its `selector` array, unless there are none.
pub open spec fn output_selector(output: JsonSpec) -> Option<Seq<Seq<char>>> {
    match crate::json::get_array(output, "selector"@) {
        Some(items) => if text_segments(items).len() > 0 {
            Some(text_segments(items))
        } else {
            None
        },
        None => None,
    }
}

pub fn read_output_selector(output: &JsonValue) -> (r: Option<Vec<String>>)
    ensures
        match r {
            Some(v) => output_selector(output@) == Some(crate::text::string_views(v@)),
            None => output_selector(output@) is None,
        },
{
    let items = match output.get_array("selector") {
        Some(items) => items,
        None => {
            return None;
        },
    };
    let ghost its = crate::json::views(items@);
    let mut segments: Vec<String> = Vec::new();
    let mut i: usize = 0;
    assert(its.take(0) =~= Seq::<JsonSpec>::empty());
    assert(crate::text::string_views(segments@) =~= Seq::<Seq<char>>::empty());
    while i < items.len()
        invariant
            i <= items@.len(),
            its == crate::json::views(items@),
            crate::text::string_views(segments@) == text_segments(its.take(i as int)),
        decreases items.len() - i,
    {
        assert(its.take(i + 1).drop_last() =~= its.take(i as int));
        assert(its.take(i + 1).last() == items@[i as int]@);
        match items[i].as_str() {
            Some(s) => {
                let ghost before = crate::text::string_views(segments@);
                segments.push(crate::text::to_string(s));
                assert(crate::text::string_views(segments@) =~= before.push(s@));
            },
            None => {},
        }
        i = i + 1;
    }
    assert(its.take(items.len() as int) =~= its);
    if segments.len() == 0 {
        None
    } else {
        Some(segments)
    }
}

/// The model of a declared output.
pub struct OutputSpec {
    pub key: Seq<char>,
    pub title: Seq<char>,
    pub value_type: Seq<char>,
    pub selector: Seq<Seq<char>>,
    pub json_schema: Option<JsonSpec>,
}

pub open spec fn output_spec(o: CompiledOutput) -> OutputSpec {
    OutputSpec {
        key: o.key@,
        title: o.title@,
        value_type: o.value_type@,
        selector: crate::text::string_views(o.selector@),
        json_schema: crate::json::opt_json_view(o.json_schema),
    }
}

pub open spec fn output_specs(v: Seq<CompiledOutput>) -> Seq<OutputSpec> {
    v.map_values(|o: CompiledOutput| output_spec(o))
}

/// One declared output: `key`, `title` and `valueType` required in that order; its selector
/// (the key alone when it declares none); its `jsonSchema` when that is an object.
pub open spec fn contribution_output(output: JsonSpec) -> Result<OutputSpec, ControlPlaneError> {
    match crate::orchestration_runtime::data_model_runtime::required_text(output, "key"@) {
        None => Err(ControlPlaneError::InvalidInput("key")),
        Some(key) => match crate::orchestration_runtime::data_model_runtime::required_text(output, "title"@) {
            None => Err(ControlPlaneError::InvalidInput("title")),
            Some(title) => match crate::orchestration_runtime::data_model_runtime::required_text(output, "valueType"@) {
                None => Err(ControlPlaneError::InvalidInput("valueType")),
                Some(value_type) => Ok(
                    OutputSpec {
                        key,
                        title,
                        value_type,
                        selector: match output_selector(output) {
                            Some(s) => s,
                            None => seq![key],
                        },
                        json_schema: match crate::json::spec_get(output, "jsonSchema"@) {
                            Some(s) => if s is Object {
                                Some(s)
                            } else {
                                None
                            },
                            None => None,
                        },
                    },
                ),
            },
        },
    }
}

pub open spec fn contribution_outputs_from(outputs: Seq<JsonSpec>) -> Result<Seq<OutputSpec>, ControlPlaneError>
    decreases outputs.len(),
{
    if outputs.len() == 0 {
        Ok(seq![])
    } else {
        match contribution_outputs_from(outputs.drop_last()) {
            Err(e) => Err(e),
            Ok(os) => match contribution_output(outputs.last()) {
                Err(e) => Err(e),
                Ok(o) => Ok(os.push(o)),
            },
        }
    }
}

/// The outputs a plugin contribution declares in its output schema snapshot; the first bad
/// output decides the error.
pub open spec fn contribution_outputs(snapshot: JsonSpec) -> Result<Seq<OutputSpec>, ControlPlaneError> {
    match crate::json::get_array(snapshot, "outputs"@) {
        None => Err(ControlPlaneError::InvalidInput("output_schema_snapshot")),
        Some(outputs) => contribution_outputs_from(outputs),
    }
}

proof fn lemma_outputs_err_stays(outputs: Seq<JsonSpec>, i: int)
    requires
        0 <= i <= outputs.len(),
        contribution_outputs_from(outputs.take(i)) is Err,
    ensures
        contribution_outputs_from(outputs) == contribution_outputs_from(outputs.take(i)),
    decreases outputs.len() - i,
{
    if i < outputs.len() {
        assert(outputs.take(i + 1).drop_last() =~= outputs.take(i));
        lemma_outputs_err_stays(outputs, i + 1);
    } else {
        assert(outputs.take(i) =~= outputs);
    }
}

fn contribution_output_exec(output: &JsonValue) -> (r: Result<CompiledOutput, ControlPlaneError>)
    ensures
        match contribution_output(output@) {
            Ok(o) => r is Ok && output_spec(r->Ok_0) == o,
            Err(e) => r == Err::<CompiledOutput, _>(e),
        },
{
    let key = match required_output_string(output, "key") {
        Ok(k) => k,
        Err(e) => {
            return Err(e);
        },
    };
    let title = match required_output_string(output, "title") {
        Ok(t) => t,
        Err(e) => {
            return Err(e);
        },
    };
    let value_type = match required_output_string(output, "valueType") {
        Ok(v) => v,
        Err(e) => {
            return Err(e);
        },
    };
    let selector = match read_output_selector(output) {
        Some(s) => s,
        None => {
            let mut s: Vec<String> = Vec::new();
            s.push(crate::text::to_string(key.as_str()));
            assert(crate::text::string_views(s@) =~= seq![key@]);
            s
        },
    };
    let json_schema = match output.get("jsonSchema") {
        Some(s) => if s.is_object() {
            Some(crate::json::clone_json(s))
        } else {
            None
        },
        None => None,
    };
    Ok(CompiledOutput { key, title, value_type, selector, json_schema })
}

pub fn compile_contribution_outputs(output_schema_snapshot: &JsonValue) -> (r: Result<
    Vec<CompiledOutput>,
    ControlPlaneError,
>)
    ensures
        match contribution_outputs(output_schema_snapshot@) {
            Ok(os) => r is Ok && output_specs(r->Ok_0@) == os,
            Err(e) => r == Err::<Vec<CompiledOutput>, _>(e),
        },
{
    let outputs = match output_schema_snapshot.get_array("outputs") {
        Some(o) => o,
        None => {
            return Err(ControlPlaneError::InvalidInput("output_schema_snapshot"));
        },
    };
    let ghost os = crate::json::views(outputs@);
    let mut out: Vec<CompiledOutput> = Vec::new();
    let mut i: usize = 0;
    assert(os.take(0) =~= Seq::<JsonSpec>::empty());
    assert(output_specs(out@) =~= Seq::<OutputSpec>::empty());
    while i < outputs.len()
        invariant
            i <= outputs@.len(),
            os == crate::json::views(outputs@),
            crate::json::get_array(output_schema_snapshot@, "outputs"@) == Some(os),
            contribution_outputs_from(os.take(i as int)) == Ok::<Seq<OutputSpec>, ControlPlaneError>(output_specs(out@)),
        decreases outputs.len() - i,
    {
        assert(os.take(i + 1).drop_last() =~= os.take(i as int));
        assert(os.take(i + 1).last() == outputs@[i as int]@);
        match contribution_output_exec(&outputs[i]) {
            Ok(o) => {
                let ghost before = output_specs(out@);
                let ghost ov = output_spec(o);
                out.push(o);
                assert(output_specs(out@) =~= before.push(ov));
            },
            Err(e) => {
                proof {
                    lemma_outputs_err_stays(os, i + 1);
                }
                return Err(e);
            },
        }
        i = i + 1;
    }
    assert(os.take(outputs.len() as int) =~= os);
    Ok(out)
}


/// The dependency scope of a node holds the node and the dependencies of every node it holds.
pub proof fn law_dependency_scope_closed(nodes: Seq<CompiledNode>, target: Seq<char>)
    ensures
        dependency_scope(nodes, target).contains(target),
        dependency_closed(nodes, dependency_scope(nodes, target)),
{
    let scope = dependency_scope(nodes, target);
    assert(scope.contains(target));
    assert forall|x: Seq<char>, d: Seq<char>|
        #![trigger scope.contains(x), deps_of(nodes, x).contains(d)]
        scope.contains(x) && deps_of(nodes, x).contains(d) implies scope.contains(d) by {
        assert forall|s: Set<Seq<char>>| #![trigger dependency_closed(nodes, s)]
            dependency_closed(nodes, s) && s.contains(target) implies s.contains(d) by {
            assert(s.contains(x));
        }
    }
}

/// A model provider instance, as far as the compile context reads it: whether it is ready,
/// whether its installation can run, whether it belongs to its provider's main instance, the
/// models it offers and whether it takes models beyond them.
pub struct CompileProviderInstance {
    pub provider_code: String,
    pub protocol: String,
    pub is_ready: bool,
    pub is_runnable: bool,
    pub included_in_main: bool,
    pub available_models: Vec<String>,
    pub allow_custom_models: bool,
}

/// A provider as flows compile against it: what its main instance's members offer together.
/// Its models are a set, kept in text order.
pub struct CompileProviderFamily {
    pub provider_code: String,
    pub protocol: String,
    pub is_ready: bool,
    pub available_models: Vec<String>,
    pub allow_custom_models: bool,
}

/// Whether an instance counts for its provider: it belongs to the main instance and can run.
pub open spec fn counts_for_family(i: CompileProviderInstance) -> bool {
    i.included_in_main && i.is_runnable
}

/// The plain facts of a family: protocol, readiness, the set of its models, custom models.
pub open spec fn family_facts(f: CompileProviderFamily) -> (Seq<char>, bool, Set<Seq<char>>, bool) {
    (f.protocol@, f.is_ready, string_views(f.available_models@).to_set(), f.allow_custom_models)
}

/// The family of a provider over these instances, in order: the protocol of its first counting
/// instance; ready when any is; every model any of them offers; custom models when any takes
/// them. None when no instance counts for it.
pub open spec fn family_of(instances: Seq<CompileProviderInstance>, code: Seq<char>) -> Option<
    (Seq<char>, bool, Set<Seq<char>>, bool),
>
    decreases instances.len(),
{
    if instances.len() == 0 {
        None
    } else {
        let before = family_of(instances.drop_last(), code);
        let x = instances.last();
        if counts_for_family(x) && x.provider_code@ == code {
            match before {
                None => Some((x.protocol@, x.is_ready, string_views(x.available_models@).to_set(), x.allow_custom_models)),
                Some((protocol, ready, models, custom)) => Some(
                    (
                        protocol,
                        ready || x.is_ready,
                        models.union(string_views(x.available_models@).to_set()),
                        custom || x.allow_custom_models,
                    ),
                ),
            }
        } else {
            before
        }
    }
}

fn clone_strings(v: &Vec<String>) -> (out: Vec<String>)
    ensures
        string_views(out@) == string_views(v@),
{
    let mut out: Vec<String> = Vec::new();
    let mut i: usize = 0;
    while i < v.len()
        invariant
            i <= v@.len(),
            string_views(out@) == string_views(v@.take(i as int)),
        decreases v.len() - i,
    {
        let ghost before = string_views(out@);
        out.push(v[i].clone());
        assert(string_views(out@) =~= before.push(v@[i as int]@));
        assert(string_views(v@.take(i + 1)) =~= string_views(v@.take(i as int)).push(v@[i as int]@));
        i = i + 1;
    }
    assert(v@.take(v@.len() as int) =~= v@);
    out
}

fn find_family(families: &Vec<CompileProviderFamily>, code: &str) -> (r: Option<usize>)
    ensures
        match r {
            Some(p) => p < families@.len() && families@[p as int].provider_code@ == code@,
            None => forall|k: int| 0 <= k < families@.len() ==> families@[k].provider_code@ != code@,
        },
{
    let mut p: usize = 0;
    while p < families.len()
        invariant
            p <= families@.len(),
            forall|k: int| 0 <= k < p ==> families@[k].provider_code@ != code@,
        decreases families.len() - p,
    {
        if str_eq(families[p].provider_code.as_str(), code) {
            return Some(p);
        }
        p = p + 1;
    }
    None
}

/// The providers flows compile against: one family per provider with an instance that counts,
/// holding what [`family_of`] gives (its models in text order, each once), and no other.
pub fn provider_families(instances: &Vec<CompileProviderInstance>) -> (out: Vec<CompileProviderFamily>)
    ensures
        forall|j: int, k: int| 0 <= j < k < out@.len() ==> out@[j].provider_code@ != out@[k].provider_code@,
        forall|j: int| 0 <= j < out@.len() ==> family_of(instances@, #[trigger] out@[j].provider_code@) == Some(
            family_facts(out@[j]),
        ),
        forall|j: int| 0 <= j < out@.len() ==> texts_ascending(string_views(#[trigger] out@[j].available_models@)),
        forall|code: Seq<char>| #[trigger] family_of(instances@, code) is Some ==> exists|j: int|
            0 <= j < out@.len() && out@[j].provider_code@ == code,
{
    let mut out: Vec<CompileProviderFamily> = Vec::new();
    let mut i: usize = 0;
    while i < instances.len()
        invariant
            i <= instances@.len(),
            forall|j: int, k: int| 0 <= j < k < out@.len() ==> out@[j].provider_code@ != out@[k].provider_code@,
            forall|j: int| 0 <= j < out@.len() ==> family_of(instances@.take(i as int), #[trigger] out@[j].provider_code@)
                == Some(family_facts(out@[j])),
            forall|j: int| 0 <= j < out@.len() ==> texts_ascending(string_views(#[trigger] out@[j].available_models@)),
            forall|code: Seq<char>| #[trigger] family_of(instances@.take(i as int), code) is Some ==> exists|j: int|
                0 <= j < out@.len() && out@[j].provider_code@ == code,
        decreases instances.len() - i,
    {
        let x = &instances[i];
        let ghost prev = instances@.take(i as int);
        let ghost next = instances@.take(i + 1);
        assert(next.drop_last() =~= prev);
        assert(next.last() == instances@[i as int]);
        if x.included_in_main && x.is_runnable {
            let position = find_family(&out, x.provider_code.as_str());
            if let Some(p) = position {
                let ghost old_out = out@;
                let ghost old_facts = family_facts(out@[p as int]);
                let mut family = CompileProviderFamily {
                    provider_code: out[p].provider_code.clone(),
                    protocol: out[p].protocol.clone(),
                    is_ready: out[p].is_ready || x.is_ready,
                    available_models: clone_strings(&out[p].available_models),
                    allow_custom_models: out[p].allow_custom_models || x.allow_custom_models,
                };
                insert_texts_sorted(&mut family.available_models, &x.available_models);
                out.set(p, family);
                proof {
                    assert forall|j: int| 0 <= j < out@.len() implies family_of(next, #[trigger] out@[j].provider_code@)
                        == Some(family_facts(out@[j])) by {
                        if j != p {
                            assert(out@[j] == old_out[j]);
                        }
                    }
                    assert forall|j: int| 0 <= j < out@.len() implies texts_ascending(
                        string_views(#[trigger] out@[j].available_models@),
                    ) by {
                        if j != p {
                            assert(out@[j] == old_out[j]);
                        }
                    }
                    assert forall|code: Seq<char>| #[trigger] family_of(next, code) is Some implies exists|j: int|
                        0 <= j < out@.len() && out@[j].provider_code@ == code by {
                        if code == x.provider_code@ {
                            assert(out@[p as int].provider_code@ == code);
                        } else {
                            assert(family_of(next, code) == family_of(prev, code));
                            assert(family_of(prev, code) is Some);
                            let j = choose|j: int| 0 <= j < old_out.len() && old_out[j].provider_code@ == code;
                            assert(out@[j] == old_out[j]);
                        }
                    }
                    assert forall|j: int, k: int| 0 <= j < k < out@.len() implies out@[j].provider_code@
                        != out@[k].provider_code@ by {
                        assert(old_out[j].provider_code@ != old_out[k].provider_code@);
                    }
                }
            } else {
                proof {
                    if family_of(prev, x.provider_code@) is Some {
                        let j = choose|j: int| 0 <= j < out@.len() && out@[j].provider_code@ == x.provider_code@;
                        assert(out@[j].provider_code@ != x.provider_code@);
                        assert(false);
                    }
                }
                let ghost old_out = out@;
                let mut models: Vec<String> = Vec::new();
                assert(string_views(models@) =~= Seq::<Seq<char>>::empty());
                insert_texts_sorted(&mut models, &x.available_models);
                assert(Seq::<Seq<char>>::empty().to_set().union(string_views(x.available_models@).to_set())
                    =~= string_views(x.available_models@).to_set());
                out.push(CompileProviderFamily {
                    provider_code: x.provider_code.clone(),
                    protocol: x.protocol.clone(),
                    is_ready: x.is_ready,
                    available_models: models,
                    allow_custom_models: x.allow_custom_models,
                });
                proof {
                    assert forall|j: int| 0 <= j < out@.len() implies texts_ascending(
                        string_views(#[trigger] out@[j].available_models@),
                    ) by {
                        if j < old_out.len() {
                            assert(out@[j] == old_out[j]);
                        }
                    }
                    assert forall|j: int| 0 <= j < out@.len() implies family_of(next, #[trigger] out@[j].provider_code@)
                        == Some(family_facts(out@[j])) by {
                        if j < old_out.len() {
                            assert(out@[j] == old_out[j]);
                        }
                    }
                    assert forall|code: Seq<char>| #[trigger] family_of(next, code) is Some implies exists|j: int|
                        0 <= j < out@.len() && out@[j].provider_code@ == code by {
                        if code == x.provider_code@ {
                            assert(out@[old_out.len() as int].provider_code@ == code);
                        } else {
                            assert(family_of(next, code) == family_of(prev, code));
                            assert(family_of(prev, code) is Some);
                            let j = choose|j: int| 0 <= j < old_out.len() && old_out[j].provider_code@ == code;
                            assert(out@[j] == old_out[j]);
                        }
                    }
                    assert forall|j: int, k: int| 0 <= j < k < out@.len() implies out@[j].provider_code@
                        != out@[k].provider_code@ by {
                        if k < old_out.len() {
                            assert(old_out[j].provider_code@ != old_out[k].provider_code@);
                        } else {
                            assert(out@[j] == old_out[j]);
                        }
                    }
                }
            }
        } else {
            proof {
                assert forall|code: Seq<char>| family_of(next, code) == family_of(prev, code) by {}
            }
        }
        i = i + 1;
    }
    assert(instances@.take(instances@.len() as int) =~= instances@);
    out
}

/// An installation as the compile context reads it: whether it is disabled and whether it is
/// available.
pub struct InstallationState {
    pub disabled: bool,
    pub available: bool,
}

/// Whether an instance's installation can run: it is assigned to the workspace, it is found, it
/// is not disabled and it is available.
pub open spec fn installation_runs(assigned: bool, installation: Option<&InstallationState>) -> bool {
    assigned && match installation {
        Some(i) => !i.disabled && i.available,
        None => false,
    }
}

/// Whether an instance's installation can run (see [`installation_runs`]).
pub fn installation_is_runnable(assigned: bool, installation: Option<&InstallationState>) -> (b: bool)
    ensures
        b == installation_runs(assigned, installation),
{
    if !assigned {
        return false;
    }
    match installation {
        None => false,
        Some(i) => !i.disabled && i.available,
    }
}

/// An instance takes models beyond those it lists exactly when it enables none.
pub fn allow_custom_models(enabled_model_ids: &Vec<String>) -> (b: bool)
    ensures
        b == (enabled_model_ids@.len() == 0),
{
    enabled_model_ids.len() == 0
}

/// An entry of an instance's model catalog.
pub struct CatalogEntryFacts {
    pub status: String,
    pub upstream_model_id: String,
}

/// The upstream models of the active entries of a catalog.
pub open spec fn active_catalog_models(entries: Seq<CatalogEntryFacts>) -> Set<Seq<char>>
    decreases entries.len(),
{
    if entries.len() == 0 {
        Set::empty()
    } else {
        let before = active_catalog_models(entries.drop_last());
        if entries.last().status@ == "active"@ {
            before.insert(entries.last().upstream_model_id@)
        } else {
            before
        }
    }
}

/// The models an instance offers flows: those it enables, else the upstream models of the active
/// entries of its catalog.
pub open spec fn offered_models(enabled: Seq<Seq<char>>, catalog: Seq<CatalogEntryFacts>) -> Set<Seq<char>> {
    if enabled.len() > 0 {
        enabled.to_set()
    } else {
        active_catalog_models(catalog)
    }
}

/// The models an instance offers flows, as a set in text order (see [`offered_models`]). The
/// catalog is read only where the instance enables no model.
pub fn available_models_for_instance(enabled_model_ids: &Vec<String>, catalog_entries: &Vec<CatalogEntryFacts>) -> (models: Vec<String>)
    ensures
        texts_ascending(string_views(models@)),
        string_views(models@).to_set() == offered_models(string_views(enabled_model_ids@), catalog_entries@),
{
    let mut models: Vec<String> = Vec::new();
    assert(string_views(models@) =~= Seq::<Seq<char>>::empty());
    if enabled_model_ids.len() > 0 {
        insert_texts_sorted(&mut models, enabled_model_ids);
        assert(Seq::<Seq<char>>::empty().to_set().union(string_views(enabled_model_ids@).to_set())
            =~= string_views(enabled_model_ids@).to_set());
        return models;
    }
    let mut i: usize = 0;
    assert(catalog_entries@.take(0) =~= Seq::<CatalogEntryFacts>::empty());
    assert(string_views(models@).to_set() =~= Set::<Seq<char>>::empty());
    while i < catalog_entries.len()
        invariant
            i <= catalog_entries@.len(),
            texts_ascending(string_views(models@)),
            string_views(models@).to_set() == active_catalog_models(catalog_entries@.take(i as int)),
        decreases catalog_entries.len() - i,
    {
        assert(catalog_entries@.take(i + 1).drop_last() =~= catalog_entries@.take(i as int));
        if str_eq(catalog_entries[i].status.as_str(), "active") {
            insert_text_sorted(&mut models, catalog_entries[i].upstream_model_id.as_str());
        }
        i = i + 1;
    }
    assert(catalog_entries@.take(catalog_entries@.len() as int) =~= catalog_entries@);
    models
}

/// A stored instance as the compile context holds it: ready when its status is ready; runnable
/// when its installation is (see [`installation_is_runnable`]); taking custom models when it
/// enables none; offering the models [`available_models_for_instance`] gives.
pub fn compile_provider_instance(
    provider_code: &str,
    protocol: &str,
    status: ModelProviderInstanceStatus,
    included_in_main: bool,
    enabled_model_ids: &Vec<String>,
    catalog_entries: &Vec<CatalogEntryFacts>,
    assigned: bool,
    installation: Option<&InstallationState>,
) -> (c: CompileProviderInstance)
    ensures
        c.provider_code@ == provider_code@,
        c.protocol@ == protocol@,
        c.is_ready == (status == ModelProviderInstanceStatus::Ready),
        c.is_runnable == installation_runs(assigned, installation),
        c.included_in_main == included_in_main,
        c.allow_custom_models == (enabled_model_ids@.len() == 0),
        texts_ascending(string_views(c.available_models@)),
        string_views(c.available_models@).to_set() == offered_models(
            string_views(enabled_model_ids@),
            catalog_entries@,
        ),
{
    CompileProviderInstance {
        provider_code: to_string(provider_code),
        protocol: to_string(protocol),
        is_ready: status == ModelProviderInstanceStatus::Ready,
        is_runnable: installation_is_runnable(assigned, installation),
        included_in_main,
        available_models: available_models_for_instance(enabled_model_ids, catalog_entries),
        allow_custom_models: allow_custom_models(enabled_model_ids),
    }
}

} // verus!
