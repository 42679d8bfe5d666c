//! What a data model node of a flow reads from its configuration and inputs: the action, the
//! list query, the side-effect policy, and the checks on a confirmed side effect.

use vstd::prelude::*;
use crate::json::{
    clone_json, entry_views, get_str, lemma_array_view, lemma_object_view, spec_as_i64, spec_as_str, spec_get,
    views, JsonSpec, JsonValue,
};
use crate::orchestration_runtime::compiled_plan::CompiledNode;
use crate::errors::ControlPlaneError;
use crate::outside::{
    date_time_from_json, json_compact_bytes, json_date_time_nanos, now_unix_timestamp_nanos, uuid_parse, uuid_parsed, sha256_hex, sha256_lower_hex, uuid_hyphenated, uuid_to_hyphenated,
};
use crate::text::{lemma_trim_fixed, lower_seq, str_eq, to_ascii_lowercase, to_string, trim, trim_to_string};

verus! {

/// The largest page a flow may list.
pub const WORKFLOW_LIST_PAGE_SIZE_MAX: i64 = 100;

/// A required text of a JSON object: its string member, trimmed, unless blank.
pub open spec fn required_text(v: JsonSpec, key: Seq<char>) -> Option<Seq<char>> {
    match get_str(v, key) {
        Some(s) => if trim(s).len() > 0 {
            Some(trim(s))
        } else {
            None
        },
        None => None,
    }
}

fn required_text_of(v: &JsonValue, key: &str) -> (r: Option<String>)
    ensures
        crate::json::opt_string_view(r) == required_text(v@, key@),
{
    match v.get_str(key) {
        Some(s) => {
            let t = trim_to_string(s);
            if t.as_str().is_empty() {
                None
            } else {
                Some(t)
            }
        },
        None => None,
    }
}

/// `data_model config.{key} is required`.
pub open spec fn config_required_message(key: Seq<char>) -> Seq<char> {
    "data_model config."@ + key + " is required"@
}

/// A required text of a node's configuration.
pub fn required_config_string(config: &JsonValue, key: &str) -> (r: Result<String, String>)
    ensures
        match required_text(config@, key@) {
            Some(s) => r is Ok && r->Ok_0@ == s,
            None => r is Err && r->Err_0@ == config_required_message(key@),
        },
{
    match required_text_of(config, key) {
        Some(s) => Ok(s),
        None => {
            let mut m = to_string("data_model config.");
            m.push_str(key);
            m.push_str(" is required");
            Err(m)
        },
    }
}

/// What a data model node does, by its type.
pub open spec fn action_of(node_type: Seq<char>) -> Option<Seq<char>> {
    if node_type == "data_model_list"@ {
        Some("list"@)
    } else if node_type == "data_model_get"@ {
        Some("get"@)
    } else if node_type == "data_model_create"@ {
        Some("create"@)
    } else if node_type == "data_model_update"@ {
        Some("update"@)
    } else if node_type == "data_model_delete"@ {
        Some("delete"@)
    } else {
        None
    }
}

pub fn data_model_action(node: &CompiledNode) -> (r: Result<String, String>)
    ensures
        match action_of(node.node_type@) {
            Some(a) => r is Ok && r->Ok_0@ == a,
            None => r is Err && r->Err_0@ == "unsupported data_model node type: "@ + node.node_type@,
        },
{
    let t = node.node_type.as_str();
    if str_eq(t, "data_model_list") {
        Ok(to_string("list"))
    } else if str_eq(t, "data_model_get") {
        Ok(to_string("get"))
    } else if str_eq(t, "data_model_create") {
        Ok(to_string("create"))
    } else if str_eq(t, "data_model_update") {
        Ok(to_string("update"))
    } else if str_eq(t, "data_model_delete") {
        Ok(to_string("delete"))
    } else {
        let mut m = to_string("unsupported data_model node type: ");
        m.push_str(t);
        Err(m)
    }
}

/// A value a node takes from its resolved inputs first, else from its configuration.
pub open spec fn input_or_config(config: JsonSpec, inputs: JsonSpec, key: Seq<char>) -> Option<JsonSpec> {
    match spec_get(inputs, key) {
        Some(v) => Some(v),
        None => spec_get(config, key),
    }
}

pub fn input_or_config_value(config: &JsonValue, resolved_inputs: &JsonValue, key: &str) -> (r: Option<JsonValue>)
    ensures
        crate::json::opt_json_view(r) == input_or_config(config@, resolved_inputs@, key@),
{
    match resolved_inputs.get(key) {
        Some(v) => Some(clone_json(v)),
        None => match config.get(key) {
            Some(v) => Some(clone_json(v)),
            None => None,
        },
    }
}

/// The record a node reads or writes: its `record_id` input or configuration, as trimmed text.
pub open spec fn record_id_of(config: JsonSpec, inputs: JsonSpec) -> Option<Seq<char>> {
    match input_or_config(config, inputs, "record_id"@) {
        Some(v) => match spec_as_str(v) {
            Some(s) => if trim(s).len() > 0 {
                Some(trim(s))
            } else {
                None
            },
            None => None,
        },
        None => None,
    }
}

pub fn required_record_id(config: &JsonValue, resolved_inputs: &JsonValue) -> (r: Result<String, String>)
    ensures
        match record_id_of(config@, resolved_inputs@) {
            Some(s) => r is Ok && r->Ok_0@ == s,
            None => r is Err && r->Err_0@ == config_required_message("record_id"@),
        },
{
    let found = input_or_config_value(config, resolved_inputs, "record_id");
    let id = match &found {
        Some(v) => match v.as_str() {
            Some(s) => {
                let t = trim_to_string(s);
                if t.as_str().is_empty() {
                    None
                } else {
                    Some(t)
                }
            },
            None => None,
        },
        None => None,
    };
    match id {
        Some(t) => Ok(t),
        None => {
            proof {
                reveal_strlit("data_model config.record_id is required");
                reveal_strlit("data_model config.");
                reveal_strlit("record_id");
                reveal_strlit(" is required");
            }
            Err(to_string("data_model config.record_id is required"))
        },
    }
}

/// A write payload must be an object.
pub fn ensure_object_payload(payload: &JsonValue) -> (r: Result<(), String>)
    ensures
        r is Ok <==> payload@ is Object,
        r is Err ==> r->Err_0@ == "data_model payload must be object"@,
{
    if payload.is_object() {
        Ok(())
    } else {
        Err(to_string("data_model payload must be object"))
    }
}

// ---------------------------------------------------------------------------------------------
// List queries
// ---------------------------------------------------------------------------------------------

#[derive(Debug, Clone, Copy, PartialEq, Eq, Structural)]
pub enum ResourceFilterOperator {
    Eq,
    Ne,
    Gt,
    Gte,
    Lt,
    Lte,
}

/// A condition on one field of the listed records.
pub struct FieldFilter {
    pub field: String,
    pub operator: ResourceFilterOperator,
    pub value: JsonValue,
}

/// A sort key of a listing.
pub struct RuntimeSortInput {
    pub field_code: String,
    pub direction: String,
}

/// A list query: records meeting every filter, sorted, with relations expanded, one page.
pub struct ListOptions {
    pub filters: Vec<FieldFilter>,
    pub sorts: Vec<RuntimeSortInput>,
    pub expand_relations: Vec<String>,
    pub page: i64,
    pub page_size: i64,
}

pub open spec fn operator_of(op: Seq<char>) -> Option<ResourceFilterOperator> {
    if op == "eq"@ {
        Some(ResourceFilterOperator::Eq)
    } else if op == "ne"@ {
        Some(ResourceFilterOperator::Ne)
    } else if op == "gt"@ {
        Some(ResourceFilterOperator::Gt)
    } else if op == "gte"@ {
        Some(ResourceFilterOperator::Gte)
    } else if op == "lt"@ {
        Some(ResourceFilterOperator::Lt)
    } else if op == "lte"@ {
        Some(ResourceFilterOperator::Lte)
    } else {
        None
    }
}

/// The name under which a list filter asks for an operator.
pub open spec fn operator_name(o: ResourceFilterOperator) -> Seq<char> {
    match o {
        ResourceFilterOperator::Eq => "eq"@,
        ResourceFilterOperator::Ne => "ne"@,
        ResourceFilterOperator::Gt => "gt"@,
        ResourceFilterOperator::Gte => "gte"@,
        ResourceFilterOperator::Lt => "lt"@,
        ResourceFilterOperator::Lte => "lte"@,
    }
}

proof fn lemma_operator_names_distinct()
    ensures
        forall|a: ResourceFilterOperator, b: ResourceFilterOperator|
            #[trigger] operator_name(a) == #[trigger] operator_name(b) ==> a == b,
{
    reveal_strlit("eq");
    reveal_strlit("ne");
    reveal_strlit("gt");
    reveal_strlit("gte");
    reveal_strlit("lt");
    reveal_strlit("lte");
    assert("eq"@[0] == 'e');
    assert("ne"@[0] == 'n');
    assert("gt"@.len() == 2 && "gt"@[0] == 'g');
    assert("gte"@.len() == 3 && "gte"@[0] == 'g');
    assert("lt"@.len() == 2 && "lt"@[0] == 'l');
    assert("lte"@.len() == 3 && "lte"@[0] == 'l');
}

/// Each operator is accepted under its own name, and an accepted name gives the one operator
/// that bears it: "lte" gives `Lte` (at most), "lt" gives `Lt` (strictly less), and so on.
pub proof fn law_operator_names_round_trip(o: ResourceFilterOperator, op: Seq<char>)
    ensures
        operator_of(operator_name(o)) == Some(o),
        operator_of(op) == Some(o) <==> op == operator_name(o),
{
    lemma_operator_names_distinct();
    let n = operator_name(o);
    assert(operator_name(ResourceFilterOperator::Eq) == "eq"@);
    assert(operator_name(ResourceFilterOperator::Ne) == "ne"@);
    assert(operator_name(ResourceFilterOperator::Gt) == "gt"@);
    assert(operator_name(ResourceFilterOperator::Gte) == "gte"@);
    assert(operator_name(ResourceFilterOperator::Lt) == "lt"@);
    assert(operator_name(ResourceFilterOperator::Lte) == "lte"@);
}

/// Two operator names that are both accepted give the same operator only when they are the
/// same name: no two names share an operator.
pub proof fn law_distinct_names_give_distinct_operators(a: Seq<char>, b: Seq<char>)
    requires
        operator_of(a) is Some,
        operator_of(a) == operator_of(b),
    ensures
        a == b,
{
    let o = operator_of(a)->Some_0;
    law_operator_names_round_trip(o, a);
    law_operator_names_round_trip(o, b);
}

pub fn parse_workflow_filter_operator(operator: &str) -> (r: Result<ResourceFilterOperator, String>)
    ensures
        match operator_of(operator@) {
            Some(o) => r == Ok::<_, String>(o),
            None => r is Err && r->Err_0@ == "data_model list filter operator is unsupported"@,
        },
        r is Ok ==> operator@ == operator_name(r->Ok_0),
{
    proof {
        if operator_of(operator@) is Some {
            law_operator_names_round_trip(operator_of(operator@)->Some_0, operator@);
        }
    }
    if str_eq(operator, "eq") {
        Ok(ResourceFilterOperator::Eq)
    } else if str_eq(operator, "ne") {
        Ok(ResourceFilterOperator::Ne)
    } else if str_eq(operator, "gt") {
        Ok(ResourceFilterOperator::Gt)
    } else if str_eq(operator, "gte") {
        Ok(ResourceFilterOperator::Gte)
    } else if str_eq(operator, "lt") {
        Ok(ResourceFilterOperator::Lt)
    } else if str_eq(operator, "lte") {
        Ok(ResourceFilterOperator::Lte)
    } else {
        Err(to_string("data_model list filter operator is unsupported"))
    }
}

/// Sort directions are `asc` and `desc`, in any ASCII case.
pub open spec fn supported_direction(direction: Seq<char>) -> bool {
    lower_seq(direction) == "asc"@ || lower_seq(direction) == "desc"@
}

pub fn ensure_supported_sort_direction(direction: &str) -> (r: Result<(), String>)
    ensures
        r is Ok <==> supported_direction(direction@),
        r is Err ==> r->Err_0@ == "data_model list sort direction is unsupported"@,
{
    let lowered = to_ascii_lowercase(direction);
    if str_eq(lowered.as_str(), "asc") || str_eq(lowered.as_str(), "desc") {
        Ok(())
    } else {
        Err(to_string("data_model list sort direction is unsupported"))
    }
}

/// `data_model list {key} is required`.
pub open spec fn list_required_message(key: Seq<char>) -> Seq<char> {
    "data_model list "@ + key + " is required"@
}

/// A required text of a list query entry.
pub fn required_string(object: &JsonValue, key: &str) -> (r: Result<String, String>)
    ensures
        match required_text(object@, key@) {
            Some(s) => r is Ok && r->Ok_0@ == s,
            None => r is Err && r->Err_0@ == list_required_message(key@),
        },
{
    match required_text_of(object, key) {
        Some(s) => Ok(s),
        None => {
            let mut m = to_string("data_model list ");
            m.push_str(key);
            m.push_str(" is required");
            Err(m)
        },
    }
}

/// The model of a parsed filter.
pub struct FilterSpec {
    pub field: Seq<char>,
    pub operator: ResourceFilterOperator,
    pub value: JsonSpec,
}

pub open spec fn filter_spec(f: FieldFilter) -> FilterSpec {
    FilterSpec { field: f.field@, operator: f.operator, value: f.value@ }
}

pub open spec fn filter_specs(v: Seq<FieldFilter>) -> Seq<FilterSpec> {
    v.map_values(|f: FieldFilter| filter_spec(f))
}

/// One filter entry: an object with an `operator` and a `field_code`, the operator known; its
/// `value` is null when absent.
pub open spec fn parse_filter_entry(e: JsonSpec) -> Result<FilterSpec, Seq<char>> {
    if !(e is Object) {
        Err("data_model list filter must be object"@)
    } else {
        match required_text(e, "operator"@) {
            None => Err(list_required_message("operator"@)),
            Some(op) => match required_text(e, "field_code"@) {
                None => Err(list_required_message("field_code"@)),
                Some(field) => match operator_of(op) {
                    None => Err("data_model list filter operator is unsupported"@),
                    Some(o) => Ok(
                        FilterSpec {
                            field,
                            operator: o,
                            value: match spec_get(e, "value"@) {
                                Some(v) => v,
                                None => JsonSpec::Null,
                            },
                        },
                    ),
                },
            },
        }
    }
}

/// The entries parsed in order; the first bad entry decides the error.
pub open spec fn parse_filter_entries(es: Seq<JsonSpec>) -> Result<Seq<FilterSpec>, Seq<char>>
    decreases es.len(),
{
    if es.len() == 0 {
        Ok(seq![])
    } else {
        match parse_filter_entries(es.drop_last()) {
            Err(m) => Err(m),
            Ok(fs) => match parse_filter_entry(es.last()) {
                Err(m) => Err(m),
                Ok(f) => Ok(fs.push(f)),
            },
        }
    }
}

proof fn lemma_filter_entries_err_stays(es: Seq<JsonSpec>, i: int)
    requires
        0 <= i <= es.len(),
        parse_filter_entries(es.take(i)) is Err,
    ensures
        parse_filter_entries(es) == parse_filter_entries(es.take(i)),
    decreases es.len() - i,
{
    if i < es.len() {
        assert(es.take(i + 1).drop_last() =~= es.take(i));
        lemma_filter_entries_err_stays(es, i + 1);
    } else {
        assert(es.take(i) =~= es);
    }
}

fn parse_filter_entry_exec(e: &JsonValue) -> (r: Result<FieldFilter, String>)
    ensures
        match parse_filter_entry(e@) {
            Ok(f) => r is Ok && filter_spec(r->Ok_0) == f,
            Err(m) => r is Err && r->Err_0@ == m,
        },
{
    if !e.is_object() {
        return Err(to_string("data_model list filter must be object"));
    }
    let operator = match required_string(e, "operator") {
        Ok(o) => o,
        Err(m) => {
            return Err(m);
        },
    };
    let field = match required_string(e, "field_code") {
        Ok(f) => f,
        Err(m) => {
            return Err(m);
        },
    };
    let op = match parse_workflow_filter_operator(operator.as_str()) {
        Ok(o) => o,
        Err(m) => {
            return Err(m);
        },
    };
    let value = match e.get("value") {
        Some(v) => clone_json(v),
        None => JsonValue::Null,
    };
    Ok(FieldFilter { field, operator: op, value })
}

/// The filters of a list query: none when absent; else an array of filter entries.
pub open spec fn parse_filters_spec(value: Option<JsonSpec>) -> Result<Seq<FilterSpec>, Seq<char>> {
    match value {
        None => Ok(seq![]),
        Some(JsonSpec::Array(es)) => parse_filter_entries(es),
        Some(_) => Err("data_model list filters must be array"@),
    }
}

pub fn parse_filters(value: Option<&JsonValue>) -> (r: Result<Vec<FieldFilter>, String>)
    ensures
        match parse_filters_spec(crate::json::opt_view(value)) {
            Ok(fs) => r is Ok && filter_specs(r->Ok_0@) == fs,
            Err(m) => r is Err && r->Err_0@ == m,
        },
{
    let entries = match value {
        None => {
            let out: Vec<FieldFilter> = Vec::new();
            assert(filter_specs(out@) =~= Seq::<FilterSpec>::empty());
            return Ok(out);
        },
        Some(JsonValue::Array(entries)) => entries,
        Some(_) => {
            return Err(to_string("data_model list filters must be array"));
        },
    };
    proof {
        lemma_array_view(*entries);
    }
    let ghost es = views(entries@);
    let mut out: Vec<FieldFilter> = Vec::new();
    let mut i: usize = 0;
    assert(es.take(0) =~= Seq::<JsonSpec>::empty());
    assert(filter_specs(out@) =~= Seq::<FilterSpec>::empty());
    while i < entries.len()
        invariant
            i <= entries@.len(),
            es == views(entries@),
            crate::json::opt_view(value) == Some(JsonSpec::Array(es)),
            parse_filter_entries(es.take(i as int)) == Ok::<Seq<FilterSpec>, Seq<char>>(filter_specs(out@)),
        decreases entries.len() - i,
    {
        assert(es.take(i + 1).drop_last() =~= es.take(i as int));
        assert(es.take(i + 1).last() == entries@[i as int]@);
        match parse_filter_entry_exec(&entries[i]) {
            Ok(f) => {
                let ghost before = filter_specs(out@);
                out.push(f);
                assert(filter_specs(out@) =~= before.push(filter_spec(f)));
            },
            Err(m) => {
                proof {
                    assert(parse_filter_entries(es.take(i + 1)) == Err::<Seq<FilterSpec>, Seq<char>>(m@));
                    lemma_filter_entries_err_stays(es, i + 1);
                }
                return Err(m);
            },
        }
        i = i + 1;
    }
    assert(es.take(entries.len() as int) =~= es);
    Ok(out)
}

pub open spec fn sort_specs(v: Seq<RuntimeSortInput>) -> Seq<(Seq<char>, Seq<char>)> {
    v.map_values(|s: RuntimeSortInput| (s.field_code@, s.direction@))
}

/// One sort entry: an object; its `direction` (`asc` when absent) lower-cased and supported;
/// its `field_code` required.
pub open spec fn parse_sort_entry(e: JsonSpec) -> Result<(Seq<char>, Seq<char>), Seq<char>> {
    if !(e is Object) {
        Err("data_model list sort must be object"@)
    } else {
        let direction = lower_seq(
            match get_str(e, "direction"@) {
                Some(d) => d,
                None => "asc"@,
            },
        );
        if !supported_direction(direction) {
            Err("data_model list sort direction is unsupported"@)
        } else {
            match required_text(e, "field_code"@) {
                None => Err(list_required_message("field_code"@)),
                Some(field) => Ok((field, direction)),
            }
        }
    }
}

pub open spec fn parse_sort_entries(es: Seq<JsonSpec>) -> Result<Seq<(Seq<char>, Seq<char>)>, Seq<char>>
    decreases es.len(),
{
    if es.len() == 0 {
        Ok(seq![])
    } else {
        match parse_sort_entries(es.drop_last()) {
            Err(m) => Err(m),
            Ok(ss) => match parse_sort_entry(es.last()) {
                Err(m) => Err(m),
                Ok(s) => Ok(ss.push(s)),
            },
        }
    }
}

proof fn lemma_sort_entries_err_stays(es: Seq<JsonSpec>, i: int)
    requires
        0 <= i <= es.len(),
        parse_sort_entries(es.take(i)) is Err,
    ensures
        parse_sort_entries(es) == parse_sort_entries(es.take(i)),
    decreases es.len() - i,
{
    if i < es.len() {
        assert(es.take(i + 1).drop_last() =~= es.take(i));
        lemma_sort_entries_err_stays(es, i + 1);
    } else {
        assert(es.take(i) =~= es);
    }
}

fn parse_sort_entry_exec(e: &JsonValue) -> (r: Result<RuntimeSortInput, String>)
    ensures
        match parse_sort_entry(e@) {
            Ok(s) => r is Ok && (r->Ok_0.field_code@, r->Ok_0.direction@) == s,
            Err(m) => r is Err && r->Err_0@ == m,
        },
{
    if !e.is_object() {
        return Err(to_string("data_model list sort must be object"));
    }
    let direction = match e.get_str("direction") {
        Some(d) => to_ascii_lowercase(d),
        None => {
            proof {
                reveal_strlit("asc");
            }
            to_ascii_lowercase("asc")
        },
    };
    match ensure_supported_sort_direction(direction.as_str()) {
        Ok(()) => {},
        Err(m) => {
            return Err(m);
        },
    }
    proof {
        reveal_strlit("asc");
        reveal_strlit("desc");
        assert(lower_seq(direction@) == direction@) by {
            assert(lower_seq(direction@) =~= direction@);
        }
    }
    let field_code = match required_string(e, "field_code") {
        Ok(f) => f,
        Err(m) => {
            return Err(m);
        },
    };
    Ok(RuntimeSortInput { field_code, direction })
}

pub open spec fn parse_sorts_spec(value: Option<JsonSpec>) -> Result<Seq<(Seq<char>, Seq<char>)>, Seq<char>> {
    match value {
        None => Ok(seq![]),
        Some(JsonSpec::Array(es)) => parse_sort_entries(es),
        Some(_) => Err("data_model list sorts must be array"@),
    }
}

pub fn parse_sorts(value: Option<&JsonValue>) -> (r: Result<Vec<RuntimeSortInput>, String>)
    ensures
        match parse_sorts_spec(crate::json::opt_view(value)) {
            Ok(ss) => r is Ok && sort_specs(r->Ok_0@) == ss,
            Err(m) => r is Err && r->Err_0@ == m,
        },
{
    let entries = match value {
        None => {
            let out: Vec<RuntimeSortInput> = Vec::new();
            assert(sort_specs(out@) =~= Seq::<(Seq<char>, Seq<char>)>::empty());
            return Ok(out);
        },
        Some(JsonValue::Array(entries)) => entries,
        Some(_) => {
            return Err(to_string("data_model list sorts must be array"));
        },
    };
    proof {
        lemma_array_view(*entries);
    }
    let ghost es = views(entries@);
    let mut out: Vec<RuntimeSortInput> = Vec::new();
    let mut i: usize = 0;
    assert(es.take(0) =~= Seq::<JsonSpec>::empty());
    assert(sort_specs(out@) =~= Seq::<(Seq<char>, Seq<char>)>::empty());
    while i < entries.len()
        invariant
            i <= entries@.len(),
            es == views(entries@),
            crate::json::opt_view(value) == Some(JsonSpec::Array(es)),
            parse_sort_entries(es.take(i as int)) == Ok::<Seq<(Seq<char>, Seq<char>)>, Seq<char>>(sort_specs(out@)),
        decreases entries.len() - i,
    {
        assert(es.take(i + 1).drop_last() =~= es.take(i as int));
        assert(es.take(i + 1).last() == entries@[i as int]@);
        match parse_sort_entry_exec(&entries[i]) {
            Ok(s) => {
                let ghost before = sort_specs(out@);
                let ghost sv = (s.field_code@, s.direction@);
                out.push(s);
                assert(sort_specs(out@) =~= before.push(sv));
            },
            Err(m) => {
                proof {
                    lemma_sort_entries_err_stays(es, i + 1);
                }
                return Err(m);
            },
        }
        i = i + 1;
    }
    assert(es.take(entries.len() as int) =~= es);
    Ok(out)
}

/// The strings of an array, in order; the first non-string item makes it an error.
pub open spec fn string_items(es: Seq<JsonSpec>) -> Option<Seq<Seq<char>>>
    decreases es.len(),
{
    if es.len() == 0 {
        Some(seq![])
    } else {
        match string_items(es.drop_last()) {
            None => None,
            Some(ss) => match spec_as_str(es.last()) {
                None => None,
                Some(s) => Some(ss.push(s)),
            },
        }
    }
}

proof fn lemma_string_items_none_stays(es: Seq<JsonSpec>, i: int)
    requires
        0 <= i <= es.len(),
        string_items(es.take(i)) is None,
    ensures
        string_items(es) is None,
    decreases es.len() - i,
{
    if i < es.len() {
        assert(es.take(i + 1).drop_last() =~= es.take(i));
        lemma_string_items_none_stays(es, i + 1);
    } else {
        assert(es.take(i) =~= es);
    }
}

pub open spec fn parse_string_list_spec(value: Option<JsonSpec>) -> Result<Seq<Seq<char>>, Seq<char>> {
    match value {
        None => Ok(seq![]),
        Some(JsonSpec::Array(es)) => match string_items(es) {
            Some(ss) => Ok(ss),
            None => Err("data_model list expand_relations item must be string"@),
        },
        Some(_) => Err("data_model list expand_relations must be array"@),
    }
}

pub fn parse_string_list(value: Option<&JsonValue>) -> (r: Result<Vec<String>, String>)
    ensures
        match parse_string_list_spec(crate::json::opt_view(value)) {
            Ok(ss) => r is Ok && crate::text::string_views(r->Ok_0@) == ss,
            Err(m) => r is Err && r->Err_0@ == m,
        },
{
    let entries = match value {
        None => {
            let out: Vec<String> = Vec::new();
            assert(crate::text::string_views(out@) =~= Seq::<Seq<char>>::empty());
            return Ok(out);
        },
        Some(JsonValue::Array(entries)) => entries,
        Some(_) => {
            return Err(to_string("data_model list expand_relations must be array"));
        },
    };
    proof {
        lemma_array_view(*entries);
    }
    let ghost es = views(entries@);
    let mut out: Vec<String> = Vec::new();
    let mut i: usize = 0;
    assert(es.take(0) =~= Seq::<JsonSpec>::empty());
    assert(crate::text::string_views(out@) =~= Seq::<Seq<char>>::empty());
    while i < entries.len()
        invariant
            i <= entries@.len(),
            es == views(entries@),
            crate::json::opt_view(value) == Some(JsonSpec::Array(es)),
            string_items(es.take(i as int)) == Some(crate::text::string_views(out@)),
        decreases entries.len() - i,
    {
        assert(es.take(i + 1).drop_last() =~= es.take(i as int));
        assert(es.take(i + 1).last() == entries@[i as int]@);
        match entries[i].as_str() {
            Some(s) => {
                let ghost before = crate::text::string_views(out@);
                out.push(to_string(s));
                assert(crate::text::string_views(out@) =~= before.push(s@));
            },
            None => {
                proof {
                    lemma_string_items_none_stays(es, i + 1);
                }
                return Err(to_string("data_model list expand_relations item must be string"));
            },
        }
        i = i + 1;
    }
    assert(es.take(entries.len() as int) =~= es);
    Ok(out)
}

/// `data_model list {key} must be integer`.
pub open spec fn integer_message(key: Seq<char>) -> Seq<char> {
    "data_model list "@ + key + " must be integer"@
}

/// An integer of a list query, or its default when absent.
pub fn optional_integer(value: Option<&JsonValue>, key: &str, default_value: i64) -> (r: Result<i64, String>)
    ensures
        match crate::json::opt_view(value) {
            None => r == Ok::<i64, String>(default_value),
            Some(v) => match spec_as_i64(v) {
                Some(n) => r is Ok && r->Ok_0 == n,
                None => r is Err && r->Err_0@ == integer_message(key@),
            },
        },
{
    match value {
        None => Ok(default_value),
        Some(v) => match v.as_i64() {
            Some(n) => Ok(n),
            None => {
                let mut m = to_string("data_model list ");
                m.push_str(key);
                m.push_str(" must be integer");
                Err(m)
            },
        },
    }
}

/// The model of parsed list options.
pub struct ListSpec {
    pub filters: Seq<FilterSpec>,
    pub sorts: Seq<(Seq<char>, Seq<char>)>,
    pub expand_relations: Seq<Seq<char>>,
    pub page: int,
    pub page_size: int,
}

pub open spec fn clamp(n: int, lo: int, hi: int) -> int {
    if n < lo {
        lo
    } else if n > hi {
        hi
    } else {
        n
    }
}

/// A list query: null or an object; `page` at least 1 (default 1); `page_size` between 1 and
/// the maximum (default 20); then its filters, sorts and relations to expand, in that order of
/// checking.
pub open spec fn list_options_spec(value: JsonSpec) -> Result<ListSpec, Seq<char>> {
    let obj = match value {
        JsonSpec::Null => Some(JsonSpec::Object(seq![])),
        JsonSpec::Object(e) => Some(value),
        _ => None,
    };
    match obj {
        None => Err("data_model list query must be object"@),
        Some(o) => {
            let page = match spec_get(o, "page"@) {
                None => Some(1int),
                Some(v) => spec_as_i64(v),
            };
            let size = match spec_get(o, "page_size"@) {
                None => Some(20int),
                Some(v) => spec_as_i64(v),
            };
            match page {
                None => Err(integer_message("page"@)),
                Some(p) => match size {
                    None => Err(integer_message("page_size"@)),
                    Some(s) => match parse_filters_spec(spec_get(o, "filters"@)) {
                        Err(m) => Err(m),
                        Ok(fs) => match parse_sorts_spec(spec_get(o, "sorts"@)) {
                            Err(m) => Err(m),
                            Ok(ss) => match parse_string_list_spec(spec_get(o, "expand_relations"@)) {
                                Err(m) => Err(m),
                                Ok(rs) => Ok(
                                    ListSpec {
                                        filters: fs,
                                        sorts: ss,
                                        expand_relations: rs,
                                        page: if p < 1 { 1 } else { p },
                                        page_size: clamp(s, 1, WORKFLOW_LIST_PAGE_SIZE_MAX as int),
                                    },
                                ),
                            },
                        },
                    },
                },
            }
        },
    }
}

pub open spec fn list_spec(o: ListOptions) -> ListSpec {
    ListSpec {
        filters: filter_specs(o.filters@),
        sorts: sort_specs(o.sorts@),
        expand_relations: crate::text::string_views(o.expand_relations@),
        page: o.page as int,
        page_size: o.page_size as int,
    }
}

impl ListOptions {
    /// Parses a list query.
    pub fn from_value(value: &JsonValue) -> (r: Result<ListOptions, String>)
        ensures
            match list_options_spec(value@) {
                Ok(l) => r is Ok && list_spec(r->Ok_0) == l,
                Err(m) => r is Err && r->Err_0@ == m,
            },
    {
        let empty_entries: Vec<(String, JsonValue)> = Vec::new();
        proof {
            crate::json::lemma_object_view(empty_entries);
        }
        assert(crate::json::entry_views(empty_entries@) =~= Seq::<(Seq<char>, JsonSpec)>::empty());
        let empty = JsonValue::Object(empty_entries);
        let object: &JsonValue = match value {
            JsonValue::Null => &empty,
            JsonValue::Object(_) => value,
            _ => {
                return Err(to_string("data_model list query must be object"));
            },
        };
        let page = match optional_integer(object.get("page"), "page", 1) {
            Ok(p) => p,
            Err(m) => {
                return Err(m);
            },
        };
        let page_size = match optional_integer(object.get("page_size"), "page_size", 20) {
            Ok(s) => s,
            Err(m) => {
                return Err(m);
            },
        };
        let page = if page < 1 { 1 } else { page };
        let page_size = if page_size < 1 {
            1
        } else if page_size > WORKFLOW_LIST_PAGE_SIZE_MAX {
            WORKFLOW_LIST_PAGE_SIZE_MAX
        } else {
            page_size
        };
        let filters = match parse_filters(object.get("filters")) {
            Ok(f) => f,
            Err(m) => {
                return Err(m);
            },
        };
        let sorts = match parse_sorts(object.get("sorts")) {
            Ok(s) => s,
            Err(m) => {
                return Err(m);
            },
        };
        let expand_relations = match parse_string_list(object.get("expand_relations")) {
            Ok(r) => r,
            Err(m) => {
                return Err(m);
            },
        };
        Ok(ListOptions { filters, sorts, expand_relations, page, page_size })
    }
}


// ---------------------------------------------------------------------------------------------
// Side effects
// ---------------------------------------------------------------------------------------------

/// Whether a data model node may write, and how.
#[derive(Debug, Clone, Copy, PartialEq, Eq, Structural)]
pub enum DataModelSideEffectPolicy {
    Disabled,
    ConfirmEachRun,
    AllowWithIdempotency,
}

/// The side-effect policy of a node: its configured `side_effect_policy`, `disabled` when absent.
pub open spec fn policy_of(config: JsonSpec) -> Result<DataModelSideEffectPolicy, Seq<char>> {
    let p = match get_str(config, "side_effect_policy"@) {
        Some(p) => p,
        None => "disabled"@,
    };
    if p == "disabled"@ {
        Ok(DataModelSideEffectPolicy::Disabled)
    } else if p == "confirm_each_run"@ {
        Ok(DataModelSideEffectPolicy::ConfirmEachRun)
    } else if p == "allow_with_idempotency"@ {
        Ok(DataModelSideEffectPolicy::AllowWithIdempotency)
    } else {
        Err("unsupported data_model side_effect_policy: "@ + p)
    }
}

pub fn data_model_side_effect_policy(node: &CompiledNode) -> (r: Result<DataModelSideEffectPolicy, String>)
    ensures
        match policy_of(node.config@) {
            Ok(p) => r == Ok::<_, String>(p),
            Err(m) => r is Err && r->Err_0@ == m,
        },
{
    let p = match node.config.get_str("side_effect_policy") {
        Some(p) => p,
        None => {
            proof {
                reveal_strlit("disabled");
            }
            "disabled"
        },
    };
    if str_eq(p, "disabled") {
        Ok(DataModelSideEffectPolicy::Disabled)
    } else if str_eq(p, "confirm_each_run") {
        Ok(DataModelSideEffectPolicy::ConfirmEachRun)
    } else if str_eq(p, "allow_with_idempotency") {
        Ok(DataModelSideEffectPolicy::AllowWithIdempotency)
    } else {
        let mut m = to_string("unsupported data_model side_effect_policy: ");
        m.push_str(p);
        Err(m)
    }
}

/// The run a data model node writes in.
#[derive(Clone, Copy)]
pub struct DataModelRunContext {
    pub workspace_id: u128,
    pub application_id: u128,
    pub draft_id: u128,
    pub flow_run_id: u128,
    pub node_run_id: u128,
}

/// A write that waits for, or got, its confirmation.
pub struct DataModelSideEffectRequest {
    pub action: String,
    pub model_code: String,
    pub record_id: Option<String>,
    pub payload: JsonValue,
}

pub struct RequestSpec {
    pub action: Seq<char>,
    pub model_code: Seq<char>,
    pub record_id: Option<Seq<char>>,
    pub payload: JsonSpec,
}

pub open spec fn request_spec(r: DataModelSideEffectRequest) -> RequestSpec {
    RequestSpec {
        action: r.action@,
        model_code: r.model_code@,
        record_id: crate::json::opt_string_view(r.record_id),
        payload: r.payload@,
    }
}

/// `data_model side-effect payload {key} is required`.
pub open spec fn payload_required_message(key: Seq<char>) -> Seq<char> {
    "data_model side-effect payload "@ + key + " is required"@
}

pub fn required_payload_string(value: &JsonValue, key: &str) -> (r: Result<String, String>)
    ensures
        match required_text(value@, key@) {
            Some(s) => r is Ok && r->Ok_0@ == s,
            None => r is Err && r->Err_0@ == payload_required_message(key@),
        },
{
    match required_text_of(value, key) {
        Some(s) => Ok(s),
        None => {
            let mut m = to_string("data_model side-effect payload ");
            m.push_str(key);
            m.push_str(" is required");
            Err(m)
        },
    }
}

/// A side-effect request: an object with a required `action` and `model_code`, an optional
/// non-blank `record_id` (trimmed) and its `payload` (null when absent).
pub open spec fn parse_request_spec(value: JsonSpec) -> Result<RequestSpec, Seq<char>> {
    if !(value is Object) {
        Err("data_model side-effect request payload must be object"@)
    } else {
        let record_id = match spec_get(value, "record_id"@) {
            Some(JsonSpec::Str(s)) => if trim(s).len() > 0 {
                Some(trim(s))
            } else {
                None
            },
            _ => None,
        };
        match required_text(value, "action"@) {
            None => Err(payload_required_message("action"@)),
            Some(action) => match required_text(value, "model_code"@) {
                None => Err(payload_required_message("model_code"@)),
                Some(model_code) => Ok(
                    RequestSpec {
                        action,
                        model_code,
                        record_id,
                        payload: match spec_get(value, "payload"@) {
                            Some(p) => p,
                            None => JsonSpec::Null,
                        },
                    },
                ),
            },
        }
    }
}

pub fn parse_side_effect_request(value: &JsonValue) -> (r: Result<DataModelSideEffectRequest, String>)
    ensures
        match parse_request_spec(value@) {
            Ok(q) => r is Ok && request_spec(r->Ok_0) == q,
            Err(m) => r is Err && r->Err_0@ == m,
        },
{
    if !value.is_object() {
        return Err(to_string("data_model side-effect request payload must be object"));
    }
    let record_id = match value.get("record_id") {
        Some(JsonValue::Str(s)) => {
            let t = trim_to_string(s.as_str());
            if t.as_str().is_empty() {
                None
            } else {
                Some(t)
            }
        },
        _ => None,
    };
    let action = match required_payload_string(value, "action") {
        Ok(a) => a,
        Err(m) => {
            return Err(m);
        },
    };
    let model_code = match required_payload_string(value, "model_code") {
        Ok(c) => c,
        Err(m) => {
            return Err(m);
        },
    };
    let payload = match value.get("payload") {
        Some(p) => clone_json(p),
        None => JsonValue::Null,
    };
    Ok(DataModelSideEffectRequest { action, model_code, record_id, payload })
}

/// `data_model:{workspace}:{application}:{draft}:{flow run}:{node}:{action}:{payload hash}`.
pub open spec fn idempotency_key(ctx: DataModelRunContext, node_id: Seq<char>, action: Seq<char>, payload_hash: Seq<char>) -> Seq<char> {
    "data_model:"@ + uuid_hyphenated(ctx.workspace_id) + ":"@ + uuid_hyphenated(ctx.application_id) + ":"@
        + uuid_hyphenated(ctx.draft_id) + ":"@ + uuid_hyphenated(ctx.flow_run_id) + ":"@ + node_id + ":"@ + action
        + ":"@ + payload_hash
}

pub fn side_effect_idempotency_key(
    run_context: &DataModelRunContext,
    node: &CompiledNode,
    action: &str,
    payload_hash: &str,
) -> (key: String)
    ensures
        key@ == idempotency_key(*run_context, node.node_id@, action@, payload_hash@),
{
    let mut key = to_string("data_model:");
    key.push_str(uuid_to_hyphenated(run_context.workspace_id).as_str());
    key.push_str(":");
    key.push_str(uuid_to_hyphenated(run_context.application_id).as_str());
    key.push_str(":");
    key.push_str(uuid_to_hyphenated(run_context.draft_id).as_str());
    key.push_str(":");
    key.push_str(uuid_to_hyphenated(run_context.flow_run_id).as_str());
    key.push_str(":");
    key.push_str(node.node_id.as_str());
    key.push_str(":");
    key.push_str(action);
    key.push_str(":");
    key.push_str(payload_hash);
    key
}

/// `sha256:` and the hex SHA-256 digest of a value's compact JSON.
pub open spec fn json_hash(value: JsonSpec) -> Seq<char> {
    "sha256:"@ + sha256_lower_hex(json_compact_bytes(value))
}

pub fn stable_json_hash(value: &JsonValue) -> (h: String)
    ensures
        h@ == json_hash(value@),
{
    let bytes = crate::outside::json_to_vec(value);
    let mut h = to_string("sha256:");
    h.push_str(sha256_hex(bytes.as_slice()).as_str());
    h
}

/// The id of the record a write returned: `record.id`, when it is text.
pub open spec fn output_record(output: JsonSpec) -> Option<Seq<char>> {
    match spec_get(output, "record"@) {
        Some(r) => get_str(r, "id"@),
        None => None,
    }
}

pub fn output_record_id(output_payload: &JsonValue) -> (r: Option<String>)
    ensures
        crate::json::opt_string_view(r) == output_record(output_payload@),
{
    match output_payload.get("record") {
        Some(record) => match record.get_str("id") {
            Some(id) => Some(to_string(id)),
            None => None,
        },
        None => None,
    }
}

/// A confirmed side effect, checked against its node and run.
pub struct ConfirmedSideEffect {
    pub request: DataModelSideEffectRequest,
    pub idempotency_key: String,
    pub payload_hash: String,
}

/// The checks on a confirmation, in order: it carries the request; the request parses; the
/// node is a data model node; the request's action and model are the node's; the payload hash
/// is the request's; the idempotency key is the one of this run, node, action and hash.
pub open spec fn confirmation_check(node: CompiledNode, ctx: DataModelRunContext, confirmation: JsonSpec) -> Result<
    (RequestSpec, Seq<char>, Seq<char>),
    Seq<char>,
> {
    match spec_get(confirmation, "request_payload"@) {
        None => Err("data_model side-effect confirmation is missing request payload"@),
        Some(request_payload) => match parse_request_spec(request_payload) {
            Err(m) => Err(m),
            Ok(request) => match action_of(node.node_type@) {
                None => Err("unsupported data_model node type: "@ + node.node_type@),
                Some(action) => if request.action != action {
                    Err("data_model side-effect confirmation action does not match node"@)
                } else {
                    match required_text(node.config@, "data_model_code"@) {
                        None => Err(config_required_message("data_model_code"@)),
                        Some(code) => if request.model_code != code {
                            Err("data_model side-effect confirmation model does not match node"@)
                        } else {
                            let hash = json_hash(request_payload);
                            match required_text(confirmation, "payload_hash"@) {
                                None => Err(payload_required_message("payload_hash"@)),
                                Some(expected_hash) => if expected_hash != hash {
                                    Err("data_model side-effect confirmation payload hash mismatch"@)
                                } else {
                                    let key = idempotency_key(ctx, node.node_id@, request.action, hash);
                                    match required_text(confirmation, "idempotency_key"@) {
                                        None => Err(payload_required_message("idempotency_key"@)),
                                        Some(expected_key) => if expected_key != key {
                                            Err("data_model side-effect confirmation idempotency key mismatch"@)
                                        } else {
                                            Ok((request, key, hash))
                                        },
                                    }
                                },
                            }
                        },
                    }
                },
            },
        },
    }
}

/// Checks a confirmation of a side effect against its node and run.
pub fn verify_side_effect_confirmation(
    node: &CompiledNode,
    run_context: &DataModelRunContext,
    confirmation_payload: &JsonValue,
) -> (r: Result<ConfirmedSideEffect, String>)
    ensures
        match confirmation_check(*node, *run_context, confirmation_payload@) {
            Ok((q, key, hash)) => r is Ok && request_spec(r->Ok_0.request) == q && r->Ok_0.idempotency_key@ == key
                && r->Ok_0.payload_hash@ == hash,
            Err(m) => r is Err && r->Err_0@ == m,
        },
{
    let request_payload = match confirmation_payload.get("request_payload") {
        Some(p) => p,
        None => {
            return Err(to_string("data_model side-effect confirmation is missing request payload"));
        },
    };
    let request = match parse_side_effect_request(request_payload) {
        Ok(q) => q,
        Err(m) => {
            return Err(m);
        },
    };
    let node_action = match data_model_action(node) {
        Ok(a) => a,
        Err(m) => {
            return Err(m);
        },
    };
    if !str_eq(request.action.as_str(), node_action.as_str()) {
        return Err(to_string("data_model side-effect confirmation action does not match node"));
    }
    let config_model_code = match required_config_string(&node.config, "data_model_code") {
        Ok(c) => c,
        Err(m) => {
            return Err(m);
        },
    };
    if !str_eq(request.model_code.as_str(), config_model_code.as_str()) {
        return Err(to_string("data_model side-effect confirmation model does not match node"));
    }
    let payload_hash = stable_json_hash(request_payload);
    let expected_payload_hash = match required_payload_string(confirmation_payload, "payload_hash") {
        Ok(h) => h,
        Err(m) => {
            return Err(m);
        },
    };
    if !str_eq(expected_payload_hash.as_str(), payload_hash.as_str()) {
        return Err(to_string("data_model side-effect confirmation payload hash mismatch"));
    }
    let idempotency_key = side_effect_idempotency_key(run_context, node, request.action.as_str(), payload_hash.as_str());
    let expected_idempotency_key = match required_payload_string(confirmation_payload, "idempotency_key") {
        Ok(k) => k,
        Err(m) => {
            return Err(m);
        },
    };
    if !str_eq(expected_idempotency_key.as_str(), idempotency_key.as_str()) {
        return Err(to_string("data_model side-effect confirmation idempotency key mismatch"));
    }
    Ok(ConfirmedSideEffect { request, idempotency_key, payload_hash })
}

/// A receipt already claimed for the same idempotency key is replayed only when its write
/// succeeded.
pub fn ensure_receipt_replayable(action: &str, status: &str) -> (r: Result<(), String>)
    ensures
        r is Ok <==> status@ == "succeeded"@,
        r is Err ==> r->Err_0@ == "DATA_MODEL_SIDE_EFFECT_RECEIPT_NOT_REPLAYABLE: data_model "@ + action@
            + " receipt status is "@ + status@,
{
    if str_eq(status, "succeeded") {
        return Ok(());
    }
    let mut m = to_string("DATA_MODEL_SIDE_EFFECT_RECEIPT_NOT_REPLAYABLE: data_model ");
    m.push_str(action);
    m.push_str(" receipt status is ");
    m.push_str(status);
    Err(m)
}

/// What a write's output says of its effect: the record written, the record deleted, and how
/// many records it touched (1 unless it says).
pub open spec fn write_outcome(output: JsonSpec) -> (Option<Seq<char>>, Option<Seq<char>>, int) {
    (
        output_record(output),
        get_str(output, "deleted_id"@),
        match spec_get(output, "affected_count"@) {
            Some(v) => match spec_as_i64(v) {
                Some(n) => n,
                None => 1,
            },
            None => 1,
        },
    )
}

pub fn side_effect_write_outcome(output_payload: &JsonValue) -> (r: (Option<String>, Option<String>, i64))
    ensures
        (crate::json::opt_string_view(r.0), crate::json::opt_string_view(r.1), r.2 as int) == write_outcome(
            output_payload@,
        ),
{
    let record_id = output_record_id(output_payload);
    let deleted_id = match output_payload.get_str("deleted_id") {
        Some(d) => Some(to_string(d)),
        None => None,
    };
    let affected_count = match output_payload.get("affected_count") {
        Some(v) => match v.as_i64() {
            Some(n) => n,
            None => 1,
        },
        None => 1,
    };
    (record_id, deleted_id, affected_count)
}

// ---------------------------------------------------------------------------------------------
// Checking a list query against the model
// ---------------------------------------------------------------------------------------------

/// A field of the model being listed, as far as a query reads it.
pub struct ModelFieldMetadata {
    pub code: String,
    pub is_relation: bool,
}

/// The first field of the model with a code.
pub open spec fn field_by_code(fields: Seq<ModelFieldMetadata>, code: Seq<char>) -> Option<ModelFieldMetadata>
    decreases fields.len(),
{
    if fields.len() == 0 {
        None
    } else if fields[0].code@ == code {
        Some(fields[0])
    } else {
        field_by_code(fields.drop_first(), code)
    }
}

fn find_field(fields: &Vec<ModelFieldMetadata>, code: &str) -> (r: Option<usize>)
    ensures
        match r {
            Some(k) => k < fields@.len() && field_by_code(fields@, code@) == Some(fields@[k as int]),
            None => field_by_code(fields@, code@) is None,
        },
{
    let mut i: usize = 0;
    assert(fields@.skip(0) =~= fields@);
    while i < fields.len()
        invariant
            i <= fields@.len(),
            field_by_code(fields@, code@) == field_by_code(fields@.skip(i as int), code@),
        decreases fields.len() - i,
    {
        assert(fields@.skip(i as int).drop_first() =~= fields@.skip(i + 1));
        if str_eq(fields[i].code.as_str(), code) {
            return Some(i);
        }
        i = i + 1;
    }
    None
}

pub open spec fn field_declared(fields: Seq<ModelFieldMetadata>, code: Seq<char>) -> bool {
    field_by_code(fields, code) is Some
}

pub open spec fn sort_ok(fields: Seq<ModelFieldMetadata>, sort: (Seq<char>, Seq<char>)) -> bool {
    field_declared(fields, sort.0) && supported_direction(sort.1)
}

pub open spec fn relation_ok(fields: Seq<ModelFieldMetadata>, code: Seq<char>) -> bool {
    match field_by_code(fields, code) {
        Some(f) => f.is_relation,
        None => false,
    }
}

/// A list query fits a model when every filter and sort names a field of it, every sort
/// direction is supported, and every relation to expand names a relation field; the first
/// misfit, in that order, decides the error.
pub open spec fn list_fits_check(fields: Seq<ModelFieldMetadata>, l: ListSpec) -> Result<(), Seq<char>> {
    if exists|i: int| 0 <= i < l.filters.len() && !field_declared(fields, #[trigger] l.filters[i].field) {
        let i = choose|i: int|
            0 <= i < l.filters.len() && !field_declared(fields, l.filters[i].field) && forall|k: int|
                0 <= k < i ==> field_declared(fields, #[trigger] l.filters[k].field);
        Err("undeclared field code: "@ + l.filters[i].field)
    } else if exists|i: int| 0 <= i < l.sorts.len() && !sort_ok(fields, #[trigger] l.sorts[i]) {
        let i = choose|i: int|
            0 <= i < l.sorts.len() && !sort_ok(fields, l.sorts[i]) && forall|k: int|
                0 <= k < i ==> sort_ok(fields, #[trigger] l.sorts[k]);
        if !field_declared(fields, l.sorts[i].0) {
            Err("undeclared sort field: "@ + l.sorts[i].0)
        } else {
            Err("data_model list sort direction is unsupported"@)
        }
    } else if exists|i: int| 0 <= i < l.expand_relations.len() && !relation_ok(fields, #[trigger] l.expand_relations[i]) {
        let i = choose|i: int|
            0 <= i < l.expand_relations.len() && !relation_ok(fields, l.expand_relations[i]) && forall|k: int|
                0 <= k < i ==> relation_ok(fields, #[trigger] l.expand_relations[k]);
        if !field_declared(fields, l.expand_relations[i]) {
            Err("undeclared relation code: "@ + l.expand_relations[i])
        } else {
            Err("unsupported relation expansion"@)
        }
    } else {
        Ok(())
    }
}

pub fn validate_list_options(fields: &Vec<ModelFieldMetadata>, options: &ListOptions) -> (r: Result<(), String>)
    ensures
        match list_fits_check(fields@, list_spec(*options)) {
            Ok(()) => r is Ok,
            Err(m) => r is Err && r->Err_0@ == m,
        },
{
    let ghost l = list_spec(*options);
    let mut i: usize = 0;
    while i < options.filters.len()
        invariant
            i <= options.filters@.len(),
            l == list_spec(*options),
            forall|k: int| 0 <= k < i ==> field_declared(fields@, #[trigger] l.filters[k].field),
        decreases options.filters.len() - i,
    {
        let code = options.filters[i].field.as_str();
        if find_field(fields, code).is_none() {
            assert(l.filters[i as int].field == code@);
            let mut m = to_string("undeclared field code: ");
            m.push_str(code);
            return Err(m);
        }
        i = i + 1;
    }
    let mut j: usize = 0;
    while j < options.sorts.len()
        invariant
            j <= options.sorts@.len(),
            l == list_spec(*options),
            forall|k: int| 0 <= k < l.filters.len() ==> field_declared(fields@, #[trigger] l.filters[k].field),
            forall|k: int| 0 <= k < j ==> sort_ok(fields@, #[trigger] l.sorts[k]),
        decreases options.sorts.len() - j,
    {
        let sort = &options.sorts[j];
        assert(l.sorts[j as int] == (sort.field_code@, sort.direction@));
        if find_field(fields, sort.field_code.as_str()).is_none() {
            let mut m = to_string("undeclared sort field: ");
            m.push_str(sort.field_code.as_str());
            return Err(m);
        }
        match ensure_supported_sort_direction(sort.direction.as_str()) {
            Ok(()) => {},
            Err(m) => {
                return Err(m);
            },
        }
        j = j + 1;
    }
    let mut k: usize = 0;
    while k < options.expand_relations.len()
        invariant
            k <= options.expand_relations@.len(),
            l == list_spec(*options),
            forall|x: int| 0 <= x < l.filters.len() ==> field_declared(fields@, #[trigger] l.filters[x].field),
            forall|x: int| 0 <= x < l.sorts.len() ==> sort_ok(fields@, #[trigger] l.sorts[x]),
            forall|x: int| 0 <= x < k ==> relation_ok(fields@, #[trigger] l.expand_relations[x]),
        decreases options.expand_relations.len() - k,
    {
        let code = options.expand_relations[k].as_str();
        assert(l.expand_relations[k as int] == code@);
        match find_field(fields, code) {
            None => {
                let mut m = to_string("undeclared relation code: ");
                m.push_str(code);
                return Err(m);
            },
            Some(p) => {
                if !fields[p].is_relation {
                    return Err(to_string("unsupported relation expansion"));
                }
            },
        }
        k = k + 1;
    }
    Ok(())
}


// ---------------------------------------------------------------------------------------------
// Receipts and the outcome of a node
// ---------------------------------------------------------------------------------------------

/// A stored receipt of a data model side effect.
pub struct DataModelSideEffectReceiptRecord {
    pub id: u128,
    pub idempotency_key: String,
    pub payload_hash: String,
    pub status: String,
    pub action: String,
    pub model_code: String,
    pub record_id: Option<String>,
    pub deleted_id: Option<String>,
    pub affected_count: i64,
}

/// A text, or `null` where there is none.
pub open spec fn jopt_str(o: Option<String>) -> JsonSpec {
    match o {
        Some(s) => JsonSpec::Str(s@),
        None => JsonSpec::Null,
    }
}

/// The JSON that a receipt is reported as.
pub open spec fn receipt_json(r: DataModelSideEffectReceiptRecord) -> JsonSpec {
    JsonSpec::Object(
        seq![
            ("id"@, JsonSpec::Str(uuid_hyphenated(r.id))),
            ("idempotency_key"@, JsonSpec::Str(r.idempotency_key@)),
            ("payload_hash"@, JsonSpec::Str(r.payload_hash@)),
            ("status"@, JsonSpec::Str(r.status@)),
            ("action"@, JsonSpec::Str(r.action@)),
            ("model_code"@, JsonSpec::Str(r.model_code@)),
            ("record_id"@, jopt_str(r.record_id)),
            ("deleted_id"@, jopt_str(r.deleted_id)),
            ("affected_count"@, JsonSpec::Number(r.affected_count as int)),
        ],
    )
}

fn opt_text(o: &Option<String>) -> (v: JsonValue)
    ensures
        v@ == jopt_str(*o),
{
    match o {
        Some(s) => JsonValue::Str(s.clone()),
        None => JsonValue::Null,
    }
}

/// The JSON that a receipt is reported as.
pub fn receipt_payload(receipt: &DataModelSideEffectReceiptRecord) -> (v: JsonValue)
    ensures
        v@ == receipt_json(*receipt),
{
    let mut entries: Vec<(String, JsonValue)> = Vec::new();
    entries.push((to_string("id"), JsonValue::Str(uuid_to_hyphenated(receipt.id))));
    entries.push((to_string("idempotency_key"), JsonValue::Str(receipt.idempotency_key.clone())));
    entries.push((to_string("payload_hash"), JsonValue::Str(receipt.payload_hash.clone())));
    entries.push((to_string("status"), JsonValue::Str(receipt.status.clone())));
    entries.push((to_string("action"), JsonValue::Str(receipt.action.clone())));
    entries.push((to_string("model_code"), JsonValue::Str(receipt.model_code.clone())));
    entries.push((to_string("record_id"), opt_text(&receipt.record_id)));
    entries.push((to_string("deleted_id"), opt_text(&receipt.deleted_id)));
    entries.push((to_string("affected_count"), JsonValue::Number(receipt.affected_count)));
    proof {
        lemma_object_view(entries);
        assert(entry_views(entries@) =~= receipt_json(*receipt)->Object_0);
    }
    JsonValue::Object(entries)
}

/// A side effect that waits for the user to confirm it.
pub struct DataModelSideEffectConfirmation {
    pub idempotency_key: String,
    pub payload_hash: String,
    pub request_payload: JsonValue,
    pub expires_at_unix_nanos: i128,
}

/// What running a data model node came to, short of an error.
pub enum DataModelExecutionResult {
    Completed { output_payload: JsonValue, side_effect_receipt: Option<JsonValue>, replayed: bool },
    WaitingConfirmation(DataModelSideEffectConfirmation),
}

/// The outcome of a data model node as the run records it.
pub struct DataModelNodeExecution {
    pub output_payload: JsonValue,
    pub error_payload: Option<JsonValue>,
    pub metrics_payload: JsonValue,
    pub waiting_confirmation: Option<DataModelSideEffectConfirmation>,
}

/// The plain facts of a node's outcome: output, error, metrics, and the confirmation it waits for.
pub open spec fn node_execution_view(e: DataModelNodeExecution) -> (
    JsonSpec,
    Option<JsonSpec>,
    JsonSpec,
    Option<DataModelSideEffectConfirmation>,
) {
    (e.output_payload@, crate::json::opt_json_view(e.error_payload), e.metrics_payload@, e.waiting_confirmation)
}

pub open spec fn runtime_entry() -> (Seq<char>, JsonSpec) {
    ("runtime"@, JsonSpec::Str("data_model"@))
}

pub open spec fn duration_entry(elapsed_ms: int) -> (Seq<char>, JsonSpec) {
    ("duration_ms"@, JsonSpec::Number(elapsed_ms))
}

/// The outcome recorded for a node that took `elapsed_ms` milliseconds and came to `result`.
pub open spec fn expected_node_execution(elapsed_ms: int, result: Result<DataModelExecutionResult, String>) -> (
    JsonSpec,
    Option<JsonSpec>,
    JsonSpec,
    Option<DataModelSideEffectConfirmation>,
) {
    match result {
        Ok(DataModelExecutionResult::Completed { output_payload, side_effect_receipt, replayed }) => (
            output_payload@,
            None,
            JsonSpec::Object(
                seq![
                    runtime_entry(),
                    duration_entry(elapsed_ms),
                    (
                        "side_effect_receipt"@,
                        match side_effect_receipt {
                            Some(r) => r@,
                            None => JsonSpec::Null,
                        },
                    ),
                    ("side_effect_replayed"@, JsonSpec::Bool(replayed)),
                ],
            ),
            None,
        ),
        Ok(DataModelExecutionResult::WaitingConfirmation(c)) => (
            JsonSpec::Object(Seq::empty()),
            None,
            JsonSpec::Object(
                seq![
                    runtime_entry(),
                    duration_entry(elapsed_ms),
                    ("waiting"@, JsonSpec::Str("data_model_side_effect_confirmation"@)),
                    ("idempotency_key"@, JsonSpec::Str(c.idempotency_key@)),
                    ("payload_hash"@, JsonSpec::Str(c.payload_hash@)),
                ],
            ),
            Some(c),
        ),
        Err(message) => (
            JsonSpec::Object(Seq::empty()),
            Some(JsonSpec::Object(seq![("message"@, JsonSpec::Str(message@))])),
            JsonSpec::Object(seq![runtime_entry(), duration_entry(elapsed_ms)]),
            None,
        ),
    }
}

/// The outcome recorded for a node that took `elapsed_ms` milliseconds and came to `result`.
pub fn data_model_node_execution(elapsed_ms: i64, result: Result<DataModelExecutionResult, String>) -> (e:
    DataModelNodeExecution)
    ensures
        node_execution_view(e) == expected_node_execution(elapsed_ms as int, result),
{
    let mut metrics: Vec<(String, JsonValue)> = Vec::new();
    metrics.push((to_string("runtime"), JsonValue::Str(to_string("data_model"))));
    metrics.push((to_string("duration_ms"), JsonValue::Number(elapsed_ms)));
    let ghost base = entry_views(metrics@);
    assert(base =~= seq![runtime_entry(), duration_entry(elapsed_ms as int)]);
    match result {
        Ok(DataModelExecutionResult::Completed { output_payload, side_effect_receipt, replayed }) => {
            let receipt = match side_effect_receipt {
                Some(r) => r,
                None => JsonValue::Null,
            };
            metrics.push((to_string("side_effect_receipt"), receipt));
            metrics.push((to_string("side_effect_replayed"), JsonValue::Bool(replayed)));
            proof {
                lemma_object_view(metrics);
                assert(entry_views(metrics@) =~= expected_node_execution(elapsed_ms as int, result).2->Object_0);
            }
            DataModelNodeExecution {
                output_payload,
                error_payload: None,
                metrics_payload: JsonValue::Object(metrics),
                waiting_confirmation: None,
            }
        },
        Ok(DataModelExecutionResult::WaitingConfirmation(confirmation)) => {
            metrics.push((to_string("waiting"), JsonValue::Str(to_string("data_model_side_effect_confirmation"))));
            metrics.push((to_string("idempotency_key"), JsonValue::Str(confirmation.idempotency_key.clone())));
            metrics.push((to_string("payload_hash"), JsonValue::Str(confirmation.payload_hash.clone())));
            let empty: Vec<(String, JsonValue)> = Vec::new();
            proof {
                lemma_object_view(metrics);
                lemma_object_view(empty);
                assert(entry_views(metrics@) =~= expected_node_execution(elapsed_ms as int, result).2->Object_0);
                assert(entry_views(empty@) =~= Seq::<(Seq<char>, JsonSpec)>::empty());
            }
            DataModelNodeExecution {
                output_payload: JsonValue::Object(empty),
                error_payload: None,
                metrics_payload: JsonValue::Object(metrics),
                waiting_confirmation: Some(confirmation),
            }
        },
        Err(message) => {
            let mut error: Vec<(String, JsonValue)> = Vec::new();
            error.push((to_string("message"), JsonValue::Str(message)));
            let empty: Vec<(String, JsonValue)> = Vec::new();
            proof {
                lemma_object_view(metrics);
                lemma_object_view(error);
                lemma_object_view(empty);
                assert(entry_views(metrics@) =~= expected_node_execution(elapsed_ms as int, result).2->Object_0);
                assert(entry_views(error@) =~= expected_node_execution(elapsed_ms as int, result).1->Some_0->Object_0);
                assert(entry_views(empty@) =~= Seq::<(Seq<char>, JsonSpec)>::empty());
            }
            DataModelNodeExecution {
                output_payload: JsonValue::Object(empty),
                error_payload: Some(JsonValue::Object(error)),
                metrics_payload: JsonValue::Object(metrics),
                waiting_confirmation: None,
            }
        },
    }
}

/// Whole milliseconds from `started` to `now` (both in nanoseconds), 0 when `now` is not later;
/// a span beyond the range of `i64` milliseconds counts as `i64::MAX`.
pub open spec fn elapsed_ms_spec(started: int, now: int) -> int {
    if now - started <= 0 {
        0
    } else if (now - started) / 1_000_000 > i64::MAX {
        i64::MAX as int
    } else {
        (now - started) / 1_000_000
    }
}

/// Whole milliseconds from `started` to `now`, both in nanoseconds since the epoch.
pub fn elapsed_milliseconds(started_unix_nanos: i128, now_unix_nanos: i128) -> (ms: i64)
    ensures
        ms as int == elapsed_ms_spec(started_unix_nanos as int, now_unix_nanos as int),
{
    match now_unix_nanos.checked_sub(started_unix_nanos) {
        Some(d) => {
            if d <= 0 {
                0
            } else {
                let m = d / 1_000_000;
                if m > i64::MAX as i128 {
                    i64::MAX
                } else {
                    m as i64
                }
            }
        },
        None => {
            if now_unix_nanos > started_unix_nanos {
                i64::MAX
            } else {
                0
            }
        },
    }
}

/// The outcome recorded for a node started at `started_at_unix_nanos` that came to `result`,
/// timed by the clock now: whatever the clock reads, the outcome is the one for the milliseconds
/// elapsed by that reading.
pub fn build_data_model_node_execution(started_at_unix_nanos: i128, result: Result<DataModelExecutionResult, String>) -> (e:
    DataModelNodeExecution)
    ensures
        exists|now: i128|
            node_execution_view(e) == #[trigger] expected_node_execution(
                elapsed_ms_spec(started_at_unix_nanos as int, now as int),
                result,
            ),
{
    let now = now_unix_timestamp_nanos();
    let elapsed = elapsed_milliseconds(started_at_unix_nanos, now);
    let e = data_model_node_execution(elapsed, result);
    assert(node_execution_view(e) == expected_node_execution(
        elapsed_ms_spec(started_at_unix_nanos as int, now as int),
        result,
    ));
    e
}


// ---------------------------------------------------------------------------------------------
// What a node asks for, and how a write goes
// ---------------------------------------------------------------------------------------------

/// What a data model node asks of a model's records.
#[allow(inconsistent_fields)]
pub enum DataModelNodeRequest {
    List { model_code: String, query: JsonValue },
    Get { model_code: String, record_id: String },
    Write { action: String, model_code: String, record_id: Option<String>, payload: JsonValue },
}

/// The plain facts of a [`DataModelNodeRequest`].
pub enum NodeRequestSpec {
    List(Seq<char>, JsonSpec),
    Get(Seq<char>, Seq<char>),
    Write(Seq<char>, Seq<char>, Option<Seq<char>>, JsonSpec),
}

pub open spec fn node_request_spec(r: DataModelNodeRequest) -> NodeRequestSpec {
    match r {
        DataModelNodeRequest::List { model_code, query } => NodeRequestSpec::List(model_code@, query@),
        DataModelNodeRequest::Get { model_code, record_id } => NodeRequestSpec::Get(model_code@, record_id@),
        DataModelNodeRequest::Write { action, model_code, record_id, payload } => NodeRequestSpec::Write(
            action@,
            model_code@,
            crate::json::opt_string_view(record_id),
            payload@,
        ),
    }
}

/// A value, `null` where there is none.
pub open spec fn or_null(o: Option<JsonSpec>) -> JsonSpec {
    match o {
        Some(v) => v,
        None => JsonSpec::Null,
    }
}

/// What a node of this type and configuration asks for, given its resolved inputs: the model it
/// names, then its action, then the record it needs.
pub open spec fn node_request(node_type: Seq<char>, config: JsonSpec, inputs: JsonSpec) -> Result<
    NodeRequestSpec,
    Seq<char>,
> {
    match required_text(config, "data_model_code"@) {
        None => Err(config_required_message("data_model_code"@)),
        Some(code) => match action_of(node_type) {
            None => Err("unsupported data_model node type: "@ + node_type),
            Some(action) => if action == "list"@ {
                Ok(NodeRequestSpec::List(code, or_null(input_or_config(config, inputs, "query"@))))
            } else if action == "create"@ {
                Ok(NodeRequestSpec::Write(action, code, None, or_null(input_or_config(config, inputs, "payload"@))))
            } else {
                match record_id_of(config, inputs) {
                    None => Err(config_required_message("record_id"@)),
                    Some(id) => if action == "get"@ {
                        Ok(NodeRequestSpec::Get(code, id))
                    } else if action == "update"@ {
                        Ok(
                            NodeRequestSpec::Write(
                                action,
                                code,
                                Some(id),
                                or_null(input_or_config(config, inputs, "payload"@)),
                            ),
                        )
                    } else {
                        Ok(NodeRequestSpec::Write(action, code, Some(id), JsonSpec::Null))
                    },
                }
            },
        },
    }
}

fn value_or_null(v: Option<JsonValue>) -> (r: JsonValue)
    ensures
        r@ == or_null(crate::json::opt_json_view(v)),
{
    match v {
        Some(x) => x,
        None => JsonValue::Null,
    }
}

/// What a data model node asks for, given its resolved inputs.
pub fn data_model_node_request(node: &CompiledNode, resolved_inputs: &JsonValue) -> (r: Result<
    DataModelNodeRequest,
    String,
>)
    ensures
        match node_request(node.node_type@, node.config@, resolved_inputs@) {
            Ok(q) => r is Ok && node_request_spec(r->Ok_0) == q,
            Err(m) => r is Err && r->Err_0@ == m,
        },
{
    proof {
        reveal_strlit("list");
        reveal_strlit("get");
        reveal_strlit("create");
        reveal_strlit("update");
        reveal_strlit("delete");
    }
    let model_code = match required_config_string(&node.config, "data_model_code") {
        Ok(c) => c,
        Err(m) => {
            return Err(m);
        },
    };
    let action = match data_model_action(node) {
        Ok(a) => a,
        Err(m) => {
            return Err(m);
        },
    };
    if str_eq(action.as_str(), "list") {
        let query = value_or_null(input_or_config_value(&node.config, resolved_inputs, "query"));
        return Ok(DataModelNodeRequest::List { model_code, query });
    }
    if str_eq(action.as_str(), "create") {
        let payload = value_or_null(input_or_config_value(&node.config, resolved_inputs, "payload"));
        return Ok(DataModelNodeRequest::Write { action, model_code, record_id: None, payload });
    }
    let record_id = match required_record_id(&node.config, resolved_inputs) {
        Ok(id) => id,
        Err(m) => {
            return Err(m);
        },
    };
    if str_eq(action.as_str(), "get") {
        Ok(DataModelNodeRequest::Get { model_code, record_id })
    } else if str_eq(action.as_str(), "update") {
        let payload = value_or_null(input_or_config_value(&node.config, resolved_inputs, "payload"));
        Ok(DataModelNodeRequest::Write { action, model_code, record_id: Some(record_id), payload })
    } else {
        Ok(DataModelNodeRequest::Write { action, model_code, record_id: Some(record_id), payload: JsonValue::Null })
    }
}

/// The request a write is confirmed and hashed by.
pub open spec fn write_request_json(action: Seq<char>, model_code: Seq<char>, record_id: Option<Seq<char>>, payload: JsonSpec) -> JsonSpec {
    JsonSpec::Object(
        seq![
            ("action"@, JsonSpec::Str(action)),
            ("model_code"@, JsonSpec::Str(model_code)),
            (
                "record_id"@,
                match record_id {
                    Some(id) => JsonSpec::Str(id),
                    None => JsonSpec::Null,
                },
            ),
            ("payload"@, payload),
        ],
    )
}

/// The request a write is confirmed and hashed by.
pub fn write_request_payload(action: &str, model_code: &str, record_id: &Option<String>, payload: &JsonValue) -> (v:
    JsonValue)
    ensures
        v@ == write_request_json(action@, model_code@, crate::json::opt_string_view(*record_id), payload@),
{
    let mut entries: Vec<(String, JsonValue)> = Vec::new();
    entries.push((to_string("action"), JsonValue::Str(to_string(action))));
    entries.push((to_string("model_code"), JsonValue::Str(to_string(model_code))));
    entries.push((to_string("record_id"), opt_text(record_id)));
    entries.push((to_string("payload"), clone_json(payload)));
    proof {
        lemma_object_view(entries);
        assert(entry_views(entries@) =~= write_request_json(
            action@,
            model_code@,
            crate::json::opt_string_view(*record_id),
            payload@,
        )->Object_0);
    }
    JsonValue::Object(entries)
}

/// How long a write waits for confirmation, in nanoseconds: ten minutes.
pub const CONFIRMATION_WINDOW_NANOS: i128 = 600_000_000_000;

/// How a write goes on: it waits for the user to confirm it, or it is made under its
/// idempotency key.
pub enum DataModelWritePlan {
    WaitForConfirmation(DataModelSideEffectConfirmation),
    WriteWithIdempotency { idempotency_key: String, payload_hash: String },
}

/// How a write of a node goes on, decided at `now` (nanoseconds since the epoch): refused where
/// the node's policy forbids writes or a payload that is not an object is to be created or
/// updated; else hashed with its request and keyed, then held for confirmation (ten minutes) or
/// made.
pub open spec fn write_plan(
    node: CompiledNode,
    ctx: DataModelRunContext,
    action: Seq<char>,
    model_code: Seq<char>,
    record_id: Option<Seq<char>>,
    payload: JsonSpec,
    now: int,
) -> Result<(Seq<char>, Seq<char>, Option<(JsonSpec, int)>), Seq<char>> {
    match policy_of(node.config@) {
        Err(m) => Err(m),
        Ok(policy) => if policy == DataModelSideEffectPolicy::Disabled {
            Err("DATA_MODEL_SIDE_EFFECT_DISABLED: data_model "@ + action + " requires explicit side-effect policy"@)
        } else if action != "delete"@ && !(payload is Object) {
            Err("data_model payload must be object"@)
        } else {
            let request = write_request_json(action, model_code, record_id, payload);
            let hash = json_hash(request);
            let key = idempotency_key(ctx, node.node_id@, action, hash);
            if policy == DataModelSideEffectPolicy::ConfirmEachRun {
                Ok((key, hash, Some((request, now + CONFIRMATION_WINDOW_NANOS))))
            } else {
                Ok((key, hash, None))
            }
        },
    }
}

pub open spec fn write_plan_spec(p: DataModelWritePlan) -> (Seq<char>, Seq<char>, Option<(JsonSpec, int)>) {
    match p {
        DataModelWritePlan::WaitForConfirmation(c) => (
            c.idempotency_key@,
            c.payload_hash@,
            Some((c.request_payload@, c.expires_at_unix_nanos as int)),
        ),
        DataModelWritePlan::WriteWithIdempotency { idempotency_key, payload_hash } => (
            idempotency_key@,
            payload_hash@,
            None,
        ),
    }
}

/// How a write of a node goes on, decided at `now_unix_nanos`.
pub fn plan_data_model_write(
    node: &CompiledNode,
    run_context: &DataModelRunContext,
    action: &str,
    model_code: &str,
    record_id: &Option<String>,
    payload: &JsonValue,
    now_unix_nanos: i128,
) -> (r: Result<DataModelWritePlan, String>)
    requires
        now_unix_nanos <= i128::MAX - CONFIRMATION_WINDOW_NANOS,
    ensures
        match write_plan(
            *node,
            *run_context,
            action@,
            model_code@,
            crate::json::opt_string_view(*record_id),
            payload@,
            now_unix_nanos as int,
        ) {
            Ok(p) => r is Ok && write_plan_spec(r->Ok_0) == p,
            Err(m) => r is Err && r->Err_0@ == m,
        },
{
    let policy = match data_model_side_effect_policy(node) {
        Ok(p) => p,
        Err(m) => {
            return Err(m);
        },
    };
    if policy == DataModelSideEffectPolicy::Disabled {
        let mut m = to_string("DATA_MODEL_SIDE_EFFECT_DISABLED: data_model ");
        m.push_str(action);
        m.push_str(" requires explicit side-effect policy");
        return Err(m);
    }
    if !str_eq(action, "delete") {
        match ensure_object_payload(payload) {
            Ok(()) => {},
            Err(m) => {
                return Err(m);
            },
        }
    }
    let request_payload = write_request_payload(action, model_code, record_id, payload);
    let payload_hash = stable_json_hash(&request_payload);
    let idempotency_key = side_effect_idempotency_key(run_context, node, action, payload_hash.as_str());
    if policy == DataModelSideEffectPolicy::ConfirmEachRun {
        Ok(
            DataModelWritePlan::WaitForConfirmation(
                DataModelSideEffectConfirmation {
                    idempotency_key,
                    payload_hash,
                    request_payload,
                    expires_at_unix_nanos: now_unix_nanos + CONFIRMATION_WINDOW_NANOS,
                },
            ),
        )
    } else {
        Ok(DataModelWritePlan::WriteWithIdempotency { idempotency_key, payload_hash })
    }
}

/// The write a data model action makes on the model's records.
pub enum DataModelWriteCall {
    Create,
    Update { record_id: String },
    Delete { record_id: String },
}

/// The write an action makes: `create`, or an `update` or `delete` of the record it names.
pub open spec fn write_call(action: Seq<char>, record_id: Option<Seq<char>>) -> Result<(int, Seq<char>), Seq<char>> {
    if action == "create"@ {
        Ok((0, Seq::empty()))
    } else if action == "update"@ || action == "delete"@ {
        match record_id {
            Some(id) => Ok((if action == "update"@ { 1int } else { 2int }, id)),
            None => Err(config_required_message("record_id"@)),
        }
    } else {
        Err("unsupported data_model write action: "@ + action)
    }
}

pub open spec fn write_call_spec(c: DataModelWriteCall) -> (int, Seq<char>) {
    match c {
        DataModelWriteCall::Create => (0, Seq::empty()),
        DataModelWriteCall::Update { record_id } => (1, record_id@),
        DataModelWriteCall::Delete { record_id } => (2, record_id@),
    }
}

/// The write an action makes on the model's records.
pub fn data_model_write_call(action: &str, record_id: &Option<String>) -> (r: Result<DataModelWriteCall, String>)
    ensures
        match write_call(action@, crate::json::opt_string_view(*record_id)) {
            Ok(c) => r is Ok && write_call_spec(r->Ok_0) == c,
            Err(m) => r is Err && r->Err_0@ == m,
        },
{
    proof {
        reveal_strlit("create");
        reveal_strlit("update");
        reveal_strlit("delete");
    }
    if str_eq(action, "create") {
        return Ok(DataModelWriteCall::Create);
    }
    let update = str_eq(action, "update");
    if update || str_eq(action, "delete") {
        match record_id {
            Some(id) => {
                let id = id.clone();
                if update {
                    Ok(DataModelWriteCall::Update { record_id: id })
                } else {
                    Ok(DataModelWriteCall::Delete { record_id: id })
                }
            },
            None => {
                proof {
                    reveal_strlit("data_model config.record_id is required");
                    reveal_strlit("data_model config.");
                    reveal_strlit("record_id");
                    reveal_strlit(" is required");
                }
                Err(to_string("data_model config.record_id is required"))
            },
        }
    } else {
        let mut m = to_string("unsupported data_model write action: ");
        m.push_str(action);
        Err(m)
    }
}

/// The receipt claimed, or found, for a write's idempotency key.
pub struct ClaimedReceipt {
    pub receipt: DataModelSideEffectReceiptRecord,
    pub output_payload: JsonValue,
}

/// What a claim for a write's idempotency key decides: a claim won goes on to write (`None`); a
/// receipt already there is replayed when its write succeeded, and refused otherwise.
pub fn replay_claimed_receipt(claimed: bool, action: &str, found: ClaimedReceipt) -> (r: Result<
    Option<DataModelExecutionResult>,
    String,
>)
    ensures
        claimed ==> r == Ok::<Option<DataModelExecutionResult>, String>(None),
        !claimed && found.receipt.status@ == "succeeded"@ ==> r is Ok && r->Ok_0 is Some && match r->Ok_0->Some_0 {
            DataModelExecutionResult::Completed { output_payload, side_effect_receipt, replayed } => output_payload@
                == found.output_payload@ && side_effect_receipt is Some && side_effect_receipt->Some_0@ == receipt_json(
                found.receipt,
            ) && replayed,
            _ => false,
        },
        !claimed && found.receipt.status@ != "succeeded"@ ==> r is Err && r->Err_0@
            == "DATA_MODEL_SIDE_EFFECT_RECEIPT_NOT_REPLAYABLE: data_model "@ + action@ + " receipt status is "@
            + found.receipt.status@,
{
    if claimed {
        return Ok(None);
    }
    match ensure_receipt_replayable(action, found.receipt.status.as_str()) {
        Ok(()) => {
            let receipt = receipt_payload(&found.receipt);
            Ok(
                Some(
                    DataModelExecutionResult::Completed {
                        output_payload: found.output_payload,
                        side_effect_receipt: Some(receipt),
                        replayed: true,
                    },
                ),
            )
        },
        Err(m) => Err(m),
    }
}

/// The stage a receipt is written at: claimed before the write, after a failed write with its
/// error, after a write that succeeded with its output.
pub enum ReceiptStage {
    Pending,
    Failed(String),
    Succeeded(JsonValue),
}

/// A receipt as it is written for a write of a node.
pub struct DataModelSideEffectReceiptUpsert {
    pub run_context: DataModelRunContext,
    pub node_id: String,
    pub action: String,
    pub model_code: String,
    pub record_id: Option<String>,
    pub deleted_id: Option<String>,
    pub affected_count: i64,
    pub idempotency_key: String,
    pub payload_hash: String,
    pub actor_user_id: u128,
    pub scope_id: u128,
    pub status: String,
    pub output_payload: JsonValue,
}

/// What a receipt at a stage holds of the write: record written, record deleted, records
/// touched, status and output.
pub open spec fn receipt_stage_facts(stage: ReceiptStage) -> (Option<Seq<char>>, Option<Seq<char>>, int, Seq<char>, JsonSpec) {
    match stage {
        ReceiptStage::Pending => (None, None, 0, "pending"@, JsonSpec::Object(Seq::empty())),
        ReceiptStage::Failed(message) => (
            None,
            None,
            0,
            "failed"@,
            JsonSpec::Object(seq![("error"@, JsonSpec::Str(message@))]),
        ),
        ReceiptStage::Succeeded(output) => {
            let outcome = write_outcome(output@);
            (outcome.0, outcome.1, outcome.2, "succeeded"@, output@)
        },
    }
}

/// A receipt as it is written for a write of a node at a stage.
pub fn side_effect_receipt_upsert(
    run_context: &DataModelRunContext,
    node: &CompiledNode,
    action: &str,
    model_code: &str,
    idempotency_key: &str,
    payload_hash: &str,
    actor_user_id: u128,
    scope_id: u128,
    stage: ReceiptStage,
) -> (u: DataModelSideEffectReceiptUpsert)
    ensures
        u.run_context == *run_context,
        u.node_id@ == node.node_id@,
        u.action@ == action@,
        u.model_code@ == model_code@,
        u.idempotency_key@ == idempotency_key@,
        u.payload_hash@ == payload_hash@,
        u.actor_user_id == actor_user_id,
        u.scope_id == scope_id,
        (
            crate::json::opt_string_view(u.record_id),
            crate::json::opt_string_view(u.deleted_id),
            u.affected_count as int,
            u.status@,
            u.output_payload@,
        ) == receipt_stage_facts(stage),
{
    let ghost facts = receipt_stage_facts(stage);
    let (record_id, deleted_id, affected_count, status, output_payload) = match stage {
        ReceiptStage::Pending => {
            let empty: Vec<(String, JsonValue)> = Vec::new();
            proof {
                lemma_object_view(empty);
                assert(entry_views(empty@) =~= Seq::<(Seq<char>, JsonSpec)>::empty());
            }
            (None, None, 0i64, to_string("pending"), JsonValue::Object(empty))
        },
        ReceiptStage::Failed(message) => {
            let ghost m = message@;
            let mut entries: Vec<(String, JsonValue)> = Vec::new();
            entries.push((to_string("error"), JsonValue::Str(message)));
            proof {
                lemma_object_view(entries);
                assert(entry_views(entries@) =~= seq![("error"@, JsonSpec::Str(m))]);
            }
            (None, None, 0i64, to_string("failed"), JsonValue::Object(entries))
        },
        ReceiptStage::Succeeded(output) => {
            let (record_id, deleted_id, affected_count) = side_effect_write_outcome(&output);
            (record_id, deleted_id, affected_count, to_string("succeeded"), output)
        },
    };
    DataModelSideEffectReceiptUpsert {
        run_context: *run_context,
        node_id: node.node_id.clone(),
        action: to_string(action),
        model_code: to_string(model_code),
        record_id,
        deleted_id,
        affected_count,
        idempotency_key: to_string(idempotency_key),
        payload_hash: to_string(payload_hash),
        actor_user_id,
        scope_id,
        status,
        output_payload,
    }
}


/// The payload a write waits with: who may confirm it, for which node and run, its hash and
/// idempotency key, when it expires, and the request it makes.
pub open spec fn confirmation_json(
    actor_user_id: u128,
    node_id: Seq<char>,
    run_id: u128,
    payload_hash: Seq<char>,
    key: Seq<char>,
    expires_at: JsonSpec,
    request: JsonSpec,
) -> JsonSpec {
    JsonSpec::Object(
        seq![
            ("kind"@, JsonSpec::Str("data_model_side_effect_confirmation"@)),
            ("actor_user_id"@, JsonSpec::Str(uuid_hyphenated(actor_user_id))),
            ("node_id"@, JsonSpec::Str(node_id)),
            ("run_id"@, JsonSpec::Str(uuid_hyphenated(run_id))),
            ("payload_hash"@, JsonSpec::Str(payload_hash)),
            ("idempotency_key"@, JsonSpec::Str(key)),
            ("expires_at"@, expires_at),
            ("request_payload"@, request),
        ],
    )
}

/// The payload a write waits with, for the callback task and checkpoint of its node.
pub fn side_effect_confirmation_payload(
    actor_user_id: u128,
    node: &CompiledNode,
    run_id: u128,
    confirmation: &DataModelSideEffectConfirmation,
    expires_at: JsonValue,
) -> (v: JsonValue)
    ensures
        v@ == confirmation_json(
            actor_user_id,
            node.node_id@,
            run_id,
            confirmation.payload_hash@,
            confirmation.idempotency_key@,
            expires_at@,
            confirmation.request_payload@,
        ),
{
    let ghost expires = expires_at@;
    let mut entries: Vec<(String, JsonValue)> = Vec::new();
    entries.push((to_string("kind"), JsonValue::Str(to_string("data_model_side_effect_confirmation"))));
    entries.push((to_string("actor_user_id"), JsonValue::Str(uuid_to_hyphenated(actor_user_id))));
    entries.push((to_string("node_id"), JsonValue::Str(node.node_id.clone())));
    entries.push((to_string("run_id"), JsonValue::Str(uuid_to_hyphenated(run_id))));
    entries.push((to_string("payload_hash"), JsonValue::Str(confirmation.payload_hash.clone())));
    entries.push((to_string("idempotency_key"), JsonValue::Str(confirmation.idempotency_key.clone())));
    entries.push((to_string("expires_at"), expires_at));
    entries.push((to_string("request_payload"), clone_json(&confirmation.request_payload)));
    proof {
        lemma_object_view(entries);
        assert(entry_views(entries@) =~= confirmation_json(
            actor_user_id,
            node.node_id@,
            run_id,
            confirmation.payload_hash@,
            confirmation.idempotency_key@,
            expires,
            confirmation.request_payload@,
        )->Object_0);
    }
    JsonValue::Object(entries)
}

proof fn lemma_action_trimmed(action: Seq<char>)
    requires
        action == "list"@ || action == "get"@ || action == "create"@ || action == "update"@ || action
            == "delete"@,
    ensures
        trim(action) == action,
        action.len() > 0,
{
    reveal_strlit("list");
    reveal_strlit("get");
    reveal_strlit("create");
    reveal_strlit("update");
    reveal_strlit("delete");
    lemma_trim_fixed(action);
}

/// A write held for confirmation is accepted by the payload it waits with: presented back for
/// the same node and run, that payload passes every check and yields the request, idempotency
/// key and payload hash the write was planned with, so the confirmed write is made under the
/// same key. The stored hash must read back unchanged when trimmed.
pub proof fn law_waiting_write_is_confirmed(
    node: CompiledNode,
    ctx: DataModelRunContext,
    model_code: Seq<char>,
    record_id: Option<Seq<char>>,
    payload: JsonSpec,
    now: int,
    actor_user_id: u128,
    run_id: u128,
    expires_at: JsonSpec,
)
    requires
        action_of(node.node_type@) is Some,
        required_text(node.config@, "data_model_code"@) == Some(model_code),
        match record_id {
            Some(id) => trim(id) == id && id.len() > 0,
            None => true,
        },
        policy_of(node.config@) == Ok::<DataModelSideEffectPolicy, Seq<char>>(
            DataModelSideEffectPolicy::ConfirmEachRun,
        ),
        write_plan(node, ctx, action_of(node.node_type@)->Some_0, model_code, record_id, payload, now) is Ok,
        trim(json_hash(write_request_json(action_of(node.node_type@)->Some_0, model_code, record_id, payload)))
            == json_hash(write_request_json(action_of(node.node_type@)->Some_0, model_code, record_id, payload)),
    ensures
        ({
            let action = action_of(node.node_type@)->Some_0;
            let plan = write_plan(node, ctx, action, model_code, record_id, payload, now)->Ok_0;
            &&& plan.2 is Some
            &&& confirmation_check(
                node,
                ctx,
                confirmation_json(actor_user_id, node.node_id@, run_id, plan.1, plan.0, expires_at, plan.2->Some_0.0),
            ) == Ok::<(RequestSpec, Seq<char>, Seq<char>), Seq<char>>(
                (RequestSpec { action, model_code, record_id, payload }, plan.0, plan.1),
            )
        }),
{
    let action = action_of(node.node_type@)->Some_0;
    let request = write_request_json(action, model_code, record_id, payload);
    let hash = json_hash(request);
    let key = idempotency_key(ctx, node.node_id@, action, hash);
    let plan = write_plan(node, ctx, action, model_code, record_id, payload, now)->Ok_0;
    assert(plan == (key, hash, Some((request, now + CONFIRMATION_WINDOW_NANOS))));
    let conf = confirmation_json(actor_user_id, node.node_id@, run_id, hash, key, expires_at, request);
    let ce = conf->Object_0;
    let re = request->Object_0;
    reveal_strlit("kind");
    reveal_strlit("actor_user_id");
    reveal_strlit("node_id");
    reveal_strlit("run_id");
    reveal_strlit("payload_hash");
    reveal_strlit("idempotency_key");
    reveal_strlit("expires_at");
    reveal_strlit("request_payload");
    reveal_strlit("action");
    reveal_strlit("model_code");
    reveal_strlit("record_id");
    reveal_strlit("payload");
    reveal_strlit("sha256:");
    reveal_strlit("data_model:");
    assert(ce[0].0 == "kind"@ && ce[1].0 == "actor_user_id"@ && ce[2].0 == "node_id"@ && ce[3].0 == "run_id"@);
    assert(ce[4].0 == "payload_hash"@ && ce[5].0 == "idempotency_key"@ && ce[6].0 == "expires_at"@);
    assert("idempotency_key"@[0] != "request_payload"@[0]);
    assert forall|k: int| 0 <= k < 7 implies ce[k].0 != "request_payload"@ by {
        assert(k == 0 || k == 1 || k == 2 || k == 3 || k == 4 || k == 5 || k == 6);
    }
    assert forall|k: int| 0 <= k < 4 implies ce[k].0 != "payload_hash"@ by {
        assert(k == 0 || k == 1 || k == 2 || k == 3);
    }
    crate::json::lemma_lookup_at(ce, "request_payload"@, 7);
    crate::json::lemma_lookup_at(ce, "payload_hash"@, 4);
    crate::json::lemma_lookup_at(ce, "idempotency_key"@, 5);
    crate::json::lemma_lookup_at(re, "action"@, 0);
    crate::json::lemma_lookup_at(re, "model_code"@, 1);
    assert(re[0].0 == "action"@ && re[1].0 == "model_code"@ && re[2].0 == "record_id"@);
    assert forall|k: int| 0 <= k < 2 implies re[k].0 != "record_id"@ by {
        assert(k == 0 || k == 1);
    }
    assert forall|k: int| 0 <= k < 3 implies re[k].0 != "payload"@ by {
        assert(k == 0 || k == 1 || k == 2);
    }
    crate::json::lemma_lookup_at(re, "record_id"@, 2);
    crate::json::lemma_lookup_at(re, "payload"@, 3);
    lemma_action_trimmed(action);
    crate::text::lemma_trim_idempotent(get_str(node.config@, "data_model_code"@)->Some_0);
    assert(spec_get(conf, "request_payload"@) == Some(request));
    assert(required_text(request, "action"@) == Some(action));
    assert(required_text(request, "model_code"@) == Some(model_code));
    assert(parse_request_spec(request) == Ok::<RequestSpec, Seq<char>>(
        RequestSpec { action, model_code, record_id, payload },
    ));
    assert(hash.len() > 0);
    assert(required_text(conf, "payload_hash"@) == Some(hash));
    crate::text::lemma_trim_ends(hash);
    assert(key[0] == 'd');
    assert(key.last() == hash.last());
    crate::text::lemma_trim_fixed(key);
    assert(required_text(conf, "idempotency_key"@) == Some(key));
}


/// Why a confirmation of a side effect is refused before its write: it belongs to another actor,
/// or it is incomplete, unreadable or expired (with the message).
pub enum ConfirmationMetadataError {
    Denied(ControlPlaneError),
    Invalid(String),
}

/// The plain facts of a [`ConfirmationMetadataError`].
pub enum ConfirmationErrorSpec {
    Denied(ControlPlaneError),
    Invalid(Seq<char>),
}

pub open spec fn confirmation_error_spec(e: ConfirmationMetadataError) -> ConfirmationErrorSpec {
    match e {
        ConfirmationMetadataError::Denied(d) => ConfirmationErrorSpec::Denied(d),
        ConfirmationMetadataError::Invalid(m) => ConfirmationErrorSpec::Invalid(m@),
    }
}

/// The checks on who confirms a side effect and when, in order: the confirmation names its
/// actor as an id, that actor is the one confirming, it names its expiry as an instant, and that
/// instant is not past at `now`.
pub open spec fn confirmation_metadata_check(actor_user_id: u128, confirmation: JsonSpec, now: int) -> Result<
    (),
    ConfirmationErrorSpec,
> {
    match get_str(confirmation, "actor_user_id"@) {
        None => Err(ConfirmationErrorSpec::Invalid("data_model side-effect confirmation actor is required"@)),
        Some(text) => match uuid_parsed(text) {
            Err(m) => Err(ConfirmationErrorSpec::Invalid(m)),
            Ok(expected) => if expected != actor_user_id {
                Err(
                    ConfirmationErrorSpec::Denied(
                        ControlPlaneError::PermissionDenied("data_model_side_effect_confirmation_actor"),
                    ),
                )
            } else {
                match spec_get(confirmation, "expires_at"@) {
                    None => Err(
                        ConfirmationErrorSpec::Invalid("data_model side-effect confirmation expiry is required"@),
                    ),
                    Some(v) => match json_date_time_nanos(v) {
                        Err(m) => Err(ConfirmationErrorSpec::Invalid(m)),
                        Ok(expires_at) => if now > expires_at {
                            Err(
                                ConfirmationErrorSpec::Invalid(
                                    "DATA_MODEL_SIDE_EFFECT_CONFIRMATION_EXPIRED: data_model write confirmation expired"@,
                                ),
                            )
                        } else {
                            Ok(())
                        },
                    },
                }
            },
        },
    }
}

/// Checks who confirms a side effect, and that the confirmation has not expired at
/// `now_unix_nanos`.
pub fn ensure_side_effect_confirmation_metadata(
    actor_user_id: u128,
    confirmation_payload: &JsonValue,
    now_unix_nanos: i128,
) -> (r: Result<(), ConfirmationMetadataError>)
    ensures
        match confirmation_metadata_check(actor_user_id, confirmation_payload@, now_unix_nanos as int) {
            Ok(()) => r is Ok,
            Err(e) => r is Err && confirmation_error_spec(r->Err_0) == e,
        },
{
    let text = match confirmation_payload.get_str("actor_user_id") {
        Some(t) => t,
        None => {
            return Err(
                ConfirmationMetadataError::Invalid(to_string("data_model side-effect confirmation actor is required")),
            );
        },
    };
    let expected = match uuid_parse(text) {
        Ok(id) => id,
        Err(m) => {
            return Err(ConfirmationMetadataError::Invalid(m));
        },
    };
    if expected != actor_user_id {
        return Err(
            ConfirmationMetadataError::Denied(
                ControlPlaneError::PermissionDenied("data_model_side_effect_confirmation_actor"),
            ),
        );
    }
    let expiry = match confirmation_payload.get("expires_at") {
        Some(v) => v,
        None => {
            return Err(
                ConfirmationMetadataError::Invalid(to_string("data_model side-effect confirmation expiry is required")),
            );
        },
    };
    let expires_at = match date_time_from_json(expiry) {
        Ok(t) => t,
        Err(m) => {
            return Err(ConfirmationMetadataError::Invalid(m));
        },
    };
    if now_unix_nanos > expires_at {
        return Err(
            ConfirmationMetadataError::Invalid(
                to_string("DATA_MODEL_SIDE_EFFECT_CONFIRMATION_EXPIRED: data_model write confirmation expired"),
            ),
        );
    }
    Ok(())
}

/// Checks who confirms a side effect, and that the confirmation has not expired now: whatever
/// the clock reads, the outcome is the one for that reading.
pub fn ensure_side_effect_confirmation_metadata_now(actor_user_id: u128, confirmation_payload: &JsonValue) -> (r:
    Result<(), ConfirmationMetadataError>)
    ensures
        exists|now: i128|
            match #[trigger] confirmation_metadata_check(actor_user_id, confirmation_payload@, now as int) {
                Ok(()) => r is Ok,
                Err(e) => r is Err && confirmation_error_spec(r->Err_0) == e,
            },
{
    let now = now_unix_timestamp_nanos();
    let r = ensure_side_effect_confirmation_metadata(actor_user_id, confirmation_payload, now);
    assert(match confirmation_metadata_check(actor_user_id, confirmation_payload@, now as int) {
        Ok(()) => r is Ok,
        Err(e) => r is Err && confirmation_error_spec(r->Err_0) == e,
    });
    r
}

// ---------------------------------------------------------------------------------------------
// The steps of an idempotent write
// ---------------------------------------------------------------------------------------------

/// Where an idempotent write stands.
pub enum WriteState {
    /// The receipt of the write's idempotency key is being claimed.
    Claiming,
    /// The write is being made.
    Writing,
    /// The write succeeded with this output; its receipt is being recorded.
    RecordingSuccess { output_payload: JsonValue },
    /// Nothing more is done.
    Done,
}

/// What came of the last action.
pub enum WriteEvent {
    ClaimFailed(String),
    Claimed { claimed: bool, found: ClaimedReceipt },
    Written(Result<JsonValue, String>),
    SuccessRecorded(Result<DataModelSideEffectReceiptRecord, String>),
}

/// What to do next.
pub enum WriteAction {
    /// Report the error.
    Fail { message: String },
    /// Give back the outcome of the write made before.
    Replay(DataModelExecutionResult),
    /// Make this write.
    Write(DataModelWriteCall),
    /// Record the receipt as failed with this error (an error of that write is ignored), then
    /// report the error.
    RecordFailure { message: String },
    /// Record the receipt as succeeded with this output.
    RecordSuccess { output_payload: JsonValue },
    /// Give back the outcome of this write.
    Complete(DataModelExecutionResult),
    /// The event does not belong to this state: nothing is done.
    Ignore,
}

/// The plain facts of a [`WriteState`]: its kind (in declaration order) and the output it holds.
pub open spec fn write_state_view(s: WriteState) -> (int, JsonSpec) {
    match s {
        WriteState::Claiming => (0, JsonSpec::Null),
        WriteState::Writing => (1, JsonSpec::Null),
        WriteState::RecordingSuccess { output_payload } => (2, output_payload@),
        WriteState::Done => (3, JsonSpec::Null),
    }
}

/// The plain facts of an outcome: whether it completed, its output, its receipt, and whether it
/// was replayed.
pub open spec fn execution_result_facts(r: DataModelExecutionResult) -> (bool, JsonSpec, Option<JsonSpec>, bool) {
    match r {
        DataModelExecutionResult::Completed { output_payload, side_effect_receipt, replayed } => (
            true,
            output_payload@,
            crate::json::opt_json_view(side_effect_receipt),
            replayed,
        ),
        DataModelExecutionResult::WaitingConfirmation(_) => (false, JsonSpec::Null, None, false),
    }
}

/// The plain facts of a [`WriteAction`]: its kind (in declaration order), its message, its write,
/// and the facts of the outcome it gives back (or the output it records).
pub open spec fn write_action_spec(a: WriteAction) -> (int, Seq<char>, (int, Seq<char>), (bool, JsonSpec, Option<JsonSpec>, bool)) {
    let none = (false, JsonSpec::Null, None, false);
    match a {
        WriteAction::Fail { message } => (0, message@, (0, Seq::empty()), none),
        WriteAction::Replay(r) => (1, Seq::empty(), (0, Seq::empty()), execution_result_facts(r)),
        WriteAction::Write(c) => (2, Seq::empty(), write_call_spec(c), none),
        WriteAction::RecordFailure { message } => (3, message@, (0, Seq::empty()), none),
        WriteAction::RecordSuccess { output_payload } => (4, Seq::empty(), (0, Seq::empty()), (false, output_payload@, None, false)),
        WriteAction::Complete(r) => (5, Seq::empty(), (0, Seq::empty()), execution_result_facts(r)),
        WriteAction::Ignore => (6, Seq::empty(), (0, Seq::empty()), none),
    }
}

/// The step of an idempotent write of `action` (on `record_id`): a failed claim is reported; a
/// receipt claimed by an earlier write is replayed when that write succeeded and refused
/// otherwise; a claim won makes the write ([`write_call`], or its refusal); a failed write
/// records a failed receipt and is reported; a write that succeeded records its receipt, and
/// completes with its output and that receipt unless the recording fails.
pub open spec fn write_step_spec(
    action: Seq<char>,
    record_id: Option<Seq<char>>,
    s: (int, JsonSpec),
    e: WriteEvent,
) -> ((int, JsonSpec), (int, Seq<char>, (int, Seq<char>), (bool, JsonSpec, Option<JsonSpec>, bool))) {
    let none = (false, JsonSpec::Null, None, false);
    let done = (3int, JsonSpec::Null);
    if s.0 == 0 {
        match e {
            WriteEvent::ClaimFailed(m) => (done, (0, m@, (0, Seq::empty()), none)),
            WriteEvent::Claimed { claimed, found } => if claimed {
                match write_call(action, record_id) {
                    Ok(c) => ((1, JsonSpec::Null), (2, Seq::empty(), c, none)),
                    Err(m) => (done, (0, m, (0, Seq::empty()), none)),
                }
            } else if found.receipt.status@ == "succeeded"@ {
                (
                    done,
                    (1, Seq::empty(), (0, Seq::empty()), (true, found.output_payload@, Some(receipt_json(found.receipt)), true)),
                )
            } else {
                (
                    done,
                    (
                        0,
                        "DATA_MODEL_SIDE_EFFECT_RECEIPT_NOT_REPLAYABLE: data_model "@ + action + " receipt status is "@
                            + found.receipt.status@,
                        (0, Seq::empty()),
                        none,
                    ),
                )
            },
            _ => (s, (6, Seq::empty(), (0, Seq::empty()), none)),
        }
    } else if s.0 == 1 {
        match e {
            WriteEvent::Written(r) => match r {
                Err(m) => (done, (3, m@, (0, Seq::empty()), none)),
                Ok(out) => ((2, out@), (4, Seq::empty(), (0, Seq::empty()), (false, out@, None, false))),
            },
            _ => (s, (6, Seq::empty(), (0, Seq::empty()), none)),
        }
    } else if s.0 == 2 {
        match e {
            WriteEvent::SuccessRecorded(r) => match r {
                Err(m) => (done, (0, m@, (0, Seq::empty()), none)),
                Ok(rec) => (done, (5, Seq::empty(), (0, Seq::empty()), (true, s.1, Some(receipt_json(rec)), false))),
            },
            _ => (s, (6, Seq::empty(), (0, Seq::empty()), none)),
        }
    } else {
        (s, (6, Seq::empty(), (0, Seq::empty()), none))
    }
}

/// The next state of an idempotent write of `action` (on `record_id`), and what to do, once
/// `event` came of the last action.
pub fn write_step(action: &str, record_id: &Option<String>, state: WriteState, event: WriteEvent) -> (r: (
    WriteState,
    WriteAction,
))
    ensures
        (write_state_view(r.0), write_action_spec(r.1)) == write_step_spec(
            action@,
            crate::json::opt_string_view(*record_id),
            write_state_view(state),
            event,
        ),
{
    match state {
        WriteState::Claiming => match event {
            WriteEvent::ClaimFailed(m) => (WriteState::Done, WriteAction::Fail { message: m }),
            WriteEvent::Claimed { claimed, found } => {
                match replay_claimed_receipt(claimed, action, found) {
                    Err(m) => (WriteState::Done, WriteAction::Fail { message: m }),
                    Ok(Some(res)) => (WriteState::Done, WriteAction::Replay(res)),
                    Ok(None) => match data_model_write_call(action, record_id) {
                        Ok(c) => (WriteState::Writing, WriteAction::Write(c)),
                        Err(m) => (WriteState::Done, WriteAction::Fail { message: m }),
                    },
                }
            },
            _ => (WriteState::Claiming, WriteAction::Ignore),
        },
        WriteState::Writing => match event {
            WriteEvent::Written(r) => match r {
                Err(m) => (WriteState::Done, WriteAction::RecordFailure { message: m }),
                Ok(out) => {
                    let recorded = clone_json(&out);
                    (WriteState::RecordingSuccess { output_payload: out }, WriteAction::RecordSuccess { output_payload: recorded })
                },
            },
            _ => (WriteState::Writing, WriteAction::Ignore),
        },
        WriteState::RecordingSuccess { output_payload } => match event {
            WriteEvent::SuccessRecorded(r) => match r {
                Err(m) => (WriteState::Done, WriteAction::Fail { message: m }),
                Ok(rec) => (
                    WriteState::Done,
                    WriteAction::Complete(
                        DataModelExecutionResult::Completed {
                            output_payload,
                            side_effect_receipt: Some(receipt_payload(&rec)),
                            replayed: false,
                        },
                    ),
                ),
            },
            _ => (WriteState::RecordingSuccess { output_payload }, WriteAction::Ignore),
        },
        WriteState::Done => (WriteState::Done, WriteAction::Ignore),
    }
}

/// A failed write never completes: it records a failed receipt with its error and reports it.
pub proof fn law_failed_write_records_a_failed_receipt(action: Seq<char>, record_id: Option<Seq<char>>, m: String)
    ensures
        write_step_spec(action, record_id, (1, JsonSpec::Null), WriteEvent::Written(Err(m))).1.0 == 3,
        write_step_spec(action, record_id, (1, JsonSpec::Null), WriteEvent::Written(Err(m))).1.1 == m@,
{
}

} // verus!
