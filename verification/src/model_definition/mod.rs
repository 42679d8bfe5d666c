//! Data model definitions: naming, the rules on external keys, who may change what, how far a
//! model is exposed through API keys, and what the advisor reports about it.

use vstd::prelude::*;
use crate::errors::{has_permission, ActorContext, ControlPlaneError};
use crate::json::{get_bool, JsonValue};
use crate::outside::{new_uuid_v7, now_unix_timestamp_nanos, uuid_hyphenated, uuid_simple, uuid_to_hyphenated, uuid_to_simple};
use crate::text::{
    is_blank, is_blank_text, replace_char, replace_char_seq, str_eq, to_string, trim, trim_to_string,
};

pub mod in_memory_repository;

verus! {

/// Whose data a model or a grant belongs to.
#[derive(Debug, Clone, Copy, PartialEq, Eq, Structural)]
pub enum DataModelScopeKind {
    Workspace,
    System,
}

/// Lifecycle of a data model.
#[derive(Debug, Clone, Copy, PartialEq, Eq, Structural)]
pub enum DataModelStatus {
    Draft,
    Published,
    Disabled,
    Broken,
}

/// How far a data model is exposed through API keys.
#[derive(Debug, Clone, Copy, PartialEq, Eq, Structural)]
pub enum ApiExposureStatus {
    Draft,
    PublishedNotExposed,
    ApiExposedNoPermission,
    ApiExposedReady,
    UnsafeExternalSource,
}

/// Where a model's records live: the main source, or an external data source.
#[derive(Debug, Clone, Copy, PartialEq, Eq, Structural)]
pub enum DataModelSourceKind {
    MainSource,
    ExternalSource,
}

/// What a scope grant lets its scope see of a model's records.
#[derive(Debug, Clone, Copy, PartialEq, Eq, Structural)]
pub enum ScopeDataModelPermissionProfile {
    Owner,
    ScopeAll,
    SystemAll,
}

/// The kind of a model field, as far as the rules here read it.
#[derive(Debug, Clone, Copy, PartialEq, Eq, Structural)]
pub enum ModelFieldKind {
    Json,
    ManyToOne,
    OneToMany,
    /// Any scalar kind.
    Scalar,
}

#[derive(Debug, Clone, Copy, PartialEq, Eq, Structural)]
pub enum DataModelAdvisorSeverity {
    Info,
    Medium,
    High,
    Blocking,
}

/// A field of a data model.
pub struct ModelFieldRecord {
    pub id: u128,
    pub code: String,
    pub external_field_key: Option<String>,
    pub field_kind: ModelFieldKind,
    pub is_unique: bool,
    pub is_system: bool,
    pub is_writable: bool,
}

/// A data model definition, as far as the rules here read it.
pub struct ModelDefinitionRecord {
    pub id: u128,
    pub code: String,
    pub scope_kind: DataModelScopeKind,
    pub source_kind: DataModelSourceKind,
    pub status: DataModelStatus,
    pub api_exposure_status: ApiExposureStatus,
    pub audit_namespace: String,
    pub is_protected: bool,
    pub external_capability_snapshot: Option<JsonValue>,
    pub fields: Vec<ModelFieldRecord>,
}

/// A grant that lets a scope use a data model.
#[derive(Clone, Copy)]
pub struct ScopeDataModelGrantRecord {
    pub id: u128,
    pub data_model_id: u128,
    pub scope_kind: DataModelScopeKind,
    pub scope_id: u128,
    pub enabled: bool,
    pub permission_profile: ScopeDataModelPermissionProfile,
}

/// The grant the runtime applies when records of a model are read or written.
#[derive(Clone, Copy)]
pub struct RuntimeScopeGrant {
    pub data_model_id: u128,
    pub scope_kind: DataModelScopeKind,
    pub scope_id: u128,
    pub enabled: bool,
    pub permission_profile: ScopeDataModelPermissionProfile,
}

/// What an API key may do with a data model. `expires_at` is a Unix time in nanoseconds.
#[derive(Clone, Copy)]
pub struct ApiKeyDataModelReadinessRecord {
    pub data_model_id: u128,
    pub key_enabled: bool,
    pub expires_at: Option<i128>,
    pub scope_kind: DataModelScopeKind,
    pub scope_id: u128,
    pub has_any_action_permission: bool,
    pub allow_create: bool,
    pub allow_update: bool,
    pub allow_delete: bool,
}

/// What decides how far a published model is exposed.
#[derive(Clone, Copy)]
pub struct ApiExposureReadinessFacts {
    pub has_active_api_key: bool,
    pub has_ready_path: bool,
}

/// What the advisor knows of a model's API keys.
#[derive(Clone, Copy)]
pub struct ApiExposureAdvisorFacts {
    pub has_active_api_key: bool,
    pub has_ready_path: bool,
    pub has_action_permission: bool,
    pub has_write_permission: bool,
    pub has_usable_scope_filter: bool,
    pub audit_configured: bool,
}

/// One finding of the advisor about a data model.
pub struct DataModelAdvisorFinding {
    pub id: String,
    pub data_model_id: u128,
    pub severity: DataModelAdvisorSeverity,
    pub code: String,
    pub message: String,
    pub recommended_action: String,
    pub can_acknowledge: bool,
}

// ---------------------------------------------------------------------------------------------
// Naming
// ---------------------------------------------------------------------------------------------

pub open spec fn scope_prefix(scope_kind: DataModelScopeKind) -> Seq<char> {
    match scope_kind {
        DataModelScopeKind::Workspace => "workspace"@,
        DataModelScopeKind::System => "system"@,
    }
}

/// `rtm_{scope}_{last 8 characters of the suffix}_{code with '-' as '_'}`.
pub open spec fn physical_table_name(scope_kind: DataModelScopeKind, suffix: Seq<char>, code: Seq<char>) -> Seq<char> {
    "rtm_"@ + scope_prefix(scope_kind) + "_"@ + suffix.skip(suffix.len() - 8) + "_"@ + replace_char_seq(code, '-', '_')
}

/// A column name from a field code: `-` becomes `_`.
pub fn build_physical_column_name(code: &str) -> (name: String)
    ensures
        name@ == replace_char_seq(code@, '-', '_'),
{
    replace_char(code, '-', '_')
}

/// The table name of a model, from its scope, a suffix of at least 8 characters and its code.
pub fn physical_table_name_with_suffix(scope_kind: DataModelScopeKind, suffix: &str, code: &str) -> (name: String)
    requires
        suffix@.len() >= 8,
    ensures
        name@ == physical_table_name(scope_kind, suffix@, code@),
{
    let chars = crate::text::chars_of(suffix);
    let tail = crate::text::string_from_chars(&chars, chars.len() - 8, chars.len());
    let mut name = to_string("rtm_");
    match scope_kind {
        DataModelScopeKind::Workspace => name.push_str("workspace"),
        DataModelScopeKind::System => name.push_str("system"),
    }
    name.push_str("_");
    name.push_str(tail.as_str());
    name.push_str("_");
    let sanitized = replace_char(code, '-', '_');
    name.push_str(sanitized.as_str());
    proof {
        assert(tail@ =~= suffix@.skip(suffix@.len() - 8));
    }
    assert(name@ =~= physical_table_name(scope_kind, suffix@, code@));
    name
}

/// The table name of a new model: the suffix is the simple form of a fresh time-ordered UUID.
pub fn build_physical_table_name(scope_kind: DataModelScopeKind, code: &str) -> (name: String)
    ensures
        exists|id: u128| name@ == physical_table_name(scope_kind, #[trigger] uuid_simple(id), code@),
{
    let id = new_uuid_v7();
    let suffix = uuid_to_simple(id);
    let name = physical_table_name_with_suffix(scope_kind, suffix.as_str(), code);
    assert(name@ == physical_table_name(scope_kind, uuid_simple(id), code@));
    name
}

// ---------------------------------------------------------------------------------------------
// External keys
// ---------------------------------------------------------------------------------------------

/// A trimmed text, unless it is empty.
pub open spec fn optional_text(value: Option<Seq<char>>) -> Option<Seq<char>> {
    match value {
        Some(v) => if trim(v).len() > 0 {
            Some(trim(v))
        } else {
            None
        },
        None => None,
    }
}

pub fn normalize_optional_text(value: Option<&str>) -> (r: Option<String>)
    ensures
        crate::json::opt_string_view(r) == optional_text(crate::json::opt_str_view(value)),
{
    match value {
        Some(v) => {
            let t = trim_to_string(v);
            if t.as_str().is_empty() {
                None
            } else {
                Some(t)
            }
        },
        None => None,
    }
}

/// A key that an external source needs and the main source refuses: an external source takes
/// the trimmed key and refuses a missing or blank one; the main source refuses a non-blank one.
pub open spec fn required_external_key(
    source_kind: DataModelSourceKind,
    value: Option<Seq<char>>,
) -> Option<Option<Seq<char>>> {
    match source_kind {
        DataModelSourceKind::ExternalSource => match optional_text(value) {
            Some(v) => Some(Some(v)),
            None => None,
        },
        DataModelSourceKind::MainSource => match optional_text(value) {
            Some(_) => None,
            None => Some(None),
        },
    }
}

fn normalize_required_external_key(
    source_kind: DataModelSourceKind,
    value: Option<&str>,
    field: &'static str,
) -> (r: Result<Option<String>, ControlPlaneError>)
    ensures
        match required_external_key(source_kind, crate::json::opt_str_view(value)) {
            Some(k) => r is Ok && crate::json::opt_string_view(r->Ok_0) == k,
            None => r == Err::<Option<String>, _>(ControlPlaneError::InvalidInput(field)),
        },
{
    let normalized = normalize_optional_text(value);
    match source_kind {
        DataModelSourceKind::ExternalSource => match normalized {
            Some(v) => Ok(Some(v)),
            None => Err(ControlPlaneError::InvalidInput(field)),
        },
        DataModelSourceKind::MainSource => match normalized {
            Some(_) => Err(ControlPlaneError::InvalidInput(field)),
            None => Ok(None),
        },
    }
}

/// The resource key of a model's external source.
pub fn normalize_external_resource_key(source_kind: DataModelSourceKind, value: Option<&str>) -> (r: Result<
    Option<String>,
    ControlPlaneError,
>)
    ensures
        match required_external_key(source_kind, crate::json::opt_str_view(value)) {
            Some(k) => r is Ok && crate::json::opt_string_view(r->Ok_0) == k,
            None => r == Err::<Option<String>, _>(ControlPlaneError::InvalidInput("external_resource_key")),
        },
{
    normalize_required_external_key(source_kind, value, "external_resource_key")
}

/// The key of a field in its model's external source.
pub fn normalize_external_field_key(source_kind: DataModelSourceKind, value: Option<&str>) -> (r: Result<
    Option<String>,
    ControlPlaneError,
>)
    ensures
        match required_external_key(source_kind, crate::json::opt_str_view(value)) {
            Some(k) => r is Ok && crate::json::opt_string_view(r->Ok_0) == k,
            None => r == Err::<Option<String>, _>(ControlPlaneError::InvalidInput("external_field_key")),
        },
{
    normalize_required_external_key(source_kind, value, "external_field_key")
}

/// The table id of a model's external source: optional for an external source, refused for the
/// main source when it is not blank.
pub fn normalize_external_table_id(source_kind: DataModelSourceKind, value: Option<&str>) -> (r: Result<
    Option<String>,
    ControlPlaneError,
>)
    ensures
        match source_kind {
            DataModelSourceKind::ExternalSource => r is Ok && crate::json::opt_string_view(r->Ok_0)
                == optional_text(crate::json::opt_str_view(value)),
            DataModelSourceKind::MainSource => match optional_text(crate::json::opt_str_view(value)) {
                Some(_) => r == Err::<Option<String>, _>(ControlPlaneError::InvalidInput("external_table_id")),
                None => r is Ok && r->Ok_0 is None,
            },
        },
{
    let normalized = normalize_optional_text(value);
    match source_kind {
        DataModelSourceKind::ExternalSource => Ok(normalized),
        DataModelSourceKind::MainSource => match normalized {
            Some(_) => Err(ControlPlaneError::InvalidInput("external_table_id")),
            None => Ok(None),
        },
    }
}

// ---------------------------------------------------------------------------------------------
// Who may change what
// ---------------------------------------------------------------------------------------------

pub open spec fn state_model_permission(action: Seq<char>, reach: Seq<char>) -> Seq<char> {
    "state_model."@ + action + "."@ + reach
}

pub open spec fn may_use_state_models(actor: ActorContext, action: Seq<char>) -> bool {
    actor.is_root || has_permission(actor, state_model_permission(action, "all"@)) || has_permission(
        actor,
        state_model_permission(action, "own"@),
    )
}

fn permission_code(action: &str, reach: &str) -> (code: String)
    ensures
        code@ == state_model_permission(action@, reach@),
{
    let mut code = to_string("state_model.");
    code.push_str(action);
    code.push_str(".");
    code.push_str(reach);
    code
}

/// The actor may `action` data models: root, or holding `state_model.{action}.all` or
/// `state_model.{action}.own`.
pub fn ensure_state_model_permission(actor: &ActorContext, action: &str) -> (r: Result<(), ControlPlaneError>)
    ensures
        r is Ok <==> may_use_state_models(*actor, action@),
        r is Err ==> r == Err::<(), _>(ControlPlaneError::PermissionDenied("permission_denied")),
{
    if actor.is_root || actor.has_permission(permission_code(action, "all").as_str())
        || actor.has_permission(permission_code(action, "own").as_str()) {
        return Ok(());
    }
    Err(ControlPlaneError::PermissionDenied("permission_denied"))
}

pub open spec fn may_manage_scope_grant(actor: ActorContext, scope_kind: DataModelScopeKind, scope_id: u128) -> bool {
    actor.is_root || (scope_kind == DataModelScopeKind::Workspace && scope_id == actor.current_workspace_id)
}

/// Root manages every scope grant; anyone else only those of the workspace they act in.
pub fn ensure_scope_grant_lifecycle_authorized(
    actor: &ActorContext,
    scope_kind: DataModelScopeKind,
    scope_id: u128,
) -> (r: Result<(), ControlPlaneError>)
    ensures
        r is Ok <==> may_manage_scope_grant(*actor, scope_kind, scope_id),
        r is Err ==> r == Err::<(), _>(ControlPlaneError::PermissionDenied("permission_denied")),
{
    if actor.is_root {
        return Ok(());
    }
    if scope_kind == DataModelScopeKind::Workspace && scope_id == actor.current_workspace_id {
        return Ok(());
    }
    Err(ControlPlaneError::PermissionDenied("permission_denied"))
}

/// Only root may change a protected model.
pub fn ensure_protected_model_override_authorized(actor: &ActorContext, model: &ModelDefinitionRecord) -> (r: Result<
    (),
    ControlPlaneError,
>)
    ensures
        r is Ok <==> (!model.is_protected || actor.is_root),
        r is Err ==> r == Err::<(), _>(ControlPlaneError::PermissionDenied("protected_data_model")),
{
    if model.is_protected && !actor.is_root {
        return Err(ControlPlaneError::PermissionDenied("protected_data_model"));
    }
    Ok(())
}

/// The main-source models that cannot be deleted.
pub open spec fn is_builtin_model_code(code: Seq<char>) -> bool {
    code == "attachments"@ || code == "users"@ || code == "roles"@
}

/// Built-in models of the main source cannot be deleted.
pub fn ensure_model_deletable(model: &ModelDefinitionRecord) -> (r: Result<(), ControlPlaneError>)
    ensures
        r is Ok <==> !(model.source_kind == DataModelSourceKind::MainSource && is_builtin_model_code(model.code@)),
        r is Err ==> r == Err::<(), _>(ControlPlaneError::InvalidInput("builtin_data_model")),
{
    let code = model.code.as_str();
    if model.source_kind == DataModelSourceKind::MainSource && (str_eq(code, "attachments") || str_eq(code, "users")
        || str_eq(code, "roles")) {
        return Err(ControlPlaneError::InvalidInput("builtin_data_model"));
    }
    Ok(())
}

/// A field can be changed when it exists and is neither a system field nor read-only.
pub fn ensure_field_mutable(model: &ModelDefinitionRecord, field_id: u128) -> (r: Result<(), ControlPlaneError>)
    ensures
        (forall|i: int| 0 <= i < model.fields@.len() ==> model.fields@[i].id != field_id) ==> r
            == Err::<(), _>(ControlPlaneError::NotFound("model_field")),
        forall|i: int|
            0 <= i < model.fields@.len() && model.fields@[i].id == field_id && (forall|k: int|
                0 <= k < i ==> model.fields@[k].id != field_id) ==> (if model.fields@[i].is_system
                || !model.fields@[i].is_writable {
                r == Err::<(), _>(ControlPlaneError::InvalidInput("model_field"))
            } else {
                r is Ok
            }),
{
    let mut i: usize = 0;
    while i < model.fields.len()
        invariant
            i <= model.fields@.len(),
            forall|k: int| 0 <= k < i ==> model.fields@[k].id != field_id,
        decreases model.fields.len() - i,
    {
        let field = &model.fields[i];
        if field.id == field_id {
            if field.is_system || !field.is_writable {
                return Err(ControlPlaneError::InvalidInput("model_field"));
            }
            return Ok(());
        }
        i = i + 1;
    }
    Err(ControlPlaneError::NotFound("model_field"))
}

// ---------------------------------------------------------------------------------------------
// Exposure and advisor
// ---------------------------------------------------------------------------------------------

/// Whether field `j` repeats the code or the external key of an earlier field, or is a unique
/// JSON field.
pub open spec fn field_is_risky_at(fields: Seq<ModelFieldRecord>, j: int) -> bool {
    ||| exists|i: int| 0 <= i < j && #[trigger] fields[i].code@ == fields[j].code@
    ||| (fields[j].external_field_key is Some && exists|i: int|
        0 <= i < j && (#[trigger] fields[i].external_field_key) is Some && fields[i].external_field_key->0@
            == fields[j].external_field_key->0@)
    ||| (fields[j].is_unique && fields[j].field_kind == ModelFieldKind::Json)
}

pub open spec fn has_risky_fields(fields: Seq<ModelFieldRecord>) -> bool {
    exists|j: int| 0 <= j < fields.len() && #[trigger] field_is_risky_at(fields, j)
}

/// Whether fields repeat a code or an external key, or a JSON field is unique.
pub fn has_duplicate_or_risky_field_configuration(fields: &[ModelFieldRecord]) -> (b: bool)
    ensures
        b == has_risky_fields(fields@),
{
    let mut j: usize = 0;
    while j < fields.len()
        invariant
            j <= fields@.len(),
            forall|k: int| 0 <= k < j ==> !field_is_risky_at(fields@, k),
        decreases fields.len() - j,
    {
        let mut i: usize = 0;
        while i < j
            invariant
                i <= j < fields@.len(),
                forall|k: int| 0 <= k < i ==> fields@[k].code@ != fields@[j as int].code@,
                forall|k: int|
                    0 <= k < i && fields@[k].external_field_key is Some && fields@[j as int].external_field_key is Some
                        ==> fields@[k].external_field_key->0@ != fields@[j as int].external_field_key->0@,
            decreases j - i,
        {
            if str_eq(fields[i].code.as_str(), fields[j].code.as_str()) {
                assert(field_is_risky_at(fields@, j as int));
                return true;
            }
            match (&fields[i].external_field_key, &fields[j].external_field_key) {
                (Some(a), Some(b)) => {
                    if str_eq(a.as_str(), b.as_str()) {
                        assert(field_is_risky_at(fields@, j as int));
                        return true;
                    }
                },
                _ => {},
            }
            i = i + 1;
        }
        if fields[j].is_unique && fields[j].field_kind == ModelFieldKind::Json {
            assert(field_is_risky_at(fields@, j as int));
            return true;
        }
        j = j + 1;
    }
    false
}

/// A key is active when it is enabled and has not expired at `now` (Unix nanoseconds).
pub open spec fn api_key_active_at(readiness: ApiKeyDataModelReadinessRecord, now: i128) -> bool {
    readiness.key_enabled && match readiness.expires_at {
        None => true,
        Some(e) => e > now,
    }
}

pub fn is_api_key_active_at(readiness: &ApiKeyDataModelReadinessRecord, now: i128) -> (b: bool)
    ensures
        b == api_key_active_at(*readiness, now),
{
    readiness.key_enabled && match readiness.expires_at {
        None => true,
        Some(e) => e > now,
    }
}

/// Whether a key is active now. The clock is read here: the result holds of the moment read.
pub fn active_api_key_readiness(readiness: &ApiKeyDataModelReadinessRecord) -> (b: bool)
    ensures
        b ==> readiness.key_enabled,
        !readiness.key_enabled ==> !b,
        readiness.key_enabled && readiness.expires_at is None ==> b,
        exists|now: i128| b == #[trigger] api_key_active_at(*readiness, now),
{
    let now = now_unix_timestamp_nanos();
    let b = is_api_key_active_at(readiness, now);
    assert(b == api_key_active_at(*readiness, now));
    b
}

pub open spec fn profile_usable_by_api_key(p: ScopeDataModelPermissionProfile) -> bool {
    p == ScopeDataModelPermissionProfile::Owner || p == ScopeDataModelPermissionProfile::ScopeAll
}

/// API keys act through owner and scope-wide grants, never through system-wide ones.
pub fn api_key_runtime_can_use_grant_profile(permission_profile: ScopeDataModelPermissionProfile) -> (b: bool)
    ensures
        b == profile_usable_by_api_key(permission_profile),
{
    match permission_profile {
        ScopeDataModelPermissionProfile::Owner | ScopeDataModelPermissionProfile::ScopeAll => true,
        ScopeDataModelPermissionProfile::SystemAll => false,
    }
}

/// An external source is unsafe unless its capability snapshot says it supports scope filters.
pub open spec fn external_unsafe(model: ModelDefinitionRecord) -> bool {
    model.source_kind == DataModelSourceKind::ExternalSource && match model.external_capability_snapshot {
        None => true,
        Some(s) => get_bool(s@, "supports_scope_filter"@) != Some(true),
    }
}

pub fn external_source_is_unsafe(model: &ModelDefinitionRecord) -> (b: bool)
    ensures
        b == external_unsafe(*model),
{
    if model.source_kind != DataModelSourceKind::ExternalSource {
        return false;
    }
    match &model.external_capability_snapshot {
        None => true,
        Some(snapshot) => match snapshot.get_bool("supports_scope_filter") {
            Some(b) => !b,
            None => true,
        },
    }
}

/// A system-wide grant on an unsafe external source needs an explicit confirmation.
pub fn ensure_unsafe_external_system_all_confirmed(
    model: &ModelDefinitionRecord,
    permission_profile: ScopeDataModelPermissionProfile,
    confirmed: bool,
) -> (r: Result<(), ControlPlaneError>)
    ensures
        r is Err <==> (permission_profile == ScopeDataModelPermissionProfile::SystemAll && external_unsafe(*model)
            && !confirmed),
        r is Err ==> r == Err::<(), _>(ControlPlaneError::InvalidInput("confirmation")),
{
    if permission_profile == ScopeDataModelPermissionProfile::SystemAll && external_source_is_unsafe(model)
        && !confirmed {
        return Err(ControlPlaneError::InvalidInput("confirmation"));
    }
    Ok(())
}

/// How far a model is exposed: a draft is a draft; a disabled or broken model keeps its
/// exposure except that draft and ready become "exposed without permission"; a published model
/// on an unsafe external source is unsafe, else it is exposed as far as its active keys reach.
pub open spec fn effective_exposure(
    status: DataModelStatus,
    exposure: ApiExposureStatus,
    unsafe_external: bool,
    readiness: ApiExposureReadinessFacts,
) -> ApiExposureStatus {
    match status {
        DataModelStatus::Draft => ApiExposureStatus::Draft,
        DataModelStatus::Disabled | DataModelStatus::Broken => match exposure {
            ApiExposureStatus::Draft | ApiExposureStatus::ApiExposedReady => ApiExposureStatus::ApiExposedNoPermission,
            e => e,
        },
        DataModelStatus::Published => if unsafe_external {
            ApiExposureStatus::UnsafeExternalSource
        } else if !readiness.has_active_api_key {
            ApiExposureStatus::PublishedNotExposed
        } else if readiness.has_ready_path {
            ApiExposureStatus::ApiExposedReady
        } else {
            ApiExposureStatus::ApiExposedNoPermission
        },
    }
}

pub fn effective_api_exposure_status(model: &ModelDefinitionRecord, readiness: &ApiExposureReadinessFacts) -> (s:
    ApiExposureStatus)
    ensures
        s == effective_exposure(model.status, model.api_exposure_status, external_unsafe(*model), *readiness),
{
    match model.status {
        DataModelStatus::Draft => ApiExposureStatus::Draft,
        DataModelStatus::Disabled | DataModelStatus::Broken => match model.api_exposure_status {
            ApiExposureStatus::Draft | ApiExposureStatus::ApiExposedReady => ApiExposureStatus::ApiExposedNoPermission,
            e => e,
        },
        DataModelStatus::Published => {
            if external_source_is_unsafe(model) {
                ApiExposureStatus::UnsafeExternalSource
            } else if !readiness.has_active_api_key {
                ApiExposureStatus::PublishedNotExposed
            } else if readiness.has_ready_path {
                ApiExposureStatus::ApiExposedReady
            } else {
                ApiExposureStatus::ApiExposedNoPermission
            }
        },
    }
}


/// What a scan of the active keys found, key by key; the scan stops at the first key with a
/// ready path.
pub struct AdvisorScan {
    pub ready: bool,
    pub action: bool,
    pub write: bool,
    pub filter: bool,
}

/// Whether a key's scope has an enabled grant on the model that API keys can act through.
pub open spec fn has_usable_grant(grants: Seq<ScopeDataModelGrantRecord>, model_id: u128) -> bool {
    exists|i: int|
        0 <= i < grants.len() && (#[trigger] grants[i]).data_model_id == model_id && grants[i].enabled
            && profile_usable_by_api_key(grants[i].permission_profile)
}

pub open spec fn advisor_scan_from(
    keys: Seq<(ApiKeyDataModelReadinessRecord, Vec<ScopeDataModelGrantRecord>)>,
    i: int,
    model_id: u128,
    audit: bool,
    now: i128,
    acc: AdvisorScan,
) -> AdvisorScan
    decreases keys.len() - i,
{
    if i < 0 || i >= keys.len() {
        acc
    } else {
        let key = keys[i].0;
        if !api_key_active_at(key, now) || !key.has_any_action_permission {
            advisor_scan_from(keys, i + 1, model_id, audit, now, acc)
        } else {
            let filter = has_usable_grant(keys[i].1@, model_id);
            let next = AdvisorScan {
                ready: acc.ready,
                action: true,
                write: acc.write || key.allow_create || key.allow_update || key.allow_delete,
                filter: acc.filter || filter,
            };
            if filter && audit {
                AdvisorScan { ready: true, ..next }
            } else {
                advisor_scan_from(keys, i + 1, model_id, audit, now, next)
            }
        }
    }
}

pub open spec fn advisor_facts_spec(
    model: ModelDefinitionRecord,
    keys: Seq<(ApiKeyDataModelReadinessRecord, Vec<ScopeDataModelGrantRecord>)>,
    now: i128,
) -> ApiExposureAdvisorFacts {
    let audit = !is_blank(model.audit_namespace@);
    let scan = advisor_scan_from(
        keys,
        0,
        model.id,
        audit,
        now,
        AdvisorScan { ready: false, action: false, write: false, filter: false },
    );
    ApiExposureAdvisorFacts {
        has_active_api_key: exists|i: int| 0 <= i < keys.len() && api_key_active_at(#[trigger] keys[i].0, now),
        has_ready_path: scan.ready,
        has_action_permission: scan.action,
        has_write_permission: scan.write,
        has_usable_scope_filter: scan.filter,
        audit_configured: audit,
    }
}

fn grants_usable(grants: &Vec<ScopeDataModelGrantRecord>, model_id: u128) -> (b: bool)
    ensures
        b == has_usable_grant(grants@, model_id),
{
    let mut i: usize = 0;
    while i < grants.len()
        invariant
            i <= grants@.len(),
            forall|k: int|
                0 <= k < i ==> !((#[trigger] grants@[k]).data_model_id == model_id && grants@[k].enabled
                    && profile_usable_by_api_key(grants@[k].permission_profile)),
        decreases grants.len() - i,
    {
        let g = grants[i];
        if g.data_model_id == model_id && g.enabled && api_key_runtime_can_use_grant_profile(g.permission_profile) {
            return true;
        }
        i = i + 1;
    }
    false
}

/// What the advisor knows of a model's API keys at `now`, each key given with the grants of
/// its scope: whether a key is active, and, over the active keys with some action permission
/// up to the first with a ready path, whether any may write, whether any has a usable grant and
/// whether one has a ready path (a usable grant and an audit namespace).
pub fn api_exposure_advisor_facts(
    model: &ModelDefinitionRecord,
    keys: &Vec<(ApiKeyDataModelReadinessRecord, Vec<ScopeDataModelGrantRecord>)>,
    now: i128,
) -> (facts: ApiExposureAdvisorFacts)
    ensures
        facts == advisor_facts_spec(*model, keys@, now),
{
    let audit_configured = !is_blank_text(model.audit_namespace.as_str());
    let mut has_active_api_key = false;
    let mut k: usize = 0;
    while k < keys.len()
        invariant
            k <= keys@.len(),
            has_active_api_key == exists|i: int| 0 <= i < k && api_key_active_at(#[trigger] keys@[i].0, now),
        decreases keys.len() - k,
    {
        if is_api_key_active_at(&keys[k].0, now) {
            has_active_api_key = true;
        }
        k = k + 1;
    }
    let ghost init = AdvisorScan { ready: false, action: false, write: false, filter: false };
    let mut ready = false;
    let mut action = false;
    let mut write = false;
    let mut filter = false;
    let mut i: usize = 0;
    while i < keys.len()
        invariant_except_break
            advisor_scan_from(keys@, 0, model.id, audit_configured, now, init) == advisor_scan_from(
                keys@,
                i as int,
                model.id,
                audit_configured,
                now,
                AdvisorScan { ready, action, write, filter },
            ),
            !ready,
        invariant
            i <= keys@.len(),
            audit_configured == !is_blank(model.audit_namespace@),
        ensures
            advisor_scan_from(keys@, 0, model.id, audit_configured, now, init) == (AdvisorScan {
                ready,
                action,
                write,
                filter,
            }),
        decreases keys.len() - i,
    {
        let key = keys[i].0;
        if is_api_key_active_at(&key, now) && key.has_any_action_permission {
            let usable = grants_usable(&keys[i].1, model.id);
            action = true;
            write = write || key.allow_create || key.allow_update || key.allow_delete;
            filter = filter || usable;
            if usable && audit_configured {
                ready = true;
                break;
            }
        }
        i = i + 1;
    }
    ApiExposureAdvisorFacts {
        has_active_api_key,
        has_ready_path: ready,
        has_action_permission: action,
        has_write_permission: write,
        has_usable_scope_filter: filter,
        audit_configured,
    }
}

/// A finding of the advisor, in its model.
pub struct FindingSpec {
    pub id: Seq<char>,
    pub data_model_id: u128,
    pub severity: DataModelAdvisorSeverity,
    pub code: Seq<char>,
    pub message: Seq<char>,
    pub recommended_action: Seq<char>,
    pub can_acknowledge: bool,
}

pub open spec fn finding_spec(f: DataModelAdvisorFinding) -> FindingSpec {
    FindingSpec {
        id: f.id@,
        data_model_id: f.data_model_id,
        severity: f.severity,
        code: f.code@,
        message: f.message@,
        recommended_action: f.recommended_action@,
        can_acknowledge: f.can_acknowledge,
    }
}

pub open spec fn finding_specs(v: Seq<DataModelAdvisorFinding>) -> Seq<FindingSpec> {
    v.map_values(|f: DataModelAdvisorFinding| finding_spec(f))
}

/// A finding; its id is `{model id}:{code}`.
pub open spec fn finding(
    model_id: u128,
    severity: DataModelAdvisorSeverity,
    code: Seq<char>,
    message: Seq<char>,
    action: Seq<char>,
    can_acknowledge: bool,
) -> FindingSpec {
    FindingSpec {
        id: uuid_hyphenated(model_id) + ":"@ + code,
        data_model_id: model_id,
        severity,
        code,
        message,
        recommended_action: action,
        can_acknowledge,
    }
}

fn advisor_finding(
    data_model_id: u128,
    severity: DataModelAdvisorSeverity,
    code: &str,
    message: &str,
    recommended_action: &str,
    can_acknowledge: bool,
) -> (f: DataModelAdvisorFinding)
    ensures
        finding_spec(f) == finding(data_model_id, severity, code@, message@, recommended_action@, can_acknowledge),
{
    let mut id = uuid_to_hyphenated(data_model_id);
    id.push_str(":");
    id.push_str(code);
    DataModelAdvisorFinding {
        id,
        data_model_id,
        severity,
        code: to_string(code),
        message: to_string(message),
        recommended_action: to_string(recommended_action),
        can_acknowledge,
    }
}

pub open spec fn when(cond: bool, f: FindingSpec) -> Seq<FindingSpec> {
    if cond {
        seq![f]
    } else {
        seq![]
    }
}

/// The advisor's findings about a model, given its effective exposure and what its API keys
/// allow, in a fixed order.
pub open spec fn advisor_findings_spec(
    model: ModelDefinitionRecord,
    effective: ApiExposureStatus,
    facts: ApiExposureAdvisorFacts,
) -> Seq<FindingSpec> {
    let id = model.id;
    when(
        model.status == DataModelStatus::Published && effective == ApiExposureStatus::PublishedNotExposed
            && !facts.has_active_api_key,
        finding(
            id,
            DataModelAdvisorSeverity::Info,
            "published_not_exposed"@,
            "The Data Model is published but not exposed through API keys."@,
            "Create an API key permission path only when external API access is intended."@,
            true,
        ),
    ) + when(
        effective == ApiExposureStatus::ApiExposedNoPermission || (facts.has_active_api_key && !facts.has_ready_path),
        finding(
            id,
            DataModelAdvisorSeverity::High,
            "api_exposed_no_permission"@,
            "An API exposure path exists but does not have complete runtime permissions."@,
            "Check API key action permissions, scope grants, scope filters, and audit readiness."@,
            false,
        ),
    ) + when(
        external_unsafe(model),
        finding(
            id,
            DataModelAdvisorSeverity::Blocking,
            "unsafe_external_source"@,
            "The external source lacks required scope filtering safety guarantees."@,
            "Enable scope filtering in the data source capability before exposing this Data Model."@,
            false,
        ),
    ) + when(
        facts.has_write_permission && !facts.audit_configured,
        finding(
            id,
            DataModelAdvisorSeverity::High,
            "missing_audit_for_write_api"@,
            "Write API permissions require an audit namespace."@,
            "Configure audit logging before enabling create, update, or delete API access."@,
            false,
        ),
    ) + when(
        facts.has_action_permission && !facts.has_usable_scope_filter,
        finding(
            id,
            DataModelAdvisorSeverity::Blocking,
            "missing_scope_filter"@,
            "API access has actions but no usable scope grant for runtime filtering."@,
            "Create an enabled owner or scope_all grant for the API key scope."@,
            false,
        ),
    ) + when(
        model.is_protected && (model.api_exposure_status != ApiExposureStatus::PublishedNotExposed
            || facts.has_active_api_key),
        finding(
            id,
            DataModelAdvisorSeverity::Blocking,
            "protected_model_exposure_attempt"@,
            "Protected Data Models cannot be exposed by normal admin API configuration."@,
            "Use root emergency override only for audited operational recovery."@,
            false,
        ),
    ) + when(
        has_risky_fields(model.fields@),
        finding(
            id,
            DataModelAdvisorSeverity::Medium,
            "duplicate_risky_field_configuration"@,
            "Fields contain duplicate external identifiers or risky uniqueness settings."@,
            "Review duplicate field codes, duplicate external keys, and unique JSON fields."@,
            true,
        ),
    )
}

fn push_finding_when(
    out: &mut Vec<DataModelAdvisorFinding>,
    cond: bool,
    data_model_id: u128,
    severity: DataModelAdvisorSeverity,
    code: &str,
    message: &str,
    recommended_action: &str,
    can_acknowledge: bool,
)
    ensures
        finding_specs(final(out)@) == finding_specs(old(out)@) + when(
            cond,
            finding(data_model_id, severity, code@, message@, recommended_action@, can_acknowledge),
        ),
{
    if cond {
        let ghost before = finding_specs(out@);
        out.push(advisor_finding(data_model_id, severity, code, message, recommended_action, can_acknowledge));
        assert(finding_specs(out@) =~= before + when(
            cond,
            finding(data_model_id, severity, code@, message@, recommended_action@, can_acknowledge),
        ));
    } else {
        assert(finding_specs(out@) =~= finding_specs(old(out)@) + when(
            cond,
            finding(data_model_id, severity, code@, message@, recommended_action@, can_acknowledge),
        ));
    }
}

/// The advisor's findings about a model.
pub fn advisor_findings_for(
    model: &ModelDefinitionRecord,
    effective: ApiExposureStatus,
    facts: &ApiExposureAdvisorFacts,
) -> (findings: Vec<DataModelAdvisorFinding>)
    ensures
        finding_specs(findings@) == advisor_findings_spec(*model, effective, *facts),
{
    let id = model.id;
    let mut out: Vec<DataModelAdvisorFinding> = Vec::new();
    assert(finding_specs(out@) =~= Seq::<FindingSpec>::empty());
    push_finding_when(
        &mut out,
        model.status == DataModelStatus::Published && effective == ApiExposureStatus::PublishedNotExposed
            && !facts.has_active_api_key,
        id,
        DataModelAdvisorSeverity::Info,
        "published_not_exposed",
        "The Data Model is published but not exposed through API keys.",
        "Create an API key permission path only when external API access is intended.",
        true,
    );
    push_finding_when(
        &mut out,
        effective == ApiExposureStatus::ApiExposedNoPermission || (facts.has_active_api_key && !facts.has_ready_path),
        id,
        DataModelAdvisorSeverity::High,
        "api_exposed_no_permission",
        "An API exposure path exists but does not have complete runtime permissions.",
        "Check API key action permissions, scope grants, scope filters, and audit readiness.",
        false,
    );
    push_finding_when(
        &mut out,
        external_source_is_unsafe(model),
        id,
        DataModelAdvisorSeverity::Blocking,
        "unsafe_external_source",
        "The external source lacks required scope filtering safety guarantees.",
        "Enable scope filtering in the data source capability before exposing this Data Model.",
        false,
    );
    push_finding_when(
        &mut out,
        facts.has_write_permission && !facts.audit_configured,
        id,
        DataModelAdvisorSeverity::High,
        "missing_audit_for_write_api",
        "Write API permissions require an audit namespace.",
        "Configure audit logging before enabling create, update, or delete API access.",
        false,
    );
    push_finding_when(
        &mut out,
        facts.has_action_permission && !facts.has_usable_scope_filter,
        id,
        DataModelAdvisorSeverity::Blocking,
        "missing_scope_filter",
        "API access has actions but no usable scope grant for runtime filtering.",
        "Create an enabled owner or scope_all grant for the API key scope.",
        false,
    );
    push_finding_when(
        &mut out,
        model.is_protected && (model.api_exposure_status != ApiExposureStatus::PublishedNotExposed
            || facts.has_active_api_key),
        id,
        DataModelAdvisorSeverity::Blocking,
        "protected_model_exposure_attempt",
        "Protected Data Models cannot be exposed by normal admin API configuration.",
        "Use root emergency override only for audited operational recovery.",
        false,
    );
    push_finding_when(
        &mut out,
        has_duplicate_or_risky_field_configuration(model.fields.as_slice()),
        id,
        DataModelAdvisorSeverity::Medium,
        "duplicate_risky_field_configuration",
        "Fields contain duplicate external identifiers or risky uniqueness settings.",
        "Review duplicate field codes, duplicate external keys, and unique JSON fields.",
        true,
    );
    assert(finding_specs(out@) =~= advisor_findings_spec(*model, effective, *facts));
    out
}


// ---------------------------------------------------------------------------------------------
// Batch deletion and grants
// ---------------------------------------------------------------------------------------------

/// A batch deletion needs a confirmation and at least one model id.
pub fn ensure_batch_delete_request(confirmed: bool, model_ids: &Vec<u128>) -> (r: Result<(), ControlPlaneError>)
    ensures
        !confirmed ==> r == Err::<(), _>(ControlPlaneError::InvalidInput("confirmation")),
        confirmed && model_ids@.len() == 0 ==> r == Err::<(), _>(ControlPlaneError::InvalidInput("model_ids")),
        confirmed && model_ids@.len() > 0 ==> r is Ok,
{
    if !confirmed {
        return Err(ControlPlaneError::InvalidInput("confirmation"));
    }
    if model_ids.len() == 0 {
        return Err(ControlPlaneError::InvalidInput("model_ids"));
    }
    Ok(())
}

/// The ids in the order they first occur, each once.
pub open spec fn first_occurrences(ids: Seq<u128>) -> Seq<u128>
    decreases ids.len(),
{
    if ids.len() == 0 {
        seq![]
    } else {
        let before = first_occurrences(ids.drop_last());
        if before.contains(ids.last()) {
            before
        } else {
            before.push(ids.last())
        }
    }
}

/// The model ids of a batch, each once, in the order they were first given.
pub fn unique_model_ids(model_ids: &Vec<u128>) -> (ids: Vec<u128>)
    ensures
        ids@ == first_occurrences(model_ids@),
{
    let mut ids: Vec<u128> = Vec::new();
    let mut i: usize = 0;
    assert(model_ids@.take(0) =~= Seq::<u128>::empty());
    while i < model_ids.len()
        invariant
            i <= model_ids@.len(),
            ids@ == first_occurrences(model_ids@.take(i as int)),
        decreases model_ids.len() - i,
    {
        let id = model_ids[i];
        assert(model_ids@.take(i + 1).drop_last() =~= model_ids@.take(i as int));
        let mut seen = false;
        let mut k: usize = 0;
        while k < ids.len()
            invariant
                k <= ids@.len(),
                seen == exists|j: int| 0 <= j < k && ids@[j] == id,
            decreases ids.len() - k,
        {
            if ids[k] == id {
                seen = true;
            }
            k = k + 1;
        }
        if !seen {
            ids.push(id);
        }
        i = i + 1;
    }
    assert(model_ids@.take(model_ids.len() as int) =~= model_ids@);
    ids
}

/// The grant the runtime applies for a grant record.
pub fn runtime_scope_grant_from_record(grant: &ScopeDataModelGrantRecord) -> (g: RuntimeScopeGrant)
    ensures
        g.data_model_id == grant.data_model_id,
        g.scope_kind == grant.scope_kind,
        g.scope_id == grant.scope_id,
        g.enabled == grant.enabled,
        g.permission_profile == grant.permission_profile,
{
    RuntimeScopeGrant {
        data_model_id: grant.data_model_id,
        scope_kind: grant.scope_kind,
        scope_id: grant.scope_id,
        enabled: grant.enabled,
        permission_profile: grant.permission_profile,
    }
}

/// The first grant on a model among a scope's grants.
pub open spec fn first_grant_for(grants: Seq<ScopeDataModelGrantRecord>, data_model_id: u128) -> Option<
    ScopeDataModelGrantRecord,
>
    decreases grants.len(),
{
    if grants.len() == 0 {
        None
    } else if grants[0].data_model_id == data_model_id {
        Some(grants[0])
    } else {
        first_grant_for(grants.drop_first(), data_model_id)
    }
}

pub fn find_grant_for_model(grants: &Vec<ScopeDataModelGrantRecord>, data_model_id: u128) -> (r: Option<
    ScopeDataModelGrantRecord,
>)
    ensures
        r == first_grant_for(grants@, data_model_id),
{
    let mut i: usize = 0;
    assert(grants@.skip(0) =~= grants@);
    while i < grants.len()
        invariant
            i <= grants@.len(),
            first_grant_for(grants@, data_model_id) == first_grant_for(grants@.skip(i as int), data_model_id),
        decreases grants.len() - i,
    {
        assert(grants@.skip(i as int).drop_first() =~= grants@.skip(i + 1));
        if grants[i].data_model_id == data_model_id {
            return Some(grants[i]);
        }
        i = i + 1;
    }
    None
}

/// The grant that applies to an actor's use of a model: the workspace's own grant first; root
/// falls back to the system grant.
pub open spec fn runtime_grant_choice(
    actor_is_root: bool,
    workspace_grants: Seq<ScopeDataModelGrantRecord>,
    system_grants: Seq<ScopeDataModelGrantRecord>,
    data_model_id: u128,
) -> Option<ScopeDataModelGrantRecord> {
    match first_grant_for(workspace_grants, data_model_id) {
        Some(g) => Some(g),
        None => if actor_is_root {
            first_grant_for(system_grants, data_model_id)
        } else {
            None
        },
    }
}

pub fn select_runtime_scope_grant(
    actor: &ActorContext,
    workspace_grants: &Vec<ScopeDataModelGrantRecord>,
    system_grants: &Vec<ScopeDataModelGrantRecord>,
    data_model_id: u128,
) -> (r: Option<RuntimeScopeGrant>)
    ensures
        match runtime_grant_choice(actor.is_root, workspace_grants@, system_grants@, data_model_id) {
            Some(g) => r is Some && r->0 == runtime_grant_of(g),
            None => r is None,
        },
{
    match find_grant_for_model(workspace_grants, data_model_id) {
        Some(g) => Some(runtime_scope_grant_from_record(&g)),
        None => {
            if !actor.is_root {
                return None;
            }
            match find_grant_for_model(system_grants, data_model_id) {
                Some(g) => Some(runtime_scope_grant_from_record(&g)),
                None => None,
            }
        },
    }
}

pub open spec fn runtime_grant_of(g: ScopeDataModelGrantRecord) -> RuntimeScopeGrant {
    RuntimeScopeGrant {
        data_model_id: g.data_model_id,
        scope_kind: g.scope_kind,
        scope_id: g.scope_id,
        enabled: g.enabled,
        permission_profile: g.permission_profile,
    }
}

/// Scope kinds in the order of their names (`system` before `workspace`).
pub open spec fn scope_kind_rank(k: DataModelScopeKind) -> int {
    match k {
        DataModelScopeKind::System => 0,
        DataModelScopeKind::Workspace => 1,
    }
}

/// Profiles in the order of their names (`owner`, `scope_all`, `system_all`).
pub open spec fn profile_rank(p: ScopeDataModelPermissionProfile) -> int {
    match p {
        ScopeDataModelPermissionProfile::Owner => 0,
        ScopeDataModelPermissionProfile::ScopeAll => 1,
        ScopeDataModelPermissionProfile::SystemAll => 2,
    }
}

/// The listing order of grants: by scope kind, then profile, then id.
pub open spec fn grant_before(a: ScopeDataModelGrantRecord, b: ScopeDataModelGrantRecord) -> bool {
    ||| scope_kind_rank(a.scope_kind) < scope_kind_rank(b.scope_kind)
    ||| (scope_kind_rank(a.scope_kind) == scope_kind_rank(b.scope_kind) && profile_rank(a.permission_profile)
        < profile_rank(b.permission_profile))
    ||| (scope_kind_rank(a.scope_kind) == scope_kind_rank(b.scope_kind) && profile_rank(a.permission_profile)
        == profile_rank(b.permission_profile) && a.id < b.id)
}

pub open spec fn grants_sorted(s: Seq<ScopeDataModelGrantRecord>) -> bool {
    forall|i: int, j: int| 0 <= i < j < s.len() ==> !grant_before(#[trigger] s[j], #[trigger] s[i])
}

/// The grants on a model, in the order they were given.
pub open spec fn grants_on_model(s: Seq<ScopeDataModelGrantRecord>, model_id: u128) -> Seq<ScopeDataModelGrantRecord>
    decreases s.len(),
{
    if s.len() == 0 {
        seq![]
    } else {
        let before = grants_on_model(s.drop_last(), model_id);
        if s.last().data_model_id == model_id {
            before.push(s.last())
        } else {
            before
        }
    }
}

fn before_in_listing(a: &ScopeDataModelGrantRecord, b: &ScopeDataModelGrantRecord) -> (r: bool)
    ensures
        r == grant_before(*a, *b),
{
    let ka: u8 = match a.scope_kind {
        DataModelScopeKind::System => 0,
        DataModelScopeKind::Workspace => 1,
    };
    let kb: u8 = match b.scope_kind {
        DataModelScopeKind::System => 0,
        DataModelScopeKind::Workspace => 1,
    };
    let pa: u8 = match a.permission_profile {
        ScopeDataModelPermissionProfile::Owner => 0,
        ScopeDataModelPermissionProfile::ScopeAll => 1,
        ScopeDataModelPermissionProfile::SystemAll => 2,
    };
    let pb: u8 = match b.permission_profile {
        ScopeDataModelPermissionProfile::Owner => 0,
        ScopeDataModelPermissionProfile::ScopeAll => 1,
        ScopeDataModelPermissionProfile::SystemAll => 2,
    };
    ka < kb || (ka == kb && pa < pb) || (ka == kb && pa == pb && a.id < b.id)
}

/// The grants on a model, sorted by scope kind, profile and id; the same grants as given, each
/// as often as given.
pub fn scope_grants_for_model(grants: &Vec<ScopeDataModelGrantRecord>, model_id: u128) -> (out: Vec<
    ScopeDataModelGrantRecord,
>)
    ensures
        grants_sorted(out@),
        out@.to_multiset() == grants_on_model(grants@, model_id).to_multiset(),
{
    let mut out: Vec<ScopeDataModelGrantRecord> = Vec::new();
    let mut i: usize = 0;
    assert(grants@.take(0) =~= Seq::<ScopeDataModelGrantRecord>::empty());
    assert(out@.to_multiset() =~= Seq::<ScopeDataModelGrantRecord>::empty().to_multiset());
    while i < grants.len()
        invariant
            i <= grants@.len(),
            grants_sorted(out@),
            out@.to_multiset() == grants_on_model(grants@.take(i as int), model_id).to_multiset(),
        decreases grants.len() - i,
    {
        let g = grants[i];
        let ghost prev = grants_on_model(grants@.take(i as int), model_id);
        assert(grants@.take(i + 1).drop_last() =~= grants@.take(i as int));
        assert(grants@.take(i + 1).last() == g);
        if g.data_model_id == model_id {
            assert(grants_on_model(grants@.take(i + 1), model_id) == prev.push(g));
            proof {
                vstd::seq_lib::to_multiset_build(prev, g);
            }
            let mut pos: usize = 0;
            while pos < out.len() && !before_in_listing(&g, &out[pos])
                invariant
                    pos <= out@.len(),
                    forall|k: int| 0 <= k < pos ==> !grant_before(g, #[trigger] out@[k]),
                decreases out.len() - pos,
            {
                pos = pos + 1;
            }
            let ghost old_out = out@;
            out.insert(pos, g);
            proof {
                vstd::seq_lib::to_multiset_insert(old_out, pos as int, g);
                assert forall|a: int, b: int| 0 <= a < b < out@.len() implies !grant_before(
                    #[trigger] out@[b],
                    #[trigger] out@[a],
                ) by {
                    if a < pos && b == pos {
                    } else if a == pos && b > pos {
                        assert(grant_before(g, old_out[pos as int]));
                        assert(!grant_before(old_out[b - 1], old_out[pos as int]) || b - 1 == pos);
                    } else if a < pos && b > pos {
                        assert(out@[a] == old_out[a]);
                        assert(out@[b] == old_out[b - 1]);
                    } else if b < pos {
                        assert(out@[a] == old_out[a]);
                        assert(out@[b] == old_out[b]);
                    } else {
                        assert(out@[a] == old_out[a - 1]);
                        assert(out@[b] == old_out[b - 1]);
                    }
                }
            }
        }
        i = i + 1;
    }
    assert(grants@.take(grants.len() as int) =~= grants@);
    out
}

/// The first of these models with an id.
pub open spec fn model_lookup(models: Seq<ModelDefinitionRecord>, id: u128) -> Option<ModelDefinitionRecord>
    decreases models.len(),
{
    if models.len() == 0 {
        None
    } else if models[0].id == id {
        Some(models[0])
    } else {
        model_lookup(models.drop_first(), id)
    }
}

/// Why a model may not be deleted by an actor: it is not among the models the actor sees, it is
/// a built-in model of the main source, or it is protected and the actor is not root.
pub open spec fn deletion_blocker(actor: ActorContext, models: Seq<ModelDefinitionRecord>, id: u128) -> Option<
    ControlPlaneError,
> {
    match model_lookup(models, id) {
        None => Some(ControlPlaneError::NotFound("model_definition")),
        Some(m) => if m.source_kind == DataModelSourceKind::MainSource && is_builtin_model_code(m.code@) {
            Some(ControlPlaneError::InvalidInput("builtin_data_model"))
        } else if m.is_protected && !actor.is_root {
            Some(ControlPlaneError::PermissionDenied("protected_data_model"))
        } else {
            None
        },
    }
}

/// The first blocker among these ids, in order.
pub open spec fn first_deletion_blocker(actor: ActorContext, models: Seq<ModelDefinitionRecord>, ids: Seq<u128>) -> Option<
    ControlPlaneError,
>
    decreases ids.len(),
{
    if ids.len() == 0 {
        None
    } else {
        match deletion_blocker(actor, models, ids[0]) {
            Some(e) => Some(e),
            None => first_deletion_blocker(actor, models, ids.drop_first()),
        }
    }
}

fn find_model<'a>(models: &'a Vec<ModelDefinitionRecord>, id: u128) -> (r: Option<&'a ModelDefinitionRecord>)
    ensures
        match model_lookup(models@, id) {
            None => r is None,
            Some(m) => r matches Some(x) && *x == m,
        },
{
    let mut i: usize = 0;
    assert(models@.skip(0) =~= models@);
    while i < models.len()
        invariant
            i <= models@.len(),
            model_lookup(models@, id) == model_lookup(models@.skip(i as int), id),
        decreases models.len() - i,
    {
        assert(models@.skip(i as int).drop_first() =~= models@.skip(i + 1));
        if models[i].id == id {
            return Some(&models[i]);
        }
        i = i + 1;
    }
    None
}

/// Which models a batch deletion removes, decided before any is removed: an unconfirmed request
/// and an empty one are refused, then an actor who may not manage models; then each id, once and
/// in order, is checked against the models the actor sees (see [`deletion_blocker`]), and the
/// first blocked id refuses the whole batch. Otherwise every id is to be deleted.
pub fn batch_delete_plan(
    actor: &ActorContext,
    confirmed: bool,
    model_ids: &Vec<u128>,
    visible_models: &Vec<ModelDefinitionRecord>,
) -> (r: Result<Vec<u128>, ControlPlaneError>)
    ensures
        !confirmed ==> r == Err::<Vec<u128>, _>(ControlPlaneError::InvalidInput("confirmation")),
        confirmed && model_ids@.len() == 0 ==> r == Err::<Vec<u128>, _>(ControlPlaneError::InvalidInput("model_ids")),
        confirmed && model_ids@.len() > 0 && !may_use_state_models(*actor, "manage"@) ==> r == Err::<Vec<u128>, _>(
            ControlPlaneError::PermissionDenied("permission_denied"),
        ),
        confirmed && model_ids@.len() > 0 && may_use_state_models(*actor, "manage"@) ==> match first_deletion_blocker(
            *actor,
            visible_models@,
            first_occurrences(model_ids@),
        ) {
            Some(e) => r == Err::<Vec<u128>, _>(e),
            None => r matches Ok(ids) && ids@ == first_occurrences(model_ids@),
        },
{
    ensure_batch_delete_request(confirmed, model_ids)?;
    ensure_state_model_permission(actor, "manage")?;
    let ids = unique_model_ids(model_ids);
    let mut i: usize = 0;
    assert(ids@.skip(0) =~= ids@);
    while i < ids.len()
        invariant
            i <= ids@.len(),
            confirmed,
            model_ids@.len() > 0,
            may_use_state_models(*actor, "manage"@),
            ids@ == first_occurrences(model_ids@),
            first_deletion_blocker(*actor, visible_models@, ids@) == first_deletion_blocker(
                *actor,
                visible_models@,
                ids@.skip(i as int),
            ),
        decreases ids.len() - i,
    {
        assert(ids@.skip(i as int).drop_first() =~= ids@.skip(i + 1));
        assert(ids@.skip(i as int)[0] == ids@[i as int]);
        match find_model(visible_models, ids[i]) {
            None => {
                return Err(ControlPlaneError::NotFound("model_definition"));
            },
            Some(m) => {
                ensure_model_deletable(m)?;
                ensure_protected_model_override_authorized(actor, m)?;
            },
        }
        i = i + 1;
    }
    assert(ids@.skip(ids@.len() as int) =~= Seq::<u128>::empty());
    Ok(ids)
}

/// The scope grants of a model, as listed to an actor: an actor who may not view models is
/// refused, then a model the actor does not see; otherwise the grants on the model among the
/// grants of the actor's workspace and the system grants, sorted by scope kind, profile and id.
pub fn scope_grant_listing(
    actor: &ActorContext,
    model_visible: bool,
    workspace_grants: &Vec<ScopeDataModelGrantRecord>,
    system_grants: &Vec<ScopeDataModelGrantRecord>,
    model_id: u128,
) -> (r: Result<Vec<ScopeDataModelGrantRecord>, ControlPlaneError>)
    ensures
        !may_use_state_models(*actor, "view"@) ==> r == Err::<Vec<ScopeDataModelGrantRecord>, _>(
            ControlPlaneError::PermissionDenied("permission_denied"),
        ),
        may_use_state_models(*actor, "view"@) && !model_visible ==> r == Err::<Vec<ScopeDataModelGrantRecord>, _>(
            ControlPlaneError::NotFound("model_definition"),
        ),
        may_use_state_models(*actor, "view"@) && model_visible ==> (r matches Ok(gs) && {
            &&& grants_sorted(gs@)
            &&& gs@.to_multiset() == grants_on_model(workspace_grants@ + system_grants@, model_id).to_multiset()
        }),
{
    ensure_state_model_permission(actor, "view")?;
    if !model_visible {
        return Err(ControlPlaneError::NotFound("model_definition"));
    }
    let mut all: Vec<ScopeDataModelGrantRecord> = Vec::new();
    let mut i: usize = 0;
    while i < workspace_grants.len()
        invariant
            i <= workspace_grants@.len(),
            all@ == workspace_grants@.take(i as int),
        decreases workspace_grants.len() - i,
    {
        all.push(workspace_grants[i]);
        assert(workspace_grants@.take(i + 1) =~= workspace_grants@.take(i as int).push(workspace_grants@[i as int]));
        i = i + 1;
    }
    let mut j: usize = 0;
    assert(workspace_grants@.take(workspace_grants@.len() as int) =~= workspace_grants@);
    assert(system_grants@.take(0) =~= Seq::<ScopeDataModelGrantRecord>::empty());
    while j < system_grants.len()
        invariant
            j <= system_grants@.len(),
            all@ == workspace_grants@ + system_grants@.take(j as int),
        decreases system_grants.len() - j,
    {
        all.push(system_grants[j]);
        assert(system_grants@.take(j + 1) =~= system_grants@.take(j as int).push(system_grants@[j as int]));
        j = j + 1;
    }
    assert(system_grants@.take(system_grants@.len() as int) =~= system_grants@);
    Ok(scope_grants_for_model(&all, model_id))
}

// ---------------------------------------------------------------------------------------------
// The service
// ---------------------------------------------------------------------------------------------

/// A request to grant a scope the use of a model. The profile is the one the request's text
/// names, or none when it names no profile.
pub struct CreateScopeDataModelGrantCommand {
    pub actor_user_id: u128,
    pub scope_kind: DataModelScopeKind,
    pub scope_id: u128,
    pub data_model_id: u128,
    pub enabled: bool,
    pub permission_profile: Option<ScopeDataModelPermissionProfile>,
    pub confirm_unsafe_external_source_system_all: bool,
}

/// A request to change a scope grant. `permission_profile` is absent when the profile stays, and
/// holds none when the request's text names no profile.
pub struct UpdateScopeDataModelGrantCommand {
    pub actor_user_id: u128,
    pub data_model_id: u128,
    pub grant_id: u128,
    pub enabled: Option<bool>,
    pub permission_profile: Option<Option<ScopeDataModelPermissionProfile>>,
    pub confirm_unsafe_external_source_system_all: bool,
}

/// A request to withdraw a scope grant.
pub struct DeleteScopeDataModelGrantCommand {
    pub actor_user_id: u128,
    pub data_model_id: u128,
    pub grant_id: u128,
}

/// Data model definitions, kept by a repository.
pub struct ModelDefinitionService<R> {
    pub repository: R,
}

impl<R> ModelDefinitionService<R> {
    pub fn new(repository: R) -> (s: Self)
        ensures
            s.repository == repository,
    {
        Self { repository }
    }
}


/// The ids of a batch deletion: each given id once, nothing else.
pub proof fn law_unique_model_ids(ids: Seq<u128>)
    ensures
        forall|i: int, j: int|
            0 <= i < j < first_occurrences(ids).len() ==> #[trigger] first_occurrences(ids)[i]
                != #[trigger] first_occurrences(ids)[j],
        forall|x: u128| first_occurrences(ids).contains(x) <==> ids.contains(x),
    decreases ids.len(),
{
    if ids.len() > 0 {
        let prefix = ids.drop_last();
        law_unique_model_ids(prefix);
        let before = first_occurrences(prefix);
        let after = first_occurrences(ids);
        assert forall|x: u128| after.contains(x) <==> ids.contains(x) by {
            if ids.contains(x) {
                let k = choose|k: int| 0 <= k < ids.len() && ids[k] == x;
                if k < prefix.len() {
                    assert(prefix[k] == x);
                    assert(prefix.contains(x));
                    assert(before.contains(x));
                    let m = choose|m: int| 0 <= m < before.len() && before[m] == x;
                    assert(after[m] == x);
                } else if before.contains(x) {
                    let m = choose|m: int| 0 <= m < before.len() && before[m] == x;
                    assert(after[m] == x);
                } else {
                    assert(after[before.len() as int] == x);
                }
            }
            if after.contains(x) {
                let k = choose|k: int| 0 <= k < after.len() && after[k] == x;
                if k < before.len() {
                    assert(before[k] == x);
                    assert(before.contains(x));
                    assert(prefix.contains(x));
                    let m = choose|m: int| 0 <= m < prefix.len() && prefix[m] == x;
                    assert(ids[m] == x);
                } else {
                    assert(ids[ids.len() - 1] == x);
                }
            }
        }
    }
}

} // verus!
