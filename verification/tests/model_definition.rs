use control_plane::errors::{ActorContext, ControlPlaneError};
use control_plane::json::JsonValue;
use control_plane::model_definition::in_memory_repository::InMemoryModelDefinitionRepository;
use control_plane::model_definition::{
    advisor_findings_for, api_exposure_advisor_facts, api_key_runtime_can_use_grant_profile,
    build_physical_column_name, build_physical_table_name, effective_api_exposure_status,
    ensure_batch_delete_request, ensure_field_mutable, ensure_model_deletable,
    ensure_protected_model_override_authorized, ensure_scope_grant_lifecycle_authorized,
    ensure_state_model_permission, ensure_unsafe_external_system_all_confirmed,
    external_source_is_unsafe, has_duplicate_or_risky_field_configuration, is_api_key_active_at,
    normalize_external_field_key, normalize_external_resource_key, normalize_external_table_id,
    normalize_optional_text, physical_table_name_with_suffix, scope_grants_for_model,
    select_runtime_scope_grant, unique_model_ids, ApiExposureAdvisorFacts,
    ApiExposureReadinessFacts, ApiExposureStatus, ApiKeyDataModelReadinessRecord,
    DataModelAdvisorSeverity, DataModelScopeKind, DataModelSourceKind, DataModelStatus,
    ModelDefinitionRecord, ModelDefinitionService, ModelFieldKind, ModelFieldRecord,
    ScopeDataModelGrantRecord, ScopeDataModelPermissionProfile, CreateScopeDataModelGrantCommand,
    DeleteScopeDataModelGrantCommand, UpdateScopeDataModelGrantCommand, batch_delete_plan,
    scope_grant_listing,
};

fn actor(is_root: bool, permissions: &[&str]) -> ActorContext {
    ActorContext {
        user_id: 1,
        current_workspace_id: 10,
        is_root,
        permissions: permissions.iter().map(|p| p.to_string()).collect(),
    }
}

fn model(code: &str, source_kind: DataModelSourceKind) -> ModelDefinitionRecord {
    ModelDefinitionRecord {
        id: 42,
        code: code.to_string(),
        scope_kind: DataModelScopeKind::System,
        source_kind,
        status: DataModelStatus::Published,
        api_exposure_status: ApiExposureStatus::PublishedNotExposed,
        audit_namespace: "audit.state_model.orders".to_string(),
        is_protected: false,
        external_capability_snapshot: None,
        fields: vec![],
    }
}

fn field(id: u128, code: &str, key: Option<&str>, kind: ModelFieldKind, unique: bool) -> ModelFieldRecord {
    ModelFieldRecord {
        id,
        code: code.to_string(),
        external_field_key: key.map(str::to_string),
        field_kind: kind,
        is_unique: unique,
        is_system: false,
        is_writable: true,
    }
}

fn grant(
    id: u128,
    data_model_id: u128,
    scope_kind: DataModelScopeKind,
    profile: ScopeDataModelPermissionProfile,
) -> ScopeDataModelGrantRecord {
    ScopeDataModelGrantRecord {
        id,
        data_model_id,
        scope_kind,
        scope_id: 10,
        enabled: true,
        permission_profile: profile,
    }
}

fn key(scope_id: u128) -> ApiKeyDataModelReadinessRecord {
    ApiKeyDataModelReadinessRecord {
        data_model_id: 42,
        key_enabled: true,
        expires_at: None,
        scope_kind: DataModelScopeKind::Workspace,
        scope_id,
        has_any_action_permission: true,
        allow_create: false,
        allow_update: false,
        allow_delete: false,
    }
}

#[test]
fn physical_names_replace_dashes() {
    assert_eq!(build_physical_column_name("order-total"), "order_total");
    assert_eq!(
        physical_table_name_with_suffix(DataModelScopeKind::Workspace, "0123456789abcdef", "my-orders"),
        "rtm_workspace_89abcdef_my_orders"
    );
    let name = build_physical_table_name(DataModelScopeKind::System, "a-b");
    assert!(name.starts_with("rtm_system_"));
    assert!(name.ends_with("_a_b"));
    assert_eq!(name.len(), "rtm_system_".len() + 8 + "_a_b".len());
}

#[test]
fn external_keys_follow_the_source_kind() {
    assert_eq!(
        normalize_external_resource_key(DataModelSourceKind::ExternalSource, Some("  orders ")).ok().unwrap(),
        Some("orders".to_string())
    );
    assert!(matches!(
        normalize_external_resource_key(DataModelSourceKind::ExternalSource, Some("  ")),
        Err(ControlPlaneError::InvalidInput("external_resource_key"))
    ));
    assert!(matches!(
        normalize_external_field_key(DataModelSourceKind::MainSource, Some("x")),
        Err(ControlPlaneError::InvalidInput("external_field_key"))
    ));
    assert_eq!(
        normalize_external_field_key(DataModelSourceKind::MainSource, Some(" ")).ok().unwrap(),
        None
    );
    assert_eq!(
        normalize_external_table_id(DataModelSourceKind::ExternalSource, None).ok().unwrap(),
        None
    );
    assert!(matches!(
        normalize_external_table_id(DataModelSourceKind::MainSource, Some("t1")),
        Err(ControlPlaneError::InvalidInput("external_table_id"))
    ));
    assert_eq!(normalize_optional_text(Some(" a ")), Some("a".to_string()));
    assert_eq!(normalize_optional_text(Some("   ")), None);
}

#[test]
fn permissions_and_protection() {
    assert!(ensure_state_model_permission(&actor(false, &["state_model.view.own"]), "view").is_ok());
    assert!(matches!(
        ensure_state_model_permission(&actor(false, &["state_model.view.all"]), "manage"),
        Err(ControlPlaneError::PermissionDenied("permission_denied"))
    ));
    assert!(ensure_state_model_permission(&actor(true, &[]), "manage").is_ok());
    assert!(ensure_scope_grant_lifecycle_authorized(&actor(false, &[]), DataModelScopeKind::Workspace, 10).is_ok());
    assert!(ensure_scope_grant_lifecycle_authorized(&actor(false, &[]), DataModelScopeKind::System, 10).is_err());
    let mut protected = model("orders", DataModelSourceKind::MainSource);
    protected.is_protected = true;
    assert!(matches!(
        ensure_protected_model_override_authorized(&actor(false, &[]), &protected),
        Err(ControlPlaneError::PermissionDenied("protected_data_model"))
    ));
    assert!(ensure_protected_model_override_authorized(&actor(true, &[]), &protected).is_ok());
}

#[test]
fn builtin_models_cannot_be_deleted() {
    assert!(matches!(
        ensure_model_deletable(&model("users", DataModelSourceKind::MainSource)),
        Err(ControlPlaneError::InvalidInput("builtin_data_model"))
    ));
    assert!(ensure_model_deletable(&model("users", DataModelSourceKind::ExternalSource)).is_ok());
    assert!(ensure_model_deletable(&model("orders", DataModelSourceKind::MainSource)).is_ok());
}

#[test]
fn fields_are_mutable_unless_system_or_read_only() {
    let mut m = model("orders", DataModelSourceKind::MainSource);
    let mut system = field(2, "id", None, ModelFieldKind::Scalar, false);
    system.is_system = true;
    m.fields = vec![field(1, "total", None, ModelFieldKind::Scalar, false), system];
    assert!(ensure_field_mutable(&m, 1).is_ok());
    assert!(matches!(
        ensure_field_mutable(&m, 2),
        Err(ControlPlaneError::InvalidInput("model_field"))
    ));
    assert!(matches!(
        ensure_field_mutable(&m, 3),
        Err(ControlPlaneError::NotFound("model_field"))
    ));
}

#[test]
fn risky_field_configurations_are_found() {
    let ok = vec![
        field(1, "a", Some("x"), ModelFieldKind::Scalar, true),
        field(2, "b", Some("y"), ModelFieldKind::Json, false),
    ];
    assert!(!has_duplicate_or_risky_field_configuration(&ok));
    let dup_code = vec![field(1, "a", None, ModelFieldKind::Scalar, false), field(2, "a", None, ModelFieldKind::Scalar, false)];
    assert!(has_duplicate_or_risky_field_configuration(&dup_code));
    let dup_key = vec![field(1, "a", Some("k"), ModelFieldKind::Scalar, false), field(2, "b", Some("k"), ModelFieldKind::Scalar, false)];
    assert!(has_duplicate_or_risky_field_configuration(&dup_key));
    let unique_json = vec![field(1, "a", None, ModelFieldKind::Json, true)];
    assert!(has_duplicate_or_risky_field_configuration(&unique_json));
}

#[test]
fn external_sources_need_scope_filters() {
    let mut m = model("orders", DataModelSourceKind::ExternalSource);
    assert!(external_source_is_unsafe(&m));
    m.external_capability_snapshot = Some(JsonValue::Object(vec![(
        "supports_scope_filter".to_string(),
        JsonValue::Bool(true),
    )]));
    assert!(!external_source_is_unsafe(&m));
    assert!(!external_source_is_unsafe(&model("orders", DataModelSourceKind::MainSource)));
    let unsafe_model = model("orders", DataModelSourceKind::ExternalSource);
    assert!(matches!(
        ensure_unsafe_external_system_all_confirmed(&unsafe_model, ScopeDataModelPermissionProfile::SystemAll, false),
        Err(ControlPlaneError::InvalidInput("confirmation"))
    ));
    assert!(ensure_unsafe_external_system_all_confirmed(&unsafe_model, ScopeDataModelPermissionProfile::SystemAll, true).is_ok());
    assert!(ensure_unsafe_external_system_all_confirmed(&unsafe_model, ScopeDataModelPermissionProfile::Owner, false).is_ok());
}

#[test]
fn effective_exposure_by_status_and_keys() {
    let ready = ApiExposureReadinessFacts { has_active_api_key: true, has_ready_path: true };
    let none = ApiExposureReadinessFacts { has_active_api_key: false, has_ready_path: false };
    let mut m = model("orders", DataModelSourceKind::MainSource);
    assert_eq!(effective_api_exposure_status(&m, &ready), ApiExposureStatus::ApiExposedReady);
    assert_eq!(effective_api_exposure_status(&m, &none), ApiExposureStatus::PublishedNotExposed);
    m.status = DataModelStatus::Draft;
    assert_eq!(effective_api_exposure_status(&m, &ready), ApiExposureStatus::Draft);
    m.status = DataModelStatus::Disabled;
    m.api_exposure_status = ApiExposureStatus::ApiExposedReady;
    assert_eq!(effective_api_exposure_status(&m, &ready), ApiExposureStatus::ApiExposedNoPermission);
    let ext = model("orders", DataModelSourceKind::ExternalSource);
    assert_eq!(effective_api_exposure_status(&ext, &ready), ApiExposureStatus::UnsafeExternalSource);
}

#[test]
fn keys_expire_and_profiles_limit_api_access() {
    let mut k = key(10);
    assert!(is_api_key_active_at(&k, 100));
    k.expires_at = Some(100);
    assert!(!is_api_key_active_at(&k, 100));
    assert!(is_api_key_active_at(&k, 99));
    k.key_enabled = false;
    assert!(!is_api_key_active_at(&k, 0));
    assert!(api_key_runtime_can_use_grant_profile(ScopeDataModelPermissionProfile::Owner));
    assert!(!api_key_runtime_can_use_grant_profile(ScopeDataModelPermissionProfile::SystemAll));
}

#[test]
fn advisor_facts_and_findings() {
    let m = model("orders", DataModelSourceKind::MainSource);
    let usable = vec![grant(1, 42, DataModelScopeKind::Workspace, ScopeDataModelPermissionProfile::ScopeAll)];
    let mut writer = key(10);
    writer.allow_create = true;
    let facts = api_exposure_advisor_facts(&m, &vec![(writer, usable)], 0);
    assert!(facts.has_active_api_key && facts.has_ready_path && facts.has_write_permission);
    assert!(facts.has_usable_scope_filter && facts.audit_configured);

    let unusable = vec![grant(1, 42, DataModelScopeKind::Workspace, ScopeDataModelPermissionProfile::SystemAll)];
    let facts = api_exposure_advisor_facts(&m, &vec![(key(10), unusable)], 0);
    assert!(facts.has_active_api_key && !facts.has_ready_path && facts.has_action_permission);
    let findings = advisor_findings_for(&m, ApiExposureStatus::ApiExposedNoPermission, &facts);
    let codes: Vec<&str> = findings.iter().map(|f| f.code.as_str()).collect();
    assert_eq!(codes, vec!["api_exposed_no_permission", "missing_scope_filter"]);
    assert_eq!(findings[0].severity, DataModelAdvisorSeverity::High);
    assert_eq!(findings[0].id, format!("{}:api_exposed_no_permission", uuid::Uuid::from_u128(42)));

    let quiet = ApiExposureAdvisorFacts {
        has_active_api_key: false,
        has_ready_path: false,
        has_action_permission: false,
        has_write_permission: false,
        has_usable_scope_filter: false,
        audit_configured: true,
    };
    let findings = advisor_findings_for(&m, ApiExposureStatus::PublishedNotExposed, &quiet);
    assert_eq!(findings.len(), 1);
    assert_eq!(findings[0].code, "published_not_exposed");
    assert!(findings[0].can_acknowledge);
}

#[test]
fn batch_deletion_ids() {
    assert!(matches!(
        ensure_batch_delete_request(false, &vec![1]),
        Err(ControlPlaneError::InvalidInput("confirmation"))
    ));
    assert!(matches!(
        ensure_batch_delete_request(true, &vec![]),
        Err(ControlPlaneError::InvalidInput("model_ids"))
    ));
    assert!(ensure_batch_delete_request(true, &vec![1]).is_ok());
    assert_eq!(unique_model_ids(&vec![3, 1, 3, 2, 1]), vec![3, 1, 2]);
}

#[test]
fn grants_are_listed_in_a_stable_order() {
    let grants = vec![
        grant(5, 42, DataModelScopeKind::Workspace, ScopeDataModelPermissionProfile::Owner),
        grant(4, 42, DataModelScopeKind::System, ScopeDataModelPermissionProfile::SystemAll),
        grant(3, 7, DataModelScopeKind::System, ScopeDataModelPermissionProfile::Owner),
        grant(2, 42, DataModelScopeKind::System, ScopeDataModelPermissionProfile::Owner),
        grant(1, 42, DataModelScopeKind::Workspace, ScopeDataModelPermissionProfile::Owner),
    ];
    let listed: Vec<u128> = scope_grants_for_model(&grants, 42).iter().map(|g| g.id).collect();
    assert_eq!(listed, vec![2, 4, 1, 5]);
}

#[test]
fn runtime_grant_prefers_the_workspace() {
    let ws = vec![grant(1, 42, DataModelScopeKind::Workspace, ScopeDataModelPermissionProfile::Owner)];
    let sys = vec![grant(2, 42, DataModelScopeKind::System, ScopeDataModelPermissionProfile::SystemAll)];
    let g = select_runtime_scope_grant(&actor(false, &[]), &ws, &sys, 42).unwrap();
    assert_eq!(g.permission_profile, ScopeDataModelPermissionProfile::Owner);
    assert!(select_runtime_scope_grant(&actor(false, &[]), &vec![], &sys, 42).is_none());
    let g = select_runtime_scope_grant(&actor(true, &[]), &vec![], &sys, 42).unwrap();
    assert_eq!(g.permission_profile, ScopeDataModelPermissionProfile::SystemAll);
}

#[test]
fn in_memory_repository_reads_back_what_was_written() {
    let mut service = ModelDefinitionService::for_tests();
    let repo: &mut InMemoryModelDefinitionRepository = &mut service.repository;
    let g = grant(9, 42, DataModelScopeKind::Workspace, ScopeDataModelPermissionProfile::Owner);
    assert!(matches!(
        repo.create_scope_data_model_grant(g),
        Err(ControlPlaneError::NotFound("model_definition"))
    ));
    repo.insert_model(model("orders", DataModelSourceKind::MainSource));
    assert!(repo.create_scope_data_model_grant(g).is_ok());
    assert_eq!(repo.get_scope_data_model_grant(42, 9).map(|g| g.id), Some(9));
    assert_eq!(repo.list_scope_data_model_grants(DataModelScopeKind::Workspace, 10).len(), 1);
    let updated = repo
        .update_scope_data_model_grant(42, 9, false, ScopeDataModelPermissionProfile::ScopeAll)
        .ok()
        .unwrap();
    assert!(!updated.enabled);
    repo.replace_grant_permission_profile_for_tests(42, ScopeDataModelPermissionProfile::SystemAll);
    assert_eq!(
        repo.get_scope_data_model_grant(42, 9).unwrap().permission_profile,
        ScopeDataModelPermissionProfile::SystemAll
    );
    assert!(repo.delete_scope_data_model_grant(42, 9).is_ok());
    assert!(repo.get_scope_data_model_grant(42, 9).is_none());
    assert!(matches!(
        repo.delete_scope_data_model_grant(42, 9),
        Err(ControlPlaneError::NotFound("scope_data_model_grant"))
    ));
    repo.add_api_key_readiness(key(10));
    assert_eq!(repo.list_api_key_data_model_readiness(42).len(), 1);
    assert_eq!(repo.list_api_key_data_model_readiness(7).len(), 0);
    repo.append_audit_event("state_model.created");
    assert_eq!(repo.audit_events(), vec!["state_model.created".to_string()]);
}

fn create_command(profile: Option<ScopeDataModelPermissionProfile>, confirmed: bool) -> CreateScopeDataModelGrantCommand {
    CreateScopeDataModelGrantCommand {
        actor_user_id: 1,
        scope_kind: DataModelScopeKind::Workspace,
        scope_id: 10,
        data_model_id: 42,
        enabled: true,
        permission_profile: profile,
        confirm_unsafe_external_source_system_all: confirmed,
    }
}

#[test]
fn scope_grants_are_created_changed_and_withdrawn_with_an_audit_trail() {
    let mut service = ModelDefinitionService::for_tests();
    assert!(matches!(
        service.create_scope_grant(&create_command(Some(ScopeDataModelPermissionProfile::Owner), false)),
        Err(ControlPlaneError::NotFound("model_definition"))
    ));
    service.repository.insert_model(model("orders", DataModelSourceKind::MainSource));
    assert!(matches!(
        service.create_scope_grant(&create_command(None, false)),
        Err(ControlPlaneError::InvalidInput("permission_profile"))
    ));
    let created = service
        .create_scope_grant(&create_command(Some(ScopeDataModelPermissionProfile::Owner), false))
        .ok()
        .unwrap();
    assert_eq!(created.data_model_id, 42);
    assert_eq!(created.scope_id, 10);
    assert!(created.enabled);
    assert_eq!(service.repository.get_scope_data_model_grant(42, created.id).map(|g| g.id), Some(created.id));
    assert_eq!(service.repository.audit_events(), vec!["state_model.scope_grant_created".to_string()]);

    let updated = service
        .update_scope_grant(&UpdateScopeDataModelGrantCommand {
            actor_user_id: 1,
            data_model_id: 42,
            grant_id: created.id,
            enabled: Some(false),
            permission_profile: None,
            confirm_unsafe_external_source_system_all: false,
        })
        .ok()
        .unwrap();
    assert!(!updated.enabled);
    assert_eq!(updated.permission_profile, ScopeDataModelPermissionProfile::Owner);
    assert!(matches!(
        service.update_scope_grant(&UpdateScopeDataModelGrantCommand {
            actor_user_id: 1,
            data_model_id: 42,
            grant_id: created.id,
            enabled: None,
            permission_profile: Some(None),
            confirm_unsafe_external_source_system_all: false,
        }),
        Err(ControlPlaneError::InvalidInput("permission_profile"))
    ));
    assert!(matches!(
        service.update_scope_grant(&UpdateScopeDataModelGrantCommand {
            actor_user_id: 1,
            data_model_id: 42,
            grant_id: created.id + 1,
            enabled: None,
            permission_profile: None,
            confirm_unsafe_external_source_system_all: false,
        }),
        Err(ControlPlaneError::NotFound("scope_data_model_grant"))
    ));

    let deleted = service
        .delete_scope_grant(&DeleteScopeDataModelGrantCommand { actor_user_id: 1, data_model_id: 42, grant_id: created.id })
        .ok()
        .unwrap();
    assert_eq!(deleted.id, created.id);
    assert!(service.repository.get_scope_data_model_grant(42, created.id).is_none());
    assert_eq!(
        service.repository.audit_events(),
        vec![
            "state_model.scope_grant_created".to_string(),
            "state_model.scope_grant_updated".to_string(),
            "state_model.scope_grant_deleted".to_string(),
        ]
    );
}

#[test]
fn a_system_wide_grant_on_an_unsafe_source_needs_confirmation() {
    let mut service = ModelDefinitionService::for_tests();
    service.repository.insert_model(model("orders", DataModelSourceKind::ExternalSource));
    assert!(matches!(
        service.create_scope_grant(&create_command(Some(ScopeDataModelPermissionProfile::SystemAll), false)),
        Err(ControlPlaneError::InvalidInput("confirmation"))
    ));
    assert!(service.repository.audit_events().is_empty());
    assert!(service
        .create_scope_grant(&create_command(Some(ScopeDataModelPermissionProfile::SystemAll), true))
        .is_ok());
}

fn model_with(id: u128, code: &str, source_kind: DataModelSourceKind, protected: bool) -> ModelDefinitionRecord {
    let mut m = model(code, source_kind);
    m.id = id;
    m.is_protected = protected;
    m
}

#[test]
fn a_batch_deletion_checks_every_model_before_deleting_any() {
    let root = actor(true, &[]);
    let member = actor(false, &["state_model.manage.all"]);
    let models = vec![
        model_with(1, "orders", DataModelSourceKind::MainSource, false),
        model_with(2, "users", DataModelSourceKind::MainSource, false),
        model_with(3, "secret", DataModelSourceKind::MainSource, true),
    ];
    assert!(matches!(
        batch_delete_plan(&root, false, &vec![1], &models),
        Err(ControlPlaneError::InvalidInput("confirmation"))
    ));
    assert!(matches!(batch_delete_plan(&root, true, &vec![], &models), Err(ControlPlaneError::InvalidInput("model_ids"))));
    assert!(matches!(
        batch_delete_plan(&actor(false, &[]), true, &vec![1], &models),
        Err(ControlPlaneError::PermissionDenied("permission_denied"))
    ));
    assert_eq!(batch_delete_plan(&root, true, &vec![1, 3, 1], &models).ok().unwrap(), vec![1, 3]);
    assert!(matches!(
        batch_delete_plan(&root, true, &vec![1, 9], &models),
        Err(ControlPlaneError::NotFound("model_definition"))
    ));
    assert!(matches!(
        batch_delete_plan(&root, true, &vec![1, 2], &models),
        Err(ControlPlaneError::InvalidInput("builtin_data_model"))
    ));
    assert!(matches!(
        batch_delete_plan(&member, true, &vec![1, 3], &models),
        Err(ControlPlaneError::PermissionDenied("protected_data_model"))
    ));
}

#[test]
fn scope_grants_are_listed_for_a_visible_model_in_order() {
    let viewer = actor(false, &["state_model.view.all"]);
    let ws = vec![
        grant(5, 42, DataModelScopeKind::Workspace, ScopeDataModelPermissionProfile::ScopeAll),
        grant(6, 7, DataModelScopeKind::Workspace, ScopeDataModelPermissionProfile::Owner),
    ];
    let sys = vec![grant(4, 42, DataModelScopeKind::System, ScopeDataModelPermissionProfile::SystemAll)];
    let listed = scope_grant_listing(&viewer, true, &ws, &sys, 42).ok().unwrap();
    assert_eq!(listed.iter().map(|g| g.id).collect::<Vec<_>>(), vec![4, 5]);
    assert!(matches!(
        scope_grant_listing(&viewer, false, &ws, &sys, 42),
        Err(ControlPlaneError::NotFound("model_definition"))
    ));
    assert!(matches!(
        scope_grant_listing(&actor(false, &[]), true, &ws, &sys, 42),
        Err(ControlPlaneError::PermissionDenied("permission_denied"))
    ));
}
