use control_plane::errors::ControlPlaneError;
use control_plane::json::{canonicalize_json, to_compact_string, JsonValue};
use control_plane::orchestration_runtime::compile_context::InstallationState;
use control_plane::model_provider::{
    catalog_installations, created_catalog_cache, provider_option_entries, instance_update_fields,
    preview_installation_check, resolve_preview_state, validate_instance_step, PreviewSessionFacts,
    ValidateAction, ValidateEvent, ValidateState, instance_deletion, CatalogInstallation, provider_option_instances, OptionInstance, refresh_failure_writes, refresh_success_writes, fingerprint_provider_config, instance_config_update, instance_creation, new_instance_config, preview_session,
    validation_failure_writes, validation_success_writes, CatalogRefreshStatus, PREVIEW_WINDOW_NANOS,
    map_catalog_source, map_framework_error, map_model_discovery_mode,
    ModelDiscoveryMode, ModelProviderCatalogSource, ModelProviderDiscoveryMode, PluginFrameworkErrorKind,
    configured_models_to_enabled_model_ids, derive_instance_status, expose_enabled_models,
    is_empty_object, is_secret_field, localized_model_descriptor, mask_secret_config,
    mask_secret_preview, merge_json_object, model_i18n_key, normalize_configured_models,
    normalize_enabled_model_ids, normalize_required_text, split_provider_config,
    validate_required_fields, ModelProviderConfiguredModel, ModelProviderInstanceStatus,
    ProviderConfigField, ProviderModelDescriptor, ProviderModelSource,
};

fn object(entries: Vec<(&str, JsonValue)>) -> JsonValue {
    JsonValue::Object(entries.into_iter().map(|(k, v)| (k.to_string(), v)).collect())
}

fn s(text: &str) -> JsonValue {
    JsonValue::Str(text.to_string())
}

fn field(key: &str, field_type: &str, required: bool) -> ProviderConfigField {
    ProviderConfigField {
        key: key.to_string(),
        field_type: field_type.to_string(),
        required,
    }
}

fn descriptor(model_id: &str, source: ProviderModelSource) -> ProviderModelDescriptor {
    ProviderModelDescriptor {
        model_id: model_id.to_string(),
        display_name: format!("{model_id} name"),
        source,
        supports_streaming: true,
        supports_tool_call: false,
        supports_multimodal: false,
        context_window: Some(1000),
        max_output_tokens: None,
        provider_metadata: object(vec![]),
    }
}

fn configured(model_id: &str, enabled: bool, ctx: Option<u64>) -> ModelProviderConfiguredModel {
    ModelProviderConfiguredModel {
        model_id: model_id.to_string(),
        enabled,
        context_window_override_tokens: ctx,
    }
}

fn schema() -> Vec<ProviderConfigField> {
    vec![field("base_url", "string", true), field("api_key", " Secret ", true), field("org", "string", false)]
}

#[test]
fn required_text_is_trimmed() {
    assert_eq!(normalize_required_text("  name ", "display_name").ok().unwrap(), "name");
    assert!(matches!(
        normalize_required_text("   ", "display_name"),
        Err(ControlPlaneError::InvalidInput("display_name"))
    ));
}

#[test]
fn secret_fields_by_type() {
    assert!(is_secret_field(" SECRET "));
    assert!(is_secret_field("secret"));
    assert!(!is_secret_field("secrets"));
}

#[test]
fn configuration_is_split_by_the_form() {
    let input = object(vec![("base_url", s("https://x")), ("api_key", s("sk-123"))]);
    let (public, secret) = split_provider_config(&schema(), &input).ok().unwrap();
    assert_eq!(public.get_str("base_url"), Some("https://x"));
    assert!(public.get("api_key").is_none());
    assert_eq!(secret.get_str("api_key"), Some("sk-123"));
    assert!(validate_required_fields(&schema(), &public, &secret).is_ok());

    let unknown = object(vec![("other", s("x"))]);
    assert!(matches!(
        split_provider_config(&schema(), &unknown),
        Err(ControlPlaneError::InvalidInput("config_json"))
    ));
    assert!(matches!(
        split_provider_config(&schema(), &s("x")),
        Err(ControlPlaneError::InvalidInput("config_json"))
    ));
}

#[test]
fn required_fields_must_be_filled() {
    let public = object(vec![("base_url", s(""))]);
    let secret = object(vec![("api_key", s("k"))]);
    assert!(matches!(
        validate_required_fields(&schema(), &public, &secret),
        Err(ControlPlaneError::InvalidInput("config_json"))
    ));
    let public = object(vec![("base_url", s("u"))]);
    let secret = object(vec![("api_key", JsonValue::Null)]);
    assert!(validate_required_fields(&schema(), &public, &secret).is_err());
}

#[test]
fn merge_puts_patch_entries_in() {
    let base = object(vec![("a", JsonValue::Number(1)), ("b", JsonValue::Number(2))]);
    let patch = object(vec![("b", JsonValue::Number(3)), ("c", JsonValue::Number(4))]);
    let merged = merge_json_object(&base, &patch).ok().unwrap();
    assert_eq!(format!("{:?}", merged), format!("{:?}", object(vec![
        ("a", JsonValue::Number(1)),
        ("b", JsonValue::Number(3)),
        ("c", JsonValue::Number(4)),
    ])));
    assert!(merge_json_object(&base, &JsonValue::Null).is_err());
}

#[test]
fn secrets_are_masked() {
    assert_eq!(mask_secret_preview("short"), "****");
    assert_eq!(mask_secret_preview("12345678"), "****");
    assert_eq!(mask_secret_preview("sk-abcdefgh1234"), "sk-a****1234");
    let base = object(vec![("base_url", s("u"))]);
    let secret = object(vec![("api_key", s("sk-abcdefgh1234"))]);
    let masked = mask_secret_config(&base, &secret, &schema()).ok().unwrap();
    assert_eq!(masked.get_str("api_key"), Some("sk-a****1234"));
    assert_eq!(masked.get_str("base_url"), Some("u"));
    let secret = object(vec![("api_key", JsonValue::Number(5))]);
    let masked = mask_secret_config(&base, &secret, &schema()).ok().unwrap();
    assert_eq!(masked.get_str("api_key"), Some("****"));
    assert!(is_empty_object(&object(vec![])));
    assert!(!is_empty_object(&base));
}

#[test]
fn model_keys_and_localization() {
    assert_eq!(model_i18n_key("GPT-4.1 mini"), "gpt_4_1_mini");
    assert_eq!(model_i18n_key(&model_i18n_key("GPT-4.1 mini")), "gpt_4_1_mini");
    let l = localized_model_descriptor("provider.ns", descriptor("GPT-4", ProviderModelSource::Static));
    assert_eq!(l.namespace.as_deref(), Some("provider.ns"));
    assert_eq!(l.label_key.as_deref(), Some("models.gpt_4.label"));
    assert_eq!(l.description_key.as_deref(), Some("models.gpt_4.description"));
    let l = localized_model_descriptor("provider.ns", descriptor("dyn", ProviderModelSource::Dynamic));
    assert!(l.namespace.is_none() && l.label_key.is_none());
    assert_eq!(l.display_name_fallback.as_deref(), Some("dyn name"));
}

#[test]
fn enabled_model_ids_are_normalized() {
    let ids = vec![" a ".to_string(), "".to_string(), "b".to_string(), "a".to_string(), "  ".to_string()];
    let once = normalize_enabled_model_ids(ids);
    assert_eq!(once, vec!["a".to_string(), "b".to_string()]);
    assert_eq!(normalize_enabled_model_ids(once.clone()), once);
}

#[test]
fn configured_models_are_normalized() {
    let from_ids = normalize_configured_models(vec![], vec!["x".to_string(), " x".to_string()]);
    assert_eq!(from_ids.len(), 1);
    assert!(from_ids[0].enabled && from_ids[0].model_id == "x");
    let cfg = normalize_configured_models(
        vec![configured(" m1 ", false, Some(5)), configured("m1", true, None), configured("m2", true, None)],
        vec!["ignored".to_string()],
    );
    let ids: Vec<(&str, bool)> = cfg.iter().map(|c| (c.model_id.as_str(), c.enabled)).collect();
    assert_eq!(ids, vec![("m1", false), ("m2", true)]);
    assert_eq!(configured_models_to_enabled_model_ids(&cfg), vec!["m2".to_string()]);
}

#[test]
fn instance_status_follows_enabled_models() {
    assert_eq!(derive_instance_status(true, &["m".to_string()]), ModelProviderInstanceStatus::Disabled);
    assert_eq!(derive_instance_status(false, &[]), ModelProviderInstanceStatus::Draft);
    assert_eq!(derive_instance_status(false, &["m".to_string()]), ModelProviderInstanceStatus::Ready);
}

#[test]
fn enabled_models_are_exposed_with_overrides_and_fallbacks() {
    let models = vec![descriptor("m1", ProviderModelSource::Static), descriptor("m2", ProviderModelSource::Dynamic)];
    let cfg = vec![configured("m1", true, Some(64)), configured("m3", true, Some(32))];
    let exposed = expose_enabled_models("ns", models, &cfg, &["m3".to_string(), "m1".to_string()]);
    assert_eq!(exposed.len(), 2);
    assert_eq!(exposed[0].descriptor.model_id, "m3");
    assert_eq!(exposed[0].descriptor.source, ProviderModelSource::Dynamic);
    assert_eq!(exposed[0].descriptor.context_window, Some(32));
    assert_eq!(exposed[0].display_name_fallback.as_deref(), Some("m3"));
    assert_eq!(exposed[1].descriptor.model_id, "m1");
    assert_eq!(exposed[1].descriptor.context_window, Some(64));
    assert_eq!(exposed[1].label_key.as_deref(), Some("models.m1.label"));
}

#[test]
fn canonical_form_orders_keys_at_every_depth() {
    let config = object(vec![
        ("b", JsonValue::Number(1)),
        (
            "a",
            JsonValue::Array(vec![object(vec![("z", JsonValue::Number(1)), ("y", s("two"))])]),
        ),
        ("c", JsonValue::Null),
    ]);
    let canonical = canonicalize_json(&config);
    assert_eq!(to_compact_string(&canonical), r#"{"a":[{"y":"two","z":1}],"b":1,"c":null}"#);
    assert_eq!(fingerprint_provider_config(&config), r#"{"a":[{"y":"two","z":1}],"b":1,"c":null}"#);
}

#[test]
fn fingerprint_ignores_key_order() {
    let first = object(vec![("api_key", s("k")), ("base_url", s("https://x")), ("depth", JsonValue::Bool(true))]);
    let second = object(vec![("depth", JsonValue::Bool(true)), ("api_key", s("k")), ("base_url", s("https://x"))]);
    assert_eq!(fingerprint_provider_config(&first), fingerprint_provider_config(&second));
    let changed = object(vec![("api_key", s("other")), ("base_url", s("https://x")), ("depth", JsonValue::Bool(true))]);
    assert_ne!(fingerprint_provider_config(&first), fingerprint_provider_config(&changed));
}

#[test]
fn canonical_form_keeps_the_last_of_repeated_keys_and_is_stable() {
    let config = object(vec![("k", JsonValue::Number(1)), ("a", s("x")), ("k", JsonValue::Number(2))]);
    let canonical = canonicalize_json(&config);
    assert_eq!(to_compact_string(&canonical), r#"{"a":"x","k":2}"#);
    let again = canonicalize_json(&canonical);
    assert_eq!(to_compact_string(&again), to_compact_string(&canonical));
    assert_eq!(to_compact_string(&canonicalize_json(&JsonValue::Number(7))), "7");
}

#[test]
fn discovery_modes_and_framework_errors_are_mapped() {
    assert_eq!(map_model_discovery_mode(ModelDiscoveryMode::Hybrid), ModelProviderDiscoveryMode::Hybrid);
    assert_eq!(map_model_discovery_mode(ModelDiscoveryMode::Static), ModelProviderDiscoveryMode::Static);
    assert_eq!(map_catalog_source(ModelDiscoveryMode::Dynamic), ModelProviderCatalogSource::Dynamic);
    assert!(matches!(
        map_framework_error(PluginFrameworkErrorKind::Serialization),
        ControlPlaneError::InvalidInput("provider_package")
    ));
    assert!(matches!(
        map_framework_error(PluginFrameworkErrorKind::Io),
        ControlPlaneError::UpstreamUnavailable("provider_runtime")
    ));
    assert!(matches!(
        map_framework_error(PluginFrameworkErrorKind::RuntimeContract),
        ControlPlaneError::UpstreamUnavailable("provider_runtime")
    ));
}

#[test]
fn fingerprint_ignores_key_order_at_every_depth() {
    let first = object(vec![
        ("b", JsonValue::Number(1)),
        ("a", object(vec![("d", JsonValue::Number(2)), ("c", JsonValue::Number(3))])),
    ]);
    let second = object(vec![
        ("a", object(vec![("c", JsonValue::Number(3)), ("d", JsonValue::Number(2))])),
        ("b", JsonValue::Number(1)),
    ]);
    assert_eq!(fingerprint_provider_config(&first), r#"{"a":{"c":3,"d":2},"b":1}"#);
    assert_eq!(fingerprint_provider_config(&first), fingerprint_provider_config(&second));
}

#[test]
fn an_update_merges_each_part_and_writes_a_changed_secret_with_its_next_version() {
    let form = schema();
    let existing = object(vec![("base_url", s("https://old"))]);
    let secret = object(vec![("api_key", s("old-key"))]);
    let patch = object(vec![("base_url", s("https://new"))]);
    let update = instance_config_update(&form, &existing, Some(&secret), Some(3), &patch).unwrap();
    assert_eq!(update.public_config.get_str("base_url"), Some("https://new"));
    assert_eq!(update.secret_config.get_str("api_key"), Some("old-key"));
    assert_eq!(update.secret_write, None);
    assert_eq!(update.provider_config.get_str("api_key"), Some("old-key"));
    let secret_patch = object(vec![("api_key", s("new-key"))]);
    let rotated = instance_config_update(&form, &existing, Some(&secret), Some(3), &secret_patch).unwrap();
    assert_eq!(rotated.secret_write, Some(4));
    assert_eq!(rotated.secret_config.get_str("api_key"), Some("new-key"));
    let first = instance_config_update(&form, &existing, None, None, &secret_patch).unwrap();
    assert_eq!(first.secret_write, Some(1));
    assert!(matches!(
        instance_config_update(&form, &existing, None, None, &s("x")),
        Err(ControlPlaneError::InvalidInput("config_json"))
    ));
    let fresh = new_instance_config(&form, &object(vec![("base_url", s("u")), ("api_key", s("k"))])).unwrap();
    assert_eq!(fresh.0.get_str("base_url"), Some("u"));
    assert_eq!(fresh.1.get_str("api_key"), Some("k"));
    assert_eq!(fresh.2.get_str("api_key"), Some("k"));
}

#[test]
fn a_preview_session_keeps_the_fingerprint_for_ten_minutes() {
    let config = object(vec![("b", JsonValue::Number(1)), ("a", JsonValue::Number(2))]);
    let session = preview_session(9, 1, 2, None, Some(5), &config, JsonValue::Array(vec![]), 100).unwrap();
    assert_eq!(session.installation_id, 5);
    assert_eq!(session.instance_id, None);
    assert_eq!(session.config_fingerprint, r#"{"a":2,"b":1}"#);
    assert_eq!(session.expires_at_unix_nanos, 100 + PREVIEW_WINDOW_NANOS);
    let with_instance = preview_session(9, 1, 2, Some((7, 8)), None, &config, JsonValue::Null, 0).unwrap();
    assert_eq!((with_instance.instance_id, with_instance.installation_id), (Some(7), 8));
    assert!(matches!(
        preview_session(9, 1, 2, None, None, &config, JsonValue::Null, 0),
        Err(ControlPlaneError::InvalidInput("installation_id"))
    ));
}

#[test]
fn validation_outcomes_are_written() {
    let failed = validation_failure_writes(ModelDiscoveryMode::Dynamic, None, true, "openai", "boom");
    assert_eq!(failed.catalog.refresh_status, CatalogRefreshStatus::Failed);
    assert_eq!(to_compact_string(&failed.catalog.models_json), "[]");
    assert_eq!(failed.catalog.last_error_message.as_deref(), Some("boom"));
    assert_eq!(failed.catalog.refreshed_at_unix_nanos, None);
    assert!(failed.mark_invalid);
    assert_eq!(to_compact_string(&failed.audit_payload), r#"{"message":"boom","provider_code":"openai"}"#);
    let stored = JsonValue::Array(vec![s("m")]);
    let kept = validation_failure_writes(ModelDiscoveryMode::Static, Some(&stored), false, "openai", "boom");
    assert_eq!(to_compact_string(&kept.catalog.models_json), r#"["m"]"#);
    assert!(!kept.mark_invalid);
    let ok = validation_success_writes(ModelDiscoveryMode::Hybrid, JsonValue::Array(vec![]), 0, &[], "openai", 42);
    assert_eq!(ok.catalog.refresh_status, CatalogRefreshStatus::Ready);
    assert_eq!(ok.catalog.refreshed_at_unix_nanos, Some(42));
    assert_eq!(ok.next_status, ModelProviderInstanceStatus::Draft);
}

#[test]
fn a_new_instance_keeps_its_public_config_and_writes_its_secret_once() {
    let form = schema();
    let input = object(vec![("base_url", s("https://api")), ("api_key", s("k"))]);
    let created = instance_creation(
        9,
        Some(false),
        &vec![9],
        &form,
        &input,
        "  Main  ",
        vec![configured("m1", true, None)],
        vec![],
    )
    .unwrap();
    assert_eq!(created.display_name, "Main");
    assert_eq!(created.config_json.get_str("base_url"), Some("https://api"));
    assert_eq!(created.config_json.get_str("api_key"), None);
    assert_eq!(created.secret_write.as_ref().and_then(|w| w.get_str("api_key")), Some("k"));
    assert_eq!(created.provider_config.get_str("api_key"), Some("k"));
    assert_eq!(created.enabled_model_ids, vec!["m1".to_string()]);
    assert_eq!(created.status, ModelProviderInstanceStatus::Ready);
    let draft = instance_creation(9, Some(false), &vec![9], &form, &input, "Main", vec![], vec![]).unwrap();
    assert_eq!(draft.status, ModelProviderInstanceStatus::Draft);
    assert!(matches!(
        instance_creation(9, Some(false), &vec![9], &form, &input, "   ", vec![], vec![]),
        Err(ControlPlaneError::InvalidInput("display_name"))
    ));
    assert!(matches!(
        instance_creation(9, Some(false), &vec![9], &form, &s("x"), "   ", vec![], vec![]),
        Err(ControlPlaneError::InvalidInput("config_json"))
    ));
    assert!(matches!(
        instance_creation(9, None, &vec![9], &form, &input, "Main", vec![], vec![]),
        Err(ControlPlaneError::NotFound("plugin_installation"))
    ));
    assert!(matches!(
        instance_creation(9, Some(true), &vec![8], &form, &input, "Main", vec![], vec![]),
        Err(ControlPlaneError::Conflict("plugin_assignment_required"))
    ));
    assert!(matches!(
        instance_creation(9, Some(true), &vec![9], &form, &input, "Main", vec![], vec![]),
        Err(ControlPlaneError::Conflict("plugin_installation_disabled"))
    ));
    let models = JsonValue::Array(vec![s("m1")]);
    let cache = created_catalog_cache(ModelDiscoveryMode::Dynamic, Some(&models), Some(7)).unwrap();
    assert_eq!(cache.refresh_status, CatalogRefreshStatus::Ready);
    assert_eq!(cache.model_discovery_mode, ModelProviderDiscoveryMode::Dynamic);
    assert_eq!(cache.source, ModelProviderCatalogSource::Dynamic);
    assert_eq!(to_compact_string(&cache.models_json), r#"["m1"]"#);
    assert_eq!(cache.refreshed_at_unix_nanos, Some(7));
    assert!(created_catalog_cache(ModelDiscoveryMode::Static, None, None).is_none());
}

#[test]
fn a_refresh_writes_the_listed_models_or_keeps_the_stored_ones() {
    let models = JsonValue::Array(vec![s("m1"), s("m2")]);
    let ok = refresh_success_writes(ModelDiscoveryMode::Hybrid, models, 2, "openai", 50);
    assert_eq!(ok.catalog.refresh_status, CatalogRefreshStatus::Ready);
    assert_eq!(ok.catalog.refreshed_at_unix_nanos, Some(50));
    assert_eq!(to_compact_string(&ok.catalog.models_json), r#"["m1","m2"]"#);
    assert_eq!(to_compact_string(&ok.audit_payload), r#"{"model_count":2,"provider_code":"openai"}"#);
    let stored = JsonValue::Array(vec![s("old")]);
    let failed = refresh_failure_writes(ModelDiscoveryMode::Hybrid, Some(&stored), Some(40), "openai", "boom");
    assert_eq!(failed.catalog.refresh_status, CatalogRefreshStatus::Failed);
    assert_eq!(failed.catalog.refreshed_at_unix_nanos, Some(40));
    assert_eq!(failed.catalog.last_error_message.as_deref(), Some("boom"));
    assert_eq!(to_compact_string(&failed.catalog.models_json), r#"["old"]"#);
    assert_eq!(to_compact_string(&failed.audit_payload), r#"{"message":"boom","provider_code":"openai"}"#);
    let first = refresh_failure_writes(ModelDiscoveryMode::Static, None, None, "openai", "boom");
    assert_eq!(to_compact_string(&first.catalog.models_json), "[]");
    assert_eq!(first.catalog.refreshed_at_unix_nanos, None);
}

#[test]
fn a_referenced_instance_is_not_deleted() {
    let kept = instance_deletion("openai", 2);
    assert_eq!(kept.audit_event, "model_provider.delete_conflict");
    assert_eq!(to_compact_string(&kept.audit_payload), r#"{"provider_code":"openai","reference_count":2}"#);
    assert!(matches!(kept.outcome, Err(ControlPlaneError::Conflict("model_provider_in_use"))));
    let gone = instance_deletion("openai", 0);
    assert_eq!(gone.audit_event, "model_provider.deleted");
    assert_eq!(to_compact_string(&gone.audit_payload), r#"{"provider_code":"openai"}"#);
    assert!(gone.outcome.is_ok());
}

fn option(id: u128, code: &str, name: &str, status: ModelProviderInstanceStatus, main: bool) -> OptionInstance {
    OptionInstance { id, provider_code: code.to_string(), display_name: name.to_string(), status, included_in_main: main }
}

#[test]
fn options_offer_ready_main_instances_by_provider_then_name_then_id() {
    let instances = vec![
        option(5, "openai", "Main", ModelProviderInstanceStatus::Ready, true),
        option(2, "azure", "West", ModelProviderInstanceStatus::Ready, true),
        option(3, "openai", "Backup", ModelProviderInstanceStatus::Ready, true),
        option(4, "openai", "Main", ModelProviderInstanceStatus::Ready, true),
        option(6, "openai", "Draft", ModelProviderInstanceStatus::Draft, true),
        option(7, "azure", "East", ModelProviderInstanceStatus::Ready, false),
    ];
    let order: Vec<u128> = provider_option_instances(&instances).into_iter().map(|p| instances[p].id).collect();
    assert_eq!(order, vec![2, 3, 4, 5]);
}

#[test]
fn the_catalog_lists_assigned_available_enabled_installations() {
    let installations = vec![
        CatalogInstallation { id: 1, disabled: false, available: true },
        CatalogInstallation { id: 2, disabled: true, available: true },
        CatalogInstallation { id: 3, disabled: false, available: false },
        CatalogInstallation { id: 4, disabled: false, available: true },
        CatalogInstallation { id: 5, disabled: false, available: true },
    ];
    assert_eq!(catalog_installations(&installations, &vec![1, 2, 3, 5]), vec![0, 4]);
    assert!(catalog_installations(&installations, &vec![]).is_empty());
}

#[test]
fn options_list_each_provider_once_with_its_groups_and_models() {
    let instances = vec![
        option(5, "openai", "Main", ModelProviderInstanceStatus::Ready, true),
        option(2, "azure", "West", ModelProviderInstanceStatus::Ready, true),
        option(3, "openai", "Backup", ModelProviderInstanceStatus::Ready, true),
        option(6, "openai", "Draft", ModelProviderInstanceStatus::Draft, true),
    ];
    let available = vec![true, false, true, true];
    let counts = vec![2, 7, 3, 100];
    let (order, entries) = provider_option_entries(&instances, &available, &counts);
    assert_eq!(order, vec![1, 2, 0]);
    assert_eq!(entries.len(), 2);
    assert_eq!(entries[0].provider_code, "azure");
    assert_eq!((entries[0].start, entries[0].end), (0, 1));
    assert!(!entries[0].listed);
    assert_eq!((entries[0].group_count, entries[0].model_count), (1, 7));
    assert_eq!(entries[1].provider_code, "openai");
    assert_eq!((entries[1].start, entries[1].end), (1, 3));
    assert!(entries[1].listed);
    assert_eq!((entries[1].group_count, entries[1].model_count), (2, 5));
    let (none, no_entries) = provider_option_entries(&vec![], &vec![], &vec![]);
    assert!(none.is_empty() && no_entries.is_empty());
}

#[test]
fn a_validation_records_every_failure_after_the_provider_is_asked() {
    let (state, action) = validate_instance_step(ValidateState::CheckingInstallation, ValidateEvent::InstallationChecked { available: false });
    assert_eq!(state, ValidateState::Done);
    assert!(matches!(action, ValidateAction::Refuse(ControlPlaneError::Conflict("plugin_installation_unavailable"))));
    let (state, action) = validate_instance_step(ValidateState::CheckingInstallation, ValidateEvent::InstallationChecked { available: true });
    assert_eq!(state, ValidateState::Preparing);
    assert!(matches!(action, ValidateAction::BuildConfig));
    let (_, action) = validate_instance_step(ValidateState::Preparing, ValidateEvent::Prepared(Err("no secret".to_string())));
    assert!(matches!(action, ValidateAction::Report { .. }));
    let (state, action) = validate_instance_step(ValidateState::Preparing, ValidateEvent::Prepared(Ok(())));
    assert_eq!(state, ValidateState::Validating);
    assert!(matches!(action, ValidateAction::RunValidation));
    match validate_instance_step(ValidateState::Validating, ValidateEvent::Validated(Err("401".to_string()))).1 {
        ValidateAction::WriteFailure { message } => assert_eq!(message, "401"),
        _ => panic!("expected the failure writes"),
    }
    let (state, action) = validate_instance_step(ValidateState::Validating, ValidateEvent::Validated(Ok(())));
    assert_eq!(state, ValidateState::WritingSuccess);
    assert!(matches!(action, ValidateAction::WriteSuccess));
    assert!(matches!(
        validate_instance_step(ValidateState::WritingSuccess, ValidateEvent::SuccessWritten(Err("db".to_string()))).1,
        ValidateAction::WriteFailure { .. }
    ));
    assert!(matches!(
        validate_instance_step(ValidateState::WritingSuccess, ValidateEvent::SuccessWritten(Ok(()))).1,
        ValidateAction::ReturnResult
    ));
}

#[test]
fn a_preview_token_vouches_only_for_its_own_preview() {
    let config = object(vec![("b", JsonValue::Number(1)), ("a", JsonValue::Number(2))]);
    let session = PreviewSessionFacts {
        actor_user_id: 1,
        installation_id: Some(5),
        instance_id: None,
        config_fingerprint: fingerprint_provider_config(&config),
        models_json: JsonValue::Array(vec![s("m1")]),
        expires_at_unix_nanos: 100,
    };
    let none = resolve_preview_state(1, None, None, Some(5), None, &config, 50).ok().unwrap();
    assert!(none.models_json.is_none() && none.preview_token.is_none() && none.refreshed_at_unix_nanos.is_none());
    let ok = resolve_preview_state(1, Some(9), Some(&session), Some(5), None, &config, 100).ok().unwrap();
    assert_eq!(to_compact_string(&ok.models_json.unwrap()), r#"["m1"]"#);
    assert_eq!(ok.refreshed_at_unix_nanos, Some(100));
    assert_eq!(ok.preview_token, Some(9));
    let bad = |r: Result<_, ControlPlaneError>| matches!(r, Err(ControlPlaneError::InvalidInput("preview_token")));
    assert!(bad(resolve_preview_state(1, Some(9), None, Some(5), None, &config, 50)));
    assert!(bad(resolve_preview_state(2, Some(9), Some(&session), Some(5), None, &config, 50)));
    assert!(bad(resolve_preview_state(1, Some(9), Some(&session), Some(5), None, &config, 101)));
    assert!(bad(resolve_preview_state(1, Some(9), Some(&session), Some(6), None, &config, 50)));
    assert!(bad(resolve_preview_state(1, Some(9), Some(&session), Some(5), None, &object(vec![]), 50)));
}

#[test]
fn a_preview_needs_a_usable_installation() {
    let ok = InstallationState { disabled: false, available: true };
    let off = InstallationState { disabled: true, available: true };
    assert!(preview_installation_check(true, None, Some(&ok), &vec![]).is_ok());
    assert!(matches!(
        preview_installation_check(true, None, Some(&InstallationState { disabled: false, available: false }), &vec![]),
        Err(ControlPlaneError::Conflict("plugin_installation_unavailable"))
    ));
    assert!(matches!(preview_installation_check(false, None, None, &vec![]), Err(ControlPlaneError::InvalidInput("installation_id"))));
    assert!(matches!(preview_installation_check(false, Some(5), None, &vec![5]), Err(ControlPlaneError::NotFound("plugin_installation"))));
    assert!(matches!(
        preview_installation_check(false, Some(5), Some(&ok), &vec![4]),
        Err(ControlPlaneError::Conflict("plugin_assignment_required"))
    ));
    assert!(matches!(
        preview_installation_check(false, Some(5), Some(&off), &vec![5]),
        Err(ControlPlaneError::Conflict("plugin_installation_unavailable"))
    ));
    assert!(preview_installation_check(false, Some(5), Some(&ok), &vec![5]).is_ok());
}

#[test]
fn an_update_keeps_a_disabled_instance_disabled() {
    let kept = instance_update_fields(ModelProviderInstanceStatus::Disabled, " X ", vec![configured("m1", true, None)], vec![]).unwrap();
    assert_eq!(kept.status, ModelProviderInstanceStatus::Disabled);
    assert_eq!(kept.display_name, "X");
    let ready = instance_update_fields(ModelProviderInstanceStatus::Draft, "X", vec![configured("m1", true, None)], vec![]).unwrap();
    assert_eq!(ready.status, ModelProviderInstanceStatus::Ready);
    assert_eq!(ready.enabled_model_ids, vec!["m1".to_string()]);
    assert!(matches!(
        instance_update_fields(ModelProviderInstanceStatus::Draft, "  ", vec![], vec![]),
        Err(ControlPlaneError::InvalidInput("display_name"))
    ));
}
