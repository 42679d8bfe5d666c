use std::collections::BTreeSet;

use control_plane::errors::{ActorContext, ControlPlaneError};
use control_plane::mcp_management::{
    authorize_manage, bindable_interface, compile_list_path_regex, generate_short_id,
    interface_catalog_entries, list_relative_depth, normalize_tool_id_part, path_matches,
    readable_tool_id, validate_identifier, validate_path, validate_positive,
    list_directory_items, new_tool_id, McpGroupRecord, McpInstanceStatus, McpListItemKind, McpListSettings,
    McpListedInstance, McpRiskLevel, McpToolBindingRecord, McpToolRecord, McpToolStatus,
};

#[test]
fn interface_catalog_has_stable_bindable_permissions() {
    let mut interface_ids = BTreeSet::new();

    for entry in interface_catalog_entries() {
        assert!(interface_ids.insert(entry.interface_id.clone()));
        assert!(!entry.name.is_empty());
        assert!(!entry.short_description.is_empty());
        if entry.bindable {
            let permission_code = entry
                .permission_code
                .as_ref()
                .expect("bindable interface must name a permission code");
            assert!(!permission_code.is_empty());
            assert!(entry.disabled_reason.is_none());
        } else {
            assert!(entry.disabled_reason.is_some());
        }
    }
}

#[test]
fn tool_interface_source_of_truth_rejects_disabled_interfaces() {
    let disabled = bindable_interface("settings.file_storages.list");
    assert!(disabled.is_err());
}

#[test]
fn bindable_interface_errors() {
    assert!(matches!(
        bindable_interface("settings.file_storages.list"),
        Err(ControlPlaneError::InvalidInput("interface_id"))
    ));
    assert!(matches!(
        bindable_interface("no.such.interface"),
        Err(ControlPlaneError::NotFound("mcp_interface"))
    ));
    let entry = bindable_interface("settings.permission_catalog.list").ok().unwrap();
    assert_eq!(entry.permission_code.as_deref(), Some("role_permission.view.all"));
}

#[test]
fn catalog_paths_nest_under_their_base() {
    assert!(path_matches("/", "anything"));
    assert!(path_matches("/a", "/a"));
    assert!(path_matches("/a", "/a/b"));
    assert!(!path_matches("/a", "/ab"));
    assert_eq!(list_relative_depth("/a", "/a"), Some(0));
    assert_eq!(list_relative_depth("/a", "/a/b/c"), Some(2));
    assert_eq!(list_relative_depth("/", "/x//y"), Some(2));
    assert_eq!(list_relative_depth("/a", "/b"), None);
}

#[test]
fn path_nesting_is_transitive() {
    assert!(path_matches("/a", "/a/b"));
    assert!(path_matches("/a/b", "/a/b/c"));
    assert!(path_matches("/a", "/a/b/c"));
}

#[test]
fn identifiers_and_paths_are_validated() {
    assert!(validate_identifier("tool", "name").is_ok());
    assert!(matches!(
        validate_identifier("   ", "name"),
        Err(ControlPlaneError::InvalidInput("name"))
    ));
    assert!(validate_path("/tools").is_ok());
    assert!(matches!(
        validate_path("tools"),
        Err(ControlPlaneError::InvalidInput("path"))
    ));
    assert!(validate_positive(1, "limit").is_ok());
    assert!(matches!(
        validate_positive(0, "limit"),
        Err(ControlPlaneError::InvalidInput("limit"))
    ));
}

#[test]
fn tool_ids_are_readable() {
    assert_eq!(normalize_tool_id_part("Get User!"), "get_user");
    assert_eq!(readable_tool_id(Some("/users/admin"), "Get User"), "users_admin_get_user");
    let short = generate_short_id();
    assert_eq!(short.chars().count(), 8);
}

#[test]
fn path_regex_filters_are_limited() {
    let filter = compile_list_path_regex(Some("^/a"), true, 10).ok().unwrap().unwrap();
    assert!(filter.is_match("/abc"));
    assert!(!filter.is_match("/b"));
    assert!(matches!(
        compile_list_path_regex(Some("^/a"), false, 10),
        Err(ControlPlaneError::InvalidInput("path_regex"))
    ));
    assert!(matches!(
        compile_list_path_regex(Some("^/abcdef"), true, 3),
        Err(ControlPlaneError::InvalidInput("path_regex"))
    ));
    assert!(matches!(compile_list_path_regex(None, false, 0), Ok(None)));
}

#[test]
fn managing_mcp_needs_permission() {
    let actor = ActorContext {
        user_id: 1,
        current_workspace_id: 2,
        is_root: false,
        permissions: vec![],
    };
    assert!(authorize_manage(&actor).is_err());
    let root = ActorContext {
        user_id: 1,
        current_workspace_id: 2,
        is_root: true,
        permissions: vec![],
    };
    assert!(authorize_manage(&root).is_ok());
}

fn list_settings(regex_enabled: bool) -> McpListSettings {
    McpListSettings { list_default_limit: 1, list_max_depth: 1, list_regex_enabled: regex_enabled, list_regex_max_length: 20 }
}

fn directory() -> (Vec<McpGroupRecord>, Vec<McpToolBindingRecord>, Vec<McpToolRecord>) {
    let groups = vec![
        McpGroupRecord {
            id: 0x0190_0000_0000_7000_8000_0000_0000_0001,
            instance_record_id: 1,
            path: "/crm".to_string(),
            display_name: "CRM".to_string(),
            description_short: None,
            enabled: true,
            sort_order: 0,
        },
        McpGroupRecord {
            id: 2,
            instance_record_id: 1,
            path: "/hidden".to_string(),
            display_name: "Hidden".to_string(),
            description_short: None,
            enabled: false,
            sort_order: 1,
        },
    ];
    let bindings = vec![McpToolBindingRecord {
        id: 3,
        instance_record_id: 1,
        tool_record_id: 4,
        group_path: "/crm".to_string(),
        display_alias: Some("Find customer".to_string()),
        visible: true,
        sort_order: 0,
    }];
    let tools = vec![McpToolRecord {
        id: 4,
        tool_id: "crm_find".to_string(),
        name: "find".to_string(),
        short_description: "Finds a customer".to_string(),
        interface_id: "crm.find".to_string(),
        risk_level: McpRiskLevel::Low,
        des_id: "d1".to_string(),
        des_id_required: false,
        status: McpToolStatus::Enabled,
    }];
    (groups, bindings, tools)
}

#[test]
fn a_listing_shows_enabled_groups_then_visible_tools_up_to_the_limit() {
    let (groups, bindings, tools) = directory();
    let instance = McpListedInstance { status: McpInstanceStatus::Enabled, default_entry_path: "/".to_string() };
    let all = list_directory_items(&list_settings(false), true, Some(&instance), None, None, Some(10), &groups, &bindings, &tools)
        .ok()
        .unwrap();
    assert_eq!(all.len(), 2);
    assert_eq!(all[0].item_kind, McpListItemKind::Group);
    assert_eq!(all[0].id, "01900000-0000-7000-8000-000000000001");
    assert_eq!(all[1].item_kind, McpListItemKind::Tool);
    assert_eq!(all[1].id, "crm_find");
    assert_eq!(all[1].name, "Find customer");
    let first = list_directory_items(&list_settings(false), true, Some(&instance), None, None, None, &groups, &bindings, &tools)
        .ok()
        .unwrap();
    assert_eq!(first.len(), 1);
    assert!(matches!(
        list_directory_items(&list_settings(false), false, None, None, None, None, &groups, &bindings, &tools),
        Err(ControlPlaneError::InvalidInput("instance_id"))
    ));
    assert!(matches!(
        list_directory_items(&list_settings(false), true, None, None, None, None, &groups, &bindings, &tools),
        Err(ControlPlaneError::NotFound("mcp_instance"))
    ));
    let disabled = McpListedInstance { status: McpInstanceStatus::Disabled, default_entry_path: "/".to_string() };
    assert!(matches!(
        list_directory_items(&list_settings(false), true, Some(&disabled), None, None, None, &groups, &bindings, &tools),
        Err(ControlPlaneError::NotFound("mcp_instance"))
    ));
    assert!(matches!(
        list_directory_items(&list_settings(false), true, Some(&instance), None, Some("crm"), None, &groups, &bindings, &tools),
        Err(ControlPlaneError::InvalidInput("path_regex"))
    ));
}

#[test]
fn a_new_tool_takes_the_id_asked_for_or_a_readable_one() {
    assert_eq!(new_tool_id(Some("crm_find"), None, "Find").ok().unwrap(), "crm_find");
    let made = new_tool_id(Some("   "), Some("/crm"), "Find").ok().unwrap();
    assert_eq!(made, readable_tool_id(Some("/crm"), "Find"));
    assert_eq!(new_tool_id(None, Some("/crm"), "Find").ok().unwrap(), made);
    let long = "x".repeat(300);
    assert!(matches!(new_tool_id(Some(long.as_str()), None, "Find"), Err(ControlPlaneError::InvalidInput("tool_id"))));
}
