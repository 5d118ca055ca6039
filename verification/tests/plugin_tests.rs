use audion::plugin::{
    check_cross_plugin_permission, get_safe_name_from_manifest, get_state_file_path,
    is_newer_version, notification_image_from_data_uri, parse_repo_url, plugin_update_info,
    to_safe_name, CrossPluginAccess, DataUriError, PluginError, PluginManifest, PluginState,
    PluginStateStore,
};

fn manifest(name: &str, safe_name: Option<&str>) -> PluginManifest {
    PluginManifest {
        name: name.to_string(),
        safe_name: safe_name.map(|s| s.to_string()),
        version: "1.2.0".to_string(),
        author: "someone".to_string(),
        description: None,
        repo: None,
        manifest_url: None,
        plugin_type: "js".to_string(),
        entry: "index.js".to_string(),
        permissions: vec!["library:read".to_string(), "notify".to_string()],
        cross_plugin_access: vec![CrossPluginAccess {
            plugin: "Tidal Search".to_string(),
            methods: vec!["search".to_string()],
        }],
        ui_slots: None,
        icon: None,
        category: None,
        tags: None,
        license: None,
    }
}

#[test]
fn safe_names() {
    assert_eq!(to_safe_name("My Cool Plugin"), "my-cool-plugin");
    assert_eq!(to_safe_name("already-safe"), "already-safe");
    assert_eq!(to_safe_name("MiXeD CaSe"), "mixed-case");
}

#[test]
fn safe_name_from_manifest() {
    let m = manifest("Discord Rich Presence", None);
    assert_eq!(get_safe_name_from_manifest(&m), "discord-rich-presence");
    let m = manifest("Discord Rich Presence", Some("drp"));
    assert_eq!(get_safe_name_from_manifest(&m), "drp");
}

#[test]
fn state_file_path() {
    assert_eq!(get_state_file_path("/data/plugins"), "/data/plugins/plugin_state.json");
}

#[test]
fn version_comparison() {
    assert!(is_newer_version("1.0.0", "1.0.1"));
    assert!(is_newer_version("1.2", "1.10"));
    assert!(is_newer_version("1.9.9", "2.0.0"));
    assert!(!is_newer_version("2.0.0", "1.9.9"));
    assert!(!is_newer_version("1.0.0", "1.0.0"));
    assert!(!is_newer_version("1.0", "1.0.0"));
    assert!(is_newer_version("v1.0.0", "v1.1"));
    assert!(is_newer_version("1.0.0", "1.0.0.1"));
    // segments that do not parse as numbers are skipped
    assert!(is_newer_version("1.x", "1.2"));
    assert!(!is_newer_version("1.x.2", "1.0.2"));
}

#[test]
fn update_detection() {
    let mut local = manifest("P", None);
    // without a recorded repository no update can be offered
    assert!(plugin_update_info(&local, "9.9.9").is_none());
    local.repo = Some("https://github.com/o/r".to_string());
    let u = plugin_update_info(&local, "1.3.0").unwrap();
    assert_eq!(u.name, "P");
    assert_eq!(u.current_version, "1.2.0");
    assert_eq!(u.new_version, "1.3.0");
    assert_eq!(u.repo_url, "https://github.com/o/r");
    assert!(plugin_update_info(&local, "1.2.0").is_none());
    assert!(plugin_update_info(&local, "1.1.9").is_none());
}

#[test]
fn repo_url_parsing() {
    assert_eq!(
        parse_repo_url("https://github.com/someone/plugin-repo"),
        Some(("someone".to_string(), "plugin-repo".to_string()))
    );
    assert_eq!(
        parse_repo_url("https://github.com/someone/plugin-repo///"),
        Some(("someone".to_string(), "plugin-repo".to_string()))
    );
    assert_eq!(parse_repo_url("no-slashes-here"), None);
}

#[test]
fn enable_untracked_needs_manifest() {
    let mut store = PluginStateStore::new();
    assert_eq!(store.enable("Ghost", None, 7), Err(PluginError::ManifestMissing));
    assert_eq!(store.plugins.len(), 0);
}

#[test]
fn enable_with_manifest_tracks_and_grants() {
    let mut store = PluginStateStore::new();
    let m = manifest("My Cool Plugin", None);
    assert_eq!(store.enable("My Cool Plugin", Some(&m), 42), Ok(true));
    assert_eq!(store.plugins.len(), 1);
    let st = &store.plugins[0];
    assert_eq!(st.name, "My Cool Plugin");
    assert!(st.enabled);
    assert_eq!(st.granted_permissions, vec!["library:read", "notify"]);
    assert_eq!(st.version, "1.2.0");
    assert_eq!(st.installed_at, 42);
}

#[test]
fn enable_tracked_merges_permissions() {
    let mut store = PluginStateStore::new();
    store.upsert(PluginState {
        name: "P".to_string(),
        enabled: false,
        granted_permissions: vec!["notify".to_string(), "custom".to_string()],
        version: "1.0".to_string(),
        plugin_type: "js".to_string(),
        installed_at: 1,
    });
    let m = manifest("P", None);
    assert_eq!(store.enable("P", Some(&m), 50), Ok(true));
    let st = &store.plugins[0];
    assert!(st.enabled);
    // keeps what was granted, adds what the manifest asks and dedups
    assert_eq!(st.granted_permissions, vec!["notify", "custom", "library:read"]);
    // version and install time of an already tracked plugin stay
    assert_eq!(st.version, "1.0");
    assert_eq!(st.installed_at, 1);
}

#[test]
fn disable_only_tracked() {
    let mut store = PluginStateStore::new();
    assert_eq!(store.disable("P"), Err(PluginError::NotTracked));
    let m = manifest("P", None);
    store.enable("P", Some(&m), 1).unwrap();
    assert_eq!(store.disable("P"), Ok(true));
    assert!(!store.plugins[0].enabled);
}

#[test]
fn grant_and_revoke() {
    let mut store = PluginStateStore::new();
    let m = manifest("P", None);
    store.enable("P", Some(&m), 1).unwrap();
    assert_eq!(
        store.grant("P", &vec!["a".to_string(), "notify".to_string()]),
        Ok(true)
    );
    assert_eq!(store.plugins[0].granted_permissions, vec!["library:read", "notify", "a"]);
    assert_eq!(
        store.revoke("P", &vec!["notify".to_string(), "missing".to_string()]),
        Ok(true)
    );
    assert_eq!(store.plugins[0].granted_permissions, vec!["library:read", "a"]);
    assert_eq!(store.grant("Q", &vec![]), Err(PluginError::NotTracked));
    assert_eq!(store.revoke("Q", &vec![]), Err(PluginError::NotTracked));
}

#[test]
fn upsert_replaces_by_name() {
    let mut store = PluginStateStore::new();
    let mk = |v: &str| PluginState {
        name: "P".to_string(),
        enabled: true,
        granted_permissions: vec![],
        version: v.to_string(),
        plugin_type: "js".to_string(),
        installed_at: 9,
    };
    store.upsert(mk("1.0"));
    store.upsert(mk("2.0"));
    assert_eq!(store.plugins.len(), 1);
    assert_eq!(store.plugins[0].version, "2.0");
}

#[test]
fn remove_drops_entry() {
    let mut store = PluginStateStore::new();
    let m = manifest("P", None);
    store.enable("P", Some(&m), 1).unwrap();
    store.remove("P");
    assert_eq!(store.plugins.len(), 0);
    // removing an untracked name is harmless
    store.remove("P");
}

#[test]
fn listing_info_reflects_state() {
    let mut store = PluginStateStore::new();
    let m = manifest("P", None);
    let info = store.info_for_manifest(manifest("P", None));
    assert!(!info.enabled);
    assert!(info.granted_permissions.is_empty());
    store.enable("P", Some(&m), 1).unwrap();
    let info = store.info_for_manifest(manifest("P", None));
    assert!(info.enabled);
    assert_eq!(info.granted_permissions, vec!["library:read", "notify"]);
}

#[test]
fn cross_plugin_permission_check() {
    let m = manifest("Caller", None);
    assert!(check_cross_plugin_permission(&m, "Tidal Search", "search"));
    assert!(!check_cross_plugin_permission(&m, "Tidal Search", "download"));
    assert!(!check_cross_plugin_permission(&m, "Other", "search"));
}

#[test]
fn data_uri_decodes_base64() {
    // base64 "AQID" is the bytes 1, 2, 3
    let r = notification_image_from_data_uri("data:image/png;base64,AQID").unwrap();
    assert_eq!(r.0, "png");
    assert_eq!(r.1, vec![1, 2, 3]);
}

#[test]
fn data_uri_extension_rules() {
    let r = notification_image_from_data_uri("data:image/jpeg;base64,AQID").unwrap();
    assert_eq!(r.0, "jpg");
    let r = notification_image_from_data_uri("data:image/gif;base64,AQID").unwrap();
    assert_eq!(r.0, "gif");
    let r = notification_image_from_data_uri("data:application/octet-stream;base64,AQID").unwrap();
    assert_eq!(r.0, "jpg");
}

#[test]
fn data_uri_errors() {
    assert_eq!(
        notification_image_from_data_uri("no comma at all"),
        Err(DataUriError::BadFormat)
    );
    assert_eq!(
        notification_image_from_data_uri("a,b,c"),
        Err(DataUriError::BadFormat)
    );
    assert_eq!(
        notification_image_from_data_uri("data:image/png;base64,@@@"),
        Err(DataUriError::BadBase64)
    );
}
