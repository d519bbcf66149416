use ct_codex_bridge::config::{config_dir, config_path, BridgeConfig};
use ct_codex_bridge::json::JsonValue;
use ct_codex_bridge::launch::{
    check_new_password, confirm_password, escape_xml, launch_agent_path, launch_agent_plist,
    launch_log_paths, service_binary_path,
};
use ct_codex_bridge::paths::{
    atomic_temp_name, codex_app_path_from_config, codex_keychain_account, join_path,
    keychain_secret_from_output, normalize_macos_app_root, resolve_codex_home, ResolvedPaths,
};
use ct_codex_bridge::status::{app_probe_path, status};
use ct_codex_bridge::switch::ManagedProjection;

fn paths() -> ResolvedPaths {
    ResolvedPaths::from_home_and_codex_home("/home/u".to_string(), "/tmp/codex-home".to_string(), None)
}

#[test]
fn keychain_account_is_ct_compatible_hash_prefix() {
    let account = codex_keychain_account("/Users/example/.codex");
    assert!(account.starts_with("cli|"));
    assert_eq!(account.len(), 20);
}

#[test]
fn keychain_account_is_the_sha256_prefix_of_the_path() {
    assert_eq!(codex_keychain_account("/Users/example/.codex"), "cli|8533f99d37c07dbb");
}

#[test]
fn normalizes_bundle_root_from_executable_path() {
    assert_eq!(
        normalize_macos_app_root("/Applications/Codex.app/Contents/MacOS/Codex").unwrap(),
        "/Applications/Codex.app"
    );
    assert_eq!(
        normalize_macos_app_root("/Applications/Codex.app").unwrap(),
        "/Applications/Codex.app"
    );
    assert_eq!(normalize_macos_app_root("/opt/codex"), None);
}

#[test]
fn bundle_root_of_a_root_is_itself() {
    for path in ["/A/Codex.app/Contents/MacOS/Codex", "/x.app.app/y", "/Volumes/My.apps/Codex.app"] {
        let root = normalize_macos_app_root(path).unwrap();
        assert_eq!(normalize_macos_app_root(&root), Some(root.clone()));
    }
    assert_eq!(normalize_macos_app_root("/Volumes/My.apps/Codex.app").unwrap(), "/Volumes/My.app");
}

#[test]
fn joining_paths_follows_pathbuf() {
    assert_eq!(join_path("/a", "b"), "/a/b");
    assert_eq!(join_path("/a/", "b"), "/a/b");
    assert_eq!(join_path("", "b"), "b");
    assert_eq!(join_path("/a", "/b"), "/b");
}

#[test]
fn resolved_paths_layout() {
    let p = paths();
    assert_eq!(p.home, "/home/u");
    assert_eq!(p.ct_data_dir, "/home/u/.antigravity_cockpit");
    assert_eq!(p.account_index_path, "/home/u/.antigravity_cockpit/codex_accounts.json");
    assert_eq!(p.accounts_dir, "/home/u/.antigravity_cockpit/codex_accounts");
    assert_eq!(p.codex_home, "/tmp/codex-home");
    assert_eq!(p.codex_app_path, "/Applications/Codex.app");
    assert_eq!(p.account_file("codex_key"), "/home/u/.antigravity_cockpit/codex_accounts/codex_key.json");
    assert_eq!(
        ResolvedPaths::ct_config_path("/home/u"),
        "/home/u/.antigravity_cockpit/config.json"
    );
}

#[test]
fn codex_app_path_comes_from_cockpit_config() {
    let cfg = JsonValue::Object(vec![(
        "codex_app_path".to_string(),
        JsonValue::string("  /Volumes/Apps/Codex.app  "),
    )]);
    assert_eq!(codex_app_path_from_config(Some(&cfg)), Some("/Volumes/Apps/Codex.app".to_string()));
    let p = ResolvedPaths::from_home_and_codex_home("/h".to_string(), "/c".to_string(), Some(&cfg));
    assert_eq!(p.codex_app_path, "/Volumes/Apps/Codex.app");
    let blank = JsonValue::Object(vec![("codex_app_path".to_string(), JsonValue::string("  "))]);
    assert_eq!(codex_app_path_from_config(Some(&blank)), None);
    let number = JsonValue::Object(vec![("codex_app_path".to_string(), JsonValue::integer(3))]);
    assert_eq!(codex_app_path_from_config(Some(&number)), None);
    assert_eq!(codex_app_path_from_config(None), None);
}

#[test]
fn codex_home_from_environment() {
    assert_eq!(resolve_codex_home(None, "/home/u"), "/home/u/.codex");
    assert_eq!(resolve_codex_home(Some("  \"/x/y\"  "), "/home/u"), "/x/y");
    assert_eq!(resolve_codex_home(Some("'/x/z'"), "/home/u"), "/x/z");
    assert_eq!(resolve_codex_home(Some(" \"\" "), "/home/u"), "/home/u/.codex");
    assert_eq!(resolve_codex_home(Some(""), "/home/u"), "/home/u/.codex");
}

#[test]
fn own_config_locations() {
    assert_eq!(config_dir(Some("/home/u")).unwrap(), "/home/u/.ct-codex-bridge");
    assert_eq!(config_path(Some("/home/u")).unwrap(), "/home/u/.ct-codex-bridge/config.json");
    assert_eq!(config_path(None).unwrap_err(), "unable to resolve home directory");
    assert_eq!(
        service_binary_path(Some("/home/u")).unwrap(),
        "/home/u/.ct-codex-bridge/bin/ct-codex-bridge"
    );
    assert_eq!(
        launch_agent_path(Some("/home/u")).unwrap(),
        "/home/u/Library/LaunchAgents/com.ct-codex-bridge.plist"
    );
    assert_eq!(launch_agent_path(None).unwrap_err(), "unable to resolve home directory");
    let (dir, out, err) = launch_log_paths(Some("/home/u")).unwrap();
    assert_eq!(dir, "/home/u/.ct-codex-bridge/logs");
    assert_eq!(out, "/home/u/.ct-codex-bridge/logs/launchd.out.log");
    assert_eq!(err, "/home/u/.ct-codex-bridge/logs/launchd.err.log");
}

#[test]
fn stored_config_defaults() {
    let none = BridgeConfig::unparsed_default(None).unwrap();
    assert!(none.password_hash.is_none() && none.session_secret.is_none());
    assert!(BridgeConfig::unparsed_default(Some(" \n ")).is_some());
    assert!(BridgeConfig::unparsed_default(Some("{}")).is_none());
    let d = BridgeConfig::default();
    assert!(d.password_hash.is_none() && d.session_secret.is_none());
}

#[test]
fn new_password_rules() {
    assert_eq!(
        check_new_password("  abc  ").unwrap_err(),
        "password must be at least 6 characters"
    );
    assert!(check_new_password("abcdef").is_ok());
    assert!(check_new_password("abcde").is_err());
    assert!(check_new_password("ééé").is_ok());
    assert!(confirm_password("a", "a").is_ok());
    assert_eq!(confirm_password("a", "b").unwrap_err(), "passwords do not match");
}

#[test]
fn xml_escaping() {
    assert_eq!(escape_xml("a&b<c>d\"e'f"), "a&amp;b&lt;c&gt;d&quot;e&apos;f");
    assert_eq!(escape_xml(""), "");
    assert_eq!(escape_xml("&amp;"), "&amp;amp;");
}

#[test]
fn launch_agent_plist_runs_the_server() {
    let text = launch_agent_plist("/bin/a&b", "/l/out.log", "/l/err.log");
    assert!(text.starts_with("<?xml version=\"1.0\" encoding=\"UTF-8\"?>\n"));
    assert!(text.contains("  <array>\n    <string>/bin/a&amp;b</string>\n    <string>serve</string>\n  </array>\n"));
    assert!(text.contains("<key>StandardOutPath</key>\n  <string>/l/out.log</string>"));
    assert!(text.contains("<key>StandardErrorPath</key>\n  <string>/l/err.log</string>"));
    assert!(text.ends_with("</dict>\n</plist>\n"));
}

#[test]
fn atomic_write_temp_name() {
    assert_eq!(atomic_temp_name("auth.json", 42, -7), ".auth.json.tmp.42.-7");
    assert_eq!(atomic_temp_name("x", 0, 1700000000123456789), ".x.tmp.0.1700000000123456789");
}

#[test]
fn keychain_secret_drops_trailing_newlines() {
    assert_eq!(keychain_secret_from_output("{\"a\":1}\n\n"), "{\"a\":1}");
    assert_eq!(keychain_secret_from_output(" x \n"), " x ");
    assert_eq!(keychain_secret_from_output(""), "");
}

#[test]
fn snapshot_and_backup_files() {
    let p = paths();
    let files = p.rollback_files("codex_key");
    assert_eq!(
        files,
        vec![
            "/tmp/codex-home/auth.json".to_string(),
            "/tmp/codex-home/.cockpit_codex_auth.json".to_string(),
            "/tmp/codex-home/config.toml".to_string(),
            "/home/u/.antigravity_cockpit/codex_accounts.json".to_string(),
            "/home/u/.antigravity_cockpit/codex_accounts/codex_key.json".to_string(),
        ]
    );
    let dir = p.backup_dir("20240102-030405");
    assert_eq!(dir, "/home/u/.ct-codex-bridge/backups/20240102-030405");
    let copies = p.backup_copies(&dir);
    assert_eq!(copies.len(), 3);
    assert_eq!(copies[0].1, "/home/u/.ct-codex-bridge/backups/20240102-030405/codex-auth.json");
    assert_eq!(copies[1].0, "/tmp/codex-home/.cockpit_codex_auth.json");
    assert_eq!(copies[2].0, "/home/u/.antigravity_cockpit/codex_accounts.json");
}

#[test]
fn status_report() {
    let mut p = paths();
    p.codex_app_path = "/Applications/Codex.app/Contents/MacOS/Codex".to_string();
    assert_eq!(app_probe_path(&p), "/Applications/Codex.app");
    let projection = ManagedProjection {
        version: 1,
        writer: "cockpit".to_string(),
        account_id: "codex_key".to_string(),
        email: "e".to_string(),
        token_generation: 0,
        written_at: 5,
    };
    let st = status(&p, Ok(Some(projection)), true, Ok(vec![12]), "/Users/example/.codex", false);
    assert!(st.codex_app_exists);
    assert!(st.codex_running);
    assert_eq!(st.current_projection.unwrap().account_id, "codex_key");
    assert_eq!(st.keychain_account, "cli|8533f99d37c07dbb");
    assert!(!st.keychain_entry_present);
    assert_eq!(st.codex_home, "/tmp/codex-home");
    let st = status(&p, Err("parse".to_string()), false, Ok(vec![]), "/x", true);
    assert!(st.current_projection.is_none());
    assert!(!st.codex_running);
    assert!(st.keychain_entry_present);
    let st = status(&p, Ok(None), false, Err("pgrep".to_string()), "/x", false);
    assert!(!st.codex_running);
    p.codex_app_path = "/opt/codex".to_string();
    assert_eq!(app_probe_path(&p), "/opt/codex");
}
