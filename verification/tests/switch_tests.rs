use ct_codex_bridge::accounts::{CodexAccountIndex, CodexAccountSummary};
use ct_codex_bridge::json::JsonValue;
use ct_codex_bridge::process::{restart_codex, RestartAction, RestartEvent};
use ct_codex_bridge::switch::{
    default_restart, ManagedProjection, SwitchAction, SwitchEvent, SwitchMachine, SwitchRequest,
    SwitchResponse,
};

fn s(text: &str) -> JsonValue {
    JsonValue::string(text)
}

fn n(value: i64) -> JsonValue {
    JsonValue::integer(value)
}

fn obj(pairs: Vec<(&str, JsonValue)>) -> JsonValue {
    JsonValue::Object(pairs.into_iter().map(|(k, v)| (k.to_string(), v)).collect())
}

fn text_of(v: Option<&JsonValue>) -> Option<String> {
    match v {
        Some(JsonValue::Str(t)) => Some(t.clone()),
        _ => None,
    }
}

/// The files a switch reads and writes, held in memory.
struct World {
    index: CodexAccountIndex,
    accounts: Vec<(String, JsonValue)>,
    auth: Option<JsonValue>,
    projection: Option<ManagedProjection>,
    app_exists: bool,
}

struct Snapshot {
    index: CodexAccountIndex,
    accounts: Vec<(String, JsonValue)>,
    auth: Option<JsonValue>,
    projection: Option<ManagedProjection>,
}

impl World {
    fn snapshot(&self) -> Snapshot {
        Snapshot {
            index: self.index.clone(),
            accounts: self.accounts.iter().map(|(k, v)| (k.clone(), v.copy())).collect(),
            auth: self.auth.as_ref().map(|v| v.copy()),
            projection: self.projection.clone(),
        }
    }

    fn restore(&mut self, snap: Snapshot) {
        self.index = snap.index;
        self.accounts = snap.accounts;
        self.auth = snap.auth;
        self.projection = snap.projection;
    }

    fn account(&self, id: &str) -> Option<&JsonValue> {
        self.accounts.iter().find(|(k, _)| k == id).map(|(_, v)| v)
    }

    fn restart(&self, app_path: &str) -> Result<bool, String> {
        let mut r = restart_codex(app_path);
        let mut event = RestartEvent::Start;
        loop {
            event = match r.step(event) {
                RestartAction::ListPids => RestartEvent::Pids(Ok(vec![])),
                RestartAction::AppExists { .. } => RestartEvent::Exists(self.app_exists),
                RestartAction::Open { .. } => {
                    RestartEvent::Ran(ct_codex_bridge::process::CommandOutcome::Succeeded)
                }
                RestartAction::Finish { result } => return result,
                other => panic!("unexpected {other:?}"),
            };
        }
    }

    fn switch(&mut self, request: SwitchRequest, app_path: &str) -> Result<SwitchResponse, String> {
        let mut m = SwitchMachine::new(request, app_path.to_string());
        let mut event = SwitchEvent::Start;
        let mut snapshot: Option<Snapshot> = None;
        loop {
            event = match m.step(event) {
                SwitchAction::LoadIndex => SwitchEvent::IndexLoaded(self.index.clone()),
                SwitchAction::LoadAccountFile { account_id } => match self.account(&account_id) {
                    Some(v) => SwitchEvent::AccountFileLoaded(v.copy()),
                    None => SwitchEvent::Failed(format!("read {account_id}.json: missing")),
                },
                SwitchAction::CaptureRollback { .. } => {
                    snapshot = Some(self.snapshot());
                    SwitchEvent::Done
                }
                SwitchAction::Backup | SwitchAction::CreateCodexHome => SwitchEvent::Done,
                SwitchAction::WriteBundle { auth, projection, .. } => {
                    self.auth = Some(auth);
                    self.projection = Some(projection);
                    SwitchEvent::Done
                }
                SwitchAction::SaveIndex { index } => {
                    self.index = index;
                    SwitchEvent::Done
                }
                SwitchAction::SaveAccountFile { account_id, raw } => {
                    for entry in self.accounts.iter_mut() {
                        if entry.0 == account_id {
                            entry.1 = raw.copy();
                        }
                    }
                    SwitchEvent::Done
                }
                SwitchAction::Restart { app_path } => match self.restart(&app_path) {
                    Ok(b) => SwitchEvent::Restarted(b),
                    Err(e) => SwitchEvent::Failed(e),
                },
                SwitchAction::Rollback => {
                    self.restore(snapshot.take().unwrap());
                    SwitchEvent::Done
                }
                SwitchAction::Finish { result } => return result,
            };
        }
    }
}

fn fixture() -> World {
    World {
        index: CodexAccountIndex {
            version: Some("1.0".to_string()),
            current_account_id: Some("codex_old".to_string()),
            accounts: vec![
                CodexAccountSummary {
                    id: "codex_old".to_string(),
                    email: "old@example.com".to_string(),
                    plan_type: Some("team".to_string()),
                    subscription_active_until: None,
                    created_at: 10,
                    last_used: 20,
                },
                CodexAccountSummary {
                    id: "codex_key".to_string(),
                    email: "api-key@example.com".to_string(),
                    plan_type: Some("API_KEY".to_string()),
                    subscription_active_until: None,
                    created_at: 11,
                    last_used: 21,
                },
            ],
        },
        accounts: vec![
            (
                "codex_old".to_string(),
                obj(vec![
                    ("id", s("codex_old")),
                    ("email", s("old@example.com")),
                    ("auth_mode", s("oauth")),
                    (
                        "tokens",
                        obj(vec![
                            ("id_token", s("old-id-token")),
                            ("access_token", s("old-access-token")),
                            ("refresh_token", s("old-refresh-token")),
                        ]),
                    ),
                    ("created_at", n(10)),
                    ("last_used", n(20)),
                ]),
            ),
            (
                "codex_key".to_string(),
                obj(vec![
                    ("id", s("codex_key")),
                    ("email", s("api-key@example.com")),
                    ("auth_mode", s("apikey")),
                    ("openai_api_key", s("sk-test-portable")),
                    ("api_base_url", s("https://api.example.test/v1")),
                    ("created_at", n(11)),
                    ("last_used", n(21)),
                    ("requires_reauth", JsonValue::Bool(true)),
                ]),
            ),
        ],
        auth: None,
        projection: None,
        app_exists: false,
    }
}

#[test]
fn switch_api_key_account_projects_auth_and_updates_current_without_restart() {
    let mut world = fixture();
    let result = world
        .switch(
            SwitchRequest { account_id: "codex_key".to_string(), restart: false },
            "/Applications/Codex.app",
        )
        .unwrap();
    assert_eq!(result.account.id, "codex_key");
    assert!(!result.restarted);
    assert_eq!(world.index.current_account_id, Some("codex_key".to_string()));
    let auth = world.auth.as_ref().unwrap();
    assert_eq!(text_of(auth.get("auth_mode")), Some("apikey".to_string()));
    assert_eq!(text_of(auth.get("OPENAI_API_KEY")), Some("sk-test-portable".to_string()));
    assert!(auth.get("tokens").is_none());
    let projection = world.projection.as_ref().unwrap();
    assert_eq!(projection.writer, "cockpit");
    assert_eq!(projection.account_id, "codex_key");
    let detail = world.account("codex_key").unwrap();
    assert!(detail.get("last_used").unwrap().as_i64().unwrap() > 21);
}

#[test]
fn switch_rolls_back_files_when_restart_fails() {
    let mut world = fixture();
    let error = world
        .switch(
            SwitchRequest { account_id: "codex_key".to_string(), restart: true },
            "/tmp/fixture/Missing Codex.app",
        )
        .unwrap_err();
    assert!(error.contains("Codex.app not found"));
    assert_eq!(world.index.current_account_id, Some("codex_old".to_string()));
    assert!(world.auth.is_none());
    assert!(world.projection.is_none());
    let detail = world.account("codex_key").unwrap();
    assert_eq!(detail.get("last_used").unwrap().as_i64(), Some(21));
}

#[test]
fn switch_with_restart_reports_the_relaunch() {
    let mut world = fixture();
    world.app_exists = true;
    let result = world
        .switch(
            SwitchRequest { account_id: " codex_old ".to_string(), restart: default_restart() },
            "/Applications/Codex.app",
        )
        .unwrap();
    assert!(result.restarted);
    assert_eq!(result.account.id, "codex_old");
    assert!(result.account.is_current);
    assert_eq!(result.account.auth_mode, "oauth");
    let auth = world.auth.as_ref().unwrap();
    assert!(matches!(auth.get("OPENAI_API_KEY"), Some(JsonValue::Null)));
    assert_eq!(world.index.current_account_id, Some("codex_old".to_string()));
}

#[test]
fn switch_refuses_bad_requests_before_touching_files() {
    let mut world = fixture();
    let err = world
        .switch(SwitchRequest { account_id: "   ".to_string(), restart: false }, "/A.app")
        .unwrap_err();
    assert_eq!(err, "accountId is required");
    let err = world
        .switch(SwitchRequest { account_id: "codex_nobody".to_string(), restart: false }, "/A.app")
        .unwrap_err();
    assert_eq!(err, "account does not exist in CT index: codex_nobody");
    world.accounts[1].1 = obj(vec![("auth_mode", s("apikey"))]);
    let err = world
        .switch(SwitchRequest { account_id: "codex_key".to_string(), restart: false }, "/A.app")
        .unwrap_err();
    assert_eq!(
        err,
        "account api-key@example.com does not contain enough saved Codex credential material"
    );
    assert!(world.auth.is_none());
    assert_eq!(world.index.current_account_id, Some("codex_old".to_string()));
}
