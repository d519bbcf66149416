use ct_codex_bridge::accounts::{
    build_auth_file_value, build_auth_file_value_at, list_accounts, CodexAccountDetail,
    CodexAccountIndex, CodexAccountSummary,
};
use ct_codex_bridge::json::JsonValue;

fn s(text: &str) -> JsonValue {
    JsonValue::string(text)
}

fn n(value: i64) -> JsonValue {
    JsonValue::integer(value)
}

fn obj(pairs: Vec<(&str, JsonValue)>) -> JsonValue {
    JsonValue::Object(pairs.into_iter().map(|(k, v)| (k.to_string(), v)).collect())
}

fn text_of(v: Option<&JsonValue>) -> Option<String> {
    match v {
        Some(JsonValue::Str(t)) => Some(t.clone()),
        _ => None,
    }
}

fn oauth_detail() -> CodexAccountDetail {
    CodexAccountDetail::from_value(
        obj(vec![
            ("id", s("codex_abc")),
            ("email", s("user@example.com")),
            ("auth_mode", s("oauth")),
            ("account_id", s("acc_42")),
            (
                "tokens",
                obj(vec![
                    ("id_token", s("id.token.value")),
                    ("access_token", s("access.token.value")),
                    ("refresh_token", s("refresh-token")),
                ]),
            ),
            ("token_generation", n(7)),
            ("created_at", n(10)),
            ("last_used", n(20)),
        ]),
        None,
    )
    .unwrap()
}

#[test]
fn oauth_auth_payload_matches_codex_shape_without_api_key_secret() {
    let payload = build_auth_file_value(&oauth_detail()).unwrap();
    assert!(payload.get("auth_mode").is_none());
    assert!(matches!(payload.get("OPENAI_API_KEY"), Some(JsonValue::Null)));
    let tokens = payload.get("tokens").unwrap();
    assert_eq!(text_of(tokens.get("account_id")), Some("acc_42".to_string()));
    assert_eq!(text_of(tokens.get("refresh_token")), Some("refresh-token".to_string()));
}

#[test]
fn api_key_auth_payload_matches_codex_shape() {
    let detail = CodexAccountDetail::from_value(
        obj(vec![
            ("id", s("codex_key")),
            ("email", s("api-key@example.com")),
            ("auth_mode", s("apikey")),
            ("openai_api_key", s("sk-test")),
        ]),
        None,
    )
    .unwrap();
    let payload = build_auth_file_value(&detail).unwrap();
    assert_eq!(text_of(payload.get("auth_mode")), Some("apikey".to_string()));
    assert_eq!(text_of(payload.get("OPENAI_API_KEY")), Some("sk-test".to_string()));
    assert!(payload.get("tokens").is_none());
}

#[test]
fn account_view_does_not_serialize_tokens_or_api_key() {
    let view = oauth_detail().to_view(Some("codex_abc"));
    let text = format!("{view:?}");
    assert!(!text.contains("id.token.value"));
    assert!(!text.contains("access.token.value"));
    assert!(!text.contains("refresh-token"));
    assert!(view.has_oauth_snapshot);
    assert!(view.is_current);
    assert!(view.can_switch);
    assert_eq!(view.auth_mode, "oauth");
    assert_eq!(view.last_used, 20);
}

fn fixture_index() -> CodexAccountIndex {
    CodexAccountIndex {
        version: Some("1.0".to_string()),
        current_account_id: Some("codex_old".to_string()),
        accounts: vec![
            CodexAccountSummary {
                id: "codex_old".to_string(),
                email: "old@example.com".to_string(),
                plan_type: Some("team".to_string()),
                subscription_active_until: None,
                created_at: 10,
                last_used: 20,
            },
            CodexAccountSummary {
                id: "codex_key".to_string(),
                email: "api-key@example.com".to_string(),
                plan_type: Some("API_KEY".to_string()),
                subscription_active_until: None,
                created_at: 11,
                last_used: 21,
            },
        ],
    }
}

fn old_file() -> JsonValue {
    obj(vec![
        ("id", s("codex_old")),
        ("email", s("old@example.com")),
        ("auth_mode", s("oauth")),
        (
            "tokens",
            obj(vec![
                ("id_token", s("old-id-token")),
                ("access_token", s("old-access-token")),
                ("refresh_token", s("old-refresh-token")),
            ]),
        ),
        ("created_at", n(10)),
        ("last_used", n(20)),
    ])
}

fn key_file() -> JsonValue {
    obj(vec![
        ("id", s("codex_key")),
        ("email", s("api-key@example.com")),
        ("auth_mode", s("apikey")),
        ("openai_api_key", s("sk-test-portable")),
        ("api_base_url", s("https://api.example.test/v1")),
        ("created_at", n(11)),
        ("last_used", n(21)),
        ("requires_reauth", JsonValue::Bool(true)),
    ])
}

#[test]
fn list_accounts_never_exposes_saved_credentials() {
    let index = fixture_index();
    let files = vec![Ok(old_file()), Ok(key_file())];
    let (response, notes) = list_accounts(&index, &files);
    let text = format!("{response:?}");
    assert!(text.contains("api-key@example.com"));
    assert!(!text.contains("old-id-token"));
    assert!(!text.contains("old-access-token"));
    assert!(!text.contains("old-refresh-token"));
    assert!(!text.contains("sk-test-portable"));
    assert!(notes.is_empty());
}

#[test]
fn listing_is_newest_first_and_skips_unreadable_files() {
    let index = fixture_index();
    let files = vec![Ok(old_file()), Ok(key_file())];
    let (response, _) = list_accounts(&index, &files);
    assert_eq!(response.current_account_id, Some("codex_old".to_string()));
    assert_eq!(response.accounts.len(), 2);
    assert_eq!(response.accounts[0].id, "codex_key");
    assert_eq!(response.accounts[1].id, "codex_old");
    assert!(response.accounts[1].is_current);
    assert!(!response.accounts[0].is_current);
    assert!(response.accounts[0].requires_reauth);
    assert_eq!(response.accounts[0].auth_mode, "apikey");
    assert!(response.accounts[0].has_api_key);

    let files = vec![Ok(old_file()), Err("read failed".to_string())];
    let (response, notes) = list_accounts(&index, &files);
    assert_eq!(response.accounts.len(), 1);
    assert_eq!(response.accounts[0].id, "codex_old");
    assert_eq!(notes, vec!["skip unreadable account codex_key: read failed".to_string()]);
}

#[test]
fn listing_keeps_index_order_between_equal_last_use() {
    let mut index = fixture_index();
    index.accounts[1].last_used = 20;
    let files = vec![
        Ok(obj(vec![("email", s("a@example.com"))])),
        Ok(obj(vec![("email", s("b@example.com"))])),
    ];
    let (response, _) = list_accounts(&index, &files);
    assert_eq!(response.accounts[0].id, "codex_old");
    assert_eq!(response.accounts[1].id, "codex_key");
    assert_eq!(response.accounts[0].email, "a@example.com");
    assert_eq!(response.accounts[1].plan_type, Some("API_KEY".to_string()));
}

#[test]
fn account_file_falls_back_to_index_entry() {
    let summary = fixture_index().accounts[1].clone();
    let detail = CodexAccountDetail::from_value(obj(vec![]), Some(&summary)).unwrap();
    assert_eq!(detail.id, "codex_key");
    assert_eq!(detail.email, "api-key@example.com");
    assert_eq!(detail.plan_type, Some("API_KEY".to_string()));
    assert_eq!(detail.created_at, 11);
    assert_eq!(detail.last_used, 21);
    assert_eq!(detail.auth_mode, "oauth");
    assert!(!detail.has_switch_material());
}

#[test]
fn account_file_errors_name_what_is_missing() {
    let err = CodexAccountDetail::from_value(obj(vec![]), None).unwrap_err();
    assert_eq!(err, "account detail is missing id");
    let err = CodexAccountDetail::from_value(obj(vec![("id", s("x"))]), None).unwrap_err();
    assert_eq!(err, "account x is missing email");
    let err = CodexAccountDetail::from_value(obj(vec![("id", s("   ")), ("email", s("e"))]), None)
        .unwrap_err();
    assert_eq!(err, "account detail is missing id");
}

#[test]
fn account_file_reads_alternate_keys_and_numbers() {
    let detail = CodexAccountDetail::from_value(
        obj(vec![
            ("id", n(42)),
            ("email", s("  e@x  ")),
            ("openaiApiKey", s(" sk-1 ")),
            ("apiBaseUrl", s("https://h/v1")),
            ("tokenGeneration", n(3)),
            ("requiresReauth", JsonValue::Bool(true)),
            ("lastUsed", n(99)),
        ]),
        None,
    )
    .unwrap();
    assert_eq!(detail.id, "42");
    assert_eq!(detail.email, "e@x");
    assert_eq!(detail.openai_api_key, Some("sk-1".to_string()));
    assert_eq!(detail.auth_mode, "apikey");
    assert_eq!(detail.api_base_url, Some("https://h/v1".to_string()));
    assert_eq!(detail.token_generation, 3);
    assert!(detail.requires_reauth);
    assert_eq!(detail.last_used, 99);
    assert!(detail.is_api_key_auth());
    assert!(detail.has_switch_material());
}

#[test]
fn auth_file_errors() {
    let detail = CodexAccountDetail::from_value(
        obj(vec![("id", s("k")), ("email", s("e")), ("auth_mode", s("APIKEY"))]),
        None,
    )
    .unwrap();
    assert_eq!(
        build_auth_file_value(&detail).unwrap_err(),
        "API key account is missing OPENAI_API_KEY"
    );
    let detail = CodexAccountDetail::from_value(
        obj(vec![("id", s("o")), ("email", s("e")), ("auth_mode", s("oauth"))]),
        None,
    )
    .unwrap();
    assert_eq!(build_auth_file_value(&detail).unwrap_err(), "OAuth account is missing tokens");
    let detail = CodexAccountDetail::from_value(
        obj(vec![
            ("id", s("o")),
            ("email", s("e")),
            ("tokens", obj(vec![("id_token", s(" ")), ("access_token", s("a"))])),
        ]),
        None,
    )
    .unwrap();
    assert_eq!(
        build_auth_file_value(&detail).unwrap_err(),
        "OAuth account is missing id_token/access_token"
    );
}

#[test]
fn auth_file_carries_the_refresh_time() {
    let payload = build_auth_file_value_at(&oauth_detail(), "2024-01-02T03:04:05.000006Z").unwrap();
    assert_eq!(
        text_of(payload.get("last_refresh")),
        Some("2024-01-02T03:04:05.000006Z".to_string())
    );
    let tokens = payload.get("tokens").unwrap();
    assert_eq!(text_of(tokens.get("id_token")), Some("id.token.value".to_string()));
    assert_eq!(text_of(tokens.get("access_token")), Some("access.token.value".to_string()));
    let now = build_auth_file_value(&oauth_detail()).unwrap();
    let stamp = text_of(now.get("last_refresh")).unwrap();
    assert!(stamp.ends_with('Z'));
    assert_eq!(stamp.len(), 27);
    assert_eq!(&stamp[4..5], "-");
    assert_eq!(&stamp[10..11], "T");
    assert_eq!(&stamp[19..20], ".");
}
