use ct_codex_bridge::accounts::CodexAccountDetail;
use ct_codex_bridge::config_toml::{
    apply_config_toml_edit, config_toml_edit, provider_id_from_base_url, ConfigTomlEdit,
};
use ct_codex_bridge::json::JsonValue;

fn account(pairs: Vec<(&str, &str)>) -> CodexAccountDetail {
    let mut fields = vec![("id".to_string(), JsonValue::string("k")), ("email".to_string(), JsonValue::string("e"))];
    for (k, v) in pairs {
        fields.push((k.to_string(), JsonValue::string(v)));
    }
    CodexAccountDetail::from_value(JsonValue::Object(fields), None).unwrap()
}

#[test]
fn provider_id_is_a_slug_of_the_base_url() {
    assert_eq!(
        provider_id_from_base_url("https://api.example.test/v1"),
        Some("https_api_example_test_v1".to_string())
    );
    assert_eq!(provider_id_from_base_url("__A--b__"), Some("a_b".to_string()));
    assert_eq!(provider_id_from_base_url("://"), None);
    assert_eq!(provider_id_from_base_url(""), None);
}

#[test]
fn config_edit_follows_the_account() {
    let oauth = account(vec![("auth_mode", "oauth")]);
    assert!(matches!(config_toml_edit(&oauth, false), ConfigTomlEdit::Skip));
    assert!(matches!(config_toml_edit(&oauth, true), ConfigTomlEdit::ClearProvider));

    let key = account(vec![("openai_api_key", "sk"), ("api_base_url", " https://h.test/v1// ")]);
    match config_toml_edit(&key, false) {
        ConfigTomlEdit::OpenAiBaseUrl { base_url } => assert_eq!(base_url, "https://h.test/v1"),
        other => panic!("unexpected {other:?}"),
    }

    let bare_key = account(vec![("openai_api_key", "sk")]);
    assert!(matches!(config_toml_edit(&bare_key, false), ConfigTomlEdit::Skip));
    assert!(matches!(config_toml_edit(&bare_key, true), ConfigTomlEdit::ClearProvider));

    let custom = account(vec![
        ("openai_api_key", "sk"),
        ("api_base_url", "https://h.test/v1"),
        ("api_provider_mode", "Custom"),
    ]);
    match config_toml_edit(&custom, true) {
        ConfigTomlEdit::CustomProvider { id, name, base_url } => {
            assert_eq!(id, "https_h_test_v1");
            assert_eq!(name, "https_h_test_v1");
            assert_eq!(base_url, "https://h.test/v1");
        }
        other => panic!("unexpected {other:?}"),
    }

    let named = account(vec![
        ("openai_api_key", "sk"),
        ("api_base_url", "https://h.test"),
        ("api_provider_mode", "custom"),
        ("api_provider_id", "mine"),
        ("api_provider_name", "My Provider"),
    ]);
    match config_toml_edit(&named, false) {
        ConfigTomlEdit::CustomProvider { id, name, .. } => {
            assert_eq!(id, "mine");
            assert_eq!(name, "My Provider");
        }
        other => panic!("unexpected {other:?}"),
    }
}

#[test]
fn base_url_edit_replaces_the_provider() {
    let existing = "model = \"gpt-5\"\nmodel_provider = \"old\"\n";
    let edit = ConfigTomlEdit::OpenAiBaseUrl { base_url: "https://h.test/v1".to_string() };
    let text = apply_config_toml_edit(existing, &edit).unwrap();
    assert!(text.contains("model = \"gpt-5\""));
    assert!(!text.contains("model_provider"));
    assert!(text.contains("openai_base_url = \"https://h.test/v1\""));
}

#[test]
fn clearing_removes_both_provider_keys() {
    let existing = "model_provider = \"x\"\nopenai_base_url = \"y\"\nother = 1\n";
    let text = apply_config_toml_edit(existing, &ConfigTomlEdit::ClearProvider).unwrap();
    assert!(!text.contains("model_provider"));
    assert!(!text.contains("openai_base_url"));
    assert!(text.contains("other = 1"));
    assert_eq!(apply_config_toml_edit(existing, &ConfigTomlEdit::Skip).unwrap(), existing);
}

#[test]
fn custom_provider_is_written_as_a_table() {
    let edit = ConfigTomlEdit::CustomProvider {
        id: "mine".to_string(),
        name: "Mine".to_string(),
        base_url: "https://h.test".to_string(),
    };
    let text = apply_config_toml_edit("openai_base_url = \"z\"\n", &edit).unwrap();
    assert!(!text.contains("openai_base_url"));
    assert!(text.contains("model_provider = \"mine\""));
    assert!(text.contains("name = \"Mine\""));
    assert!(text.contains("base_url = \"https://h.test\""));
    assert!(text.contains("wire_api = \"responses\""));
    assert!(text.contains("requires_openai_auth = true"));
    let text = apply_config_toml_edit("", &edit).unwrap();
    assert!(text.contains("model_provider = \"mine\""));
}

#[test]
fn unusable_config_is_refused() {
    let err = apply_config_toml_edit("this is = = not toml", &ConfigTomlEdit::ClearProvider).unwrap_err();
    assert!(err.starts_with("parse config.toml: "));
    let edit = ConfigTomlEdit::CustomProvider {
        id: "mine".to_string(),
        name: "Mine".to_string(),
        base_url: "https://h.test".to_string(),
    };
    assert!(apply_config_toml_edit("model_providers = \"flat\"\n", &edit).is_err());
}

#[test]
fn provider_ids_are_well_formed_and_stable() {
    for url in ["https://api.example.test/v1", "HTTP://X--Y//", "a", "__9__"] {
        let id = provider_id_from_base_url(url).unwrap();
        assert!(id.chars().all(|c| c.is_ascii_lowercase() || c.is_ascii_digit() || c == '_'));
        assert!(!id.starts_with('_') && !id.ends_with('_') && !id.contains("__"));
        assert_eq!(provider_id_from_base_url(&id), Some(id.clone()));
        let letters: String = url.chars().filter(|c| c.is_ascii_alphanumeric()).map(|c| c.to_ascii_lowercase()).collect();
        assert_eq!(id.replace('_', ""), letters);
    }
    assert_eq!(provider_id_from_base_url("HTTP://X--Y//"), Some("http_x_y".to_string()));
}

#[test]
fn custom_provider_goes_into_inline_tables_too() {
    let edit = ConfigTomlEdit::CustomProvider {
        id: "mine".to_string(),
        name: "Mine".to_string(),
        base_url: "https://h.test".to_string(),
    };
    let text = apply_config_toml_edit("model_providers = { other = { name = \"o\" } }\n", &edit).unwrap();
    assert!(text.contains("model_provider = \"mine\""));
    assert!(text.contains("base_url = \"https://h.test\""));
    assert!(text.contains("other"));
    let text = apply_config_toml_edit("[model_providers.mine]\nname = \"old\"\n", &edit).unwrap();
    assert!(text.contains("name = \"Mine\""));
    assert!(!text.contains("old"));
    assert!(apply_config_toml_edit("[model_providers]\nmine = 3\n", &edit).is_err());
    assert!(apply_config_toml_edit("model_providers = [1]\n", &edit).is_err());
}
