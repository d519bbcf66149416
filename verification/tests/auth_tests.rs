use ct_codex_bridge::auth::{
    constant_time_eq, create_signed_session, generate_session_secret, hash_password, parse_cookie,
    signed_session_token, validate_signed_session, verify_password, SESSION_TTL_SECONDS,
};
use ct_codex_bridge::config::BridgeConfig;
use ct_codex_bridge::server::{
    is_authorized, login_decision, logout_cookie, session_cookie, session_status, session_token,
    LoginDecision,
};

#[test]
fn password_hash_verifies_without_storing_plaintext() {
    let hash = hash_password("quiet-control-room").unwrap();
    assert!(!hash.contains("quiet-control-room"));
    assert!(verify_password(&hash, "quiet-control-room"));
    assert!(!verify_password(&hash, "wrong"));
}

#[test]
fn password_hash_is_an_argon2id_phc_string() {
    let hash = hash_password("").unwrap();
    assert!(hash.starts_with("$argon2id$"));
    assert!(verify_password(&hash, ""));
    let hash = hash_password("quiet-control-room").unwrap();
    assert!(hash.starts_with("$argon2id$v=19$m=19456,t=2,p=1$"));
    assert_eq!(hash.len(), 97);
    assert_eq!(hash.as_bytes()[53], b'$');
    assert!(hash[31..]
        .chars()
        .all(|c| c.is_ascii_alphanumeric() || c == '+' || c == '/' || c == '$'));
    assert!(!verify_password("not a phc string", "quiet-control-room"));
}

#[test]
fn cookie_parser_finds_named_cookie() {
    assert_eq!(
        parse_cookie(Some("a=1; ct_codex_bridge=token-42; b=2"), "ct_codex_bridge"),
        Some("token-42".to_string())
    );
}

#[test]
fn signed_session_survives_process_restart_without_server_memory() {
    let secret = generate_session_secret();
    let token = create_signed_session(&secret, 1_700_000_000);
    assert!(validate_signed_session(&secret, &token, 1_700_000_100));
    assert!(!validate_signed_session(
        &secret,
        &token,
        1_700_000_000 + SESSION_TTL_SECONDS + 1
    ));
    assert!(!validate_signed_session("wrong-secret", &token, 1_700_000_100));
}

#[test]
fn cookie_parser_edge_cases() {
    assert_eq!(parse_cookie(None, "ct_codex_bridge"), None);
    assert_eq!(parse_cookie(Some(""), "ct_codex_bridge"), None);
    assert_eq!(parse_cookie(Some("ct_codex_bridge"), "ct_codex_bridge"), None);
    assert_eq!(parse_cookie(Some("other=1"), "ct_codex_bridge"), None);
    assert_eq!(parse_cookie(Some("  a=b  "), "a"), Some("b".to_string()));
    assert_eq!(parse_cookie(Some("a=x=y"), "a"), Some("x=y".to_string()));
    assert_eq!(parse_cookie(Some("a=1; a=2"), "a"), Some("1".to_string()));
    assert_eq!(parse_cookie(Some("a="), "a"), Some(String::new()));
}

#[test]
fn generated_secret_is_64_lowercase_hex_digits() {
    let secret = generate_session_secret();
    assert_eq!(secret.len(), 64);
    assert!(secret.chars().all(|c| c.is_ascii_digit() || ('a'..='f').contains(&c)));
    assert_ne!(secret, generate_session_secret());
}

#[test]
fn signed_token_has_the_documented_shape() {
    let token = signed_session_token("secret", 1234, "nonce-1");
    let parts: Vec<&str> = token.split('.').collect();
    assert_eq!(parts.len(), 4);
    assert_eq!(parts[0], "v1");
    assert_eq!(parts[1], "1234");
    assert_eq!(parts[2], "nonce-1");
    assert_eq!(parts[3].len(), 64);
    assert!(validate_signed_session("secret", &token, 1233));
    assert!(!validate_signed_session("secret", &token, 1234));
}

#[test]
fn created_session_expires_after_the_ttl() {
    let token = create_signed_session("s", 100);
    let parts: Vec<&str> = token.split('.').collect();
    assert_eq!(parts[1], (100 + SESSION_TTL_SECONDS).to_string());
    assert_eq!(parts[2].len(), 36);
    assert_eq!(&parts[2][14..15], "4");
    assert!("89ab".contains(&parts[2][19..20]));
    assert!(validate_signed_session("s", &token, 100 + SESSION_TTL_SECONDS - 1));
    assert!(!validate_signed_session("s", &token, 100 + SESSION_TTL_SECONDS));
}

#[test]
fn malformed_tokens_are_refused() {
    let good = signed_session_token("k", 5000, "n");
    let sig = good.split('.').nth(3).unwrap().to_string();
    assert!(validate_signed_session("k", &good, 0));
    assert!(!validate_signed_session("k", &format!("v2.5000.n.{sig}"), 0));
    assert!(!validate_signed_session("k", &format!("v1.5000.n.{sig}.x"), 0));
    assert!(!validate_signed_session("k", "v1.5000.n", 0));
    assert!(!validate_signed_session("k", &format!("v1.50x0.n.{sig}"), 0));
    let blank_nonce = signed_session_token("k", 5000, " ");
    assert!(!validate_signed_session("k", &blank_nonce, 0));
    assert!(!validate_signed_session("k", "", 0));
    let mut tampered = good.clone();
    tampered.pop();
    tampered.push(if good.ends_with('0') { '1' } else { '0' });
    assert!(!validate_signed_session("k", &tampered, 0));
}

#[test]
fn constant_time_eq_compares_bytes() {
    assert!(constant_time_eq(b"abc", b"abc"));
    assert!(!constant_time_eq(b"abc", b"abd"));
    assert!(!constant_time_eq(b"abc", b"ab"));
    assert!(constant_time_eq(b"", b""));
}

#[test]
fn login_cookie_signs_the_browser_in_until_expiry() {
    let now = 1_700_000_000;
    let cookie = session_cookie("panel-secret", now);
    assert!(cookie.starts_with("ct_codex_bridge=v1."));
    assert!(cookie.ends_with("; Path=/; HttpOnly; SameSite=Lax; Max-Age=15552000"));
    let sent = cookie.split(';').next().unwrap().to_string();
    assert!(is_authorized(Some(&sent), Some("panel-secret"), now));
    assert!(is_authorized(Some(&sent), Some("panel-secret"), now + SESSION_TTL_SECONDS - 1));
    assert!(!is_authorized(Some(&sent), Some("panel-secret"), now + SESSION_TTL_SECONDS));
    assert!(!is_authorized(Some(&sent), Some("other"), now));
    assert!(!is_authorized(Some(&sent), Some("   "), now));
    assert!(!is_authorized(Some(&sent), None, now));
    assert!(!is_authorized(None, Some("panel-secret"), now));
    let token = session_token(Some(&format!("x=1; {sent}"))).unwrap();
    assert_eq!(format!("ct_codex_bridge={token}"), sent);
}

#[test]
fn logout_cookie_expires_the_session() {
    assert_eq!(
        logout_cookie(),
        "ct_codex_bridge=; Path=/; HttpOnly; SameSite=Lax; Max-Age=0"
    );
}

#[test]
fn login_without_password_is_unavailable() {
    let cfg = BridgeConfig { password_hash: None, session_secret: Some("s".to_string()) };
    match login_decision(cfg, "anything") {
        LoginDecision::Refused { status, message } => {
            assert_eq!(status, 503);
            assert_eq!(
                message,
                "password is not configured; run `ct-codex-bridge setup-password` first"
            );
        }
        other => panic!("unexpected {other:?}"),
    }
}

#[test]
fn login_decides_by_password_and_secret() {
    let hash = hash_password("right-password").unwrap();
    let cfg = BridgeConfig { password_hash: Some(hash.clone()), session_secret: None };
    match login_decision(cfg, "wrong") {
        LoginDecision::Refused { status, message } => {
            assert_eq!(status, 401);
            assert_eq!(message, "invalid password");
        }
        other => panic!("unexpected {other:?}"),
    }
    let cfg = BridgeConfig {
        password_hash: Some(hash.clone()),
        session_secret: Some("kept".to_string()),
    };
    match login_decision(cfg, "right-password") {
        LoginDecision::Accepted { secret, save } => {
            assert_eq!(secret, "kept");
            assert!(save.is_none());
        }
        other => panic!("unexpected {other:?}"),
    }
    let cfg = BridgeConfig { password_hash: Some(hash.clone()), session_secret: Some("  ".to_string()) };
    match login_decision(cfg, "right-password") {
        LoginDecision::Accepted { secret, save } => {
            assert_eq!(secret.len(), 64);
            let save = save.unwrap();
            assert_eq!(save.session_secret, Some(secret));
            assert_eq!(save.password_hash, Some(hash));
        }
        other => panic!("unexpected {other:?}"),
    }
}

#[test]
fn session_status_reports_login_and_password() {
    let cookie = session_cookie("sec", 10);
    let sent = cookie.split(';').next().unwrap().to_string();
    let cfg = BridgeConfig { password_hash: Some("h".to_string()), session_secret: Some("sec".to_string()) };
    let st = session_status(Some(&sent), Some(&cfg), 20);
    assert!(st.authenticated);
    assert!(st.password_configured);
    let st = session_status(Some(&sent), None, 20);
    assert!(!st.authenticated);
    assert!(!st.password_configured);
    let cfg = BridgeConfig { password_hash: None, session_secret: Some("sec".to_string()) };
    let st = session_status(None, Some(&cfg), 20);
    assert!(!st.authenticated);
    assert!(!st.password_configured);
}
