//! The web panel's access rules: which requests are signed in, what a login
//! decides, and the session cookie it sets.
use crate::auth::{
    cookie_value, create_signed_session, find_cookie, generate_session_secret, parse_cookie,
    session_valid, signed_token, str_opt_view, verify_password, SESSION_TTL_SECONDS,
};
use crate::config::BridgeConfig;
use crate::crypto::{argon2_accepts, hex_lower, is_lower_hex, lemma_hex_lower_shape, uuid_text_shape};
use crate::text::{
    blank, concat2, copy_str, first_index, i64_text, int_text, is_blank, is_digit, is_ws,
    lemma_first_index_at, lemma_parse_int_text, nat_text, split_on, split_once, string_of, trim,
    trim_end, trim_start,
};
use vstd::prelude::*;
use vstd::utf8::encode_utf8;

verus! {

broadcast use vstd::string::group_string_axioms;

/// The name of the session cookie.
pub open spec fn session_cookie_name() -> Seq<char> {
    "ct_codex_bridge"@
}

/// The session token a request carries in its `Cookie` header.
pub fn session_token(cookie_header: Option<&str>) -> (r: Option<String>)
    ensures
        r.deep_view() == cookie_value(str_opt_view(cookie_header), session_cookie_name()),
{
    let r = parse_cookie(cookie_header, "ct_codex_bridge");
    r
}

/// Whether a request is signed in: its `Cookie` header carries a session
/// token, the configured session secret is not blank, and the token is valid
/// under that secret at `now`.
pub open spec fn authorized(cookie_header: Option<Seq<char>>, secret: Option<Seq<char>>, now: i64) -> bool {
    &&& cookie_value(cookie_header, session_cookie_name()) matches Some(token)
    &&& secret matches Some(s)
    &&& !is_blank(s)
    &&& session_valid(s, token, now)
}

/// Whether a request with this `Cookie` header is signed in, for the
/// configured session secret (none where the configuration could not be read).
pub fn is_authorized(cookie_header: Option<&str>, session_secret: Option<&str>, now: i64) -> (r: bool)
    ensures
        r == authorized(str_opt_view(cookie_header), str_opt_view(session_secret), now),
{
    let token = match session_token(cookie_header) {
        Some(t) => t,
        None => {
            return false;
        },
    };
    let secret = match session_secret {
        Some(s) => s,
        None => {
            return false;
        },
    };
    if blank(secret) {
        return false;
    }
    crate::auth::validate_signed_session(secret, token.as_str(), now)
}

/// What the panel's session endpoint reports.
#[derive(Debug, Clone)]
pub struct SessionStatus {
    pub authenticated: bool,
    pub password_configured: bool,
}

pub open spec fn opt_string_view(s: Option<String>) -> Option<Seq<char>> {
    match s {
        Some(v) => Some(v@),
        None => None,
    }
}

/// The session status of a request with this `Cookie` header, for the
/// configuration as loaded (`None` where it could not be read): signed in as
/// `is_authorized` says, and a password is configured where the loaded
/// configuration holds a hash.
pub fn session_status(cookie_header: Option<&str>, cfg: Option<&BridgeConfig>, now: i64) -> (r: SessionStatus)
    ensures
        r.authenticated == authorized(
            str_opt_view(cookie_header),
            match cfg {
                Some(c) => opt_string_view(c.session_secret),
                None => None,
            },
            now,
        ),
        r.password_configured == (cfg matches Some(c) && c.password_hash is Some),
{
    let secret: Option<&str> = match cfg {
        Some(c) => match &c.session_secret {
            Some(s) => Some(s.as_str()),
            None => None,
        },
        None => None,
    };
    let password_configured = match cfg {
        Some(c) => c.password_hash.is_some(),
        None => false,
    };
    SessionStatus { authenticated: is_authorized(cookie_header, secret, now), password_configured }
}

/// What a login attempt decides before any session is issued.
#[derive(Debug)]
pub enum LoginDecision {
    /// The attempt is refused with this HTTP status and message.
    Refused { status: u16, message: String },
    /// The password is right; sessions are signed with `secret`, and
    /// `save` is the configuration to store first, where the secret is new.
    Accepted { secret: String, save: Option<BridgeConfig> },
}

/// A login with `password` against the configuration `cfg`: 503 where no
/// password is configured, 401 where it does not match; otherwise the session
/// secret, which is the configured one where it is not blank and a fresh
/// random one (to be saved in the configuration) where it is.
pub fn login_decision(cfg: BridgeConfig, password: &str) -> (r: LoginDecision)
    ensures
        match cfg.password_hash {
            None => r matches LoginDecision::Refused { status, message } && status == 503
                && message@ == "password is not configured; run `ct-codex-bridge setup-password` first"@,
            Some(h) => if !argon2_accepts(h@, encode_utf8(password@)) {
                r matches LoginDecision::Refused { status, message } && status == 401 && message@
                    == "invalid password"@
            } else {
                match cfg.session_secret {
                    Some(s) if !is_blank(s@) => r matches LoginDecision::Accepted { secret, save }
                        && secret@ == s@ && save is None,
                    _ => r matches LoginDecision::Accepted { secret, save } && (exists|b: Seq<u8>|
                        b.len() == 32 && secret@ == hex_lower(b)) && (save matches Some(c)
                        && c.password_hash == cfg.password_hash && c.session_secret.deep_view()
                        == Some(secret@)),
                }
            },
        },
{
    let hash = match &cfg.password_hash {
        Some(h) => h,
        None => {
            return LoginDecision::Refused {
                status: 503,
                message: copy_str("password is not configured; run `ct-codex-bridge setup-password` first"),
            };
        },
    };
    if !verify_password(hash.as_str(), password) {
        return LoginDecision::Refused { status: 401, message: copy_str("invalid password") };
    }
    match &cfg.session_secret {
        Some(s) => {
            if !blank(s.as_str()) {
                return LoginDecision::Accepted { secret: s.clone(), save: None };
            }
        },
        None => {},
    }
    let secret = generate_session_secret();
    let saved = BridgeConfig { password_hash: cfg.password_hash, session_secret: Some(secret.clone()) };
    LoginDecision::Accepted { secret, save: Some(saved) }
}

/// The attributes the session cookie is set with.
pub open spec fn cookie_attributes() -> Seq<char> {
    "; Path=/; HttpOnly; SameSite=Lax; Max-Age="@ + int_text(SESSION_TTL_SECONDS as int)
}

/// The `Set-Cookie` value of a login at `now` with `secret`: a new signed
/// session that lasts `SESSION_TTL_SECONDS`.
pub fn session_cookie(secret: &str, now: i64) -> (c: String)
    requires
        now + SESSION_TTL_SECONDS <= i64::MAX,
    ensures
        exists|nonce: Seq<char>|
            uuid_text_shape(nonce) && c@ == "ct_codex_bridge="@ + signed_token(
                secret@,
                now + SESSION_TTL_SECONDS,
                nonce,
            ) + cookie_attributes(),
{
    let token = create_signed_session(secret, now);
    let c = concat2("ct_codex_bridge=", token.as_str());
    let c = concat2(c.as_str(), "; Path=/; HttpOnly; SameSite=Lax; Max-Age=");
    let ttl = i64_text(SESSION_TTL_SECONDS);
    let ttl = string_of(ttl.as_slice());
    let c = concat2(c.as_str(), ttl.as_str());
    assert(c@ =~= "ct_codex_bridge="@ + token@ + cookie_attributes());
    c
}

/// The `Set-Cookie` value of a logout: the session cookie, emptied and
/// expired at once.
pub fn logout_cookie() -> (c: String)
    ensures
        c@ == "ct_codex_bridge=; Path=/; HttpOnly; SameSite=Lax; Max-Age=0"@,
{
    copy_str("ct_codex_bridge=; Path=/; HttpOnly; SameSite=Lax; Max-Age=0")
}

// ---------------------------------------------------------------------
// A session cookie signs a browser in until it expires
// ---------------------------------------------------------------------

proof fn lemma_no_char_in_token(secret: Seq<char>, expires: i64, nonce: Seq<char>, c: char)
    requires
        uuid_text_shape(nonce),
        c != '.' && c != '-' && !is_digit(c) && !is_lower_hex(c) && c != 'v',
    ensures
        !signed_token(secret, expires as int, nonce).contains(c),
{
    reveal_strlit("v1");
    let t = signed_token(secret, expires as int, nonce);
    let e = int_text(expires as int);
    let payload = crate::auth::session_payload(e, nonce);
    let sig = crate::auth::session_signature(secret, payload);
    lemma_parse_int_text(expires);
    lemma_hex_lower_shape(
        crate::crypto::hmac_sha256_tag(
            encode_utf8(secret),
            encode_utf8(crate::auth::session_label()) + encode_utf8(payload),
        ),
    );
    assert(t =~= "v1"@ + seq!['.'] + e + seq!['.'] + nonce + seq!['.'] + sig);
    if t.contains(c) {
        let i = choose|i: int| 0 <= i < t.len() && t[i] == c;
        let a = 3 + e.len();
        let b = a + 1 + nonce.len();
        if i < 2 {
            assert(t[i] == "v1"@[i]);
        } else if i == 2 || i == a || i == b {
        } else if i < a {
            assert(t[i] == e[i - 3]);
        } else if i < b {
            assert(t[i] == nonce[i - a - 1]);
            let k = i - a - 1;
            if k == 8 || k == 13 || k == 18 || k == 23 {
                assert(nonce[k] == '-');
            } else {
                assert(is_lower_hex(nonce[k]));
            }
        } else {
            assert(t[i] == sig[i - b - 1]);
        }
    }
}

/// A browser that sends back the cookie a login set (`name=token`) is signed
/// in, under the secret the token was signed with, at every time before the
/// token expires and at none after.
pub proof fn lemma_login_cookie_signs_in(secret: Seq<char>, now: i64, nonce: Seq<char>, at: i64)
    requires
        uuid_text_shape(nonce),
        !is_blank(secret),
        now + SESSION_TTL_SECONDS <= i64::MAX,
    ensures
        authorized(
            Some(
                "ct_codex_bridge="@ + signed_token(secret, now + SESSION_TTL_SECONDS, nonce),
            ),
            Some(secret),
            at,
        ) <==> at < now + SESSION_TTL_SECONDS,
{
    reveal_strlit("ct_codex_bridge=");
    reveal_strlit("ct_codex_bridge");
    let expires = (now + SESSION_TTL_SECONDS) as i64;
    let token = signed_token(secret, expires as int, nonce);
    let name = "ct_codex_bridge"@;
    let header = "ct_codex_bridge="@ + token;
    lemma_no_char_in_token(secret, expires, nonce, ';');
    lemma_no_char_in_token(secret, expires, nonce, '=');
    // The header is one cookie.
    crate::auth::lemma_split_no_sep(header, ';');
    assert(split_on(header, ';') == seq![header]);
    // It has no surrounding whitespace.
    assert(!is_ws(header[0]));
    assert(trim_start(header) == header);
    assert(token.len() > 0);
    let last = header.last();
    assert(last == token.last());
    lemma_token_ends_in_hex(secret, expires, nonce);
    assert(!is_ws(last));
    assert(trim_end(header) == header);
    assert(trim(header) == header);
    // Its name is everything before the first `=`.
    assert forall|k: int| 0 <= k < 15 implies header[k] != '=' by {
        assert(header[k] == name[k]);
    }
    lemma_first_index_at(header, '=', 15);
    assert(header.take(15) =~= name);
    assert(header.skip(16) =~= token);
    assert(split_once(header, '=') == Some((name, token)));
    assert(find_cookie(seq![header], name) == Some(token));
    crate::auth::lemma_signed_token_valid(secret, expires, nonce, at);
}

proof fn lemma_token_ends_in_hex(secret: Seq<char>, expires: i64, nonce: Seq<char>)
    ensures
        signed_token(secret, expires as int, nonce).len() > 0,
        !is_ws(signed_token(secret, expires as int, nonce).last()),
{
    let e = int_text(expires as int);
    let payload = crate::auth::session_payload(e, nonce);
    let tag = crate::crypto::hmac_sha256_tag(
        encode_utf8(secret),
        encode_utf8(crate::auth::session_label()) + encode_utf8(payload),
    );
    lemma_hex_lower_shape(tag);
    let sig = hex_lower(tag);
    let t = signed_token(secret, expires as int, nonce);
    assert(t =~= payload + seq!['.'] + sig);
    if sig.len() > 0 {
        assert(t.last() == sig[sig.len() - 1]);
        assert(is_lower_hex(t.last()));
    } else {
        assert(t.last() == '.');
    }
}

} // verus!
