//! Panel authentication: password hashes, signed session tokens that need no
//! server memory, and the session cookie.
use crate::crypto::{
    argon2_accepts, argon2_hash, argon2id_phc, argon2_verify, hex_encode, hex_lower, hmac_sha256,
    hmac_sha256_tag, is_lower_hex, lemma_hex_lower_shape, random_bytes_32, uuid_text_shape,
    uuid_v4_text,
};
use crate::text::{
    chars_eq, chars_of, concat2, first_index, i64_text, int_text, is_blank, is_digit, is_ws,
    lemma_first_index, lemma_first_index_at, lemma_parse_int_text, parse_i64, parse_i64_chars,
    split_chars, split_on, split_once, string_of, string_of_range, trim, trim_bounds, trim_end,
    trim_start,
};
use vstd::prelude::*;
use vstd::string::StrSliceExecFns;
use vstd::utf8::encode_utf8;

verus! {

broadcast use vstd::string::group_string_axioms;

/// How long a signed session stays valid: 180 days.
pub const SESSION_TTL_SECONDS: i64 = 60 * 60 * 24 * 180;

/// The label that every session signature covers before the payload.
pub open spec fn session_label() -> Seq<char> {
    "ct-codex-bridge-session-v1"@
}

pub open spec fn version_tag() -> Seq<char> {
    "v1"@
}

// ---------------------------------------------------------------------
// Passwords
// ---------------------------------------------------------------------

/// Hash `password` with Argon2id and a fresh random salt, as a PHC string:
/// `$argon2id$v=19$m=19456,t=2,p=1$`, the salt and the hash in B64. It succeeds for every password of at most
/// `0xFFFFFFFF` bytes and fails for every longer one; the hash verifies for the same password; the
/// error is the crate's message behind `hash password: `.
pub fn hash_password(password: &str) -> (r: Result<String, String>)
    ensures
        r is Ok <==> encode_utf8(password@).len() <= 0xFFFF_FFFF,
        r matches Ok(h) ==> argon2_accepts(h@, encode_utf8(password@)) && argon2id_phc(h@),
        r matches Err(e) ==> exists|m: Seq<char>| e@ == "hash password: "@ + m,
{
    match argon2_hash(password.as_bytes()) {
        Ok(h) => Ok(h),
        Err(e) => {
            let r = concat2("hash password: ", e.as_str());
            Err(r)
        },
    }
}

/// Whether `password` matches the Argon2 PHC string `hash`; false for a hash
/// that does not parse.
pub fn verify_password(hash: &str, password: &str) -> (ok: bool)
    ensures
        ok == argon2_accepts(hash@, encode_utf8(password@)),
{
    argon2_verify(hash, password.as_bytes())
}

/// A fresh random session secret: 32 random bytes as 64 lowercase hex digits.
pub fn generate_session_secret() -> (s: String)
    ensures
        exists|b: Seq<u8>| b.len() == 32 && s@ == hex_lower(b),
        s@.len() == 64,
{
    let bytes = random_bytes_32();
    let s = hex_encode(bytes.as_slice());
    proof {
        lemma_hex_lower_shape(bytes@);
    }
    s
}

// ---------------------------------------------------------------------
// Signed sessions
// ---------------------------------------------------------------------

/// The hex HMAC-SHA-256 signature of a session payload under `secret`.
pub open spec fn session_signature(secret: Seq<char>, payload: Seq<char>) -> Seq<char> {
    hex_lower(
        hmac_sha256_tag(encode_utf8(secret), encode_utf8(session_label()) + encode_utf8(payload)),
    )
}

/// `a` and `b` joined by a `.`.
pub open spec fn dot(a: Seq<char>, b: Seq<char>) -> Seq<char> {
    a + seq!['.'] + b
}

/// The signed part of a token: `v1.{expires_at}.{nonce}`.
pub open spec fn session_payload(expires_text: Seq<char>, nonce: Seq<char>) -> Seq<char> {
    dot(dot(version_tag(), expires_text), nonce)
}

/// The token for a session that expires at `expires_at`: the payload, a `.`,
/// and its signature.
pub open spec fn signed_token(secret: Seq<char>, expires_at: int, nonce: Seq<char>) -> Seq<char> {
    let payload = session_payload(int_text(expires_at), nonce);
    dot(payload, session_signature(secret, payload))
}

/// Whether `token` is a session signed with `secret` that is still valid at
/// `now`: four `.`-separated parts, version `v1`, an expiry that parses as an
/// `i64` and lies after `now`, a nonce that is not blank, and a signature
/// equal to the one computed over the first three parts.
pub open spec fn session_valid(secret: Seq<char>, token: Seq<char>, now: i64) -> bool {
    let parts = split_on(token, '.');
    &&& parts.len() == 4
    &&& parts[0] == version_tag()
    &&& !is_blank(parts[2])
    &&& parse_i64(parts[1]) matches Some(expires_at) && now < expires_at
    &&& parts[3] == session_signature(secret, dot(dot(parts[0], parts[1]), parts[2]))
}

/// The hex signature of `payload` under `secret`.
fn sign_session(secret: &str, payload: &str) -> (sig: String)
    ensures
        sig@ == session_signature(secret@, payload@),
{
    let mut msg = "ct-codex-bridge-session-v1".as_bytes_vec();
    let mut tail = payload.as_bytes_vec();
    msg.append(&mut tail);
    let tag = hmac_sha256(secret.as_bytes(), msg.as_slice());
    hex_encode(tag.as_slice())
}

/// Whether two byte strings are equal, looking at every byte of equal-length
/// inputs whatever their contents.
pub fn constant_time_eq(left: &[u8], right: &[u8]) -> (r: bool)
    ensures
        r == (left@ == right@),
{
    if left.len() != right.len() {
        return false;
    }
    let mut diff: u8 = 0;
    let mut i: usize = 0;
    while i < left.len()
        invariant
            left@.len() == right@.len(),
            i <= left@.len(),
            (diff == 0) == (forall|k: int| 0 <= k < i ==> left@[k] == right@[k]),
        decreases left@.len() - i,
    {
        let a = left[i];
        let b = right[i];
        let d = diff | (a ^ b);
        assert((d == 0) == (diff == 0 && a == b)) by (bit_vector)
            requires
                d == diff | (a ^ b),
        ;
        diff = d;
        i = i + 1;
    }
    if diff == 0 {
        assert(left@ =~= right@);
        true
    } else {
        false
    }
}

/// The token for a session that expires at `expires_at`, with the given nonce.
pub fn signed_session_token(secret: &str, expires_at: i64, nonce: &str) -> (t: String)
    ensures
        t@ == signed_token(secret@, expires_at as int, nonce@),
{
    let mut p: Vec<char> = chars_of("v1");
    p.push('.');
    let mut e = i64_text(expires_at);
    p.append(&mut e);
    p.push('.');
    let mut n = chars_of(nonce);
    p.append(&mut n);
    let payload = string_of(p.as_slice());
    assert(payload@ =~= session_payload(int_text(expires_at as int), nonce@));
    let sig = sign_session(secret, payload.as_str());
    let mut t = payload;
    t.append(".");
    t.append(sig.as_str());
    proof {
        reveal_strlit(".");
        assert(t@ =~= signed_token(secret@, expires_at as int, nonce@));
    }
    t
}

/// A new session token for `secret`, issued at `now_unix` and expiring
/// `SESSION_TTL_SECONDS` later, with a random UUID as its nonce. It validates
/// at every time before that expiry and at none after.
pub fn create_signed_session(secret: &str, now_unix: i64) -> (t: String)
    requires
        now_unix + SESSION_TTL_SECONDS <= i64::MAX,
    ensures
        exists|nonce: Seq<char>|
            uuid_text_shape(nonce) && t@ == signed_token(
                secret@,
                now_unix + SESSION_TTL_SECONDS,
                nonce,
            ),
        forall|at: i64| session_valid(secret@, t@, at) <==> at < now_unix + SESSION_TTL_SECONDS,
{
    let expires_at = now_unix + SESSION_TTL_SECONDS;
    let nonce = uuid_v4_text();
    let t = signed_session_token(secret, expires_at, nonce.as_str());
    proof {
        assert forall|at: i64| session_valid(secret@, t@, at) <==> at < expires_at by {
            lemma_signed_token_valid(secret@, expires_at, nonce@, at);
        }
    }
    t
}

/// Whether `token` is a session signed with `secret` and still valid at
/// `now_unix`.
pub fn validate_signed_session(secret: &str, token: &str, now_unix: i64) -> (ok: bool)
    ensures
        ok == session_valid(secret@, token@, now_unix),
{
    let v = chars_of(token);
    let parts = split_chars(v.as_slice(), '.');
    let ghost sp = split_on(token@, '.');
    if parts.len() != 4 {
        return false;
    }
    assert(parts@[0]@ == sp[0] && parts@[1]@ == sp[1] && parts@[2]@ == sp[2] && parts@[3]@
        == sp[3]);
    let version = chars_of("v1");
    if !chars_eq(parts[0].as_slice(), version.as_slice()) {
        return false;
    }
    let (a, b) = trim_bounds(parts[2].as_slice());
    if a == b {
        return false;
    }
    let expires_at = match parse_i64_chars(parts[1].as_slice()) {
        Some(x) => x,
        None => {
            return false;
        },
    };
    if expires_at <= now_unix {
        return false;
    }
    let mut p: Vec<char> = Vec::new();
    p.extend_from_slice(parts[0].as_slice());
    p.push('.');
    p.extend_from_slice(parts[1].as_slice());
    p.push('.');
    p.extend_from_slice(parts[2].as_slice());
    let payload = string_of(p.as_slice());
    assert(payload@ =~= dot(dot(sp[0], sp[1]), sp[2]));
    let expected = sign_session(secret, payload.as_str());
    let signature = string_of(parts[3].as_slice());
    let ok = constant_time_eq(expected.as_str().as_bytes(), signature.as_str().as_bytes());
    proof {
        if ok {
            vstd::utf8::encode_utf8_decode_utf8(expected@);
            vstd::utf8::encode_utf8_decode_utf8(signature@);
        }
    }
    ok
}

// ---------------------------------------------------------------------
// Facts about tokens
// ---------------------------------------------------------------------

pub proof fn lemma_split_no_sep(s: Seq<char>, c: char)
    requires
        !s.contains(c),
    ensures
        split_on(s, c) == seq![s],
{
    lemma_first_index(s, c);
    if first_index(s, c) < s.len() {
        assert(s.contains(c));
    }
}

proof fn lemma_split_after(a: Seq<char>, b: Seq<char>, c: char)
    requires
        !a.contains(c),
    ensures
        split_on(a + seq![c] + b, c) == seq![a] + split_on(b, c),
{
    let s = a + seq![c] + b;
    assert forall|k: int| 0 <= k < a.len() implies s[k] != c by {
        assert(s[k] == a[k]);
        if a[k] == c {
            assert(a.contains(c));
        }
    }
    lemma_first_index_at(s, c, a.len() as int);
    assert(s.take(a.len() as int) =~= a);
    assert(s.skip(a.len() as int + 1) =~= b);
}

proof fn lemma_no_dot_in_text(n: int)
    requires
        i64::MIN <= n <= i64::MAX,
    ensures
        !int_text(n).contains('.'),
{
    lemma_parse_int_text(n as i64);
    if int_text(n).contains('.') {
        let i = choose|i: int| 0 <= i < int_text(n).len() && int_text(n)[i] == '.';
        assert(int_text(n)[i] == '-' || is_digit(int_text(n)[i]));
    }
}

proof fn lemma_no_dot_in_hex(b: Seq<u8>)
    ensures
        !hex_lower(b).contains('.'),
{
    lemma_hex_lower_shape(b);
    if hex_lower(b).contains('.') {
        let i = choose|i: int| 0 <= i < hex_lower(b).len() && hex_lower(b)[i] == '.';
        assert(is_lower_hex(hex_lower(b)[i]));
    }
}

proof fn lemma_not_blank(s: Seq<char>)
    requires
        s.len() > 0,
        !is_ws(s[0]),
    ensures
        !is_blank(s),
{
    assert(trim_start(s) == s);
    lemma_trim_end_keeps_first(s);
}

proof fn lemma_trim_end_keeps_first(s: Seq<char>)
    requires
        s.len() > 0,
        !is_ws(s[0]),
    ensures
        trim_end(s).len() > 0,
    decreases s.len(),
{
    if s.len() > 1 && is_ws(s.last()) {
        assert(s.drop_last()[0] == s[0]);
        lemma_trim_end_keeps_first(s.drop_last());
    }
}

/// A token made by `signed_token` with a nonce that holds no `.` and is not
/// blank is valid under its own secret exactly until its expiry.
pub proof fn lemma_signed_token_valid(secret: Seq<char>, expires_at: i64, nonce: Seq<char>, now: i64)
    requires
        uuid_text_shape(nonce),
    ensures
        session_valid(secret, signed_token(secret, expires_at as int, nonce), now) <==> now
            < expires_at,
{
    reveal_strlit("v1");
    let e = int_text(expires_at as int);
    let payload = session_payload(e, nonce);
    let sig = session_signature(secret, payload);
    let token = signed_token(secret, expires_at as int, nonce);
    assert(!version_tag().contains('.')) by {
        if version_tag().contains('.') {
            let i = choose|i: int| 0 <= i < version_tag().len() && version_tag()[i] == '.';
            assert(i == 0 || i == 1);
        }
    }
    lemma_no_dot_in_text(expires_at as int);
    assert(!nonce.contains('.')) by {
        if nonce.contains('.') {
            let i = choose|i: int| 0 <= i < nonce.len() && nonce[i] == '.';
            if i == 8 || i == 13 || i == 18 || i == 23 {
                assert(nonce[i] == '-');
            } else {
                assert(is_lower_hex(nonce[i]));
            }
        }
    }
    lemma_no_dot_in_hex(
        hmac_sha256_tag(encode_utf8(secret), encode_utf8(session_label()) + encode_utf8(payload)),
    );
    // token = v1 . e . nonce . sig
    assert(token =~= version_tag() + seq!['.'] + (e + seq!['.'] + (nonce + seq!['.'] + sig)));
    lemma_split_after(version_tag(), e + seq!['.'] + (nonce + seq!['.'] + sig), '.');
    lemma_split_after(e, nonce + seq!['.'] + sig, '.');
    lemma_split_after(nonce, sig, '.');
    lemma_split_no_sep(sig, '.');
    let parts = split_on(token, '.');
    assert(parts =~= seq![version_tag(), e, nonce, sig]);
    lemma_parse_int_text(expires_at);
    assert(is_lower_hex(nonce[0]));
    lemma_not_blank(nonce);
    assert(dot(dot(parts[0], parts[1]), parts[2]) =~= payload);
}

// ---------------------------------------------------------------------
// Cookies
// ---------------------------------------------------------------------

/// The value of the first `;`-separated cookie whose name is `name`: each
/// part is trimmed and split at its first `=`; parts without `=` are skipped.
pub open spec fn find_cookie(parts: Seq<Seq<char>>, name: Seq<char>) -> Option<Seq<char>>
    decreases parts.len(),
{
    if parts.len() == 0 {
        None
    } else {
        match split_once(trim(parts[0]), '=') {
            Some((key, value)) if key == name => Some(value),
            _ => find_cookie(parts.drop_first(), name),
        }
    }
}

pub open spec fn str_opt_view(h: Option<&str>) -> Option<Seq<char>> {
    match h {
        Some(s) => Some(s@),
        None => None,
    }
}

pub open spec fn cookie_value(header: Option<Seq<char>>, name: Seq<char>) -> Option<Seq<char>> {
    match header {
        None => None,
        Some(h) => find_cookie(split_on(h, ';'), name),
    }
}

/// The value of the cookie `name` in a `Cookie` header.
pub fn parse_cookie(header: Option<&str>, name: &str) -> (r: Option<String>)
    ensures
        r matches Some(v) ==> cookie_value(str_opt_view(header), name@) == Some(v@),
        r is None ==> cookie_value(str_opt_view(header), name@) is None,
{
    let h = match header {
        None => {
            return None;
        },
        Some(h) => h,
    };
    let v = chars_of(h);
    let name_chars = chars_of(name);
    let parts = split_chars(v.as_slice(), ';');
    let ghost sp = split_on(h@, ';');
    let mut i: usize = 0;
    assert(sp.skip(0) =~= sp);
    while i < parts.len()
        invariant
            i <= parts@.len(),
            name_chars@ == name@,
            str_opt_view(header) == Some(h@),
            sp == split_on(h@, ';'),
            parts@.len() == sp.len(),
            forall|k: int| 0 <= k < parts@.len() ==> #[trigger] parts@[k]@ == sp[k],
            find_cookie(sp, name_chars@) == find_cookie(sp.skip(i as int), name_chars@),
        decreases parts@.len() - i,
    {
        let part = parts[i].as_slice();
        let (a, b) = trim_bounds(part);
        let ghost t = part@.subrange(a as int, b as int);
        let eq = find_char_in(part, a, b, '=');
        let ghost rest = sp.skip(i as int);
        assert(rest[0] == sp[i as int]);
        assert(rest.drop_first() =~= sp.skip(i + 1));
        if eq < b {
            let key_len = eq - a;
            assert(t.take(key_len as int) =~= part@.subrange(a as int, eq as int));
            assert(t.skip(key_len + 1) =~= part@.subrange(eq + 1, b as int));
            if range_eq(part, a, eq, name_chars.as_slice()) {
                let value = string_of_range(part, eq + 1, b);
                assert(trim(rest[0]) == t);
                assert(split_once(t, '=') == Some((t.take(key_len as int), t.skip(key_len + 1))));
                assert(t.take(key_len as int) == name_chars@);
                assert(value@ == t.skip(key_len + 1));
                return Some(value);
            }
        }
        i = i + 1;
    }
    assert(sp.skip(i as int) =~= Seq::<Seq<char>>::empty());
    None
}

/// The index of the first `c` in `v[from..to]`, relative to `v`, or `to`.
fn find_char_in(v: &[char], from: usize, to: usize, c: char) -> (r: usize)
    requires
        from <= to <= v@.len(),
    ensures
        from <= r <= to,
        r - from == first_index(v@.subrange(from as int, to as int), c),
{
    let mut i: usize = from;
    while i < to && v[i] != c
        invariant
            from <= i <= to <= v@.len(),
            forall|k: int| from <= k < i ==> v@[k] != c,
        decreases to - i,
    {
        i = i + 1;
    }
    proof {
        let s = v@.subrange(from as int, to as int);
        assert forall|k: int| 0 <= k < i - from implies s[k] != c by {
            assert(s[k] == v@[from + k]);
        }
        lemma_first_index_at(s, c, i - from);
    }
    i
}

/// Whether `v[from..to]` equals `w`.
fn range_eq(v: &[char], from: usize, to: usize, w: &[char]) -> (r: bool)
    requires
        from <= to <= v@.len(),
    ensures
        r == (v@.subrange(from as int, to as int) == w@),
{
    if to - from != w.len() {
        return false;
    }
    let mut k: usize = 0;
    while k < w.len()
        invariant
            from + w@.len() == to <= v@.len(),
            k <= w@.len(),
            forall|m: int| 0 <= m < k ==> v@[from + m] == w@[m],
        decreases w@.len() - k,
    {
        if v[from + k] != w[k] {
            assert(v@.subrange(from as int, to as int)[k as int] != w@[k as int]);
            return false;
        }
        k = k + 1;
    }
    assert(v@.subrange(from as int, to as int) =~= w@);
    true
}

} // verus!
