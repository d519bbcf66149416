//! The cryptographic primitives and sources of chance and time that the
//! library calls, each behind a trusted item whose contract says what the
//! outside crate's source shows of it.
use argon2::password_hash::rand_core::OsRng;
use argon2::password_hash::{PasswordHash, PasswordHasher, PasswordVerifier, SaltString};
use argon2::Argon2;
use hmac::{Hmac, Mac};
use rand::RngCore;
use sha2::{Digest, Sha256};
use vstd::prelude::*;

verus! {

/// The lowercase hexadecimal digit for a value below sixteen.
pub open spec fn hex_digit(n: int) -> char {
    if n < 10 {
        (('0' as u32) as int + n) as char
    } else {
        (('a' as u32) as int + n - 10) as char
    }
}

/// Lowercase hexadecimal text of `bytes`: two digits per byte, high nibble first.
pub open spec fn hex_lower(bytes: Seq<u8>) -> Seq<char>
    decreases bytes.len(),
{
    if bytes.len() == 0 {
        Seq::empty()
    } else {
        seq![hex_digit(bytes[0] as int / 16), hex_digit(bytes[0] as int % 16)] + hex_lower(
            bytes.drop_first(),
        )
    }
}

pub open spec fn is_lower_hex(c: char) -> bool {
    ('0' <= c && c <= '9') || ('a' <= c && c <= 'f')
}

/// `hex::encode`: the lowercase hexadecimal text of `data`, two digits per
/// byte, high nibble first (`HEX_CHARS_LOWER` and `byte2hex` in the crate).
#[verifier::external_body]
pub(crate) fn hex_encode(data: &[u8]) -> (r: String)
    ensures
        r@ == hex_lower(data@),
{
    hex::encode(data)
}

/// HMAC-SHA-256 of `msg` under `key`.
pub uninterp spec fn hmac_sha256_tag(key: Seq<u8>, msg: Seq<u8>) -> Seq<u8>;

/// `Hmac::<Sha256>::new_from_slice(key)`, one `update(msg)`, `finalize`:
/// the tag is a function of the key and the message, and is 32 bytes long
/// (the output size of SHA-256). `new_from_slice` accepts a key of any
/// length (it hashes longer keys), so it never fails.
#[verifier::external_body]
pub(crate) fn hmac_sha256(key: &[u8], msg: &[u8]) -> (tag: Vec<u8>)
    ensures
        tag@ == hmac_sha256_tag(key@, msg@),
        tag@.len() == 32,
{
    let mut mac = <Hmac<Sha256> as Mac>::new_from_slice(key).expect("HMAC accepts any key size");
    mac.update(msg);
    mac.finalize().into_bytes().to_vec()
}

/// SHA-256 digest of `data`.
pub uninterp spec fn sha256_of(data: Seq<u8>) -> Seq<u8>;

/// `Sha256::new`, `update(data)`, `finalize`: the digest is a function of the
/// data, 32 bytes long.
#[verifier::external_body]
pub(crate) fn sha256_digest(data: &[u8]) -> (d: Vec<u8>)
    ensures
        d@ == sha256_of(data@),
        d@.len() == 32,
{
    let mut hasher = Sha256::new();
    hasher.update(data);
    hasher.finalize().to_vec()
}

/// Whether Argon2 (`Argon2::default()`) accepts `password` for the PHC hash
/// string `hash`.
pub uninterp spec fn argon2_accepts(hash: Seq<char>, password: Seq<u8>) -> bool;

/// `PasswordHash::new(hash)` then `Argon2::default().verify_password`: false
/// where the PHC string does not parse or the password does not match. The
/// answer depends on the hash string and the password alone (the salt and the
/// parameters are read from the string).
#[verifier::external_body]
pub(crate) fn argon2_verify(hash: &str, password: &[u8]) -> (ok: bool)
    ensures
        ok == argon2_accepts(hash@, password@),
{
    match PasswordHash::new(hash) {
        Ok(parsed) => Argon2::default().verify_password(password, &parsed).is_ok(),
        Err(_) => false,
    }
}

/// A character of the B64 encoding that PHC strings use (standard Base64
/// without padding).
pub open spec fn is_b64_char(c: char) -> bool {
    ||| 'A' <= c && c <= 'Z'
    ||| 'a' <= c && c <= 'z'
    ||| '0' <= c && c <= '9'
    ||| c == '+'
    ||| c == '/'
}

/// The algorithm, version and parameters that `Argon2::default()` writes at
/// the head of a PHC string: Argon2id, version 19, 19 MiB, 2 passes, 1 lane.
pub open spec fn argon2id_default_head() -> Seq<char> {
    "$argon2id$v=19$m=19456,t=2,p=1$"@
}

/// The PHC string of a default Argon2id hash: the head, the 16-byte salt in
/// B64 (22 characters), `$`, and the 32-byte hash in B64 (43 characters).
pub open spec fn argon2id_phc(h: Seq<char>) -> bool {
    &&& h.len() == 97
    &&& h.take(31) == argon2id_default_head()
    &&& h[53] == '$'
    &&& forall|i: int| 31 <= i < 97 && i != 53 ==> is_b64_char(#[trigger] h[i])
}

#[verifier::external_body]
pub(crate) fn argon2_hash(password: &[u8]) -> (r: Result<String, String>)
    ensures
        r is Ok <==> password@.len() <= 0xFFFF_FFFF,
        r matches Ok(h) ==> argon2_accepts(h@, password@) && argon2id_phc(h@),
{
    let salt = SaltString::generate(&mut OsRng);
    match Argon2::default().hash_password(password, &salt) {
        Ok(hash) => Ok(hash.to_string()),
        Err(error) => Err(error.to_string()),
    }
}

/// `rand::thread_rng().fill_bytes` on a 32-byte buffer: 32 random bytes.
#[verifier::external_body]
pub(crate) fn random_bytes_32() -> (r: Vec<u8>)
    ensures
        r@.len() == 32,
{
    let mut bytes = [0u8;32];
    rand::thread_rng().fill_bytes(&mut bytes);
    bytes.to_vec()
}

/// The text shape of a UUID in hyphenated lowercase form:
/// 8-4-4-4-12 lowercase hex digits.
pub open spec fn uuid_text_shape(s: Seq<char>) -> bool {
    &&& s.len() == 36
    &&& forall|i: int|
        0 <= i < 36 ==> if i == 8 || i == 13 || i == 18 || i == 23 {
            #[trigger] s[i] == '-'
        } else {
            is_lower_hex(s[i])
        }
}

/// `Uuid::new_v4().to_string()`: random, written by `format_hyphenated` as 36
/// characters, lowercase hex digits with `-` at 8, 13, 18 and 23. `new_v4`
/// masks in the version (`4`, the digit at 14) and the RFC 4122 variant (the
/// digit at 19 is `8`, `9`, `a` or `b`).
#[verifier::external_body]
pub(crate) fn uuid_v4_text() -> (r: String)
    ensures
        uuid_text_shape(r@),
        r@[14] == '4',
        r@[19] == '8' || r@[19] == '9' || r@[19] == 'a' || r@[19] == 'b',
{
    uuid::Uuid::new_v4().to_string()
}

/// `chrono::Utc::now().timestamp()`: the current Unix time in seconds.
#[verifier::external_body]
pub(crate) fn now_timestamp() -> (r: i64) {
    chrono::Utc::now().timestamp()
}

/// Whether `t[i]` is a decimal digit.
pub open spec fn digit_at(t: Seq<char>, i: int) -> bool {
    '0' <= t[i] && t[i] <= '9'
}

/// How RFC 3339 text in UTC with microseconds ends, whatever the date:
/// `.`, six digits, `Z`.
pub open spec fn ends_in_micros_utc(t: Seq<char>) -> bool {
    &&& t.len() >= 8
    &&& t[t.len() - 8] == '.'
    &&& forall|i: int| t.len() - 7 <= i < t.len() - 1 ==> digit_at(t, i)
    &&& t.last() == 'Z'
}

/// RFC 3339 text in UTC with microseconds as `write_rfc3339` writes it:
/// `YYYY-MM-DDTHH:MM:SS.ffffffZ` for a year from 0 to 9999; for any other
/// year, a sign, the year, and the same ending.
pub open spec fn rfc3339_micros_utc(t: Seq<char>) -> bool {
    ||| {
        &&& t.len() == 27
        &&& digit_at(t, 0) && digit_at(t, 1) && digit_at(t, 2) && digit_at(t, 3)
        &&& t[4] == '-' && digit_at(t, 5) && digit_at(t, 6)
        &&& t[7] == '-' && digit_at(t, 8) && digit_at(t, 9)
        &&& t[10] == 'T' && digit_at(t, 11) && digit_at(t, 12)
        &&& t[13] == ':' && digit_at(t, 14) && digit_at(t, 15)
        &&& t[16] == ':' && digit_at(t, 17) && digit_at(t, 18)
        &&& ends_in_micros_utc(t)
    }
    ||| {
        &&& t.len() > 0
        &&& (t[0] == '+' || t[0] == '-')
        &&& ends_in_micros_utc(t)
    }
}

/// `chrono::Utc::now().to_rfc3339_opts(SecondsFormat::Micros, true)`: the
/// current time as RFC 3339 text. `write_rfc3339` writes the year (four
/// digits for 0 to 9999, else with its sign), `-`, month, `-`, day, `T`,
/// hour, `:`, minute, `:`, second (two digits each), `.` and the
/// microseconds as six digits (`{:06}` of a value below a million), then
/// `Z` for the UTC offset. Which time it is rests on the clock.
#[verifier::external_body]
pub(crate) fn now_rfc3339_micros() -> (r: String)
    ensures
        rfc3339_micros_utc(r@),
{
    chrono::Utc::now().to_rfc3339_opts(chrono::SecondsFormat::Micros, true)
}

/// Lowercase hex text has two characters per byte, each a lowercase hex digit.
pub proof fn lemma_hex_lower_shape(bytes: Seq<u8>)
    ensures
        hex_lower(bytes).len() == 2 * bytes.len(),
        forall|i: int| 0 <= i < hex_lower(bytes).len() ==> is_lower_hex(#[trigger] hex_lower(bytes)[i]),
    decreases bytes.len(),
{
    if bytes.len() > 0 {
        lemma_hex_lower_shape(bytes.drop_first());
        let h = hex_lower(bytes);
        let t = hex_lower(bytes.drop_first());
        let b = bytes[0] as int;
        assert(0 <= b / 16 < 16 && 0 <= b % 16 < 16);
        assert forall|i: int| 0 <= i < h.len() implies is_lower_hex(#[trigger] h[i]) by {
            if i >= 2 {
                assert(h[i] == t[i - 2]);
            } else {
                let n = if i == 0 { b / 16 } else { b % 16 };
                assert(h[i] == hex_digit(n));
                if n < 10 {
                    assert((((48 + n) as char) as u32) as int == 48 + n);
                } else {
                    assert((((97 + n - 10) as char) as u32) as int == 97 + n - 10);
                }
            }
        }
    }
}

} // verus!
