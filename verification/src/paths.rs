//! Where things live: the Cockpit Tools data, the Codex home, the Codex app,
//! this tool's own configuration, and the Keychain entry Codex reads.
use crate::crypto::{hex_encode, hex_lower, lemma_hex_lower_shape, sha256_digest, sha256_of};
use crate::json::{obj_get, JsonValue, JsonView};
use crate::text::{
    chars_of, concat2, copy_str, find_str, find_sub, i64_text, int_text, is_blank,
    lemma_find_sub_at, lemma_find_sub_bounds, lemma_find_sub_first, nat_text, occurs_at, string_of,
    string_of_range, trim, trim_bounds, u64_text,
};
use vstd::prelude::*;
use vstd::utf8::encode_utf8;

verus! {

// ---------------------------------------------------------------------
// Joining paths
// ---------------------------------------------------------------------

/// `PathBuf::join` on Unix: an absolute `comp` replaces `base`; otherwise
/// `comp` is appended, with a `/` unless `base` is empty or already ends in one.
pub open spec fn path_join(base: Seq<char>, comp: Seq<char>) -> Seq<char> {
    if comp.len() > 0 && comp[0] == '/' {
        comp
    } else if base.len() == 0 || base.last() == '/' {
        base + comp
    } else {
        base + seq!['/'] + comp
    }
}

/// `base` joined with `comp`.
pub fn join_path(base: &str, comp: &str) -> (r: String)
    ensures
        r@ == path_join(base@, comp@),
{
    let b = chars_of(base);
    let c = chars_of(comp);
    if c.len() > 0 && c[0] == '/' {
        return copy_str(comp);
    }
    if b.len() == 0 || b[b.len() - 1] == '/' {
        return concat2(base, comp);
    }
    let with_sep = concat2(base, "/");
    proof {
        reveal_strlit("/");
    }
    let r = concat2(with_sep.as_str(), comp);
    assert(r@ =~= base@ + seq!['/'] + comp@);
    r
}

// ---------------------------------------------------------------------
// Resolved paths
// ---------------------------------------------------------------------

/// The paths the switcher reads and writes.
#[derive(Debug, Clone)]
pub struct ResolvedPaths {
    pub home: String,
    pub ct_data_dir: String,
    pub account_index_path: String,
    pub accounts_dir: String,
    pub codex_home: String,
    pub codex_app_path: String,
}

/// The Codex app that Cockpit Tools' `config.json` names: its
/// `codex_app_path`, trimmed, when that is a string that is not empty.
pub open spec fn configured_app_path(config: Option<JsonView>) -> Option<Seq<char>> {
    match config {
        Some(c) => match obj_get(c, "codex_app_path"@) {
            Some(JsonView::Str(s)) => if trim(s).len() > 0 {
                Some(trim(s))
            } else {
                None
            },
            _ => None,
        },
        None => None,
    }
}

pub open spec fn opt_json(config: Option<&JsonValue>) -> Option<JsonView> {
    match config {
        Some(c) => Some(c@),
        None => None,
    }
}

impl ResolvedPaths {
    /// The paths for a home directory and a Codex home; `ct_config` is
    /// Cockpit Tools' `config.json` where it could be read and parsed, and
    /// names the Codex app (`/Applications/Codex.app` otherwise).
    pub fn from_home_and_codex_home(home: String, codex_home: String, ct_config: Option<&JsonValue>) -> (r: Self)
        ensures
            r.home@ == home@,
            r.ct_data_dir@ == path_join(home@, ".antigravity_cockpit"@),
            r.account_index_path@ == path_join(r.ct_data_dir@, "codex_accounts.json"@),
            r.accounts_dir@ == path_join(r.ct_data_dir@, "codex_accounts"@),
            r.codex_home@ == codex_home@,
            r.codex_app_path@ == match configured_app_path(opt_json(ct_config)) {
                Some(p) => p,
                None => "/Applications/Codex.app"@,
            },
    {
        let ct_data_dir = join_path(home.as_str(), ".antigravity_cockpit");
        let account_index_path = join_path(ct_data_dir.as_str(), "codex_accounts.json");
        let accounts_dir = join_path(ct_data_dir.as_str(), "codex_accounts");
        let codex_app_path = match codex_app_path_from_config(ct_config) {
            Some(p) => p,
            None => copy_str("/Applications/Codex.app"),
        };
        ResolvedPaths { home, ct_data_dir, account_index_path, accounts_dir, codex_home, codex_app_path }
    }

    /// The path of Cockpit Tools' `config.json` under `home`.
    pub fn ct_config_path(home: &str) -> (r: String)
        ensures
            r@ == path_join(path_join(home@, ".antigravity_cockpit"@), "config.json"@),
    {
        let dir = join_path(home, ".antigravity_cockpit");
        join_path(dir.as_str(), "config.json")
    }

    /// The account file of `account_id`.
    pub fn account_file(&self, account_id: &str) -> (r: String)
        ensures
            r@ == path_join(self.accounts_dir@, account_id@ + ".json"@),
    {
        let name = concat2(account_id, ".json");
        join_path(self.accounts_dir.as_str(), name.as_str())
    }
}

impl ResolvedPaths {
    /// The file `name` in the Codex home.
    pub fn codex_file(&self, name: &str) -> (r: String)
        ensures
            r@ == path_join(self.codex_home@, name@),
    {
        join_path(self.codex_home.as_str(), name)
    }

    /// The files a switch to `account_id` may change, whose contents are
    /// kept before it starts: the Codex home's `auth.json`, projection
    /// record and `config.toml`, the account index, and the account's file.
    pub fn rollback_files(&self, account_id: &str) -> (r: Vec<String>)
        ensures
            r@.len() == 5,
            r@[0]@ == path_join(self.codex_home@, "auth.json"@),
            r@[1]@ == path_join(self.codex_home@, ".cockpit_codex_auth.json"@),
            r@[2]@ == path_join(self.codex_home@, "config.toml"@),
            r@[3]@ == self.account_index_path@,
            r@[4]@ == path_join(self.accounts_dir@, account_id@ + ".json"@),
    {
        let mut r: Vec<String> = Vec::new();
        r.push(self.codex_file("auth.json"));
        r.push(self.codex_file(".cockpit_codex_auth.json"));
        r.push(self.codex_file("config.toml"));
        r.push(copy_str(self.account_index_path.as_str()));
        r.push(self.account_file(account_id));
        r
    }

    /// The backup directory of a switch made at `stamp`
    /// (`%Y%m%d-%H%M%S`): `~/.ct-codex-bridge/backups/{stamp}`.
    pub fn backup_dir(&self, stamp: &str) -> (r: String)
        ensures
            r@ == path_join(path_join(path_join(self.home@, ".ct-codex-bridge"@), "backups"@), stamp@),
    {
        let a = join_path(self.home.as_str(), ".ct-codex-bridge");
        let b = join_path(a.as_str(), "backups");
        join_path(b.as_str(), stamp)
    }

    /// What a backup copies, where it exists, into `backup_dir`: the Codex
    /// `auth.json` as `codex-auth.json`, the projection record as
    /// `cockpit-codex-auth.json`, and the account index as
    /// `codex_accounts.json`; each pair is (from, to).
    pub fn backup_copies(&self, backup_dir: &str) -> (r: Vec<(String, String)>)
        ensures
            r@.len() == 3,
            r@[0].0@ == path_join(self.codex_home@, "auth.json"@),
            r@[0].1@ == path_join(backup_dir@, "codex-auth.json"@),
            r@[1].0@ == path_join(self.codex_home@, ".cockpit_codex_auth.json"@),
            r@[1].1@ == path_join(backup_dir@, "cockpit-codex-auth.json"@),
            r@[2].0@ == self.account_index_path@,
            r@[2].1@ == path_join(backup_dir@, "codex_accounts.json"@),
    {
        let mut r: Vec<(String, String)> = Vec::new();
        r.push((self.codex_file("auth.json"), join_path(backup_dir, "codex-auth.json")));
        r.push(
            (
                self.codex_file(".cockpit_codex_auth.json"),
                join_path(backup_dir, "cockpit-codex-auth.json"),
            ),
        );
        r.push(
            (copy_str(self.account_index_path.as_str()), join_path(backup_dir, "codex_accounts.json")),
        );
        r
    }
}

/// The Codex app that Cockpit Tools' configuration names.
pub fn codex_app_path_from_config(config: Option<&JsonValue>) -> (r: Option<String>)
    ensures
        r.deep_view() == configured_app_path(opt_json(config)),
{
    let c = match config {
        Some(c) => c,
        None => {
            return None;
        },
    };
    match c.get("codex_app_path") {
        Some(JsonValue::Str(s)) => {
            let v = chars_of(s.as_str());
            let (a, b) = trim_bounds(v.as_slice());
            if a == b {
                None
            } else {
                Some(string_of_range(v.as_slice(), a, b))
            }
        },
        _ => None,
    }
}

// ---------------------------------------------------------------------
// The Codex home
// ---------------------------------------------------------------------

pub open spec fn strip_start(s: Seq<char>, c: char) -> Seq<char>
    decreases s.len(),
{
    if s.len() > 0 && s[0] == c {
        strip_start(s.drop_first(), c)
    } else {
        s
    }
}

pub open spec fn strip_end(s: Seq<char>, c: char) -> Seq<char>
    decreases s.len(),
{
    if s.len() > 0 && s.last() == c {
        strip_end(s.drop_last(), c)
    } else {
        s
    }
}

/// `str::trim_matches(c)`: every leading and trailing `c` removed.
pub open spec fn strip(s: Seq<char>, c: char) -> Seq<char> {
    strip_end(strip_start(s, c), c)
}

/// `CODEX_HOME` as given: trimmed, with surrounding double and then single
/// quotes stripped, trimmed again.
pub open spec fn unquoted(raw: Seq<char>) -> Seq<char> {
    trim(strip(strip(trim(raw), '"'), '\''))
}

/// The Codex home: `CODEX_HOME` (as `env`) unquoted where that leaves
/// something, else `.codex` under `home`.
pub open spec fn codex_home_for(env: Option<Seq<char>>, home: Seq<char>) -> Seq<char> {
    match env {
        Some(raw) => if unquoted(raw).len() > 0 {
            unquoted(raw)
        } else {
            path_join(home, ".codex"@)
        },
        None => path_join(home, ".codex"@),
    }
}

/// `v` with every trailing `c` removed.
pub fn strip_end_chars(v: &[char], c: char) -> (r: Vec<char>)
    ensures
        r@ == strip_end(v@, c),
{
    let n = v.len();
    let mut j: usize = n;
    assert(v@.subrange(0, n as int) =~= v@);
    while j > 0 && v[j - 1] == c
        invariant
            n == v@.len(),
            j <= n,
            strip_end(v@, c) == strip_end(v@.subrange(0, j as int), c),
        decreases j,
    {
        assert(v@.subrange(0, j as int).drop_last() =~= v@.subrange(0, j - 1));
        j = j - 1;
    }
    let mut r: Vec<char> = Vec::new();
    let mut k: usize = 0;
    while k < j
        invariant
            k <= j <= n == v@.len(),
            r@ == v@.subrange(0, k as int),
        decreases j - k,
    {
        r.push(v[k]);
        assert(v@.subrange(0, k + 1) =~= v@.subrange(0, k as int).push(v@[k as int]));
        k = k + 1;
    }
    r
}

/// `v` with every leading and trailing `c` removed.
pub fn strip_chars(v: &[char], c: char) -> (r: Vec<char>)
    ensures
        r@ == strip(v@, c),
{
    let n = v.len();
    let mut i: usize = 0;
    assert(v@.skip(0) =~= v@);
    while i < n && v[i] == c
        invariant
            n == v@.len(),
            i <= n,
            strip_start(v@, c) == strip_start(v@.skip(i as int), c),
        decreases n - i,
    {
        assert(v@.skip(i as int).drop_first() =~= v@.skip(i + 1));
        i = i + 1;
    }
    assert(strip_start(v@.skip(i as int), c) == v@.skip(i as int));
    let ghost t = v@.skip(i as int);
    let mut j: usize = n;
    assert(v@.subrange(i as int, n as int) =~= t);
    while j > i && v[j - 1] == c
        invariant
            n == v@.len(),
            i <= j <= n,
            t == v@.skip(i as int),
            strip_end(t, c) == strip_end(v@.subrange(i as int, j as int), c),
        decreases j - i,
    {
        assert(v@.subrange(i as int, j as int).drop_last() =~= v@.subrange(i as int, j - 1));
        j = j - 1;
    }
    assert(strip_end(v@.subrange(i as int, j as int), c) == v@.subrange(i as int, j as int));
    let mut r: Vec<char> = Vec::new();
    let mut k: usize = i;
    while k < j
        invariant
            i <= k <= j <= n == v@.len(),
            r@ == v@.subrange(i as int, k as int),
        decreases j - k,
    {
        r.push(v[k]);
        assert(v@.subrange(i as int, k + 1) =~= v@.subrange(i as int, k as int).push(v@[k as int]));
        k = k + 1;
    }
    r
}

fn trim_chars(v: &[char]) -> (r: Vec<char>)
    ensures
        r@ == trim(v@),
{
    let (a, b) = trim_bounds(v);
    let mut r: Vec<char> = Vec::new();
    let mut k: usize = a;
    while k < b
        invariant
            a <= k <= b <= v@.len(),
            r@ == v@.subrange(a as int, k as int),
        decreases b - k,
    {
        r.push(v[k]);
        assert(v@.subrange(a as int, k + 1) =~= v@.subrange(a as int, k as int).push(v@[k as int]));
        k = k + 1;
    }
    r
}

/// The Codex home for the value of `CODEX_HOME` (where it is set and valid
/// Unicode) and the home directory.
pub fn resolve_codex_home(env: Option<&str>, home: &str) -> (r: String)
    ensures
        r@ == codex_home_for(crate::auth::str_opt_view(env), home@),
{
    if let Some(raw) = env {
        let v = chars_of(raw);
        let t1 = trim_chars(v.as_slice());
        let t2 = strip_chars(t1.as_slice(), '"');
        let t3 = strip_chars(t2.as_slice(), '\'');
        let t4 = trim_chars(t3.as_slice());
        if t4.len() > 0 {
            return string_of(t4.as_slice());
        }
    }
    join_path(home, ".codex")
}

// ---------------------------------------------------------------------
// The Codex app bundle
// ---------------------------------------------------------------------

/// The bundle root of a path inside a macOS app: the path up to and including
/// the first `.app`.
pub open spec fn app_root_of(path: Seq<char>) -> Option<Seq<char>> {
    let i = find_sub(path, ".app"@);
    if i < path.len() {
        Some(path.take(i + 4))
    } else {
        None
    }
}

/// A path has a bundle root exactly where `.app` occurs in it, and the root
/// of a root is itself: cutting after the first `.app` twice cuts once.
pub proof fn lemma_app_root_idempotent(path: Seq<char>)
    ensures
        app_root_of(path) is None <==> forall|k: int| 0 <= k < path.len() ==> !occurs_at(path, ".app"@, k),
        app_root_of(path) matches Some(root) ==> app_root_of(root) == Some(root),
{
    reveal_strlit(".app");
    let pat = ".app"@;
    let i = find_sub(path, pat);
    lemma_find_sub_bounds(path, pat);
    if i < path.len() {
        let root = path.take(i + 4);
        assert forall|k: int| 0 <= k < i implies !occurs_at(root, pat, k) by {
            lemma_find_sub_first(path, pat, k);
            if k + 4 <= root.len() {
                assert(root.subrange(k, k + 4) =~= path.subrange(k, k + 4));
            }
        }
        assert(root.subrange(i, i + 4) =~= path.subrange(i, i + 4));
        lemma_find_sub_at(root, pat, i);
        assert(root.take(i + 4) =~= root);
    } else {
        assert forall|k: int| 0 <= k < path.len() implies !occurs_at(path, pat, k) by {
            lemma_find_sub_first(path, pat, k);
        }
    }
}

/// The bundle root of a path inside a macOS app.
pub fn normalize_macos_app_root(path: &str) -> (r: Option<String>)
    ensures
        r.deep_view() == app_root_of(path@),
{
    proof {
        reveal_strlit(".app");
    }
    let v = chars_of(path);
    let pat = chars_of(".app");
    let i = find_str(v.as_slice(), pat.as_slice());
    if i < v.len() {
        proof {
            crate::text::lemma_find_sub_bounds(v@, pat@);
        }
        Some(string_of_range(v.as_slice(), 0, i + 4))
    } else {
        None
    }
}

// ---------------------------------------------------------------------
// The Keychain entry
// ---------------------------------------------------------------------

/// The Keychain account under which Codex keeps its login for a Codex home
/// whose canonical path is `resolved`: `cli|` and the first 16 hex digits of
/// the SHA-256 of the path's UTF-8 bytes.
pub open spec fn keychain_account_for(resolved: Seq<char>) -> Seq<char> {
    "cli|"@ + hex_lower(sha256_of(encode_utf8(resolved))).take(16)
}

/// The Keychain account for a Codex home whose canonical path (or the path
/// itself, where it cannot be resolved) is `resolved`.
pub fn codex_keychain_account(resolved: &str) -> (r: String)
    ensures
        r@ == keychain_account_for(resolved@),
        r@.len() == 20,
{
    let digest = sha256_digest(resolved.as_bytes());
    let hex = hex_encode(digest.as_slice());
    proof {
        lemma_hex_lower_shape(digest@);
        reveal_strlit("cli|");
    }
    let hv = chars_of(hex.as_str());
    let prefix = string_of_range(hv.as_slice(), 0, 16);
    concat2("cli|", prefix.as_str())
}

/// The Keychain secret as `security find-generic-password -w` prints it:
/// its output with every trailing newline removed.
pub fn keychain_secret_from_output(stdout: &str) -> (r: String)
    ensures
        r@ == strip_end(stdout@, '\n'),
{
    let v = chars_of(stdout);
    let t = strip_end_chars(v.as_slice(), '\n');
    string_of(t.as_slice())
}

// ---------------------------------------------------------------------
// Atomic writes
// ---------------------------------------------------------------------

/// The name of the temporary file an atomic write of `file_name` goes
/// through before it is renamed into place:
/// `.{file_name}.tmp.{pid}.{nanos}`.
pub open spec fn temp_name_of(file_name: Seq<char>, pid: u32, nanos: i64) -> Seq<char> {
    "."@ + file_name + ".tmp."@ + int_text(pid as int) + "."@ + int_text(nanos as int)
}

/// The temporary file name for an atomic write of `file_name` by process
/// `pid` at `nanos` nanoseconds since the epoch.
pub fn atomic_temp_name(file_name: &str, pid: u32, nanos: i64) -> (r: String)
    ensures
        r@ == temp_name_of(file_name@, pid, nanos),
{
    let a = concat2(".", file_name);
    let a = concat2(a.as_str(), ".tmp.");
    let p = u64_text(pid as u64);
    let p = string_of(p.as_slice());
    let a = concat2(a.as_str(), p.as_str());
    let a = concat2(a.as_str(), ".");
    let n = i64_text(nanos);
    let n = string_of(n.as_slice());
    let r = concat2(a.as_str(), n.as_str());
    proof {
        assert(int_text(pid as int) == nat_text(pid as nat));
    }
    assert(r@ =~= temp_name_of(file_name@, pid, nanos));
    r
}

} // verus!
