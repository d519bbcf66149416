//! What the panel reports about this machine: where things are, whether the
//! Codex app is installed and running, and which account Codex was last
//! given.
use crate::paths::{app_root_of, codex_keychain_account, keychain_account_for, ResolvedPaths};
use crate::switch::ManagedProjection;
use crate::text::copy_str;
use vstd::prelude::*;

verus! {

/// The state of the Codex side as the panel shows it.
#[derive(Debug, Clone)]
pub struct StatusResponse {
    pub codex_home: String,
    pub ct_data_dir: String,
    pub codex_app_path: String,
    pub codex_app_exists: bool,
    pub codex_running: bool,
    pub current_projection: Option<ManagedProjection>,
    pub keychain_account: String,
    pub keychain_entry_present: bool,
}

/// The path whose existence says whether the Codex app is installed: the
/// bundle root of the configured app path, or the path itself where it names
/// no `.app`.
pub open spec fn app_probe_of(app_path: Seq<char>) -> Seq<char> {
    match app_root_of(app_path) {
        Some(root) => root,
        None => app_path,
    }
}

/// The path to test for the Codex app's presence.
pub fn app_probe_path(paths: &ResolvedPaths) -> (r: String)
    ensures
        r@ == app_probe_of(paths.codex_app_path@),
{
    match crate::paths::normalize_macos_app_root(paths.codex_app_path.as_str()) {
        Some(root) => root,
        None => copy_str(paths.codex_app_path.as_str()),
    }
}

/// Whether a listing of Codex processes shows one running: it succeeded and
/// found at least one.
pub open spec fn running_from(pids: Result<Seq<u32>, Seq<char>>) -> bool {
    pids matches Ok(p) && p.len() > 0
}

pub open spec fn pids_view(pids: Result<Vec<u32>, String>) -> Result<Seq<u32>, Seq<char>> {
    match pids {
        Ok(p) => Ok(p@),
        Err(e) => Err(e@),
    }
}

/// The status report, from what was found on this machine: the managed
/// projection file as read (an error where it could not be read or
/// parsed, which the report shows as none), whether the app's probe path
/// exists, the Codex processes as listed, the canonical path of the Codex
/// home, and whether the Keychain holds an entry for its account.
pub fn status(
    paths: &ResolvedPaths,
    projection: Result<Option<ManagedProjection>, String>,
    app_probe_exists: bool,
    pids: Result<Vec<u32>, String>,
    resolved_codex_home: &str,
    keychain_entry_present: bool,
) -> (r: StatusResponse)
    ensures
        r.codex_home@ == paths.codex_home@,
        r.ct_data_dir@ == paths.ct_data_dir@,
        r.codex_app_path@ == paths.codex_app_path@,
        r.codex_app_exists == app_probe_exists,
        r.codex_running == running_from(pids_view(pids)),
        r.current_projection == match projection {
            Ok(p) => p,
            Err(_) => None,
        },
        r.keychain_account@ == keychain_account_for(resolved_codex_home@),
        r.keychain_entry_present == keychain_entry_present,
{
    let current_projection = match projection {
        Ok(p) => p,
        Err(_) => None,
    };
    let codex_running = match &pids {
        Ok(p) => p.len() > 0,
        Err(_) => false,
    };
    StatusResponse {
        codex_home: copy_str(paths.codex_home.as_str()),
        ct_data_dir: copy_str(paths.ct_data_dir.as_str()),
        codex_app_path: copy_str(paths.codex_app_path.as_str()),
        codex_app_exists: app_probe_exists,
        codex_running,
        current_projection,
        keychain_account: codex_keychain_account(resolved_codex_home),
        keychain_entry_present,
    }
}

} // verus!
