//! This tool's own configuration: the panel password's hash and the secret
//! that signs sessions, and where they are kept.
use crate::paths::{join_path, path_join};
use crate::text::{blank, copy_str, is_blank};
use vstd::prelude::*;

verus! {

broadcast use vstd::string::group_string_axioms;

/// This tool's own settings: the panel password's Argon2 hash and the secret
/// that signs session cookies.
#[derive(Debug, Clone)]
pub struct BridgeConfig {
    pub password_hash: Option<String>,
    pub session_secret: Option<String>,
}

impl Default for BridgeConfig {
    /// No password and no session secret.
    fn default() -> (c: Self)
        ensures
            c.password_hash is None,
            c.session_secret is None,
    {
        BridgeConfig { password_hash: None, session_secret: None }
    }
}

impl BridgeConfig {
    /// The configuration that the stored file's `content` gives without
    /// parsing it: the default where there is no file (`None`) or the file
    /// is blank; `None` where the content has to be parsed.
    pub fn unparsed_default(content: Option<&str>) -> (r: Option<BridgeConfig>)
        ensures
            match content {
                None => (r matches Some(c) && c.password_hash is None && c.session_secret is None),
                Some(t) => if is_blank(t@) {
                    (r matches Some(c) && c.password_hash is None && c.session_secret is None)
                } else {
                    r is None
                },
            },
    {
        match content {
            None => Some(BridgeConfig::default()),
            Some(t) => if blank(t) {
                Some(BridgeConfig::default())
            } else {
                None
            },
        }
    }
}

// ---------------------------------------------------------------------
// This tool's own configuration
// ---------------------------------------------------------------------

/// `~/.ct-codex-bridge` for the home directory; the error where there is none.
pub fn config_dir(home: Option<&str>) -> (r: Result<String, String>)
    ensures
        match home {
            Some(h) => r matches Ok(d) && d@ == path_join(h@, ".ct-codex-bridge"@),
            None => r matches Err(e) && e@ == "unable to resolve home directory"@,
        },
{
    match home {
        Some(h) => Ok(join_path(h, ".ct-codex-bridge")),
        None => Err(copy_str("unable to resolve home directory")),
    }
}

/// `~/.ct-codex-bridge/config.json` for the home directory.
pub fn config_path(home: Option<&str>) -> (r: Result<String, String>)
    ensures
        match home {
            Some(h) => r matches Ok(p) && p@ == path_join(
                path_join(h@, ".ct-codex-bridge"@),
                "config.json"@,
            ),
            None => r matches Err(e) && e@ == "unable to resolve home directory"@,
        },
{
    let dir = config_dir(home)?;
    Ok(join_path(dir.as_str(), "config.json"))
}

} // verus!
