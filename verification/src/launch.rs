//! Setting up the panel on a Mac: the password rules, where the service
//! binary and its LaunchAgent go, and the LaunchAgent's property list.
use crate::config::config_dir;
use crate::paths::{join_path, path_join};
use crate::text::{occurs_at, chars_of, concat2, copy_str, string_of, str_eq, trim, trim_str};
use vstd::prelude::*;
use vstd::utf8::encode_utf8;

verus! {

broadcast use vstd::string::group_string_axioms;

// ---------------------------------------------------------------------
// The panel password
// ---------------------------------------------------------------------

/// The fewest bytes a panel password has once trimmed.
pub const MIN_PASSWORD_BYTES: usize = 6;

/// A new panel password is refused where, trimmed, it is shorter than six
/// bytes of UTF-8.
pub fn check_new_password(password: &str) -> (r: Result<(), String>)
    ensures
        r is Ok <==> encode_utf8(trim(password@)).len() >= 6,
        r matches Err(e) ==> e@ == "password must be at least 6 characters"@,
{
    let t = trim_str(password);
    let n = t.as_str().as_bytes().len();
    if n < MIN_PASSWORD_BYTES {
        Err(copy_str("password must be at least 6 characters"))
    } else {
        Ok(())
    }
}

/// A password typed at the prompt must be typed the same way twice.
pub fn confirm_password(first: &str, second: &str) -> (r: Result<(), String>)
    ensures
        r is Ok <==> first@ == second@,
        r matches Err(e) ==> e@ == "passwords do not match"@,
{
    if str_eq(first, second) {
        Ok(())
    } else {
        Err(copy_str("passwords do not match"))
    }
}

// ---------------------------------------------------------------------
// Where the service lives
// ---------------------------------------------------------------------

/// `~/Library/LaunchAgents/com.ct-codex-bridge.plist`; the error where there
/// is no home directory.
pub fn launch_agent_path(home: Option<&str>) -> (r: Result<String, String>)
    ensures
        match home {
            Some(h) => (r matches Ok(p) && p@ == path_join(
                path_join(path_join(h@, "Library"@), "LaunchAgents"@),
                "com.ct-codex-bridge.plist"@,
            )),
            None => (r matches Err(e) && e@ == "unable to resolve home directory"@),
        },
{
    match home {
        Some(h) => {
            let a = join_path(h, "Library");
            let b = join_path(a.as_str(), "LaunchAgents");
            Ok(join_path(b.as_str(), "com.ct-codex-bridge.plist"))
        },
        None => Err(copy_str("unable to resolve home directory")),
    }
}

/// Where the installed service binary goes: `bin/ct-codex-bridge` under the
/// configuration directory.
pub fn service_binary_path(home: Option<&str>) -> (r: Result<String, String>)
    ensures
        match home {
            Some(h) => (r matches Ok(p) && p@ == path_join(
                path_join(path_join(h@, ".ct-codex-bridge"@), "bin"@),
                "ct-codex-bridge"@,
            )),
            None => (r matches Err(e) && e@ == "unable to resolve home directory"@),
        },
{
    let dir = config_dir(home)?;
    let bin = join_path(dir.as_str(), "bin");
    Ok(join_path(bin.as_str(), "ct-codex-bridge"))
}

/// The service's log directory and its standard output and error logs:
/// `logs`, `logs/launchd.out.log` and `logs/launchd.err.log` under the
/// configuration directory.
pub fn launch_log_paths(home: Option<&str>) -> (r: Result<(String, String, String), String>)
    ensures
        match home {
            Some(h) => (r matches Ok((dir, out, err)) && dir@ == path_join(
                path_join(h@, ".ct-codex-bridge"@),
                "logs"@,
            ) && out@ == path_join(dir@, "launchd.out.log"@) && err@ == path_join(
                dir@,
                "launchd.err.log"@,
            )),
            None => (r matches Err(e) && e@ == "unable to resolve home directory"@),
        },
{
    let dir = config_dir(home)?;
    let logs = join_path(dir.as_str(), "logs");
    let out = join_path(logs.as_str(), "launchd.out.log");
    let err = join_path(logs.as_str(), "launchd.err.log");
    Ok((logs, out, err))
}

// ---------------------------------------------------------------------
// XML escaping
// ---------------------------------------------------------------------

/// The XML text for one character: the five special characters become
/// entities, every other stays as it is.
pub open spec fn xml_char(c: char) -> Seq<char> {
    if c == '&' {
        "&amp;"@
    } else if c == '<' {
        "&lt;"@
    } else if c == '>' {
        "&gt;"@
    } else if c == '"' {
        "&quot;"@
    } else if c == '\'' {
        "&apos;"@
    } else {
        seq![c]
    }
}

/// `s` with each character replaced by its XML text.
pub open spec fn xml_escaped(s: Seq<char>) -> Seq<char>
    decreases s.len(),
{
    if s.len() == 0 {
        Seq::empty()
    } else {
        xml_escaped(s.drop_last()) + xml_char(s.last())
    }
}

/// `value` escaped for an XML text node or attribute.
pub fn escape_xml(value: &str) -> (r: String)
    ensures
        r@ == xml_escaped(value@),
{
    let v = chars_of(value);
    let mut out: Vec<char> = Vec::new();
    let mut i: usize = 0;
    while i < v.len()
        invariant
            i <= v@.len(),
            v@ == value@,
            out@ == xml_escaped(v@.take(i as int)),
        decreases v@.len() - i,
    {
        let c = v[i];
        let mut piece = if c == '&' {
            chars_of("&amp;")
        } else if c == '<' {
            chars_of("&lt;")
        } else if c == '>' {
            chars_of("&gt;")
        } else if c == '"' {
            chars_of("&quot;")
        } else if c == '\'' {
            chars_of("&apos;")
        } else {
            let mut one: Vec<char> = Vec::new();
            one.push(c);
            one
        };
        assert(piece@ == xml_char(c));
        out.append(&mut piece);
        assert(v@.take(i + 1).drop_last() =~= v@.take(i as int));
        i = i + 1;
    }
    assert(v@.take(v@.len() as int) =~= v@);
    string_of(out.as_slice())
}

// ---------------------------------------------------------------------
// The LaunchAgent
// ---------------------------------------------------------------------

/// The property list of the LaunchAgent that runs `exe serve` at login and
/// keeps it alive, with its output and errors going to the two logs; each
/// path is XML-escaped.
pub open spec fn plist_text(exe: Seq<char>, stdout_log: Seq<char>, stderr_log: Seq<char>) -> Seq<char> {
    "<?xml version=\"1.0\" encoding=\"UTF-8\"?>\n<!DOCTYPE plist PUBLIC \"-//Apple//DTD PLIST 1.0//EN\" \"http://www.apple.com/DTDs/PropertyList-1.0.dtd\">\n<plist version=\"1.0\">\n<dict>\n  <key>Label</key>\n  <string>com.ct-codex-bridge</string>\n  <key>ProgramArguments</key>\n  <array>\n    <string>"@
        + xml_escaped(exe)
        + "</string>\n    <string>serve</string>\n  </array>\n  <key>RunAtLoad</key>\n  <true/>\n  <key>KeepAlive</key>\n  <true/>\n  <key>StandardOutPath</key>\n  <string>"@
        + xml_escaped(stdout_log)
        + "</string>\n  <key>StandardErrorPath</key>\n  <string>"@
        + xml_escaped(stderr_log)
        + "</string>\n</dict>\n</plist>\n"@
}

/// The LaunchAgent property list for the service binary `exe` and its logs.
pub fn launch_agent_plist(exe: &str, stdout_log: &str, stderr_log: &str) -> (r: String)
    ensures
        r@ == plist_text(exe@, stdout_log@, stderr_log@),
{
    let e = escape_xml(exe);
    let o = escape_xml(stdout_log);
    let x = escape_xml(stderr_log);
    let r = concat2(
        "<?xml version=\"1.0\" encoding=\"UTF-8\"?>\n<!DOCTYPE plist PUBLIC \"-//Apple//DTD PLIST 1.0//EN\" \"http://www.apple.com/DTDs/PropertyList-1.0.dtd\">\n<plist version=\"1.0\">\n<dict>\n  <key>Label</key>\n  <string>com.ct-codex-bridge</string>\n  <key>ProgramArguments</key>\n  <array>\n    <string>",
        e.as_str(),
    );
    let r = concat2(
        r.as_str(),
        "</string>\n    <string>serve</string>\n  </array>\n  <key>RunAtLoad</key>\n  <true/>\n  <key>KeepAlive</key>\n  <true/>\n  <key>StandardOutPath</key>\n  <string>",
    );
    let r = concat2(r.as_str(), o.as_str());
    let r = concat2(r.as_str(), "</string>\n  <key>StandardErrorPath</key>\n  <string>");
    let r = concat2(r.as_str(), x.as_str());
    let r = concat2(r.as_str(), "</string>\n</dict>\n</plist>\n");
    r
}


/// The LaunchAgent runs the installed binary with the single argument
/// `serve`, starts it when loaded (at login), and keeps it alive: the property
/// list holds, for every three paths, `RunAtLoad` and `KeepAlive` set to
/// `true`, and a program argument list of the escaped binary path then
/// `serve`.
pub proof fn lemma_plist_starts_server_at_login(exe: Seq<char>, stdout_log: Seq<char>, stderr_log: Seq<char>)
    ensures
        exists|i: int| occurs_at(plist_text(exe, stdout_log, stderr_log), "<key>RunAtLoad</key>\n  <true/>"@, i),
        exists|i: int| occurs_at(plist_text(exe, stdout_log, stderr_log), "<key>KeepAlive</key>\n  <true/>"@, i),
        exists|i: int|
            occurs_at(
                plist_text(exe, stdout_log, stderr_log),
                "<key>ProgramArguments</key>\n  <array>\n    <string>"@ + xml_escaped(exe)
                    + "</string>\n    <string>serve</string>\n  </array>"@,
                i,
            ),
{
    let h = "<?xml version=\"1.0\" encoding=\"UTF-8\"?>\n<!DOCTYPE plist PUBLIC \"-//Apple//DTD PLIST 1.0//EN\" \"http://www.apple.com/DTDs/PropertyList-1.0.dtd\">\n<plist version=\"1.0\">\n<dict>\n  <key>Label</key>\n  <string>com.ct-codex-bridge</string>\n  <key>ProgramArguments</key>\n  <array>\n    <string>"@;
    let m1 = "</string>\n    <string>serve</string>\n  </array>\n  <key>RunAtLoad</key>\n  <true/>\n  <key>KeepAlive</key>\n  <true/>\n  <key>StandardOutPath</key>\n  <string>"@;
    let m2 = "</string>\n  <key>StandardErrorPath</key>\n  <string>"@;
    let tail = "</string>\n</dict>\n</plist>\n"@;
    let run = "<key>RunAtLoad</key>\n  <true/>"@;
    let keep = "<key>KeepAlive</key>\n  <true/>"@;
    let args_head = "<key>ProgramArguments</key>\n  <array>\n    <string>"@;
    let args_tail = "</string>\n    <string>serve</string>\n  </array>"@;
    reveal_strlit("<?xml version=\"1.0\" encoding=\"UTF-8\"?>\n<!DOCTYPE plist PUBLIC \"-//Apple//DTD PLIST 1.0//EN\" \"http://www.apple.com/DTDs/PropertyList-1.0.dtd\">\n<plist version=\"1.0\">\n<dict>\n  <key>Label</key>\n  <string>com.ct-codex-bridge</string>\n  <key>ProgramArguments</key>\n  <array>\n    <string>");
    reveal_strlit("</string>\n    <string>serve</string>\n  </array>\n  <key>RunAtLoad</key>\n  <true/>\n  <key>KeepAlive</key>\n  <true/>\n  <key>StandardOutPath</key>\n  <string>");
    reveal_strlit("<key>RunAtLoad</key>\n  <true/>");
    reveal_strlit("<key>KeepAlive</key>\n  <true/>");
    reveal_strlit("<key>ProgramArguments</key>\n  <array>\n    <string>");
    reveal_strlit("</string>\n    <string>serve</string>\n  </array>");
    let e = xml_escaped(exe);
    let t = plist_text(exe, stdout_log, stderr_log);
    let rest = xml_escaped(stdout_log) + m2 + xml_escaped(stderr_log) + tail;
    assert(t =~= h + e + m1 + rest);
    assert(h.len() == 281 && m1.len() == 153);
    let a: int = 281 + e.len() as int;
    // `RunAtLoad` and `KeepAlive` lie in the fixed text after the binary's path.
    assert(t.subrange(a + 50, a + 80) =~= m1.subrange(50, 80));
    assert(m1.subrange(50, 80) =~= run);
    assert(occurs_at(t, run, a + 50));
    assert(t.subrange(a + 83, a + 113) =~= m1.subrange(83, 113));
    assert(m1.subrange(83, 113) =~= keep);
    assert(occurs_at(t, keep, a + 83));
    // The argument list spans the end of the head, the path and the start of
    // the fixed text after it.
    let args = args_head + e + args_tail;
    assert(h.subrange(231, 281) =~= args_head);
    assert(m1.subrange(0, 47) =~= args_tail);
    assert(t.subrange(231, 231 + args.len() as int) =~= args);
    assert(occurs_at(t, args, 231));
}

} // verus!
