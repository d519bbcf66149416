# ct_codex_bridge

A LAN web panel that switches the Codex app on a Mac between the Codex
accounts that Cockpit Tools has saved: it projects the chosen account into
`~/.codex/auth.json`, the Keychain entry `Codex Auth` and
`~/.codex/.cockpit_codex_auth.json`, updates Cockpit Tools' index, and
restarts Codex.

The library under `src/` is verified with Verus:

- `text`, `json` — strings, decimal numbers and a JSON model, with specs.
- `crypto` — the hashing, HMAC, hex, randomness and clock calls, each behind
  a trusted item whose contract says what the outside crate promises.
- `auth`, `server` — password hashes, signed session tokens, cookies, and
  the panel's login and access decisions.
- `accounts` — reading account files, the panel's account view, listing,
  and the `auth.json` payload.
- `paths`, `config`, `launch`, `status` — where things live, the tool's own
  configuration, the LaunchAgent, and the status report.
- `config_toml` — the `config.toml` edit a switch makes, over `toml_edit`.
- `switch`, `process` — a switch and a Codex restart as state machines: each
  step takes what the last piece of outside work gave and names the next.

`app/` is the program around it: the command line, the HTTP server, and the
file, Keychain and process work that the state machines ask for.
