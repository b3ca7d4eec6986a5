# apprunner

A terminal interface to run, watch and attach to local development
processes, and to put header-injecting reverse proxies ("masks") in front of
HTTP APIs.

## Layout

- `src/` — the library, written in Verus and verified: template variables
  (`{{name}}` placeholders, resolution, substitution), the restart policy and
  tick decisions of supervised processes, health checks, runtime alerts, the
  headers a mask forwards and its request log, the app and mask forms, key
  bindings, the file browser's ordering and navigation, the terminal
  scrollback with its SGR colour parser, the navigation state of the
  application, and the steps each key and each tick ask of the event loop.
- `tests/` — tests of the library.
- `app/` — the program around it: command line, SQLite storage, PTY
  processes, the proxy server, Ghostty sessions, metrics and drawing.

Calls into `serde_json`, `vte`, `which`, `reqwest::header`, `std::time` and
`std::collections` that the library makes go through small trusted wrappers
whose contracts state what those crates document or their source shows;
everything else in `src/` is proved.
