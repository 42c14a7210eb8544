# deepseek-harness-windows

The Windows desktop shell of DeepSeek Harness (`dsh`): a Tauri 2 window that
starts the dsh web backend as a Node sidecar, shows it with a Mica backdrop,
keeps running in the tray, enables launch-at-login on the first run, notifies
when a task completes, and pre-installs a bundled plugin into the web profile.

## Layout

- `src/` — the shell's decisions, verified with Verus:
  - `json.rs` — JSON values as plain data, with `serde_json`'s indexing
    semantics (reads of missing keys give `null`; writes through `null`
    create objects), and their well-formedness (distinct keys).
  - `jsontext.rs` — reading and pretty-printing JSON text with `serde_json`
    (the crate's only trusted code).
  - `manifest.rs` — the profile manifest file's new text, and merging the bundled plugin into the profile's
    `package.json`, with its laws (merging twice changes nothing; everything
    else is kept; the plugin ends up listed and recorded).
  - `fspath.rs`, `runtime.rs`, `plugin.rs` — where the runtime, the plugin
    payload and the profile live, the steps of the recursive copy, and the
    stages of the plugin install (the marker goes only after the write).
  - `launch.rs` — the commands that start the sidecar and the notification
    bridge.
  - `net.rs` — the stable port scan (the first candidate that binds wins;
    never the live instance's port 3080) and
    the wait for the backend.
  - `shell.rs` — tray menu and commands, auto-start, close-to-tray,
    notifications, and the order of the start-up.
  - `text.rs` — decimal rendering, log lines, substring search.
- `app/` — the Tauri application that performs the effects: processes,
  sockets, files, window, tray and plugins.
- `tests/` — tests of the library on concrete values.
