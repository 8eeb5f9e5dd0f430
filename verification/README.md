# driftlet

The core of a desktop skin manager (HTML widgets that live on the Windows
desktop), written in Verus: the rules are executable Rust with contracts
that Verus proves.

- `src/` — the verified library: skin manifests and their settings schema,
  custom-setting validation, `.dskin` package checks, zip extraction
  under limits and package building, the staged install and the
  all-or-none import swap as step machines with their rollback laws, the `skin://` protocol's path and MIME rules, backups (what a
  backup must hold, selective import, merging layouts, restoring after an
  interrupted import), the config rules (one placement per skin, the
  version-1 migration), the listing order of scanned skins, focus mode and its
  fullscreen detector, hot-reload debouncing and self-write filtering,
  hotkey bookkeeping, on-desktop pinning, the command policy table, the
  bounded in-memory log, localisation, and startup decisions.  Calls into
  `zip`, `global-hotkey`, `percent-encoding` and `sysinfo`, and into a few std
  functions without a vstd specification, go through small trusted
  wrappers whose contracts say what the library relies on.
- `app/` — a command-line front end: file I/O (it performs the folder
  steps the library decides), the `notify`
  watcher loop, the `log` logger, serde copies of the manifest types, and
  the floating-point rules (zoom, opacity, setting bounds, preview
  downscaling).
- `tests/` — executable tests of the library.
