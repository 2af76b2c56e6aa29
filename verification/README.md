# coding_tools

Verified core of the Coding Tools MCP desktop application.

- `src/desktop_lifecycle.rs` — close-to-tray and exit policy, lifecycle
  flags, tray menu dispatch.
- `src/json.rs` — the JSON document model that tool payloads are read from.
- `src/text.rs` — decimal notation, string comparison, joining.
- `src/tools/result_text.rs` — the model-facing text of each tool's result,
  kept under a byte ceiling, with the laws about that ceiling.
- `src/tools/scratch.rs` — scratch directory naming and clean-up policy,
  detection of throw-away helper scripts.
- `app/` — Tauri tray and window wiring, conversion from `serde_json`
  values, and the scratch directory's file-system work.
