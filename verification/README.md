# test_egui_chat

A small desktop chat client for a local LM Studio server (egui), with tool
calling, a token-budget predictor, a flattery meter and a persistent
knowledge base. The logic is a Verus library; the window, the network, the
disk and the databases are a thin program around it.

## Layout

- `src/` — the verified library
  - `text.rs`, `scan.rs` — character-level helpers, substring search and counts
  - `sizes.rs` — `format_size` ("1.2 KB"), in integers, rounding like `{:.1}`
  - `decode.rs` — command output: strict UTF-8, else Windows-1252
  - `table.rs`, `predictor.rs` — per-model, per-bucket observations and the budget rule
  - `sycophancy.rs` — flattery score and flags, per-model readings
  - `chat.rs`, `session.rs` — the conversation as a state machine driven by stream events
  - `stream.rs` — server-sent events, chunk reading, tool-call assembly, the tool loop
  - `tools.rs`, `json.rs` — tool catalogue, call parsing, prechecks and every tool's report
  - `listing.rs`, `workspace.rs` — folder listings, tree search, working-folder summary,
    the rule that keeps file access inside the working folder
  - `mermaid.rs`, `display.rs` — flowchart of an answer's tool calls, window texts
  - `settings.rs`, `server.rs`, `clock.rs` — saved settings, model list, timestamps
- `tests/` — tests of the library
- `app/` — the egui program: rendering, HTTP streaming, file system, SQLite,
  floating-point averages and similarity
