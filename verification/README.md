# makepad_logic

The decision logic of parts of the Makepad studio and editor, verified with Verus.

- `src/text.rs` — Unicode whitespace trimming, prefix/suffix tests, decimal rendering.
- `src/build_protocol.rs`, `src/rustc_json.rs` — build messages and the fields of rustc diagnostics that are read.
- `src/build_server.rs` — the build server: the `cargo run` a command starts, and the
  state machine that turns the child's output into messages for the studio.
- `src/com.rs`, `src/enum_format_etc.rs`, `src/data_object.rs` — the drag-and-drop data
  object and format enumerator offered to Windows.
- `src/designer_view.rs`, `src/bare_step.rs` — designer view selection and pointer decisions; a widget that yields one draw step.
- `src/editor_state.rs` — the editor shell's panels, tabs, file tree and request queue.
- `src/frame.rs` — length-prefixed framing of messages.
- `app/` — process spawning, threads, JSON reading, sockets and floating-point geometry.
