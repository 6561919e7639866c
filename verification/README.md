# vmux_desktop

The decision logic of the vmux desktop shell, written in Verus and proved
against its contracts: how keys, chords and mouse events become terminal
input and selections, how the service's messages are dispatched, how spaces,
sessions and tabs are restored, how settings are set by path and reloaded,
how the tools page reads package managers, how media permissions are
remembered, and how logs are forwarded.

## Layout

- `src/` — the verified library. Each module states its behaviour in
  `requires`/`ensures` over spec functions and views; the public `law_*`
  proof functions state properties that span several calls (for example
  `settings_path::law_set_at_path_changes_only_its_place`,
  `service_connect::law_retries_give_up`,
  `persistence::law_tabs_restore_in_order`).
  Calls into std and serde_json that Verus cannot see go through a few
  small trusted wrappers, each documented with what it claims.
- `tests/` — ordinary Rust tests of the library on concrete values.
- `app/` — the unverified edges: file and process I/O, the crash hook,
  notifications, relaunching, and the stores kept on disk.

The library verifies with `verus --crate-type lib src/lib.rs` (with the
outside crates on the library path); the tests run with `cargo test`.
