# imgviewer

The verified core of an offline Windows image viewer and of its codec helper
process. The logic (the helper protocol, the catalog of a folder listing,
natural ordering, the viewer state machine, error mapping, window geometry)
is made of Verus-verified functions with contracts; the program in `app/`
(threads, files, pipes, the clock, the Win32 calls) reads and writes, and
hands what it read to those functions.

## Layout

- `src/protocol.rs` — the binary helper protocol: fixed headers, decode
  requests, numeric errors and RGBA8 renders, with bounded reads and
  round-trip laws.
- `src/helper_service.rs` — the helper process: argument check, the numeric
  wire form of decoder failures, transferred-handle checks, and the session
  (handshake, then one answer per decode request, in order, until shutdown).
- `src/helper_client.rs` — the viewer side of the helper: input and time
  limits, error mapping, when a session is discarded, reply resolution, the
  helper path and its quoted command line.
- `src/viewer.rs`, `src/render_cache.rs`, `src/policy.rs` — the viewer state
  machine (latest selection wins, stale results are dropped), one-time render
  tokens under a byte limit, and the decode deadline.
- `src/catalog.rs`, `src/natural.rs`, `src/format.rs`, `src/text.rs` — folder
  catalogs within enumeration limits, natural ("logical number") ordering,
  supported formats, and path text.
- `src/window.rs` — restoring saved window geometry into a visible monitor
  work area.
- `src/navigation.rs`, `src/cli.rs` — the main window's navigation policy and
  the image path on the command line.
- `src/snapshot.rs`, `src/error.rs`, `src/messages.rs`, `src/model.rs`,
  `src/code.rs` — the published snapshot, structured errors and their text.
- `app/` — the helper executable (`main.rs`) and the unverified plumbing: the
  viewer controller's worker thread, the helper broker, the window-state file
  preflight, and serializable copies of the snapshot types.
- `tests/` — scenario tests of the library.
