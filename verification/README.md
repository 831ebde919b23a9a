# sqlite-wasm

A SQLite client for the browser: a dedicated Web Worker runs the official
`sqlite3-worker1.js` with OPFS storage (falling back to a memory-only
database where OPFS is unavailable), and this crate drives it.

- `src/` — the library, verified with Verus: the database session (open
  database id, statement counter), the worker protocol (commands, envelopes
  with UUID v4 message ids, the one-shot reply listener, readiness), the
  embedded files' URLs (blob URLs, or base64 `data:` URLs on Firefox), batch
  transactions,
  array-mode and column-cached queries, prepared statements with their cache,
  and the connection pool with retry back-off.
- `app/` — the browser side: `wasm-bindgen` exports, Web Worker and message
  plumbing, conversion to and from JavaScript values, global state, timers.
  It asks the library what to send next and hands it the replies.
- `tests/` — tests of the library on concrete values.
