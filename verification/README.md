# konnect

The logic of Konnect, an MCP server for KiCad, verified with Verus.

- `src/sexp/` reads and writes KiCad's S-expression files. The writer lays text out
  as eeschema does, so that an edit changes no line but its own.
- `src/mcp/` decides how the server answers: which method asks for what, how a tool
  call proceeds from the meta-tools to a loaded handler or a hint, how errors and
  panics are reported and recorded, and which clients stay registered for
  notifications. It performs no awaiting itself: `handler` and `tool_call` say what
  is to be done and take the outcome back.
- `src/sexp/laws.rs` and `src/mcp/laws.rs` state and prove what holds across these
  functions.
- `app/` holds what awaits: locks, tasks, clocks and the JSON encodings of the
  messages.

JSON values come from `serde_json`, channels from `tokio` and server-sent events from
`axum`. The few functions that call them carry contracts that are taken as given;
each says what it claims of the function it calls.
