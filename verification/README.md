# griid-trace (verified core)

A local-first viewer for AI agent runs recorded in `trace.jsonl` (one JSON
event per line). The library in `src/` is written in Verus and proved
against its contracts; `app/` is the `trace` program around it (files,
terminal, JSON, HTML, the sled index, file watching).

Library modules:

- `trace` — the event model (`TraceEvent`, `Attributes`, `Timestamp`),
  validation of required fields, reading events from the lines of a file,
  traces and root spans.
- `tree` — the span tree that parent ids give a trace.
- `index` — the in-memory index (paging, filters), the key layout of the
  on-disk index, and a stable sort by timestamp.
- `tui` — the viewer's state machine: views, selection, search, status
  filter, key handling.
- `cli` — the command-line grammar of `trace`.
- `adapter` — span bookkeeping of the Rust adapter: opening, completing and
  nesting spans, and the records written for them.
- `startup` — choosing the trace file, validation reports, loading a trace
  into the viewer.
- `watch` — what the file watcher reads and emits.
- `text` — character-level string helpers.
