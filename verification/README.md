# aster

The decision logic of an AI agent framework's tools and services, written in
Verus: the functions in `src/` state what they return in `ensures` clauses
(and what they need in `requires`), Verus proves them, and the laws that tie
functions together stand as public proof functions.

## Layout

- `src/` — the verified library, one module per subject:
  - `text`, `json`, `pointer`: character sequences, JSON values and JSON
    pointers (resolve, resolve for writing, set with intermediate creation);
  - `tool`, `tools`, `todo`, `ask`, `read`, `web`, `web_cache`, `workflow`,
    `agent_control`, `subagent`: the tools an agent calls — input checks,
    permission decisions, result texts, routing of messages between agents,
    the web caches and the order in which search services are asked;
  - `retry`, `trace`, `routes`, `protocol`: context-overflow recovery, trace
    redaction, the HTTP reply state machine and response shapes, and the UI
    protocol's client messages;
  - `rewind`, `plugins`, `skills`, `teleport`, `image`, `a2ui`, `updater`:
    file-history rewinding, plugin state, skill front matter, repository
    checks, image checks, UI data-binding functions, update bookkeeping.
- `tests/` — tests that run the compiled library.
- `app/` — the unverified shell around the library: file system, processes,
  HTTP, the clock, locks, task-local scopes, serde conversions and the host's
  callbacks. It reads what the outside world holds, hands it to the library
  as plain values, and carries out what the library returns; the event loops
  of replies, overflow recovery and search stand there, around the library's
  step functions.

## Checking

`src/` is verified by Verus; calls into `base64`, `sha2`, `url`, `serde_json`,
`chrono` and `lru` sit behind small trusted wrappers whose doc comments say what
their contracts claim of the outside functions.
