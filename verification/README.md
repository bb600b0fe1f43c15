# soloist_core

The coordination core of a process supervisor for coding agents, written in Verus. The public
operations in `src/` state `requires`/`ensures` contracts (the methods of a store implementation
take those of the store trait they implement), and Verus proves every function against the
contracts of what it calls. A few private helpers, whose callers need no more than their types,
state none of their own.

- `src/todo*.rs`, `src/todo_repo/` — durable todos: revision-guarded documents, the blocker
  barrier, tags, comments, process-owned locks, idempotent completion reports, and the store port
  with an in-memory store proved against it.
- `src/timer*.rs`, `src/timer_repo/` — process-owned timers: deadlines and idle backstops, the
  idle quorum and its read-time report, pause/resume, and the store port with an in-memory store.
- `src/template_scan.rs`, `src/template.rs` — the `{{name}}` placeholder grammar, stated once and
  proved of the scanner.
- `src/debounce.rs` — the quiet-window debouncer with an optional ceiling.
- `src/output.rs` — the reply byte budget for a process's output lines.
- `src/project_work.rs`, `src/lineage.rs` — read models joined against the live process
  registry: who is working on which document, live lineage edges, and an agent's roster.
- `src/orchestration.rs`, `src/snapshot.rs`, `src/project_settings.rs` — the agent tree, the
  project's orchestration read model (agents, todos, timers with their idle report), and the
  settings-page command roster, derived on read from the registry and the stores.
- `src/mailbox.rs`, `src/report_flow.rs`, `src/scoped.rs`, `src/link.rs`, `src/icon.rs` — the
  decisions of messaging and broadcast receipts, the completion report as a state machine the
  host drives, the effective project and the process scope guard, link resolution within scope,
  and the icon extension rule.
- `src/coordination.rs` — the refusal taxonomy and the bounded-write rule.
- `*_laws.rs` — properties that span several calls, stated as proof functions.

`tests/` exercises the library; `app/` holds the serde and `thiserror` faces of its types and the
loops that run a completion report and a broadcast against the host's mailbox.
