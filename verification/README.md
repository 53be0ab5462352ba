# t_ide

Backend core of the T-ide agentic IDE: projects, model providers, paired
devices, agent sessions, transcripts and approval requests stored in SQLite;
the agent run that turns a prompt into approved actions; the client protocol;
and the security primitives (project sandbox, provider credentials).

## Layout

- `src/` — the library, verified with Verus.
  - `storage/` — the database handle and one repository per table. The
    contents of the database are modelled as a map from table and id to row;
    each SQL statement is a small trusted wrapper around `rusqlite` whose
    contract says what it does to that map.
  - `agent/` — sessions and their status machine, the global single-session
    lock, approvals (first response wins, unanswered requests are denied),
    model providers, and `AgentRun`, which makes every decision of a prompt
    run: which action comes next, when to ask for approval, when to stop.
  - `network/` — protocol messages, dispatch of client messages, and the turn
    of a connection.
  - `security/` — the lexical sandbox and the credential stores.
  - `text.rs`, `paths.rs`, `order.rs` — string, path and ordering helpers with
    exact contracts.
- `tests/` — tests of the library.
- `app/` — the program around the library: configuration files, the Axum
  server, the asynchronous agent loop, file system access and the model
  provider client.
