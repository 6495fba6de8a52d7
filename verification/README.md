# tasks_core

Git-native task and project management that lives inside a repository, in
a `.tasks/` directory that commits, branches and merges with the code.

Every change (creating a task, renaming a project, changing a status) is an
immutable event in a file of its own; state is rebuilt by replaying the
events, so two people working at once never produce a merge conflict.

## Layout

- `src/` — the library, verified with Verus:
  - `shared/` — IDs (UUIDs minted, formatted and parsed by the `uuid`
    crate), their text forms and order, and small text helpers;
  - `events/`, `projections/`, `reconstruction/` — the event envelope and
    kinds, the projected entities, and the folds that rebuild them;
  - `storage/` — the in-memory store (which also records its writes), the
    on-disk layout, and the built-in statuses (seeds) served without any
    stored events;
  - `commands/` — the operations on projects, tasks and statuses;
  - `daemon.rs` — the daemon's errors and the reads it serves;
  - `app/` — the desktop client's state machine and views;
  - `cli/` — the terminal client: daemon routes, errors and text layout.
- `app/` — the `tasks` program around the library: `tasks serve` runs the
  daemon on loopback (axum, tokio), every other subcommand is the terminal
  client (clap, ureq). Files, HTTP and JSON live here: each daemon request
  loads the workspace's events into the library's in-memory store, runs
  there, and writes the events it recorded back as files.
- `tests/` — the library's tests.
