# EDMS — verified core

EDMS (Endpoint Data Management System) keeps the endpoints a team tests,
their request/response pairs, bookmarks, collections and views in SQLite
files, and packs them into archives, markdown indexes and static sites.

This crate is the logic of EDMS written in Verus, with contracts that Verus
proves. Computations on plain values (addresses, reports, names, orders,
plans) have contracts that fix their result. Database operations state the
statements they send to SQLite and how their result follows from SQLite's
answers, as recorded in a ghost journal; what SQLite does to the file is
not modelled. A few outside results (Unicode case mapping, `Debug`
escaping, JSON validity) are named rather than spelled out.

## Layout

- `src/` — the verified library.
  - `store.rs`: the connection to one SQLite file and a ghost journal of
    every statement sent to it with SQLite's answer. Database operations
    state their effect as the exchanges they add to the journal.
  - `db.rs`, `membership.rs`, `views.rs`, `schema.rs`, `queries.rs`: the
    tables of the central database and of collection files, the named
    queries, and the schema plan with its interpreter.
  - `remove_url.rs`: stripping scheme and authority from addresses, one at
    a time and across a database.
  - `lock_manager.rs`: reader/writer admission with a first-in-first-out
    writer queue.
  - `audit.rs`, `zipops.rs`, `validate.rs`, `table_view.rs`, `markdown.rs`,
    `repo.rs`: the decisions inside audits, archives, format checks, the
    imports table, markdown indexes and collection export.
  - `api.rs`, `callback.rs`, `run_test.rs`, `dashboard.rs`: error answers,
    task routing, test runs and the dashboard's grouped views.
  - `text.rs`: string helpers (decimal numerals, ordering, search).
- `tests/` — tests run against the compiled library and real SQLite files.
- `app/` — the program around the library: the HTTP server, the child
  process, file-system walks, archives and network calls.
