# database_receiver

Bounded polling of SQL databases into OTLP logs, verified with Verus.

- `src/database` is the database-neutral receiver: configuration, typed rows and pages,
  scheduling and admission, OTLP mapping, metrics, and the receiver's reactions to polls,
  deliveries and control messages.
- `src/polling.rs` and `src/progress.rs` hold cursors, watermarks, page bounds and the
  interfaces under which progress is kept.
- `src/postgresql` and `src/oracle` decide for one driver each: which statements can be polled
  by their cursor, how results are described and decoded, how a page is filled, when a session
  is clean, and what identifies a stream.
- `src/scraper` is the acknowledged cycle of one source: positions, deliveries, commits.
- `src/agent` and `src/receivers` hold the agent's inputs and the vendors' settings.
- The remaining modules are shared: text, names, time, calendars, JSON, doubles, sizes.

`app/` is the agent around the library: settings, sessions, threads and the polling loop.
Functions marked `#[verifier::external_body]` call outside crates; their doc comments say what
is taken on trust. Public proof functions named `law_*` state what holds across functions.
