# Quaestio client core

The verified core of the Quaestio questionnaire client: a local-first answer
store with a persistent outbox, the `mngquest.v1` request and response
envelopes, and the state machine of a compilation attempt, with their
contracts proved by Verus.

## Layout

- `src/` — the library, verified by Verus.
  - `model.rs` — the client's data: configuration, snapshot, answers,
    questionnaires, command data.
  - `store.rs` — the store (client state, `local_answer`, `outbox`,
    `questionnaire_cache`) with each operation's meaning as a transaction.
  - `session.rs` — what each user command does to the client.
  - `outbox.rs` — one pass over the outbox.
  - `transport.rs` — the decisions of the WebSocket transport and the
    reconnection schedule.
  - `protocol.rs` — request envelopes, response decoding, retries.
  - `laws.rs` — properties that span several operations.
  - `error.rs`, `text.rs`, `clock.rs`, `keyed.rs` — errors, text helpers,
    the clock and random identifiers, tables as maps.
- `tests/` — tests of the library.
- `app/` — the Tauri application around the library: commands, the
  WebSocket connection, the SQLite file, JSON forms of the library's types.
