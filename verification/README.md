# openhuman

The decisions of an agent runtime as a verified library, with a thin host around it.

- `src/` is the library. Everything in it is checked by Verus.
  - `session` takes a turn of the agent from its request to its outcome. `session::run` is the turn
    as stages: what the host is asked next, from what its last piece of work came to.
  - `registry` keeps the installed tool servers. A `Database` holds the tables as plain values, and
    every operation of `registry::store` says what it reads and changes in them.
  - `input_builder` makes the line that a command-line model is fed, with its images inline and,
    for a new session, the rest of the conversation around the last user turn.
  - `tools` holds the permission gate before a call, the bound on web research, and the tools that
    are found by search.
  - `socket`, `startup`, `trace_export` and `subconscious` hold the order of the steps around a
    turn and what the configuration says.
  - `json`, `base64_text` and `text` are what the others are stated over.
- `app/` performs what the library decides: SQLite, files, the clock, model calls, the socket.
- `tests/` runs the library on concrete values. `tests/sqlite_agreement.rs` runs the same course of
  operations on the store and, as SQL, on SQLite.

What the library takes on trust are the calls into `serde_json` (in `json`) and `base64` (in
`base64_text`). The doc comment of each says what is claimed of the outside function.
