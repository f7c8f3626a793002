# redis_state

State kept in Redis: scopes of entries, each a key with a JSON value, that can be stored, read,
updated, removed and listed page by page.

- `src/` is the library, verified with Verus. It builds the commands and script calls that are sent
  to Redis and reads the replies. Its contracts state both exactly. `src/effects.rs` says what
  they do to the data in Redis. On that rest the laws: in `src/storing.rs`, what is read of what was
  stored; in `src/index.rs`, that pages stay exact through writes and rebuilds of the pagination
  index; in `src/rebuild.rs`, that a rebuild comes to an end; in `src/listing.rs`, that pages read in
  turn list every entry once.
- `tests/` runs the library on concrete values.
- `app/` connects to Redis, sends and receives, and holds the JSON wire format.

The JSON codec is `serde_json`. What the library takes from it is declared in `src/json.rs`, with
what is relied on; the same holds of the functions on text in `src/text.rs`.
