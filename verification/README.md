# averagedb_api

A small key/value web service. Callers obtain a numeric API key, store text items
under keys that begin with their API key, and read them back; items and keys live
in one bounded least-recently-used cache.

- `src/` is the verified library: the API key check, item storage and lookup, key
  issuance, the advertisement table and the cache model (`cache.rs`, backed by the
  `lru` crate; `random.rs` draws from `rand`). `laws.rs` proves how the operations
  relate, e.g. that a stored item reads back and that an issued key is accepted.
- `app/` is the HTTP server (axum, tokio): routing, middleware, locking, JSON.
- `tests/` runs the library on concrete inputs.
