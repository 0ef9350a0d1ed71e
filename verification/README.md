# sms4

A social and shopping service — accounts, posts, follows, likes, direct messages,
dating profiles with search, interest tags, blocks, shops, products, carts, orders
and groups — whose logic is a library verified with Verus.

## Layout

- `src/` — the verified library.
  - `db.rs` — the store: one table per kind of record, kept in creation order, with
    an id counter per table and the clock that stamps rows; its well-formedness
    (ids increasing and below their counter, the uniqueness constraints).
  - `seqs.rs` — table operations (lookup by key, filtered listings, a stable sort
    by time stamp, counting, deleting by predicate, paging) with their lemmas.
  - `text.rs` — text operations: SQL `LIKE`, trimming, splitting, number parsing as
    `str::parse` and SQLite's `CAST` read them, and ordering of texts.
  - `error.rs` — why an operation is refused, and the message shown for it.
  - `external.rs` — the calls into `bcrypt`, `uuid` and `String::push`, with the
    contracts they are trusted to meet.
  - `model/` — the operations of each kind of record, each with its contract, and
    the laws that relate them (`law_*`).
  - `web/` — the request handlers of the web API, from request values to replies.
- `tests/` — tests of the library.
- `app/` — the program around the library: the command line, the HTTP server, the
  SQLite file that keeps the store between runs (a file with only the tool's
  record tables is read from them once), and serde copies of the library's types.
