# dbperf

A benchmark that imports hourly RUNEPool history pages from Midgard into
several databases (in memory, MongoDB, PostgreSQL, SurrealDB, RocksDB,
LevelDB) and times the writes.

- `src/` is the verified library (Verus):
  - `float_bits`: binary64 values as bit patterns and the `as u64` conversion;
  - `decimal`: decimal text of integers;
  - `models`: the history records (bit patterns of the API's numbers);
  - `error`: the back-end errors and their messages;
  - `timer`: the stopwatch used to time operations;
  - `local`: the in-memory store, with its laws;
  - `rocks`: the bincode key and value bytes of a record;
  - `batch`: the rule for empty bulk inserts;
  - `postgres`: the latest-timestamp decision;
  - `cron`: the import loop as a state machine, with its laws.
- `app/` is the server and the database clients: I/O, async code, serde
  and float formatting.
- `tests/` exercise the library.
