# agredadb

The core of AgredaDB, a multi-modal database (records with vectors, blobs,
tiered files), written in Verus. The logic under `src/` is verified
against its contracts; the calls it makes into outside crates and into
parts of std (hashing, JSON, tokens, bcrypt, AES-GCM, bit packing, the
clock, random ids) go through small wrapper functions whose contracts are
trusted rather than proved, and a few constructors that only read the clock
or set up internal state promise little or nothing about their result.

- `src/wal` — write-ahead log record framing (length-prefixed records,
  replay) and the sync policy that decides when the log buffer is flushed.
- `src/storage` — tiers (hot, warm, cold), access patterns and eviction
  ranking, migration analysis and statistics, the catalog of where each key
  lives, and integer block compression.
- `src/security` — users, password hashes and signed tokens, role-based
  access control, namespaces and quotas, the audit log, and AES-256-GCM
  encryption at rest; `SecurityManager` ties them together.
- `src/server` — durability modes, configuration presets, metrics counters,
  a shard's batching, logging and compaction decisions, and the request
  gateway (bearer tokens, replies, shard routing, tenant tagging, blob ids
  and chunks), and the reading of a `SELECT`'s table and filter from SQL.
- `src/index` — index statistics and the walk over the on-disk graph.

`app/` is the server process around the library: files, block I/O, tasks,
Arrow batches and the floating-point vector search. `tests/` exercises the
library through its public API.
