# taskmill

A persistent task queue's rules, verified with Verus.

- `src/` is the verified library: task types and their stored names, pause
  reasons, tag maps with their limits, dedup keys (SHA-256 through `sha2`),
  submissions and the layered submit builder, and the store's decisions —
  submission checks, duplicate handling, intra-batch dedup, dependency edges,
  cycle detection, completion and failure cascades, retries, recurring
  schedules, expiry, dispatch order and `LIKE` prefix patterns.
- `app/` is the SQLite store (`sqlx`) that reads rows, asks the library what
  to do and writes the result back; JSON payloads (`serde_json`); backoff
  strategies with floating-point multipliers; serializable copies of the
  library's types.
- `tests/` exercises the library on concrete values.

Instants are milliseconds since the Unix epoch; durations are milliseconds
(or nanoseconds for backoff delays).
