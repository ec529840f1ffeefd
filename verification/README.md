# aionui_server

Server configuration and identity read limits, verified with Verus.

- `src/config.rs`: identity modes, feature switches, the application configuration and the derivation
  of the storage encryption key.
- `src/read_rate_limit/`: the read capacities (`policy.rs`), token buckets in bounded storage
  (`model.rs`, `token_buckets.rs`), the outer and inner gate (`limits.rs`), and what holds of every run
  of attempts (`laws.rs`).
- `src/text.rs`, `src/digest.rs`, `src/paths.rs`, `src/environment.rs`: what the two need.
- `app/`: the process environment, the clock, the lock and the HTTP middleware.
- `tests/`: the library, run.

Time reaches the library as nanoseconds since the limits were made. SHA-256, the operating system's
randomness and what the configuration does with `PathBuf` are taken on trust; each item says in its
documentation what it claims.
