# ferridriver (verified core)

The logic of the ferridriver browser-automation toolkit that does not touch
the network or the disk, written in Verus and proved against its contracts.

- `src/error.rs`: the error taxonomy, its Playwright-shaped messages and class
  names, conversions from bare messages and the locator-polling retry rule.
- `src/shard.rs`: deterministic XXH3-based test sharding, with proofs that
  every test lands in exactly one shard and that sharding is idempotent.
- `src/offline_fixture.rs`: the harness-URL redirection rules, the storage
  state rewrite and the request-to-response logic of the loopback server.
- `src/text.rs`: character and string primitives specified over `Seq<char>`.
- `app/`: the loopback listener and its thread, the process-wide base URL,
  JSON storage states and the `std::error::Error` form of the error type.
