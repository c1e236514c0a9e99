# call_auction

Deterministic call auctions, verified with Verus.

A call auction collects orders, freezes them, and clears them at one price. The
library covers price discovery, allocation, the collection book, the sequenced
phase engine with its idempotency history and checkpoints, pre-trade risk coupled
to the engine, and public market data with replicas and a replay window.

- `src/` is the verified library. Contracts speak of mathematical models: maps of
  active orders, sequences of events, and the states that a history adds up to.
  Modules whose names end in `_laws` state what holds across operations.
- `src/storage.rs` holds the five calls into the standard library whose contracts
  are believed: fallible reservation and release, capacity, and shared ownership.
- `tests/` runs the compiled library.
- `app/` is ordinary Rust: process-wide identities and printable failures.

Books, engines and shards take an `instance_id` that no other live one has; it
binds prepared work to its owner. Preparations hold leased storage and are handed
back by `release`, `release_prepared` or `release_uncross`.
