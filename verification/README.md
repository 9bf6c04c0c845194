# kasino

A framework for high-contention concurrent data structures: a *bandit* shards
the operations on a collection over several sub-collections ("arms"), and a
*strategy* decides which arm each handle pulls next.

Layout:

- `src/lib.rs`: the `Signature`, `Collection` and `WithCapacity` traits.
- `src/construction.rs`: `Bandit` and `BanditHandle` (offer, poll, len, capacity).
  Every offer and poll through a handle leaves a ghost record (`OfferRecord`,
  `PollRecord`) of the arm its strategy chose, what that arm answered and what
  the strategy's fallback answered. The contracts state the result in terms of
  the record, and tie each answer in it to a call of the arm's `offer` or
  `poll` through `call_ensures`; what the collections answer is theirs to say.
- `src/inline.rs`, `src/boxed.rs`: array-backed and heap-backed bandits.
- `src/storage.rs`: the storage traits the bandit and the strategies index through.
- `src/strategy/`: the `Strategy` trait and the strategies `RoundRobin`,
  `RandomAccess`, `DCBO`, `DRA`, the collect wrappers `NoCollect` and
  `DoubleCollect`, the stakes (`EDCount`, `InstrumentedState`) and padding.
- `src/topology.rs`: the core-pinned strategy.
- `src/sync.rs`: the atomics and cache padding taken from `portable-atomic` and
  `crossbeam-utils`.
- `app/lib.rs`: helpers that need library features the verified core avoids.
- `tests/`: behaviour tests of whole bandits and unit tests of the strategies.
