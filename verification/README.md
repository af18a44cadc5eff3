# repo_contract

A repurchase agreement between a borrower and a lender on an Ethereum-like
chain, settled in two ERC20 tokens, with its rules proved in Verus.

- `src/` is the verified library.
  - `uint.rs`: 256-bit amounts and the calls into the `bigint` crate.
  - `word.rs`: storage words, addresses, and their encodings.
  - `storage.rs`: the table of storage words (the per-call cache, and the
    host's view of the chain's storage).
  - `layout.rs`: the agreement's eleven storage slots and what their words mean.
  - `effects.rs`: the effects of a call as values, and the `Run` machine that
    hands them to the host one by one.
  - `contract.rs`: the agreement itself: constructor, `accept`, `terminate`,
    the getters, and their specifications.
  - `laws.rs`: what holds across calls (read-back of the terms, activation by
    both parties, refund and default, self-destruction).
- `app/` is the pwasm contract around the library: the ABI, the host calls
  (storage, logs, token calls, self-destruction) and the wasm entry points.
- `tests/` drive the library with a host that records what it is asked to do.
