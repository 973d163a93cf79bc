# fiat_bridge

A verified model of a fiat on/off-ramp bridge contract for Soroban: a token
whitelist with per-deposit limits, deposits that issue receipts, time-locked
(and partially executable) withdrawal requests, refunds, a two-step admin
handover, a timelock for admin actions, and emergency recovery of the admin
role after a period of inactivity.

Layout:

- `src/` — the library, verified with Verus.
  - `addr.rs` — addresses as the bytes of their strkey.
  - `addr_map.rs` — a finite map keyed by address, with its map view.
  - `types.rs` — errors, records (receipts, requests, queued actions) and constants.
  - `effects.rs` — an `Invocation`: the ledger an operation runs at and the
    authorisations, token transfers and events it asks of its host.
  - `model.rs` — the abstract state `BridgeView` and the meaning of every
    operation as a `Step` (demanded authorisations, then an error or a commit).
  - `bridge.rs` — `FiatBridge`: the state and one method per operation, each
    proved to run exactly its `Step`; queries; overflow guards; snapshots.
  - `laws.rs` — properties that span operations, proved over the model.
- `tests/` — scenarios run against the library.
- `app/` — the Soroban contract: it loads the state from instance storage,
  runs the verified operation, obtains the authorisations, moves the tokens,
  publishes the events and stores the new state.
