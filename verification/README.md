# FaniLab protocol contracts, verified

The six contracts of the FaniLab delivery protocol (escrow, delivery,
dispute resolution, fleet management, identity/reputation and settlement),
written in Verus and proved against their specifications.

The contracts run against `Env`, an in-memory ledger: the ledger time, the
signers of the current call, a token ledger, and the storage of one deployed
instance of each contract at a fixed address. A call into another contract
of the protocol is a call into that contract's code on the same `Env`. Every
entry point returns a `Result`; a refused call leaves the whole `Env` as it
was.

## Layout

- `src/types.rs`: addresses, records, statuses and error codes.
- `src/token.rs`: balances and transfers.
- `src/index.rs`: the per-owner lists of escrow and delivery ids.
- `src/env.rs`: the ledger and its authorization rules.
- `src/escrow.rs`, `src/delivery.rs`, `src/dispute.rs`, `src/fleet.rs`,
  `src/identity.rs`, `src/settlement.rs`: the contracts. Each has an abstract
  view of its storage and a specification function for the outcome of each
  operation; the operations are proved to produce exactly that outcome.
- `src/laws.rs`: properties that hold for every input or across operations
  (fees, splits, reputation bounds, the delivery state machine, fresh ids,
  final escrows, pausing).
- `src/accounting.rs`: the escrow contract's books: every locked total is
  the sum of the open escrows in that token, and the contract always holds
  at least that much.
- `tests/`: scenarios on concrete values.
