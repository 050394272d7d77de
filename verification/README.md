# plasma_exit

The exit game of a plasma chain, verified with Verus, and the local testnet
chain specification of the parachain node that runs it.

- `src/scale.rs` — little-endian and SCALE compact integers, byte strings and
  lists of byte strings: writers and readers proved against their
  specifications, with round-trip and canonical-encoding laws.
- `src/types.rs` — ranges, properties, state updates and transactions, and
  their wire format (same laws).
- `src/hashing.rs` — the runtime's Blake2b-256, reached through `sp-core`.
- `src/exit.rs` — claiming, challenging and settling exits, in steps: each
  step refuses the request or returns the next question for the storage,
  the dispute manager, the inclusion verifier, a predicate or the checkpoint
  challenge validator; the next step takes the answer.
- `src/chain_spec.rs` — development keys (through `sp-core`), the testnet
  genesis and the local testnet chain specification.
- `app/lib.rs` — the serde form of the chain specification extensions, the
  texts of the exit errors, and the loops that put each step's question to
  the runtime.
