# mentorminds

Verified core of the MentorMinds Soroban contracts, written in Verus.

- `src/` holds one module per contract (escrow arithmetic and invariant
  checks, insurance pool, lending pool, payment router, referrals and their
  leaderboard, reputation, prediction markets, multisig admin, proposal
  templates, session oracle, dispute evidence, certificates and their
  showcase, RBAC, sanctions screening, delegation, snapshots, regulatory
  reporting, anomaly detection) plus the shared state machines and
  reentrancy guard.  Each contract is a plain state value; its entry points
  are methods whose `requires`/`ensures` say what they return and how the
  state changes, and public proof functions state the laws that span
  several calls.  Accounts and symbols are integer handles.
- The contracts' Soroban `Vec` and `Map` values (the signer list and call
  arguments of the multisig, leaderboard entries, template parameters) hold
  host `Address`/`Symbol`/`Val` handles that only a live host environment
  can read.  The library's logic reads those elements (compares addresses,
  checks parameter kinds, ranks entries), so it keeps them as its own plain
  values: accounts and symbols as integer handles, call arguments as
  `CallArg`, parameters as `ParamValue` in `ParamSet`.  A Soroban collection
  can only hold types with the SDK's host-conversion traits, which these
  library types cannot have inside `src/`, and each of its operations runs
  on a host environment and charges its budget; so the collections are std
  `Vec`/`HashMap` and `ParamSet`, and `app/` converts at the host boundary.
- Calls that move tokens under a reentrancy lock (`borrow`, `repay` of the
  lending pool) return the held lock's guard; the host makes the transfer
  and then hands the guard back, so the lock covers the outside call.
- Token transfers, cross-contract calls, events and authorization are the
  host's part.  Where an entry point needs an answer from another contract,
  the library takes that answer as an argument (or splits the entry point
  into a check and a completion step).
- SHA-256 is computed by the Soroban host (`src/digest.rs`); contracts state
  their results over the named digest.
- `app/` is the Soroban-side glue: address/symbol interning, decoding of
  other contracts' records, and the host flows around the library calls.
- `tests/` exercises every module, including property tests of the escrow
  arithmetic.
