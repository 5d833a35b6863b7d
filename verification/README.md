# payment_lane

Rules that reserve blockspace for payments, written in Rust and verified with Verus.

- `src/` is the library. Every function states its contract, and properties that span
  functions stand beside them as public proof functions named `law_..`.
  - `classifier`, `config`: which transactions are payments, and the gas budgets
  - `ordering`: priorities in a transaction pool
  - `payload`: packing a block under two gas budgets
  - `packing`: what a packed block is, and the laws that it obeys
  - `consensus`: the lane rule that a block must satisfy after execution
  - `nonce`: two-dimensional nonces and validity windows
  - `fastpath`: conflict-free batches of payments
  - `finality`: votes, certificates and final blocks
  - `primitives`, `transaction`, `metrics`, `text`: what the others are written over
- `tests/` runs the library on concrete values.
- `app/` ties the library to an Ethereum node: conversions, serialized forms, published
  counters and the node's traits.
