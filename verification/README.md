# helios_recursion

The rules of a recursive Ethereum light client, verified with Verus.

A service follows the beacon chain from a trusted slot. For each new head it proves a Helios light
client update, proves a recursion step over that update and over the step before, wraps the result
and keeps the execution state root and block height that the step commits to.

- `src/` is the verified library. It decides which updates the recursion circuit accepts and what it
  outputs for them, what the service does next and how its state changes, how circuit inputs and
  outputs are written as bytes, when a Groth16 proof counts as verified, and how circuit sources are
  generated from blueprints.
- `app/` is the service around it: command line, network, proving, storage, and the zkVM program.
- `tests/` runs the library on concrete values.

What the library takes from outside crates stands in small functions marked
`#[verifier::external_body]`: the Borsh encodings in `src/wire.rs`, the Groth16 verifier and what it
computes with in `src/groth16.rs`, and the hexadecimal encoder in `src/state.rs`. The doc comment of
each says what is claimed of the crate.
