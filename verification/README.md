# num_bigint_etna

Property checks over `num-bigint`, with their results proved in Verus.
The proofs that the checks pass rest on the contracts of the wrappers over
`num-bigint`, which are trusted, not proved, and which state the very
invariants the checks test.

- `src/natural.rs`, `src/integer.rs`: big naturals and integers held as
  plain values (big-endian bytes, a sign), and the trusted wrappers through
  which `num-bigint` does every arithmetic step.
- `src/text.rs`: decimal numerals and JSON string literals, specified and
  written by verified code.
- `src/etna.rs`: the `property_<name>` checks and the fuzzed inputs.
- `src/harness.rs`: the witness checks, how outcomes of several properties
  combine, and the JSON report line.
- `app/main.rs`: the command-line driver; it runs the checks under
  proptest, quickcheck, crabcheck and hegel, catches the panic that the
  division-by-zero check expects, and prints the report.
