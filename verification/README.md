# loomex-protocol

Versioned, transport-neutral contracts shared by Loomex runtimes: runner
identity and protocol compatibility, the v2 agent task and its model
selection, process dispatch envelopes, provider sessions, capability
snapshots, typed runtime errors, the logical execution with its process
attempts, terminal payload limits, and the runner's agent advertisement.

Every rule is a verified function in `src/`, written in Verus. Each
validator states, in its `ensures`, exactly which error it returns for which
input, as a specification function over the values' contents, and the laws of
the protocol (pin single assignment, replay of an execution snapshot exactly
when its content is the same, history kept by an advance, attempt numbering,
the split of an attempt-hash preimage at its NUL bytes, digest binding of a
dispatch, map lookups and order-free comparison of error details and JSON
objects, nesting of the terminal size caps,
and others) are proof functions beside the code.

Layout:

- `src/` — the verified library. `sha2` and `serde_json_canonicalizer` are
  called through two small trusted wrappers in `src/digest.rs`.
- `tests/` — scenario tests on hand-built values.
- `app/` — the serde wire forms of the types with conversions to and from the
  library types, the payload-digest input of a dispatch, and the byte counts
  of serialized terminal payloads.
