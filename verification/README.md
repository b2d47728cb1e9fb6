# identity_crypto

Canonical signed transcripts and ed25519 verification for an agent-identity
design, written in Verus.

- `src/transcripts.rs` builds the exact byte layout each signature covers: a
  NUL-terminated ASCII domain tag, then each field in order, fixed-width
  scalars big-endian, variable-length values behind a 4-byte big-endian
  length. Every builder's contract is its layout as a spec function.
- `src/binding.rs` proves that two well-formed signed statements, of any
  kinds, share a transcript only when they are the same statement.
- `src/agent_key.rs` decides whether a key (directly, or through a delegated
  session key) stood at a message's time, with the exact outcome as a spec
  function and the acceptance conditions proved as laws.
- `src/key_scheme.rs`, `src/proto.rs`, `src/error.rs` hold the scheme
  discriminants, the wire messages and the error type.
- `src/hex_text.rs` and `src/ed25519.rs` are the trusted wrappers around the
  `hex` and `ed25519-dalek` crates.
- `app/` offers the same operations over `prost-types` timestamps with
  `anyhow` errors.
