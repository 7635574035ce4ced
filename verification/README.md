# lfi_vsa_core

A hyperdimensional-computing core for a local AI assistant, written in Verus.
The functions in `src/` carry `requires`/`ensures` contracts that Verus
proves, except the few thin wrappers marked `#[verifier::external_body]`:
each makes one call into std or an outside crate (zeroize, subtle, rand,
rand_chacha, serde_json), and their contracts are trusted, as their doc
comments say, not proved.

## Layout

- `src/hdc/` — bipolar hypervectors (bind, bundle, permute, Hamming
  distance), the protected encoder, precision tiers, item memory, role
  binding and resource estimates.
- `src/hdlm/` — syntax-tree node kinds and the two codebooks.
- `src/cognition/` — speech acts, conversation tracking, expertise signals,
  reasoning-chain checks, self-critique and situational helpers.
- `src/intelligence/` — threat keywords, training-data poisoning checks,
  learning plans, semantic search, storage tiers and data-source detection.
- `src/data_quality/`, `src/ingest/`, `src/formal/`, `src/data_ingestion/` —
  domains and sources, record parsers, the Lean 4 client's requests and
  verdicts, and Lean source ingestion.
- `src/adversary.rs` — adversary identities for tiered wireless-lab
  simulation.
- `src/sealed.rs` — sealed secrets with counted access.
- `src/text.rs` — the string toolkit the rest is built on.
- `tests/` — tests of the library.
- `app/` — ordinary Rust around the library: floating-point scores,
  randomness, the clock, files, the network and JSON.
