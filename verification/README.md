# emote-psb (MDF)

Reading and writing of MDF, the compressed wrapper around E-mote PSB data, with
Verus contracts and proofs.

- `src/mdf/mod.rs` — read options, `MdfReader` (header parsing, the plain and
  MT19937 shells, reads of the decoded bytes) and `MdfWriter` (file layout).
- `src/mdf/md5.rs`, `src/mdf/mt19937.rs` — MD5 and the MT19937 generator, each
  against a specification of the algorithm.
- `src/mdf/keystream.rs` — the XOR key streams and the search over the seed and
  key layouts.
- `src/mdf/codec.rs` — the calls into `byteorder` and `flate2`.
- `src/mdf/laws.rs` — properties across functions: a written file reads back,
  the XOR shell is its own inverse, an obfuscated file opens with its seed,
  consecutive reads concatenate, a repeated key no shorter than the payload
  XORs it like the word stream.
- `app/` — `std::io` stream adapters and the `thiserror` error types.
