# rusty_h2

HTTP/2 wire-format building blocks, written in Verus: every executable
function carries a `requires`/`ensures` contract over a mathematical model
of the bytes it reads or writes, and Verus proves the code against it.

- `frame` — the 9-octet frame header and the ten RFC 9113 frame types, plus
  `Frame` for any of them. Each type has a spec of its encoding
  (`*_frame_bytes`) and of what decoding gives (`decode_*_result`), and a
  proof that decoding an encoded frame gives it back.
- `hpack` — RFC 7541: integer and string primitives, the Huffman code
  (Appendix B, with a proof that decoding undoes encoding), the static
  table, the dynamic table with eviction, and an `Encoder`/`Decoder` pair.
  `hpack::roundtrip` proves that a decoder whose table matches the
  encoder's decodes the header block the encoder writes back to the header
  list, sensitive flags included, and ends with the same table. The proof
  assumes three things: the table fits its maximum size (every table the
  API builds does), any pending size update is within the decoder's
  advertised limit (the decoder rejects larger ones), and every name and
  value is shorter than `usize::MAX - 11` octets.
- `stream` — the RFC 9113 §5.1 stream state machine, with its transition
  table as a spec and laws such as "closed is final".
- `error` — connection- and stream-level errors (RFC 9113 §5.4).

`app/` mirrors the error types with `Display` and `std::error::Error`,
which the verified crate cannot implement. `tests/` holds the test suite,
including the RFC 7541 Appendix C request sequences.
