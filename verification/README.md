# hyper_serde

Serde support for some types of `cookie`, `hyper`, `hyperx`, `mime` and
`time`: `Cookie`, `ContentType`, `Headers`, `Method`, `Uri`, `Mime` and `Tm`.

- `src/` is the verified library (Verus). `lib.rs` holds the wrappers `De`,
  `Ser` and `Serde`; `headers.rs` how a header map is written as a map from
  names to lines (bytes, or text in pretty mode) and read back, with the
  round-trip laws; `text.rs` the types that are written as one string.
- `app/` drives serde's serializers and visitors with the library's
  conversions (`Deserialize`/`Serialize` impls and the functions
  `deserialize`, `serialize`, `serialize_pretty`).
- `tests/` runs the library on concrete values.
