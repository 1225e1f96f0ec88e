# qubit_json

Resource-aware JSON text admission, verified with Verus.

- `src/` is the verified library: lenient normalization of JSON embedded in
  external text (whitespace, byte order mark, one outer Markdown fence,
  control characters inside strings), privacy-aware decoding errors, a
  resumable lexical scanner whose verdict and value-budget charges are
  specified by a grammar over bytes (`src/lexical/`), exact integer and
  finite-`f64` range checks on number tokens, source coordinates, option
  sets (`JsonDecodeOptions` at the root, and `options::JsonDecodeOptions`,
  which adds a normalized-size limit), normalization charged to a borrowed
  `qubit_budget` decode session (`DecodeSessionRef`, which keeps a ghost
  record of every charge made through it), lexeme lengths and
  output-failure bookkeeping.
- `tests/` exercises the library on concrete inputs.
- `app/` holds what Verus does not see: typed decoding with `serde_json`,
  the value-budget transactions that generic `qubit_budget` quantities
  need, text
  decoders and encoders, float lexeme lengths, and `Display`/`Error` for
  the diagnostics.
