# mosaic

Mosaic is a platform for community-authored visual methods ("Facets") that turn media into
text art. Facets are untrusted WebAssembly modules or bytecode programs; the server admits
them against a conformance profile, certifies them on a fixed probe suite, stores them in a
moderated registry, and renders inputs through them in a sandbox.

This crate is the verified core of that platform, written in Verus:

- `src/profile.rs`, `src/wasm.rs` — the conformance profile a wasm Facet must meet, decided
  from the module's sections.
- `src/vm.rs`, `src/vm/` — the bytecode format, its validator, and the evaluator, which runs
  a validated program over any value lane without a runtime error.
- `src/dsl.rs`, `src/dsl/` — Glint, the expression language compiled to that bytecode: lexer,
  parser, code generator, each against a specification over plain values.
- `src/certify.rs` — the probe suites and the certification verdict.
- `src/auth.rs`, `src/registry.rs`, `src/registry/`, `src/server.rs`, `src/api_error.rs` —
  tokens and roles, the in-memory registry store, listing and moderation, and the request
  rules of the HTTP service.
- `src/ascii.rs`, `src/spectral.rs`, `src/atlas.rs`, `src/feature.rs`, `src/compose.rs`,
  `src/runtime.rs` — the integer side of the engines: grids, colour means, budgets,
  vocabularies, the glyph atlas, text-grid composition and sandbox shape checks.

`app/` is the server program around it: HTTP (axum), the wasmtime sandbox, the store
backends (the library's store behind a lock, and redb), and the floating-point feature
extraction and `f32` evaluation lane. `tests/` holds the crate's tests.

Not carried here: the declarative composition renderer (`render` over a `Composition`) needs
a layer-compositing module (canvases, layers, blend modes) that the project's sources do
not contain; only its coverage checks (`derived_coverage`, `check_explicit_coverage`) are
in `src/compose.rs`. The standalone pixel-art demo tool is floating-point image work over
an image codec, so it is not carried either.
