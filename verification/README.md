# pdfmaker

A command-line host that converts HTML and CSS to PDF by running the
PDFMaker rendering engine (a wasm-bindgen build) in wasmtime.

`src/` is the verified library:

- `rng`: the SplitMix64 generator behind `crypto.getRandomValues`, with the
  byte stream it fills and laws on its state.
- `bindgen`: stripping wasm-bindgen hash suffixes and choosing the host
  function for each engine import.
- `cli`, `paper`, `error`: the command-line grammar, paper sizes, the
  number syntax of custom sizes, and the error messages.
- `paths`: the `Document.pdf`, `Document-2.pdf`, ... output names.
- `host`: the host-side values, their JavaScript type tests, the externref
  table seed, the engine's result and the engine cache plan.
- `text`: character-level helpers.

`app/main.rs` does the I/O: reading files, downloading and caching the
engine, and driving wasmtime.
