# wasm2rs

wasm2rs turns a WebAssembly module into standalone Rust source. This crate is the
code generator: it takes a module's parts (signatures, bodies, globals, memories,
tables, tags) and writes the Rust text, in one file or split over several. It is
written in Verus; every function states in its contract the exact text that it
produces, or the error that it reports.

## Layout

- `src/decode/` reads function bodies and constant expressions out of their bytes.
  The bytes go through `wasmparser`, which spells out each instruction; the
  spellings are turned into the crate's own `Operator`.
- `src/ops.rs`, `src/wasm.rs` hold the instructions and types.
- `src/text.rs` holds decimal numbers, joined lines and other text.
- `src/codegen/func/` generates one function. `state.rs` has the generator and its
  model, `op.rs` the dispatch over all instructions, the other files their lowering.
- `src/codegen/ir.rs` is the tree that a body becomes, with its rendering.
- `src/codegen/flatten.rs`, `edges.rs`, `scan.rs`, `dispatch.rs` turn a deep body into
  a flat dispatch, shorten it and, if it is large, split it into parts.
- `src/codegen/analysis.rs`, `context.rs`, `derive.rs` find what a module needs as a
  whole: which functions suspend, which become step functions, what state there is.
- `src/codegen/render*.rs`, `helpers.rs`, `runtime.rs`, `simd_rt.rs`, `segments.rs`
  write what surrounds the functions.
- `src/codegen/driver.rs`, `split.rs`, `files.rs` produce the whole output; `ModuleFiles`
  hands out one file at a time.

Properties that span functions are public proof functions whose names begin with
`law_`. `codegen/live.rs` and `codegen/reaching.rs` show that flattening keeps every
statement that a body can execute, `codegen/contracting.rs` and `codegen/fusing.rs`
that shortening the dispatch keeps them too, `codegen/chains.rs` what fusing makes of
a dispatch, `codegen/nesting.rs` that its lines stand
at a bounded depth. More are in `codegen/laws.rs`,
`codegen/rendering.rs`, `codegen/hoisting.rs`, `codegen/helper_laws.rs`, `codegen/text_laws.rs`,
`codegen/func/keeps.rs` and next to the functions that they are about.

## Limits

- A body that leaves regions open is rendered as it stands, but for one thing: where
  it is flattened, none of its branches may go to a region that it leaves open.
- An instruction that has no lowering is reported with its name.
- Bytes that cannot be read to their end are malformed; what is not supported in a
  module as a whole is reported first.
