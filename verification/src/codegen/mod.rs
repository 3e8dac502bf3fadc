//! Per-function code generation, and the files that the functions make up.
//!
//! WebAssembly is structured: `block`/`loop`/`if` regions nest properly and `br N`
//! can only target one of the `N` enclosing labels. Each region therefore maps
//! onto Rust directly: a `block` or `loop` that is branched to becomes a labelled
//! `loop { … }` (with `break`/`continue` for `br`), an `if` that is branched to a
//! labelled block, and one that is never targeted is emitted inline.
//!
//! A function that nests deeper than
//! [`FLATTEN_DEPTH_THRESHOLD`](ir::FLATTEN_DEPTH_THRESHOLD) is emitted as a flat
//! `loop { match pc { … } }` dispatch instead (see
//! [`flatten_body`](dispatch::flatten_body)), whose nesting is bounded (see
//! [`nesting`]).
//!
//! Values are tracked on a simulated operand stack of expression strings. A value
//! is stable when re-evaluating its expression always yields the same result; only
//! the others are spilled into `let` bindings at control-flow boundaries and before
//! what could change them.

pub mod analysis;
pub mod call_laws;
pub mod chains;
pub mod common;
pub mod const_expr;
pub mod context;
pub mod contracting;
pub mod derive;
pub mod dispatch;
pub mod driver;
pub mod edges;
pub mod files;
pub mod flat_runs;
pub mod flatten;
pub mod frame;
pub mod func;
pub mod fusing;
pub mod helper_laws;
pub mod helpers;
pub mod hoisting;
pub mod info;
pub mod ir;
pub mod laws;
pub mod live;
pub mod nested_runs;
pub mod nesting;
pub mod order;
pub mod parts;
pub mod reaching;
pub mod render;
pub mod render_cont;
pub mod render_host;
pub mod render_root;
pub mod rendering;
pub mod runtime;
pub mod running;
pub mod scan;
pub mod segments;
pub mod simd_rt;
pub mod split;
pub mod structured_runs;
pub mod text_laws;
