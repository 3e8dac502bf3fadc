//! The files of a module that is split: the head of each chunk, and the root.

use std::collections::HashSet;

use vstd::prelude::*;

use crate::codegen::common::ALLOW;
use crate::codegen::context::{CtxV, ModuleCtx};
use crate::codegen::helpers::{Helper, HelperSet};
use crate::codegen::parts::{ModuleParts, PartsV};
use crate::codegen::runtime::{block_text, render_rt_helpers, rt_blocks, rt_list, Rt, RtSet};
use crate::codegen::simd_rt::{lane_blocks, lane_list, render_simd_helpers};
use crate::error::{text_result, FailV, TranspileError};
use crate::text::{dec, lit, push_dec, texts, Buf, NameSet};

verus! {

/// The runtime helpers that are used, as source.
pub open spec fn rt_text_of(used: Set<Rt>) -> Seq<char> {
    block_text(rt_blocks(rt_list(), used))
}

/// The lane helpers that are used, as source.
pub open spec fn simd_text_of(used: Set<Seq<char>>) -> Seq<char> {
    block_text(lane_blocks(lane_list(), used))
}

/// The `mod` lines of the first `n` chunks, behind `out`.
pub open spec fn mod_lines(out: Seq<char>, n: nat) -> Seq<char>
    decreases n,
{
    if n == 0 {
        out
    } else {
        (mod_lines(out, (n - 1) as nat) + "mod funcs_"@ + dec((n - 1) as nat) + ";\n"@)
    }
}

/// The `pub use` lines of the first `n` chunks, behind `out`.
pub open spec fn use_lines(out: Seq<char>, n: nat) -> Seq<char>
    decreases n,
{
    if n == 0 {
        out
    } else {
        (use_lines(out, (n - 1) as nat) + "pub use funcs_"@ + dec((n - 1) as nat) + "::*;\n"@)
    }
}

impl PartsV {
    /// The head of a chunk file.
    pub open spec fn chunk_head(self, stateful: bool) -> Seq<char> {
        let o = "#[allow(unused_imports)]\nuse super::*;\n"@;
        if stateful {
            (o + "\n"@ + ALLOW@ + "\nimpl"@ + self.bound_generics() + " Instance"@
                + self.named_generics() + " {\n"@)
        } else {
            o
        }
    }

    /// The root file of a split module.
    pub open spec fn root_text(
        self,
        c: CtxV,
        stateful: bool,
        helpers: Set<(Helper, u32)>,
        rt: Set<Rt>,
        simd: Set<Seq<char>>,
        dispatch_sigs: Set<u32>,
        n_chunks: nat,
    ) -> Result<Seq<char>, FailV> {
        let o1 = if rt_text_of(rt).len() > 0 {
            rt_text_of(rt) + "\n"@
        } else {
            Seq::empty()
        };
        let o2 = if simd_text_of(simd).len() > 0 {
            o1 + simd_text_of(simd) + "\n"@
        } else {
            o1
        };
        if stateful {
            match self.module_text(c, Seq::empty(), helpers, dispatch_sigs) {
                Err(e) => Err(e),
                Ok(text) => Ok(mod_lines(o2 + text + "\n"@, n_chunks)),
            }
        } else {
            Ok(use_lines(mod_lines(o2, n_chunks), n_chunks))
        }
    }
}

impl<'a> ModuleParts<'a> {
    /// Render the *prelude* of one chunk file of a multi-file module: the
    /// `use super::*;` that pulls the root's items (the `Instance` type, the
    /// `Imports` trait, the runtime helpers and the other chunks' re-exported
    /// functions) into scope, and — for a stateful module — the opening of the
    /// `impl Instance` block the chunk's methods live in.
    ///
    /// The functions themselves are streamed in after this prelude: a stateless
    /// module's are free `pub fn`s emitted directly, while a stateful module's are
    /// `&mut self` methods indented one level inside the `impl` (Rust allows a
    /// type's inherent impl to be split across files in the same crate), whose
    /// closing `}` the caller appends. The private helper methods the bodies call
    /// live on the root's impl and are visible here because a chunk module is a
    /// descendant of the crate root that defines them. A chunk that happens to call
    /// nothing from the root leaves the glob unused, which `-D warnings` rejects, so
    /// the import is unconditionally allowed.
    pub fn chunk_prelude(&self, stateful: bool) -> (r: String)
        ensures
            r@ == self@.chunk_head(stateful),
    {
        let out = lit("#[allow(unused_imports)]\nuse super::*;\n");
        if stateful {
            let (bound, named) = self.host_generics();
            Buf::lit(&out).s("\n").s(ALLOW).s("\nimpl").s(bound).s(" Instance").s(named).s(" {\n")
                .end()
        } else {
            out
        }
    }

    /// Render the `lib.rs` root of a multi-file module: the module-scope runtime
    /// helpers followed by `mod`/`pub use` declarations for each chunk.
    ///
    /// A stateless root re-exports every chunk's free functions so callers (and the
    /// other chunks' `use super::*`) see them at the crate root, matching the
    /// single-file layout. A stateful root additionally emits the `Instance` struct,
    /// its `new`, the shared helper/dispatch methods and the `Imports` trait — every
    /// part of [`Self::render_module`] except the per-function bodies, which live in
    /// the chunk files.
    pub fn render_lib_root(
        &self,
        ctx: &ModuleCtx,
        stateful: bool,
        helpers: &HelperSet,
        rt: &RtSet,
        simd: &NameSet,
        dispatch_sigs: &HashSet<u32>,
        n_chunks: usize,
    ) -> (r: Result<String, TranspileError>)
        requires
            ctx@.kinds == self@.kinds,
            ctx@.n_funcs() <= usize::MAX,
        ensures
            text_result(
                r,
                self@.root_text(
                    ctx@,
                    stateful,
                    helpers@,
                    rt@,
                    simd@,
                    dispatch_sigs@,
                    n_chunks as nat,
                ),
            ),
    {
        let mut out = String::new();
        let rt_helpers = render_rt_helpers(rt);
        if !rt_helpers.as_str().is_empty() {
            out = rt_helpers;
            out.append("\n");
        }
        let simd_helpers = render_simd_helpers(simd);
        if !simd_helpers.as_str().is_empty() {
            out.append(simd_helpers.as_str());
            out.append("\n");
        }
        if stateful {
            // The header impl carries no function bodies; those are added by the
            // chunk files' own `impl Instance` blocks.
            let sources: Vec<String> = Vec::new();
            assert(texts(sources@) =~= Seq::<Seq<char>>::empty());
            let text = self.render_module(ctx, &sources, helpers, dispatch_sigs)?;
            out.append(text.as_str());
            out.append("\n");
        }
        let ghost o2 = out@;
        let mut i: usize = 0;
        while i < n_chunks
            invariant
                i <= n_chunks,
                out@ == mod_lines(o2, i as nat),
            decreases n_chunks - i,
        {
            out.append("mod funcs_");
            push_dec(&mut out, i as u128);
            out.append(";\n");
            i += 1;
        }
        // A stateless module exposes free functions at the crate root, so the chunks
        // must be re-exported to preserve that public shape.
        if !stateful {
            let ghost o3 = out@;
            let mut k: usize = 0;
            while k < n_chunks
                invariant
                    k <= n_chunks,
                    out@ == use_lines(o3, k as nat),
                decreases n_chunks - k,
            {
                out.append("pub use funcs_");
                push_dec(&mut out, k as u128);
                out.append("::*;\n");
                k += 1;
            }
        }
        Ok(out)
    }
}

} // verus!
