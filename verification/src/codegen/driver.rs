//! Whole modules, as one file or as several.

use std::collections::HashSet;

use vstd::prelude::*;

use crate::codegen::analysis::{declares_objects, makes_gc_ref, needs_gc_types, some_op};
use crate::codegen::common::{index_u32, EXC_DEF, GCREF_DEF};
use crate::codegen::context::{CtxV, ModuleCtx};
use crate::codegen::derive::build_ctx;
use crate::codegen::dispatch::ArtifactsV;
use crate::codegen::func::body::{
    depth_after, depth_peak, law_regions_follow_source, law_rendering_is_unique, lemma_closed,
    meta_result,
};
use crate::codegen::func::state::{FuncGen, GenMeta, GenV, MetaV};
use crate::codegen::func::step::{crosses_region, transfer_crosses_region};
use crate::codegen::helpers::HelperSet;
use crate::codegen::info::FuncInput;
use crate::codegen::ir::FLATTEN_DEPTH_THRESHOLD;
use crate::codegen::order::{in_order, sorted_ids};
use crate::codegen::parts::{ModuleParts, PartsV};
use crate::codegen::render_root::{rt_text_of, simd_text_of};
use crate::codegen::runtime::{render_rt_helpers, Rt, RtSet};
use crate::codegen::simd_rt::render_simd_helpers;
use crate::error::{text_result, unsupported, FailV, TranspileError};
use crate::ops::{Instr, Operator};
use crate::text::{join, joined, lit, texts, Buf, Lines, NameSet};

verus! {

broadcast use vstd::std_specs::hash::group_hash_axioms;

// ---------------------------------------------------------------------------
// Functions
// ---------------------------------------------------------------------------
/// Whether every region of a body ends.
pub open spec fn balanced(input: FuncInput) -> bool {
    depth_after(input.body.ops@) == 0
}

/// Whether a body is never rendered as a flat dispatch.
pub open spec fn shallow(input: FuncInput) -> bool {
    depth_peak(input.body.ops@) <= FLATTEN_DEPTH_THRESHOLD && !crosses_region(input.body.ops@)
}

/// Whether, where the body is rendered as a flat dispatch, none of its branches
/// goes to a region that it leaves open.
pub open spec fn bound_when_flat(c: CtxV, input: FuncInput, index: usize) -> bool {
    match GenV::begun(c, input.params@, input.results@, input.body) {
        Err(_) => true,
        Ok(s) => if index > u32::MAX {
            true
        } else if c.cont.step_set.contains(index as u32) {
            crosses_region(input.body.ops@) ==> s.closed_step(input.body.ops@)
        } else {
            match s.ran(input.body.ops@) {
                Err(_) => true,
                Ok(t) => t.closed_if_flat(input.results@),
            }
        },
    }
}

/// Whether the function can be rendered. A body whose regions all end can; one that
/// leaves some open can too, but for branches to those out of a flat dispatch.
pub open spec fn renderable(c: CtxV, input: FuncInput, index: usize) -> bool {
    balanced(input) || shallow(input) || bound_when_flat(c, input, index)
}

/// The number of regions that a body leaves open, and the greatest number that it
/// has open at once.
fn region_counts(ops: &Vec<Instr>) -> (r: (usize, usize))
    ensures
        r.0 == depth_after(ops@),
        r.1 == depth_peak(ops@),
{
    let mut depth: usize = 0;
    let mut peak: usize = 0;
    let mut i: usize = 0;
    while i < ops.len()
        invariant
            i <= ops@.len(),
            depth <= i,
            depth == depth_after(ops@.take(i as int)),
            peak == depth_peak(ops@.take(i as int)),
        decreases ops@.len() - i,
    {
        assert(ops@.take(i + 1).drop_last() =~= ops@.take(i as int));
        match &ops[i].op {
            Operator::Block { .. }
            | Operator::Loop { .. }
            | Operator::If { .. }
            | Operator::Try { .. } => {
                depth += 1;
            },
            Operator::End => {
                if depth > 0 {
                    depth -= 1;
                }
            },
            _ => {},
        }
        if peak < depth {
            peak = depth;
        }
        i += 1;
    }
    assert(ops@.take(ops@.len() as int) =~= ops@);
    (depth, peak)
}

/// Whether a body ends all its regions or is never rendered as a flat dispatch. Such
/// a body can be rendered whatever the module is.
pub fn renders(input: &FuncInput) -> (r: bool)
    ensures
        r == (balanced(*input) || shallow(*input)),
{
    let (open, peak) = region_counts(&input.body.ops);
    open == 0 || (peak <= FLATTEN_DEPTH_THRESHOLD && !transfer_crosses_region(&input.body.ops))
}

/// Whether `art` is a flat dispatch of the function, where it is rendered as one.
pub open spec fn function_dispatch(
    c: CtxV,
    input: FuncInput,
    index: usize,
    art: ArtifactsV,
) -> bool {
    match GenV::begun(c, input.params@, input.results@, input.body) {
        Err(_) => true,
        Ok(s) => if index > u32::MAX || c.cont.step_set.contains(index as u32) {
            true
        } else {
            match s.ran(input.body.ops@) {
                Err(_) => true,
                Ok(t) => t.flat_dispatch(index, input.params@, input.results@, art),
            }
        },
    }
}

/// The source of one function behind `out`, and what it depends on. A step
/// function (a continuation body, or a function reached from one through a
/// suspend-crossing call) is a resumable state machine instead of an ordinary
/// function.
#[verifier::opaque]
pub open spec fn function_source(
    c: CtxV,
    input: FuncInput,
    index: usize,
    prefix: Seq<char>,
    out: Seq<char>,
    art: ArtifactsV,
) -> Result<(Seq<char>, MetaV), FailV> {
    match GenV::begun(c, input.params@, input.results@, input.body) {
        Err(e) => Err(e),
        Ok(s) => if index > u32::MAX {
            Err(unsupported("index too large"@))
        } else if c.cont.step_set.contains(index as u32) {
            s.cont_step(index, input.params@, input.body.ops@, prefix, out)
        } else {
            match s.ran(input.body.ops@) {
                Err(e) => Err(e),
                Ok(t) => t.finished(index, input.params@, input.results@, prefix, out, art),
            }
        },
    }
}

/// Generate the Rust source of one function, appending it to `out` (each
/// non-empty line prefixed by `line_prefix`, used to indent a method inside a
/// chunk's `impl` block), and return the helper dependencies it discovered.
pub fn generate_function_into<'a>(
    index: usize,
    input: &FuncInput,
    ctx: &'a ModuleCtx<'a>,
    line_prefix: &str,
    out: &mut String,
) -> (r: Result<GenMeta, TranspileError>)
    requires
        renderable(ctx@, *input, index),
    ensures
        exists|art: ArtifactsV|
            #![trigger function_dispatch(ctx@, *input, index, art)]
            function_dispatch(ctx@, *input, index, art) && meta_result(
                r,
                old(out)@,
                final(out)@,
                function_source(ctx@, *input, index, line_prefix@, old(out)@, art),
            ),
{
    proof {
        reveal(function_source);
    }
    let func = match FuncGen::new(&input.params, &input.results, &input.body, ctx) {
        Ok(f) => f,
        Err(e) => {
            assert(function_dispatch(ctx@, *input, index, arbitrary()));
            return Err(e);
        },
    };
    let mut func = func;
    let ghost s = func@;
    let n_ops: usize = input.body.ops.len();
    proof {
        law_regions_follow_source(s, input.body.ops@);
    }
    let full: u32 = match index_u32(index) {
        Ok(i) => i,
        Err(e) => {
            assert(function_dispatch(ctx@, *input, index, arbitrary()));
            return Err(e);
        },
    };
    if holds(&ctx.cont.step_set, full) {
        assert(function_dispatch(ctx@, *input, index, arbitrary()));
        return func.emit_cont_step(index, &input.params, &input.body.ops, line_prefix, out);
    }
    match func.run(&input.body.ops) {
        Ok(()) => {},
        Err(e) => {
            assert(function_dispatch(ctx@, *input, index, arbitrary()));
            return Err(e);
        },
    }
    let ghost t = func@;
    let ghost before = out@;
    proof {
        if balanced(*input) {
            lemma_closed(t, input.results@);
        }
        assert(t.closed_if_flat(input.results@));
    }
    let r = func.finish(index, &input.params, &input.results, line_prefix, out);
    proof {
        let art = choose|art: ArtifactsV|
            #![trigger t.flat_dispatch(index, input.params@, input.results@, art)]
            t.flat_dispatch(index, input.params@, input.results@, art) && meta_result(
                r,
                before,
                out@,
                t.finished(index, input.params@, input.results@, line_prefix@, before, art),
            );
        assert(function_dispatch(ctx@, *input, index, art));
    }
    r
}

/// Whether a list holds `x`.
fn holds(v: &Vec<u32>, x: u32) -> (r: bool)
    ensures
        r == v@.contains(x),
{
    let mut i: usize = 0;
    while i < v.len()
        invariant
            i <= v@.len(),
            forall|k: int| 0 <= k < i ==> v@[k] != x,
        decreases v@.len() - i,
    {
        if v[i] == x {
            return true;
        }
        i += 1;
    }
    false
}

// ---------------------------------------------------------------------------
// Dependencies
// ---------------------------------------------------------------------------
/// The module-wide helper dependencies accumulated while generating every
/// function, merged the same way by both the single-file and the split driver (so
/// the two cannot drift). Rendering the module/root consumes these to emit exactly
/// the helpers, dispatch methods and runtime types the bodies used.
pub struct ModuleDeps {
    pub helpers: HelperSet,
    pub rt: RtSet,
    pub simd: NameSet,
    pub dispatch_sigs: HashSet<u32>,
    pub uses_eh: bool,
    /// Shared state structs from split flattened methods, emitted at the crate
    /// root (see [`GenMeta::state_structs`]).
    pub state_structs: Vec<String>,
}

impl View for ModuleDeps {
    type V = MetaV;

    open spec fn view(&self) -> MetaV {
        MetaV {
            helpers: self.helpers@,
            rt: self.rt@,
            simd: self.simd@,
            dispatch_sigs: self.dispatch_sigs@,
            uses_eh: self.uses_eh,
            state_structs: texts(self.state_structs@),
        }
    }
}

impl MetaV {
    /// No dependencies.
    pub open spec fn none() -> MetaV {
        MetaV {
            helpers: Set::empty(),
            rt: Set::empty(),
            simd: Set::empty(),
            dispatch_sigs: Set::empty(),
            uses_eh: false,
            state_structs: Seq::empty(),
        }
    }

    /// These dependencies and those of one more function.
    pub open spec fn merged(self, other: MetaV) -> MetaV {
        MetaV {
            helpers: self.helpers.union(other.helpers),
            rt: self.rt.union(other.rt),
            simd: self.simd.union(other.simd),
            dispatch_sigs: self.dispatch_sigs.union(other.dispatch_sigs),
            uses_eh: self.uses_eh || other.uses_eh,
            state_structs: self.state_structs + other.state_structs,
        }
    }

    /// The dependencies of the whole module: every dispatch method carries the
    /// type-mismatch trap, so its helper exists where there is any.
    pub open spec fn closed(self) -> MetaV {
        if in_order(self.dispatch_sigs).len() > 0 {
            MetaV { rt: self.rt.insert(Rt::TrapIndirectTypeMismatch), ..self }
        } else {
            self
        }
    }
}

/// Adds all members of another set.
fn add_ids(set: &mut HashSet<u32>, other: &HashSet<u32>)
    ensures
        final(set)@ == old(set)@.union(other@),
{
    let ids = sorted_ids(other);
    let ghost start = set@;
    let mut i: usize = 0;
    assert(set@ =~= start.union(ids@.take(0).to_set()));
    while i < ids.len()
        invariant
            i <= ids@.len(),
            set@ == start.union(ids@.take(i as int).to_set()),
        decreases ids@.len() - i,
    {
        set.insert(ids[i]);
        proof {
            assert(ids@.take(i + 1) =~= ids@.take(i as int).push(ids@[i as int]));
            crate::text::lemma_push_to_set(ids@.take(i as int), ids@[i as int]);
            assert(set@ =~= start.union(ids@.take(i + 1).to_set()));
        }
        i += 1;
    }
    assert(ids@.take(ids@.len() as int) =~= ids@);
}

impl ModuleDeps {
    /// No dependencies.
    pub fn new() -> (r: ModuleDeps)
        ensures
            r@ == MetaV::none(),
    {
        let r = ModuleDeps {
            helpers: HelperSet::new(),
            rt: RtSet::new(),
            simd: NameSet::new(),
            dispatch_sigs: HashSet::new(),
            uses_eh: false,
            state_structs: Vec::new(),
        };
        assert(r@.state_structs =~= Seq::<Seq<char>>::empty());
        r
    }

    /// Fold one function's discovered dependencies into the running totals.
    pub fn merge(&mut self, meta: GenMeta)
        ensures
            final(self)@ == old(self)@.merged(meta@),
    {
        self.helpers.extend(&meta.helpers);
        self.rt.extend(&meta.rt);
        self.simd.extend(&meta.simd);
        add_ids(&mut self.dispatch_sigs, &meta.dispatch_sigs);
        self.uses_eh = self.uses_eh || meta.uses_eh;
        let mut structs = meta.state_structs;
        let ghost a = self.state_structs@;
        let ghost b = structs@;
        self.state_structs.append(&mut structs);
        assert(texts(a + b) =~= texts(a) + texts(b));
    }

    /// Every rendered dispatch method (`call_ref_t{ti}`) carries the type-mismatch
    /// trap, so its cold helper must exist whenever any dispatch method is emitted.
    pub fn close(&mut self)
        ensures
            final(self)@ == old(self)@.closed(),
    {
        if sorted_ids(&self.dispatch_sigs).len() > 0 {
            self.rt.insert(Rt::TrapIndirectTypeMismatch);
        }
    }
}

/// Merging only adds: whatever a function depends on, the module does.
pub proof fn law_merging_only_adds(a: MetaV, b: MetaV)
    ensures
        a.helpers.subset_of(a.merged(b).helpers) && b.helpers.subset_of(a.merged(b).helpers),
        a.rt.subset_of(a.merged(b).rt) && b.rt.subset_of(a.merged(b).rt),
        a.simd.subset_of(a.merged(b).simd) && b.simd.subset_of(a.merged(b).simd),
        a.dispatch_sigs.subset_of(a.merged(b).dispatch_sigs),
        b.dispatch_sigs.subset_of(a.merged(b).dispatch_sigs),
        a.merged(b).uses_eh == (a.uses_eh || b.uses_eh),
        a.merged(MetaV::none()) == a,
{
    assert(a.merged(MetaV::none()).helpers =~= a.helpers);
    assert(a.merged(MetaV::none()).rt =~= a.rt);
    assert(a.merged(MetaV::none()).simd =~= a.simd);
    assert(a.merged(MetaV::none()).dispatch_sigs =~= a.dispatch_sigs);
    assert(a.merged(MetaV::none()).state_structs =~= a.state_structs);
}

// ---------------------------------------------------------------------------
// One file
// ---------------------------------------------------------------------------
/// The state structs behind `out`, each on its own.
pub open spec fn put_structs(out: Seq<char>, structs: Seq<Seq<char>>) -> Seq<char>
    decreases structs.len(),
{
    if structs.len() == 0 {
        out
    } else {
        put_structs(out, structs.drop_last()) + structs.last() + "\n"@
    }
}

impl PartsV {
    /// The flat dispatches of the first functions: as many as `arts` holds.
    pub open spec fn dispatches(self, arts: Seq<ArtifactsV>) -> bool {
        &&& arts.len() <= self.funcs.len()
        &&& forall|i: int|
            0 <= i < arts.len() ==> function_dispatch(
                self.context(),
                #[trigger] self.funcs[i],
                (self.imports.len() + i) as usize,
                arts[i],
            )
    }

    /// The sources of the first `n` functions, and what they depend on.
    pub open spec fn sources(self, arts: Seq<ArtifactsV>, n: nat) -> Result<
        (Seq<Seq<char>>, MetaV),
        FailV,
    >
        decreases n,
    {
        if n == 0 {
            Ok((Seq::empty(), MetaV::none()))
        } else {
            match self.sources(arts, (n - 1) as nat) {
                Err(e) => Err(e),
                Ok((front, deps)) => match function_source(
                    self.context(),
                    self.funcs[n - 1],
                    (self.imports.len() + n - 1) as usize,
                    ""@,
                    Seq::empty(),
                    arts[n - 1],
                ) {
                    Err(e) => Err(e),
                    Ok((text, meta)) => Ok((front.push(text), deps.merged(meta))),
                },
            }
        }
    }

    /// Whether the managed value model is part of the module.
    pub open spec fn has_objects(self) -> bool {
        declares_objects(self.kinds) || some_op(self.funcs, |op: Operator| makes_gc_ref(op))
    }

    /// What stands in front of a single-file module.
    pub open spec fn prelude(self, deps: MetaV) -> Seq<char> {
        let o1 = if deps.uses_eh {
            EXC_DEF@ + "\n"@
        } else {
            Seq::empty()
        };
        let o2 = if self.has_objects() {
            o1 + GCREF_DEF@ + "\n"@
        } else {
            o1
        };
        put_structs(o2, deps.state_structs) + rt_text_of(deps.rt) + simd_text_of(
            deps.simd,
        )
    }

    /// The module as one file; `arts` are the flat dispatches of its functions, up
    /// to the first that fails.
    pub open spec fn single_file(self, arts: Seq<ArtifactsV>) -> Result<Seq<char>, FailV> {
        match self.context_fault() {
            Some(e) => Err(e),
            None => match self.sources(arts, arts.len()) {
                Err(e) => Err(e),
                Ok((sources, found)) => {
                    let deps = found.closed();
                    let body = if self.stateful() {
                        self.module_text(
                            self.context(),
                            sources,
                            deps.helpers,
                            deps.dispatch_sigs,
                        )
                    } else {
                        Ok(joined(sources, "\n"@))
                    };
                    match body {
                        Err(e) => Err(e),
                        Ok(text) => Ok(
                            if self.prelude(deps).len() == 0 {
                                text
                            } else {
                                self.prelude(deps) + "\n"@ + text
                            },
                        ),
                    }
                },
            },
        }
    }

    /// Whether `arts` holds the flat dispatches of all functions that are looked
    /// at: all of them, unless something fails before.
    pub open spec fn looked_at(self, arts: Seq<ArtifactsV>) -> bool {
        self.dispatches(arts) && (arts.len() < self.funcs.len() ==> self.context_fault() is Some
            || self.sources(arts, arts.len()) is Err)
    }
}

proof fn lemma_sources_fail(p: PartsV, arts: Seq<ArtifactsV>, more: Seq<ArtifactsV>, n: nat)
    requires
        n <= arts.len(),
        arts.len() <= more.len(),
        more.take(arts.len() as int) == arts,
    ensures
        p.sources(more, n) == p.sources(arts, n),
    decreases n,
{
    if n > 0 {
        lemma_sources_fail(p, arts, more, (n - 1) as nat);
        assert(more[n - 1] == arts[n - 1]);
    }
}

/// One more flat dispatch leaves the sources so far as they are.
proof fn lemma_sources_push(p: PartsV, arts: Seq<ArtifactsV>, art: ArtifactsV, n: nat)
    requires
        n <= arts.len(),
    ensures
        p.sources(arts.push(art), n) == p.sources(arts, n),
{
    assert(arts.push(art).take(arts.len() as int) =~= arts);
    lemma_sources_fail(p, arts, arts.push(art), n);
}

/// One more flat dispatch.
pub proof fn lemma_dispatches_push(p: PartsV, arts: Seq<ArtifactsV>, art: ArtifactsV)
    requires
        p.dispatches(arts),
        arts.len() < p.funcs.len(),
        function_dispatch(
            p.context(),
            p.funcs[arts.len() as int],
            (p.imports.len() + arts.len()) as usize,
            art,
        ),
    ensures
        p.dispatches(arts.push(art)),
{
    let more = arts.push(art);
    assert forall|i: int| 0 <= i < more.len() implies function_dispatch(
        p.context(),
        #[trigger] p.funcs[i],
        (p.imports.len() + i) as usize,
        more[i],
    ) by {
        if i < arts.len() {
            assert(more[i] == arts[i]);
        }
    }
}

impl<'a> ModuleParts<'a> {
    /// Whether every function can be rendered.
    pub open spec fn all_renderable(&self) -> bool {
        forall|i: int|
            0 <= i < self@.funcs.len() ==> renderable(
                self@.context(),
                #[trigger] self@.funcs[i],
                (self@.imports.len() + i) as usize,
            )
    }

    /// The prelude of a single-file module: the exception type, the managed value
    /// model, the shared state structs of split flattened methods (a field may be a
    /// `GcRef`, so after its definition), then the runtime helpers.
    fn render_prelude(&self, deps: &ModuleDeps) -> (r: String)
        ensures
            r@ == self@.prelude(deps@),
    {
        let mut prelude = String::new();
        if deps.uses_eh {
            prelude = lit(EXC_DEF);
            prelude.append("\n");
        }
        if needs_gc_types(self.type_kinds, self.funcs) {
            prelude.append(GCREF_DEF);
            prelude.append("\n");
        }
        let ghost o2 = prelude@;
        let ghost all = texts(deps.state_structs@);
        let mut i: usize = 0;
        while i < deps.state_structs.len()
            invariant
                i <= deps.state_structs@.len(),
                all == texts(deps.state_structs@),
                prelude@ == put_structs(o2, all.take(i as int)),
            decreases deps.state_structs@.len() - i,
        {
            assert(all.take(i + 1).drop_last() =~= all.take(i as int));
            prelude.append(deps.state_structs[i].as_str());
            prelude.append("\n");
            i += 1;
        }
        assert(all.take(all.len() as int) =~= all);
        let rt_helpers = render_rt_helpers(&deps.rt);
        let simd_helpers = render_simd_helpers(&deps.simd);
        prelude.append(rt_helpers.as_str());
        prelude.append(simd_helpers.as_str());
        prelude
    }

    /// The sources of all functions, and what they depend on. Defined functions
    /// are named by their full function index, i.e. after the imported functions in
    /// the shared index space.
    fn generate_sources<'b>(&self, ctx: &'b ModuleCtx<'b>) -> (r: Result<
        (Vec<String>, ModuleDeps),
        TranspileError,
    >)
        requires
            ctx@ == self@.context(),
            self@.imports.len() + self@.funcs.len() <= usize::MAX,
            self.all_renderable(),
        ensures
            exists|arts: Seq<ArtifactsV>|
                #![trigger self@.dispatches(arts)]
                self@.dispatches(arts) && match self@.sources(arts, arts.len()) {
                    Ok((sources, deps)) => r matches Ok((s, d)) && texts(s@) == sources && d@
                        == deps && arts.len() == self@.funcs.len(),
                    Err(e) => r is Err && r->Err_0@ == e,
                },
    {
        let ghost p = self@;
        let ghost mut arts: Seq<ArtifactsV> = Seq::empty();
        let base: usize = self.imports.len();
        let mut sources = Lines::new();
        let mut deps = ModuleDeps::new();
        let mut i: usize = 0;
        while i < self.funcs.len()
            invariant
                i <= self.funcs@.len(),
                p == self@,
                base == p.imports.len(),
                ctx@ == p.context(),
                p.imports.len() + p.funcs.len() <= usize::MAX,
                self.all_renderable(),
                arts.len() == i,
                p.dispatches(arts),
                p.sources(arts, i as nat) == Ok::<(Seq<Seq<char>>, MetaV), FailV>(
                    (sources@, deps@),
                ),
            decreases self.funcs@.len() - i,
        {
            let mut src = String::new();
            assert(renderable(p.context(), p.funcs[i as int], (p.imports.len() + i) as usize));
            let made = generate_function_into(base + i, &self.funcs[i], ctx, "", &mut src);
            proof {
                let art = choose|art: ArtifactsV|
                    #![trigger function_dispatch(
                        ctx@,
                        self.funcs@[i as int],
                        (base + i) as usize,
                        art,
                    )]
                    function_dispatch(
                        ctx@,
                        self.funcs@[i as int],
                        (base + i) as usize,
                        art,
                    ) && meta_result(
                        made,
                        Seq::empty(),
                        src@,
                        function_source(
                            ctx@,
                            self.funcs@[i as int],
                            (base + i) as usize,
                            ""@,
                            Seq::empty(),
                            art,
                        ),
                    );
                lemma_dispatches_push(p, arts, art);
                lemma_sources_push(p, arts, art, i as nat);
                arts = arts.push(art);
            }
            let meta = match made {
                Ok(m) => m,
                Err(e) => {
                    assert(p.dispatches(arts));
                    return Err(e);
                },
            };
            deps.merge(meta);
            sources.add(src);
            i += 1;
        }
        assert(p.dispatches(arts));
        Ok((sources.v, deps))
    }
}

/// Translate a whole module into a single Rust source string.
///
/// A module that declares linear memory, a table or globals carries mutable
/// state, so it is emitted as a `pub struct Instance` with the functions as
/// `&mut self` methods. A stateless module keeps its functions as free `pub fn`s.
pub fn generate_module(parts: &ModuleParts) -> (r: Result<String, TranspileError>)
    requires
        parts@.imports.len() + parts@.funcs.len() <= usize::MAX,
        parts.all_renderable(),
    ensures
        exists|arts: Seq<ArtifactsV>| #[trigger]
            parts@.looked_at(arts) && text_result(r, parts@.single_file(arts)),
{
    let ghost p = parts@;
    let (ctx, stateful) = match build_ctx(parts) {
        Ok(c) => c,
        Err(e) => {
            assert(p.looked_at(Seq::empty()));
            return Err(e);
        },
    };
    let made = parts.generate_sources(&ctx);
    let ghost arts = choose|arts: Seq<ArtifactsV>|
        #![trigger p.dispatches(arts)]
        p.dispatches(arts) && match p.sources(arts, arts.len()) {
            Ok((sources, deps)) => made matches Ok((s, d)) && texts(s@) == sources && d@ == deps
                && arts.len() == p.funcs.len(),
            Err(e) => made is Err && made->Err_0@ == e,
        };
    assert(p.looked_at(arts));
    let (sources, found) = match made {
        Ok(m) => m,
        Err(e) => {
            return Err(e);
        },
    };
    let mut deps = found;
    deps.close();
    let body = if !stateful {
        join(&sources, "\n")
    } else {
        match parts.render_module(&ctx, &sources, &deps.helpers, &deps.dispatch_sigs) {
            Ok(t) => t,
            Err(e) => {
                return Err(e);
            },
        }
    };
    // The exception type, then the runtime helpers, precede the module body.
    // Free-function runtime helpers live at module scope, above the functions (or
    // the `struct Instance`) that call them, in both module shapes.
    let prelude = parts.render_prelude(&deps);
    if prelude.as_str().is_empty() {
        Ok(body)
    } else {
        Ok(Buf::lit(&prelude).s("\n").s(&body).end())
    }
}

/// The source of a function is fixed: two flat dispatches of it give the same one.
pub proof fn law_function_source_is_unique(
    c: CtxV,
    input: FuncInput,
    index: usize,
    prefix: Seq<char>,
    out: Seq<char>,
    a: ArtifactsV,
    b: ArtifactsV,
)
    requires
        function_dispatch(c, input, index, a),
        function_dispatch(c, input, index, b),
    ensures
        function_source(c, input, index, prefix, out, a) == function_source(
            c,
            input,
            index,
            prefix,
            out,
            b,
        ),
{
    reveal(function_source);
    if let Ok(s) = GenV::begun(c, input.params@, input.results@, input.body) {
        if !(index > u32::MAX || c.cont.step_set.contains(index as u32)) {
            if let Ok(t) = s.ran(input.body.ops@) {
                law_rendering_is_unique(
                    t,
                    index,
                    input.params@,
                    input.results@,
                    prefix,
                    out,
                    a,
                    b,
                );
            }
        }
    }
}

proof fn lemma_sources_agree(p: PartsV, a: Seq<ArtifactsV>, b: Seq<ArtifactsV>, n: nat)
    requires
        p.dispatches(a),
        p.dispatches(b),
        n <= a.len(),
        n <= b.len(),
    ensures
        p.sources(a, n) == p.sources(b, n),
    decreases n,
{
    if n > 0 {
        lemma_sources_agree(p, a, b, (n - 1) as nat);
        assert(p.funcs[n - 1] == p.funcs[n - 1]);
        law_function_source_is_unique(
            p.context(),
            p.funcs[n - 1],
            (p.imports.len() + n - 1) as usize,
            ""@,
            Seq::empty(),
            a[n - 1],
            b[n - 1],
        );
    }
}

proof fn lemma_sources_failed(p: PartsV, a: Seq<ArtifactsV>, k: nat, n: nat)
    requires
        k <= n,
        p.sources(a, k) is Err,
    ensures
        p.sources(a, n) == p.sources(a, k),
    decreases n - k,
{
    if k < n {
        lemma_sources_failed(p, a, k, (n - 1) as nat);
    }
}

/// A module has one text as a single file: whatever flat dispatches are looked at,
/// it comes out the same.
pub proof fn law_single_file_is_unique(p: PartsV, a: Seq<ArtifactsV>, b: Seq<ArtifactsV>)
    requires
        p.looked_at(a),
        p.looked_at(b),
    ensures
        p.single_file(a) == p.single_file(b),
{
    if p.context_fault() is None {
        if a.len() <= b.len() {
            lemma_sources_agree(p, a, b, a.len());
            if a.len() < b.len() {
                lemma_sources_failed(p, b, a.len(), b.len());
            }
        } else {
            lemma_sources_agree(p, a, b, b.len());
            lemma_sources_failed(p, a, b.len(), a.len());
        }
    }
}

} // verus!
