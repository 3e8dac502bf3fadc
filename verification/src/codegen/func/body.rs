//! Whole function bodies: their locals, their instructions and their source.

use vstd::prelude::*;

use crate::codegen::analysis::{
    all_locals, collect_mutated_locals, default_value, default_value_text, local_types_of,
    mutated_locals, rust_type, rust_type_text, rust_types, rust_types_text,
};
use crate::codegen::common::{index_u32, ALLOW};
use crate::codegen::context::{CtxV, ModuleCtx};
use crate::codegen::dispatch::{
    dispatch_of, exit_text, flat_body, flatten_body, law_dispatch_is_unique, lemma_plain_assembled,
    numbered, ArtifactsV, SplitV,
};
use crate::codegen::flatten::{lemma_lowerable_grows, lemma_lowerable_plain, lowerable, SplitPlan};
use crate::codegen::func::control::copy_types;
use crate::codegen::func::keeps::{law_nesting, nested, same_function};
use crate::codegen::func::state::{
    gen_result, labels_of, lemma_push_lowerable, FuncGen, GenMeta, GenR, GenV, MetaV,
};
use crate::codegen::info::{Body, CompositeKind, KindV};
use crate::codegen::ir::{
    can_flatten, flattenable, larger, lemma_nodes_push, node_view, nodes_view, plain_nodes,
    push_body_line, put, put_nodes, render_body_into, Node, NodeV, FLATTEN_DEPTH_THRESHOLD,
};
use crate::error::{text_result, unsupported, FailV, TranspileError};
use crate::ops::Instr;
use crate::text::{dec, join, joined, lit, opt_text, texts, Buf, Lines};
use crate::wasm::ValType;

verus! {

broadcast use vstd::std_specs::hash::group_hash_axioms;

// ---------------------------------------------------------------------------
// Locals
// ---------------------------------------------------------------------------
/// The end of the run of equal types that begins at `i`.
pub open spec fn run_end(tys: Seq<ValType>, i: int) -> int
    decreases tys.len() - i,
{
    if i + 1 < tys.len() && tys[i + 1] == tys[i] {
        run_end(tys, i + 1)
    } else {
        i + 1
    }
}

/// The `mut ` of a local that some operator writes.
pub open spec fn mut_word(mutable: Set<u32>, i: int) -> Seq<char> {
    if mutable.contains(i as u32) {
        "mut "@
    } else {
        ""@
    }
}

/// The patterns of the locals from `i` to `end`.
pub open spec fn local_patterns(mutable: Set<u32>, i: int, end: int) -> Seq<Seq<char>> {
    Seq::new((end - i) as nat, |k: int| (mut_word(mutable, i + k) + "l"@ + dec((i + k) as nat)))
}

/// `n` times the same text.
pub open spec fn copies(t: Seq<char>, n: nat) -> Seq<Seq<char>> {
    Seq::new(n, |k: int| t)
}

/// The declaration of the run of locals from `i` to `end`: a plain binding for one
/// local, a tuple of bindings for several.
pub open spec fn run_line(
    tys: Seq<ValType>,
    mutable: Set<u32>,
    kinds: Seq<KindV>,
    i: int,
    end: int,
) -> Result<Seq<char>, FailV> {
    match rust_type_text(tys[i], kinds) {
        Err(e) => Err(e),
        Ok(rty) => if end - 1 > u32::MAX {
            Err(unsupported("index too large"@))
        } else {
            let default = default_value_text(tys[i], kinds);
            let n = (end - i) as nat;
            Ok(
                if n == 1 {
                    ("let "@ + mut_word(mutable, i) + "l"@ + dec(i as nat) + ": "@ + rty + " = "@
                        + default + ";"@)
                } else {
                    ("let ("@ + joined(local_patterns(mutable, i, end), ", "@) + "): ("@
                        + joined(copies(rty, n), ", "@) + ") = ("@
                        + joined(copies(default, n), ", "@) + ");"@)
                },
            )
        },
    }
}

/// The declarations of the locals from `i` on, behind `out`. Consecutive locals of
/// the same type share one declaration.
pub open spec fn local_nodes(
    tys: Seq<ValType>,
    mutable: Set<u32>,
    kinds: Seq<KindV>,
    i: int,
    out: Seq<NodeV>,
) -> Result<Seq<NodeV>, FailV>
    decreases tys.len() - i,
{
    if i >= tys.len() {
        Ok(out)
    } else {
        match run_line(tys, mutable, kinds, i, run_end(tys, i)) {
            Err(e) => Err(e),
            Ok(line) => if i < run_end(tys, i) <= tys.len() {
                local_nodes(
                    tys,
                    mutable,
                    kinds,
                    run_end(tys, i),
                    out.push(NodeV::Line(line)),
                )
            } else {
                Ok(out)
            },
        }
    }
}

proof fn lemma_run_end(tys: Seq<ValType>, i: int)
    requires
        0 <= i < tys.len(),
    ensures
        i < run_end(tys, i) <= tys.len(),
    decreases tys.len() - i,
{
    if i + 1 < tys.len() && tys[i + 1] == tys[i] {
        lemma_run_end(tys, i + 1);
    }
}

fn repeat_text(t: &str, n: usize) -> (r: Vec<String>)
    ensures
        texts(r@) == copies(t@, n as nat),
{
    let mut out = Lines::new();
    let mut i: usize = 0;
    while i < n
        invariant
            i <= n,
            out@ =~= copies(t@, i as nat),
        decreases n - i,
    {
        out.lit(t);
        i += 1;
    }
    out.v
}

/// The declaration of the run of locals from `i` to `end`.
fn declare_run(
    tys: &Vec<ValType>,
    mutable: &std::collections::HashSet<u32>,
    kinds: &Vec<CompositeKind>,
    i: usize,
    end: usize,
) -> (r: Result<String, TranspileError>)
    requires
        i < end <= tys@.len(),
    ensures
        text_result(
            r,
            run_line(
                tys@,
                mutable@,
                crate::codegen::info::kinds_view(kinds@),
                i as int,
                end as int,
            ),
        ),
{
    let rty = rust_type(tys[i], kinds)?;
    let default = default_value(tys[i], kinds);
    let n: usize = end - i;
    if n == 1 {
        let idx: u32 = index_u32(i)?;
        let m = if mutable.contains(&idx) {
            "mut "
        } else {
            ""
        };
        return Ok(Buf::lit("let ").s(m).s("l").n(i as u64).s(": ").s(rty).s(" = ").s(default).s(";")
            .end());
    }
    let mut names = Lines::new();
    let mut j: usize = i;
    let ghost want = local_patterns(mutable@, i as int, end as int);
    while j < end
        invariant
            i <= j <= end <= tys@.len(),
            i < tys@.len(),
            want == local_patterns(mutable@, i as int, end as int),
            names@ =~= want.take(j - i),
            rust_type_text(tys@[i as int], crate::codegen::info::kinds_view(kinds@)) == Ok::<
                Seq<char>,
                FailV,
            >(rty@),
            j > i ==> j - 1 <= u32::MAX,
        decreases end - j,
    {
        let idx: u32 = index_u32(j)?;
        let m = if mutable.contains(&idx) {
            "mut "
        } else {
            ""
        };
        names.add(Buf::lit(m).s("l").n(j as u64).end());
        assert(want[j - i] == mut_word(mutable@, i + (j - i)) + "l"@ + dec((i + (j - i)) as nat));
        j += 1;
    }
    assert(names@ =~= want);
    let all_names = join(&names.v, ", ");
    let all_types = join(&repeat_text(rty, n), ", ");
    let all_defaults = join(&repeat_text(default, n), ", ");
    Ok(Buf::lit("let (").s(&all_names).s("): (").s(&all_types).s(") = (").s(&all_defaults).s(");")
        .end())
}

/// The declarations of the locals behind the first `from`, which are the
/// parameters: those arrive already bound.
fn declare_locals(
    tys: &Vec<ValType>,
    mutable: &std::collections::HashSet<u32>,
    kinds: &Vec<CompositeKind>,
    from: usize,
) -> (r: Result<Vec<Node>, TranspileError>)
    ensures
        match local_nodes(
            tys@,
            mutable@,
            crate::codegen::info::kinds_view(kinds@),
            from as int,
            Seq::empty(),
        ) {
            Ok(ns) => r is Ok && nodes_view(r->Ok_0@) == ns && lowerable(ns, Set::empty(), true),
            Err(e) => r is Err && r->Err_0@ == e,
        },
{
    let ghost kinds_v = crate::codegen::info::kinds_view(kinds@);
    let ghost want = local_nodes(tys@, mutable@, kinds_v, from as int, Seq::empty());
    let mut out: Vec<Node> = Vec::new();
    assert(nodes_view(out@) =~= Seq::<NodeV>::empty());
    let mut i: usize = from;
    while i < tys.len()
        invariant
            want == local_nodes(tys@, mutable@, kinds_v, from as int, Seq::empty()),
            kinds_v == crate::codegen::info::kinds_view(kinds@),
            want == local_nodes(tys@, mutable@, kinds_v, i as int, nodes_view(out@)),
            lowerable(nodes_view(out@), Set::empty(), true),
        decreases tys@.len() - i,
    {
        proof {
            lemma_run_end(tys@, i as int);
        }
        let ty = tys[i];
        let mut end: usize = i + 1;
        while end < tys.len() && tys[end] == ty
            invariant
                i < end <= tys@.len(),
                ty == tys@[i as int],
                tys@[end - 1] == ty,
                run_end(tys@, i as int) == run_end(tys@, end - 1),
            decreases tys@.len() - end,
        {
            end += 1;
        }
        let line = declare_run(tys, mutable, kinds, i, end)?;
        let node = Node::Line(line);
        proof {
            lemma_nodes_push(out@, node);
            lemma_push_lowerable(nodes_view(out@), node_view(node), Set::empty(), true);
        }
        out.push(node);
        i = end;
    }
    Ok(out)
}

// ---------------------------------------------------------------------------
// Instructions
// ---------------------------------------------------------------------------
impl GenV {
    /// The state at the head of a function with the given signature and body, which
    /// must be readable to its end.
    pub open spec fn begun(
        ctx: CtxV,
        params: Seq<ValType>,
        results: Seq<ValType>,
        body: Body,
    ) -> GenR {
        let tys = local_types_of(params, body.locals@);
        let mutable = mutated_locals(body.ops@);
        if body.locals_broken || body.ops_broken {
            Err(FailV::Malformed)
        } else {
            match local_nodes(tys, mutable, ctx.kinds, params.len() as int, Seq::empty()) {
                Err(e) => Err(e),
                Ok(nodes) => Ok(GenV::fresh(ctx, tys, mutable, results, nodes)),
            }
        }
    }

    /// All instructions, one behind the other.
    pub open spec fn ran(self, ops: Seq<Instr>) -> GenR
        decreases ops.len(),
    {
        if ops.len() == 0 {
            Ok(self)
        } else {
            match self.ran(ops.drop_last()) {
                Err(e) => Err(e),
                Ok(s) => s.emitted(ops.last().op, ops.last().text@),
            }
        }
    }
}

/// The number of regions open behind the given instructions.
pub open spec fn depth_after(ops: Seq<Instr>) -> nat
    decreases ops.len(),
{
    if ops.len() == 0 {
        0
    } else {
        nested(depth_after(ops.drop_last()), ops.last().op)
    }
}

/// The greatest number of regions open at once.
pub open spec fn depth_peak(ops: Seq<Instr>) -> nat
    decreases ops.len(),
{
    if ops.len() == 0 {
        0
    } else {
        larger(depth_peak(ops.drop_last()), depth_after(ops))
    }
}

proof fn lemma_depth_bound(ops: Seq<Instr>)
    ensures
        depth_after(ops) <= ops.len(),
    decreases ops.len(),
{
    if ops.len() > 0 {
        lemma_depth_bound(ops.drop_last());
    }
}

/// Behind any instructions the regions open in the generated code are those open
/// in the source; where every region of the source has ended, none is left open.
/// Nothing in a body turns it into a continuation body, or changes its locals,
/// results or module. The greatest depth in the generated code is at most that in
/// the source.
pub proof fn law_regions_follow_source(s: GenV, ops: Seq<Instr>)
    requires
        s.frames.len() == 0,
        s.reachable,
        ops.len() <= usize::MAX,
    ensures
        s.ran(ops) matches Ok(t) ==> {
            &&& same_function(s, t)
            &&& t.nesting() == depth_after(ops)
            &&& depth_after(ops) == 0 ==> t.frames.len() == 0
            &&& t.max_depth <= larger(s.max_depth as nat, depth_peak(ops))
        },
    decreases ops.len(),
{
    if ops.len() > 0 {
        law_regions_follow_source(s, ops.drop_last());
        lemma_depth_bound(ops.drop_last());
        if let Ok(t) = s.ran(ops.drop_last()) {
            law_nesting(t, ops.last().op, ops.last().text@);
        }
    }
}

proof fn lemma_ran_fails(s: GenV, ops: Seq<Instr>, k: int)
    requires
        0 <= k <= ops.len(),
        s.ran(ops.take(k)) is Err,
    ensures
        s.ran(ops) == s.ran(ops.take(k)),
    decreases ops.len() - k,
{
    if k < ops.len() {
        assert(ops.take(k + 1).drop_last() =~= ops.take(k));
        lemma_ran_fails(s, ops, k + 1);
    } else {
        assert(ops.take(k) =~= ops);
    }
}

impl<'a> FuncGen<'a> {
    /// The generator at the head of a function. Declared locals default to zero;
    /// parameters arrive already bound. Consecutive locals of the same type
    /// collapse into one tuple binding, so a function with many locals emits a
    /// handful of lines rather than one per local. `mut` is applied per local,
    /// only to the ones actually written.
    pub fn new(
        params: &Vec<ValType>,
        results: &Vec<ValType>,
        body: &Body,
        ctx: &'a ModuleCtx<'a>,
    ) -> (r: Result<FuncGen<'a>, TranspileError>)
        ensures
            match GenV::begun(ctx@, params@, results@, *body) {
                Ok(s) => r is Ok && r->Ok_0@ == s && r->Ok_0.wf(),
                Err(e) => r is Err && r->Err_0@ == e,
            },
    {
        if body.locals_broken || body.ops_broken {
            return Err(TranspileError::Malformed);
        }
        let local_types = all_locals(params, &body.locals);
        let mutable_locals = collect_mutated_locals(&body.ops);
        let cur = declare_locals(&local_types, &mutable_locals, ctx.type_kinds, params.len())?;
        Ok(FuncGen::fresh(ctx, local_types, mutable_locals, copy_types(results), cur))
    }

    /// Lowers every instruction of a body.
    pub fn run(&mut self, ops: &Vec<Instr>) -> (r: Result<(), TranspileError>)
        requires
            old(self).wf(),
            old(self)@.frames.len() == 0,
            old(self)@.reachable,
            !old(self)@.in_continuation,
        ensures
            gen_result(r, final(self)@, old(self)@.ran(ops@)),
            r is Ok ==> final(self).wf(),
    {
        let ghost start = self@;
        let mut i: usize = 0;
        while i < ops.len()
            invariant
                i <= ops@.len(),
                start == old(self)@,
                start.frames.len() == 0,
                start.reachable,
                !start.in_continuation,
                self.wf(),
                start.ran(ops@.take(i as int)) == Ok::<GenV, FailV>(self@),
            decreases ops@.len() - i,
        {
            proof {
                law_regions_follow_source(start, ops@.take(i as int));
                assert(ops@.take(i + 1).drop_last() =~= ops@.take(i as int));
            }
            match self.emit_op(&ops[i]) {
                Ok(()) => {},
                Err(e) => {
                    proof {
                        lemma_ran_fails(start, ops@, i + 1);
                    }
                    return Err(e);
                },
            }
            i += 1;
        }
        assert(ops@.take(ops@.len() as int) =~= ops@);
        Ok(())
    }
}

// ---------------------------------------------------------------------------
// Source
// ---------------------------------------------------------------------------
/// The declarations of the return signal and of the holders of the first `n`
/// results.
pub open spec fn signal_nodes(results: Seq<ValType>, kinds: Seq<KindV>, n: nat) -> Result<
    Seq<NodeV>,
    FailV,
>
    decreases n,
{
    if n == 0 {
        Ok(Seq::empty().push(NodeV::Line("let mut __returning: bool = false;"@)))
    } else {
        match signal_nodes(results, kinds, (n - 1) as nat) {
            Err(e) => Err(e),
            Ok(front) => match rust_type_text(results[n - 1], kinds) {
                Err(e) => Err(e),
                Ok(rty) => Ok(
                    front.push(
                        NodeV::Line(
                            ("let mut __rv"@ + dec((n - 1) as nat) + ": "@ + rty + " = "@
                                + default_value_text(results[n - 1], kinds) + ";"@),
                        ),
                    ),
                ),
            },
        }
    }
}

/// The parameter list of a function, up to the `n`-th parameter.
pub open spec fn params_text(
    params: Seq<ValType>,
    mutable: Set<u32>,
    kinds: Seq<KindV>,
    is_method: bool,
    n: nat,
) -> Result<Seq<char>, FailV>
    decreases n,
{
    if n == 0 {
        Ok(
            if is_method {
                "&mut self"@
            } else {
                Seq::empty()
            },
        )
    } else {
        match params_text(params, mutable, kinds, is_method, (n - 1) as nat) {
            Err(e) => Err(e),
            Ok(front) => if n - 1 > u32::MAX {
                Err(unsupported("index too large"@))
            } else {
                match rust_type_text(params[n - 1], kinds) {
                    Err(e) => Err(e),
                    Ok(rty) => {
                        let sep = if is_method || n > 1 {
                            ", "@
                        } else {
                            ""@
                        };
                        Ok((front + sep + mut_word(mutable, n - 1) + "l"@ + dec((n - 1) as nat)
                            + ": "@ + rty))
                    },
                }
            },
        }
    }
}

/// The return type of a function: none, the one, or a tuple.
pub open spec fn return_type(results: Seq<ValType>, kinds: Seq<KindV>) -> Result<
    Option<Seq<char>>,
    FailV,
> {
    match rust_types_text(results, kinds) {
        Err(e) => Err(e),
        Ok(tys) => Ok(
            if tys.len() == 0 {
                None
            } else if tys.len() == 1 {
                Some(tys[0])
            } else {
                Some(("("@ + joined(tys, ", "@) + ")"@))
            },
        ),
    }
}

pub open spec fn arrow_text(ret: Option<Seq<char>>) -> Seq<char> {
    match ret {
        Some(t) => (" -> "@ + t),
        None => Seq::empty(),
    }
}

/// The head of a function behind `out`.
pub open spec fn put_head(
    out: Seq<char>,
    index: usize,
    is_method: bool,
    params: Seq<char>,
    ret: Option<Seq<char>>,
    prefix: Seq<char>,
) -> Seq<char> {
    let o = if is_method {
        out
    } else {
        out + prefix + ALLOW@ + "\n"@
    };
    o + prefix + ("pub fn func"@ + dec(index as nat) + "("@ + params + ")"@ + arrow_text(ret)
        + " {\n"@)
}

/// Lines behind `out`, each but an empty one behind `prefix`.
pub open spec fn put_lines(out: Seq<char>, lines: Seq<Seq<char>>, prefix: Seq<char>) -> Seq<char>
    decreases lines.len(),
{
    if lines.len() == 0 {
        out
    } else {
        let front = put_lines(out, lines.drop_last(), prefix);
        if lines.last().len() == 0 {
            front + "\n"@
        } else {
            front + prefix + lines.last() + "\n"@
        }
    }
}

/// A function whose body is nested Rust control flow, behind `out`.
pub open spec fn put_nested(
    out: Seq<char>,
    index: usize,
    is_method: bool,
    params: Seq<char>,
    ret: Option<Seq<char>>,
    prefix: Seq<char>,
    nodes: Seq<NodeV>,
    trailing: Option<Seq<char>>,
) -> Seq<char> {
    let o1 = put_nodes(put_head(out, index, is_method, params, ret, prefix), nodes, 0, prefix);
    let o2 = match trailing {
        Some(t) => put(o1, t, 0, prefix),
        None => o1,
    };
    o2 + prefix + "}\n"@
}

/// A function whose body is a flat dispatch, behind `out`: the state struct of a
/// split free function in front of it, the part functions behind it.
pub open spec fn put_flat(
    out: Seq<char>,
    index: usize,
    is_method: bool,
    params: Seq<char>,
    ret: Option<Seq<char>>,
    prefix: Seq<char>,
    art: ArtifactsV,
) -> Seq<char> {
    let o = if !is_method && art.state_struct.len() > 0 {
        out + art.state_struct + "\n"@
    } else {
        out
    };
    put_lines(
        put_nested(o, index, is_method, params, ret, prefix, art.body, None),
        art.siblings,
        prefix,
    )
}

/// The types of the first `n` parameters, each with its local's index.
pub open spec fn split_params(params: Seq<ValType>, kinds: Seq<KindV>, n: nat) -> Result<
    Seq<(usize, Seq<char>)>,
    FailV,
>
    decreases n,
{
    if n == 0 {
        Ok(Seq::empty())
    } else {
        match split_params(params, kinds, (n - 1) as nat) {
            Err(e) => Err(e),
            Ok(front) => match rust_type_text(params[n - 1], kinds) {
                Err(e) => Err(e),
                Ok(rty) => Ok(front.push(((n - 1) as usize, rty))),
            },
        }
    }
}

impl GenV {
    /// The nodes of the whole body: the return signal's declarations in front,
    /// where some `return` escapes a `try`.
    pub open spec fn whole_nodes(self, results: Seq<ValType>) -> Result<Seq<NodeV>, FailV> {
        if self.uses_ret_escape {
            match signal_nodes(results, self.ctx.kinds, results.len()) {
                Err(e) => Err(e),
                Ok(decls) => Ok(decls + self.cur),
            }
        } else {
            Ok(self.cur)
        }
    }

    /// Whether the function is rendered as a flat dispatch. A deeply nested one
    /// is, so that its rendered nesting cannot overflow rustc's parser.
    pub open spec fn is_flat(self, nodes: Seq<NodeV>) -> bool {
        self.max_depth > FLATTEN_DEPTH_THRESHOLD && flattenable(nodes)
    }

    /// Whether, where the function is rendered as a flat dispatch, none of its
    /// branches goes to a region that its body leaves open.
    pub open spec fn closed_if_flat(self, results: Seq<ValType>) -> bool {
        match self.whole_nodes(results) {
            Ok(nodes) => self.is_flat(nodes) ==> lowerable(nodes, Set::empty(), true),
            Err(_) => true,
        }
    }

    /// How a large dispatch of the function is split.
    pub open spec fn split_plan(
        self,
        index: usize,
        params: Seq<(usize, Seq<char>)>,
        ret: Option<Seq<char>>,
    ) -> SplitV {
        SplitV {
            max_arms: self.ctx.split_dispatch,
            func_index: index,
            is_method: self.ctx.is_method,
            params,
            ret,
        }
    }

    /// Whether `art` is a flat dispatch of the function, where it is rendered as
    /// one.
    pub open spec fn flat_dispatch(
        self,
        index: usize,
        params: Seq<ValType>,
        results: Seq<ValType>,
        art: ArtifactsV,
    ) -> bool {
        match (
            self.whole_nodes(results),
            params_text(
                params,
                self.mutable_locals,
                self.ctx.kinds,
                self.ctx.is_method,
                params.len(),
            ),
            return_type(results, self.ctx.kinds),
            split_params(params, self.ctx.kinds, params.len()),
        ) {
            (Ok(nodes), Ok(_), Ok(ret), Ok(ps)) => self.is_flat(nodes) ==> {
                let f = flat_body(nodes, exit_text(self.trailing, results.len() > 0), true);
                dispatch_of(
                    f.arms,
                    f.uses_continue,
                    0,
                    Some(self.split_plan(index, ps, ret)),
                    art,
                )
            },
            _ => true,
        }
    }

    /// The function's source behind `out`, and what it depends on; `art` is its
    /// flat dispatch, where it has one.
    pub open spec fn finished(
        self,
        index: usize,
        params: Seq<ValType>,
        results: Seq<ValType>,
        prefix: Seq<char>,
        out: Seq<char>,
        art: ArtifactsV,
    ) -> Result<(Seq<char>, MetaV), FailV> {
        let is_method = self.ctx.is_method;
        match self.whole_nodes(results) {
            Err(e) => Err(e),
            Ok(nodes) => match params_text(
                params,
                self.mutable_locals,
                self.ctx.kinds,
                is_method,
                params.len(),
            ) {
                Err(e) => Err(e),
                Ok(ps) => match return_type(results, self.ctx.kinds) {
                    Err(e) => Err(e),
                    Ok(ret) => if self.is_flat(nodes) {
                        Ok(
                            (
                                put_flat(out, index, is_method, ps, ret, prefix, art),
                                self.meta(
                                    if is_method && art.state_struct.len() > 0 {
                                        Seq::empty().push(art.state_struct)
                                    } else {
                                        Seq::empty()
                                    },
                                ),
                            ),
                        )
                    } else {
                        Ok(
                            (
                                put_nested(
                                    out,
                                    index,
                                    is_method,
                                    ps,
                                    ret,
                                    prefix,
                                    nodes,
                                    self.trailing,
                                ),
                                self.meta(Seq::empty()),
                            ),
                        )
                    },
                },
            },
        }
    }
}

proof fn lemma_signals_lowerable(results: Seq<ValType>, kinds: Seq<KindV>, n: nat)
    ensures
        signal_nodes(results, kinds, n) matches Ok(ns) ==> lowerable(ns, Set::empty(), true),
    decreases n,
{
    if n == 0 {
        let none = Seq::<NodeV>::empty();
        lemma_push_lowerable(
            none,
            NodeV::Line("let mut __returning: bool = false;"@),
            Set::empty(),
            true,
        );
    } else {
        lemma_signals_lowerable(results, kinds, (n - 1) as nat);
        if let Ok(front) = signal_nodes(results, kinds, (n - 1) as nat) {
            if let Ok(all) = signal_nodes(results, kinds, n) {
                lemma_push_lowerable(front, all.last(), Set::empty(), true);
                assert(all =~= front.push(all.last()));
            }
        }
    }
}

/// A body that leaves no region open branches to none.
pub proof fn lemma_closed(s: GenV, results: Seq<ValType>)
    requires
        s.nodes_ok(),
        s.frames.len() == 0,
        !s.in_continuation,
    ensures
        s.closed_if_flat(results),
{
    if s.uses_ret_escape {
        lemma_signals_lowerable(results, s.ctx.kinds, results.len());
        if let Ok(decls) = signal_nodes(results, s.ctx.kinds, results.len()) {
            lemma_lowerable_concat(decls, s.cur, Set::empty(), true);
        }
    }
}

/// Nodes of two lists behind one another branch where either does.
pub proof fn lemma_lowerable_concat(
    a: Seq<NodeV>,
    b: Seq<NodeV>,
    bound: Set<usize>,
    structured: bool,
)
    requires
        lowerable(a, bound, structured),
        lowerable(b, bound, structured),
    ensures
        lowerable(a + b, bound, structured),
    decreases b.len(),
{
    if b.len() == 0 {
        assert(a + b =~= a);
    } else {
        lemma_lowerable_concat(a, b.drop_last(), bound, structured);
        assert((a + b).drop_last() =~= a + b.drop_last());
        assert((a + b).last() == b.last());
    }
}

proof fn lemma_signal_fails(results: Seq<ValType>, kinds: Seq<KindV>, i: nat, n: nat)
    requires
        i <= n,
        signal_nodes(results, kinds, i) is Err,
    ensures
        signal_nodes(results, kinds, n) == signal_nodes(results, kinds, i),
    decreases n - i,
{
    if i < n {
        lemma_signal_fails(results, kinds, i, (n - 1) as nat);
    }
}

proof fn lemma_params_fail(
    params: Seq<ValType>,
    mutable: Set<u32>,
    kinds: Seq<KindV>,
    is_method: bool,
    i: nat,
    n: nat,
)
    requires
        i <= n,
        params_text(params, mutable, kinds, is_method, i) is Err,
    ensures
        params_text(params, mutable, kinds, is_method, n) == params_text(
            params,
            mutable,
            kinds,
            is_method,
            i,
        ),
    decreases n - i,
{
    if i < n {
        lemma_params_fail(params, mutable, kinds, is_method, i, (n - 1) as nat);
    }
}

/// A parameter list that can be spelled out can be split.
proof fn lemma_split_params(
    params: Seq<ValType>,
    mutable: Set<u32>,
    kinds: Seq<KindV>,
    is_method: bool,
    n: nat,
    i: nat,
)
    requires
        params_text(params, mutable, kinds, is_method, n) is Ok,
        i <= n,
    ensures
        split_params(params, kinds, i) is Ok,
        params_text(params, mutable, kinds, is_method, i) is Ok,
    decreases n,
{
    if n > 0 {
        lemma_split_params(
            params,
            mutable,
            kinds,
            is_method,
            (n - 1) as nat,
            if i < n {
                i
            } else {
                (n - 1) as nat
            },
        );
    }
}

/// The declarations of the return signal and of the holders of the results.
fn signal_decls(results: &Vec<ValType>, kinds: &Vec<CompositeKind>) -> (r: Result<
    Vec<Node>,
    TranspileError,
>)
    ensures
        match signal_nodes(
            results@,
            crate::codegen::info::kinds_view(kinds@),
            results@.len(),
        ) {
            Ok(ns) => r is Ok && nodes_view(r->Ok_0@) == ns && lowerable(ns, Set::empty(), true),
            Err(e) => r is Err && r->Err_0@ == e,
        },
{
    let ghost kinds_v = crate::codegen::info::kinds_view(kinds@);
    let mut out: Vec<Node> = Vec::new();
    assert(nodes_view(out@) =~= Seq::<NodeV>::empty());
    let first = Node::Line(lit("let mut __returning: bool = false;"));
    proof {
        lemma_nodes_push(out@, first);
        lemma_push_lowerable(nodes_view(out@), node_view(first), Set::empty(), true);
    }
    out.push(first);
    let mut i: usize = 0;
    while i < results.len()
        invariant
            i <= results@.len(),
            kinds_v == crate::codegen::info::kinds_view(kinds@),
            signal_nodes(results@, kinds_v, i as nat) == Ok::<Seq<NodeV>, FailV>(
                nodes_view(out@),
            ),
            lowerable(nodes_view(out@), Set::empty(), true),
        decreases results@.len() - i,
    {
        let rty = match rust_type(results[i], kinds) {
            Ok(t) => t,
            Err(e) => {
                proof {
                    lemma_signal_fails(results@, kinds_v, (i + 1) as nat, results@.len());
                }
                return Err(e);
            },
        };
        let default = default_value(results[i], kinds);
        let node = Node::Line(Buf::lit("let mut __rv").n(i as u64).s(": ").s(rty).s(" = ")
            .s(default).s(";").end());
        proof {
            lemma_nodes_push(out@, node);
            lemma_push_lowerable(nodes_view(out@), node_view(node), Set::empty(), true);
        }
        out.push(node);
        i += 1;
    }
    Ok(out)
}

/// The return type of a function: none, the one, or a tuple.
pub fn return_ty(results: &Vec<ValType>, kinds: &Vec<CompositeKind>) -> (r: Result<
    Option<String>,
    TranspileError,
>)
    ensures
        match return_type(results@, crate::codegen::info::kinds_view(kinds@)) {
            Ok(t) => r is Ok && opt_text(r->Ok_0) == t,
            Err(e) => r is Err && r->Err_0@ == e,
        },
{
    let tys = rust_types(results, kinds)?;
    if tys.len() == 0 {
        return Ok(None);
    }
    if tys.len() == 1 {
        assert(texts(tys@)[0] == tys@[0]@);
        return Ok(Some(tys[0].clone()));
    }
    let all = join(&tys, ", ");
    Ok(Some(Buf::lit("(").s(&all).s(")").end()))
}

/// The types of the parameters, each with its local's index.
fn split_param_list(params: &Vec<ValType>, kinds: &Vec<CompositeKind>) -> (r: Result<
    Vec<(usize, String)>,
    TranspileError,
>)
    ensures
        match split_params(params@, crate::codegen::info::kinds_view(kinds@), params@.len()) {
            Ok(p) => r is Ok && numbered(r->Ok_0@) == p,
            Err(e) => r is Err,
        },
{
    let ghost kinds_v = crate::codegen::info::kinds_view(kinds@);
    let mut out: Vec<(usize, String)> = Vec::new();
    assert(numbered(out@) =~= Seq::<(usize, Seq<char>)>::empty());
    let mut i: usize = 0;
    while i < params.len()
        invariant
            i <= params@.len(),
            kinds_v == crate::codegen::info::kinds_view(kinds@),
            split_params(params@, kinds_v, i as nat) == Ok::<Seq<(usize, Seq<char>)>, FailV>(
                numbered(out@),
            ),
        decreases params@.len() - i,
    {
        let rty = match rust_type(params[i], kinds) {
            Ok(t) => t,
            Err(e) => {
                proof {
                    lemma_split_fails(params@, kinds_v, (i + 1) as nat, params@.len());
                }
                return Err(e);
            },
        };
        let ghost was = numbered(out@);
        let name = lit(rty);
        out.push((i, name));
        assert(numbered(out@) =~= was.push((i, rty@)));
        i += 1;
    }
    Ok(out)
}

proof fn lemma_split_fails(params: Seq<ValType>, kinds: Seq<KindV>, i: nat, n: nat)
    requires
        i <= n,
        split_params(params, kinds, i) is Err,
    ensures
        split_params(params, kinds, n) == split_params(params, kinds, i),
    decreases n - i,
{
    if i < n {
        lemma_split_fails(params, kinds, i, (n - 1) as nat);
    }
}

/// Writes the head of a function.
fn write_head(
    out: &mut String,
    index: usize,
    is_method: bool,
    params: &str,
    ret: &Option<String>,
    line_prefix: &str,
)
    ensures
        final(out)@ == put_head(
            old(out)@,
            index,
            is_method,
            params@,
            opt_text(*ret),
            line_prefix@,
        ),
{
    // For a method the lint-suppression attribute is applied once on the
    // enclosing `impl`; free functions carry it individually.
    if !is_method {
        out.append(line_prefix);
        out.append(ALLOW);
        out.append("\n");
    }
    out.append(line_prefix);
    let arrow = match ret {
        Some(t) => Buf::lit(" -> ").s(t).end(),
        None => String::new(),
    };
    let head = Buf::lit("pub fn func").n(index as u64).s("(").s(params).s(")").s(&arrow).s(" {\n")
        .end();
    out.append(head.as_str());
}

/// Writes a function whose body is the given nodes.
fn write_nested(
    out: &mut String,
    index: usize,
    is_method: bool,
    params: &str,
    ret: &Option<String>,
    line_prefix: &str,
    nodes: &Vec<Node>,
    trailing: &Option<String>,
)
    requires
        plain_nodes(nodes_view(nodes@)),
    ensures
        final(out)@ == put_nested(
            old(out)@,
            index,
            is_method,
            params@,
            opt_text(*ret),
            line_prefix@,
            nodes_view(nodes@),
            opt_text(*trailing),
        ),
{
    write_head(out, index, is_method, params, ret, line_prefix);
    render_body_into(nodes, line_prefix, out);
    match trailing {
        Some(t) => push_body_line(out, t.as_str(), 0, line_prefix),
        None => {},
    }
    out.append(line_prefix);
    out.append("}\n");
}

/// Writes lines, each but an empty one behind the prefix.
pub fn write_lines(out: &mut String, lines: &Vec<String>, line_prefix: &str)
    ensures
        final(out)@ == put_lines(old(out)@, texts(lines@), line_prefix@),
{
    let ghost all = texts(lines@);
    let ghost start = out@;
    let mut i: usize = 0;
    while i < lines.len()
        invariant
            i <= lines@.len(),
            all == texts(lines@),
            out@ == put_lines(start, all.take(i as int), line_prefix@),
        decreases lines@.len() - i,
    {
        assert(all.take(i + 1).drop_last() =~= all.take(i as int));
        if !lines[i].as_str().is_empty() {
            out.append(line_prefix);
            out.append(lines[i].as_str());
        }
        out.append("\n");
        i += 1;
    }
    assert(all.take(all.len() as int) =~= all);
}

impl<'a> FuncGen<'a> {
    /// The parameter list of the function. Stateful modules pass their
    /// memory/globals through `&mut self`.
    fn params_source(&self, params: &Vec<ValType>) -> (r: Result<String, TranspileError>)
        ensures
            text_result(
                r,
                params_text(
                    params@,
                    self@.mutable_locals,
                    self@.ctx.kinds,
                    self@.ctx.is_method,
                    params@.len(),
                ),
            ),
    {
        let is_method = self.context().is_method;
        let mut src = if is_method {
            lit("&mut self")
        } else {
            String::new()
        };
        let mut i: usize = 0;
        while i < params.len()
            invariant
                i <= params@.len(),
                is_method == self@.ctx.is_method,
                params_text(
                    params@,
                    self@.mutable_locals,
                    self@.ctx.kinds,
                    is_method,
                    i as nat,
                ) == Ok::<Seq<char>, FailV>(src@),
            decreases params@.len() - i,
        {
            let idx: u32 = match index_u32(i) {
                Ok(x) => x,
                Err(e) => {
                    proof {
                        lemma_params_fail(
                            params@,
                            self@.mutable_locals,
                            self@.ctx.kinds,
                            is_method,
                            (i + 1) as nat,
                            params@.len(),
                        );
                    }
                    return Err(e);
                },
            };
            let rty = match self.rust_type(params[i]) {
                Ok(t) => t,
                Err(e) => {
                    proof {
                        lemma_params_fail(
                            params@,
                            self@.mutable_locals,
                            self@.ctx.kinds,
                            is_method,
                            (i + 1) as nat,
                            params@.len(),
                        );
                    }
                    return Err(e);
                },
            };
            let sep = if is_method || i > 0 {
                ", "
            } else {
                ""
            };
            let m = if self.is_mutable_local(idx) {
                "mut "
            } else {
                ""
            };
            src = Buf::lit(&src).s(sep).s(m).s("l").n(i as u64).s(": ").s(rty).end();
            i += 1;
        }
        Ok(src)
    }

    /// The nodes of the whole body. A `return` escaping a try body stashes its
    /// results in holders and raises a shared flag; both are declared once at the
    /// function top so every try's dispatch can re-issue the return.
    fn take_whole(&mut self, results: &Vec<ValType>) -> (r: Result<Vec<Node>, TranspileError>)
        requires
            old(self).wf(),
            !old(self)@.in_continuation,
        ensures
            match old(self)@.whole_nodes(results@) {
                Ok(ns) => r is Ok && nodes_view(r->Ok_0@) == ns && lowerable(
                    ns,
                    labels_of(old(self)@.frames),
                    true,
                ) && final(self)@ == (GenV { cur: Seq::empty(), ..old(self)@ }),
                Err(e) => r is Err && r->Err_0@ == e,
            },
    {
        if self.returns_escape() {
            let mut decls = signal_decls(results, self.context().type_kinds)?;
            let mut nodes = self.take_nodes();
            let ghost a = decls@;
            let ghost b = nodes@;
            decls.append(&mut nodes);
            proof {
                let bound = labels_of(self@.frames);
                lemma_lowerable_grows(nodes_view(a), Set::empty(), bound, true);
                lemma_lowerable_concat(nodes_view(a), nodes_view(b), bound, true);
                assert(nodes_view(a + b) =~= nodes_view(a) + nodes_view(b));
            }
            Ok(decls)
        } else {
            Ok(self.take_nodes())
        }
    }

    /// Append this function's Rust source to `out`, and return the helper
    /// dependencies it discovered.
    ///
    /// Each non-empty line is prefixed by `line_prefix` (empty for a free `pub
    /// fn`, four spaces when the function is a method inside a chunk's `impl`
    /// block); body statements additionally carry the usual four-space
    /// function-body indent.
    pub fn finish(
        self,
        index: usize,
        params: &Vec<ValType>,
        results: &Vec<ValType>,
        line_prefix: &str,
        out: &mut String,
    ) -> (r: Result<GenMeta, TranspileError>)
        requires
            self.wf(),
            self@.closed_if_flat(results@),
            !self@.in_continuation,
        ensures
            exists|art: ArtifactsV|
                #![trigger self@.flat_dispatch(index, params@, results@, art)]
                self@.flat_dispatch(index, params@, results@, art) && meta_result(
                    r,
                    old(out)@,
                    final(out)@,
                    self@.finished(index, params@, results@, line_prefix@, old(out)@, art),
                ),
    {
        let ghost start = self@;
        let ghost before = out@;
        let mut this = self;
        let nodes = match this.take_whole(results) {
            Ok(n) => n,
            Err(e) => {
                assert(start.flat_dispatch(index, params@, results@, arbitrary()));
                return Err(e);
            },
        };
        let is_method = this.context().is_method;
        let params_src = match this.params_source(params) {
            Ok(p) => p,
            Err(e) => {
                assert(start.flat_dispatch(index, params@, results@, arbitrary()));
                return Err(e);
            },
        };
        let ret = match return_ty(results, this.context().type_kinds) {
            Ok(t) => t,
            Err(e) => {
                assert(start.flat_dispatch(index, params@, results@, arbitrary()));
                return Err(e);
            },
        };
        // A deeply nested function is flattened to a `loop { match pc { … } }`
        // dispatch so its rendered nesting cannot overflow rustc's parser; an
        // ordinary function keeps its readable nested form and its tail
        // expression. When flattening, the tail is returned from the dispatch's
        // exit state instead.
        let flatten = this.deepest() > FLATTEN_DEPTH_THRESHOLD && can_flatten(&nodes);
        if !flatten {
            proof {
                lemma_lowerable_plain(nodes_view(nodes@), labels_of(start.frames));
                assert(start.flat_dispatch(index, params@, results@, arbitrary()));
            }
            write_nested(
                out,
                index,
                is_method,
                params_src.as_str(),
                &ret,
                line_prefix,
                &nodes,
                this.tail_expr(),
            );
            let structs: Vec<String> = Vec::new();
            assert(texts(structs@) =~= Seq::<Seq<char>>::empty());
            return Ok(this.into_meta(structs));
        }
        proof {
            lemma_split_params(
                params@,
                start.mutable_locals,
                start.ctx.kinds,
                is_method,
                params@.len(),
                params@.len(),
            );
        }
        let split_list = split_param_list(params, this.context().type_kinds)?;
        let ret_copy = match &ret {
            Some(t) => Some(t.clone()),
            None => None,
        };
        let plan = SplitPlan {
            max_arms: this.context().split_dispatch,
            func_index: index,
            is_method,
            params: split_list,
            ret: ret_copy,
        };
        let ghost plan_v = plan@;
        let trailing = match this.tail_expr() {
            Some(t) => Some(t.clone()),
            None => None,
        };
        let art = flatten_body(&nodes, trailing, results.len() > 0, Some(plan));
        proof {
            let f = flat_body(
                nodes_view(nodes@),
                exit_text(start.trailing, results@.len() > 0),
                true,
            );
            lemma_plain_assembled(f.arms, f.uses_continue, 0, Some(plan_v), art@);
            assert(start.flat_dispatch(index, params@, results@, art@));
        }
        let has_struct = !art.state_struct.as_str().is_empty();
        if !is_method && has_struct {
            out.append(art.state_struct.as_str());
            out.append("\n");
        }
        write_nested(
            out,
            index,
            is_method,
            params_src.as_str(),
            &ret,
            line_prefix,
            &art.body,
            &None,
        );
        write_lines(out, &art.siblings, line_prefix);
        let mut structs = Lines::new();
        if is_method && has_struct {
            structs.add(art.state_struct.clone());
        }
        Ok(this.into_meta(structs.v))
    }
}

/// Whether the source of a function was written as specified: behind what was
/// there, with the dependencies as specified; nothing is written on an error.
pub open spec fn meta_result(
    r: Result<GenMeta, TranspileError>,
    before: Seq<char>,
    after: Seq<char>,
    want: Result<(Seq<char>, MetaV), FailV>,
) -> bool {
    match want {
        Ok((text, meta)) => r is Ok && r->Ok_0@ == meta && after == text,
        Err(e) => r is Err && r->Err_0@ == e && after == before,
    }
}

/// A function that nests no deeper than the threshold keeps its nested form: its
/// source is its nodes rendered as they are, whatever a dispatch of it would be.
pub proof fn law_shallow_functions_stay_nested(
    s: GenV,
    index: usize,
    params: Seq<ValType>,
    results: Seq<ValType>,
    prefix: Seq<char>,
    out: Seq<char>,
    art: ArtifactsV,
)
    requires
        s.max_depth <= FLATTEN_DEPTH_THRESHOLD,
    ensures
        match (
            s.whole_nodes(results),
            params_text(params, s.mutable_locals, s.ctx.kinds, s.ctx.is_method, params.len()),
            return_type(results, s.ctx.kinds),
        ) {
            (Ok(nodes), Ok(ps), Ok(ret)) => s.finished(index, params, results, prefix, out, art)
                == Ok::<(Seq<char>, MetaV), FailV>(
                (
                    put_nested(
                        out,
                        index,
                        s.ctx.is_method,
                        ps,
                        ret,
                        prefix,
                        nodes,
                        s.trailing,
                    ),
                    s.meta(Seq::empty()),
                ),
            ),
            _ => s.finished(index, params, results, prefix, out, art) is Err,
        },
{
}

/// A function is rendered in one way: two flat dispatches of it give the same
/// source.
pub proof fn law_rendering_is_unique(
    s: GenV,
    index: usize,
    params: Seq<ValType>,
    results: Seq<ValType>,
    prefix: Seq<char>,
    out: Seq<char>,
    a: ArtifactsV,
    b: ArtifactsV,
)
    requires
        s.flat_dispatch(index, params, results, a),
        s.flat_dispatch(index, params, results, b),
    ensures
        s.finished(index, params, results, prefix, out, a) == s.finished(
            index,
            params,
            results,
            prefix,
            out,
            b,
        ),
{
    let kinds = s.ctx.kinds;
    let n = params.len();
    if let Ok(nodes) = s.whole_nodes(results) {
        if params_text(params, s.mutable_locals, kinds, s.ctx.is_method, n) is Ok {
            lemma_split_params(params, s.mutable_locals, kinds, s.ctx.is_method, n, n);
            if let Ok(ret) = return_type(results, kinds) {
                if s.is_flat(nodes) {
                    let f = flat_body(nodes, exit_text(s.trailing, results.len() > 0), true);
                    let ps = split_params(params, kinds, n)->Ok_0;
                    law_dispatch_is_unique(
                        f.arms,
                        f.uses_continue,
                        0,
                        Some(s.split_plan(index, ps, ret)),
                        a,
                        b,
                    );
                }
            }
        }
    }
}

} // verus!
