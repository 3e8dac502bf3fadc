//! The state of the translation of a single function body, and the elementary
//! steps that everything else is put together from.

use std::collections::HashSet;
use vstd::prelude::*;

use crate::codegen::analysis::{rust_type, rust_type_text};
use crate::codegen::context::{CtxV, ModuleCtx};
use crate::codegen::flatten::{lowerable, lowerable_node};
use crate::codegen::frame::{
    frames_view, vals, BranchEscape, CatchPhase, Frame, FrameV, TryBarrier, TryState, TryStateV,
};
use crate::codegen::helpers::{Helper, HelperSet};
use crate::codegen::info::{kinds_view, CompositeKind};
use crate::codegen::ir::{
    lemma_nodes_push, node_view, nodes_view, CatchV, FrameKind, Node, NodeV, Val, ValV,
};
use crate::codegen::runtime::{Rt, RtSet};
use crate::error::{FailV, TranspileError};
use crate::text::{byte_len, dec, inc, next_of, opt_text, Buf, NameSet};
use crate::wasm::ValType;

verus! {

broadcast use vstd::std_specs::hash::group_hash_axioms;

/// State threaded through the translation of a single function body.
pub struct FuncGen<'a> {
    /// Module-wide context (functions, types, globals, stateful flags).
    ctx: &'a ModuleCtx<'a>,
    local_types: Vec<ValType>,
    mutable_locals: HashSet<u32>,
    /// The function's result types (0, 1 or more — a tuple when more than one).
    results: Vec<ValType>,
    stack: Vec<Val>,
    frames: Vec<Frame>,
    /// The deferred output of the innermost scope currently being emitted into.
    cur: Vec<Node>,
    temp_counter: usize,
    label_counter: usize,
    /// The deepest control-flow nesting reached (peak `frames.len()`), used to
    /// decide whether to flatten this function to bound its rendered nesting.
    max_depth: usize,
    /// Whether the current program point is reachable.
    reachable: bool,
    /// Nesting depth of regions opened while unreachable (skipped wholesale).
    dead_nesting: usize,
    /// The tail expression returned by the function, if any.
    trailing: Option<String>,
    /// Memory-access helpers this function relies on, each with its memory.
    used_helpers: HelperSet,
    /// Free-function runtime helpers this function relies on.
    used_rt: RtSet,
    /// Lane-wise SIMD free-function helpers this function relies on, by name.
    used_simd: NameSet,
    /// `call_indirect` type indices this function dispatches through; each needs
    /// a `call_ref_t{ti}` method on the instance.
    dispatch_sigs: HashSet<u32>,
    /// Whether this function uses legacy exception handling (`try`/`throw`), so
    /// the module needs the exception type emitted.
    uses_eh: bool,
    /// The enclosing `try` regions, innermost last.
    try_barriers: Vec<TryBarrier>,
    /// Whether a `return` escapes some `try` body, so the function declares the
    /// shared return-signal flag (`__returning`) and result holders (`__rv{i}`)
    /// that each enclosing try's dispatch re-issues the function return from.
    uses_ret_escape: bool,
    /// Whether the nodes of a continuation body are being collected, among which
    /// suspension points may occur.
    in_continuation: bool,
}

/// The model of a [`FuncGen`].
pub struct GenV {
    pub ctx: CtxV,
    pub local_types: Seq<ValType>,
    pub mutable_locals: Set<u32>,
    pub results: Seq<ValType>,
    pub stack: Seq<ValV>,
    pub frames: Seq<FrameV>,
    pub cur: Seq<NodeV>,
    pub temp_counter: usize,
    pub label_counter: usize,
    pub max_depth: usize,
    pub reachable: bool,
    pub dead_nesting: usize,
    pub trailing: Option<Seq<char>>,
    pub used_helpers: Set<(Helper, u32)>,
    pub used_rt: Set<Rt>,
    pub used_simd: Set<Seq<char>>,
    pub dispatch_sigs: Set<u32>,
    pub uses_eh: bool,
    pub try_barriers: Seq<TryBarrier>,
    pub uses_ret_escape: bool,
    pub in_continuation: bool,
}

/// A step of the translation: the state behind it, or why it failed.
pub type GenR = Result<GenV, FailV>;

impl<'a> View for FuncGen<'a> {
    type V = GenV;

    closed spec fn view(&self) -> GenV {
        GenV {
            ctx: self.ctx@,
            local_types: self.local_types@,
            mutable_locals: self.mutable_locals@,
            results: self.results@,
            stack: vals(self.stack@),
            frames: frames_view(self.frames@),
            cur: nodes_view(self.cur@),
            temp_counter: self.temp_counter,
            label_counter: self.label_counter,
            max_depth: self.max_depth,
            reachable: self.reachable,
            dead_nesting: self.dead_nesting,
            trailing: opt_text(self.trailing),
            used_helpers: self.used_helpers@,
            used_rt: self.used_rt@,
            used_simd: self.used_simd@,
            dispatch_sigs: self.dispatch_sigs@,
            uses_eh: self.uses_eh,
            try_barriers: self.try_barriers@,
            uses_ret_escape: self.uses_ret_escape,
            in_continuation: self.in_continuation,
        }
    }
}

/// Whether a step went as specified: on success the state is the one specified,
/// otherwise the error is.
pub open spec fn gen_result(r: Result<(), TranspileError>, post: GenV, want: GenR) -> bool {
    match want {
        Ok(s) => r is Ok && post == s,
        Err(e) => r is Err && r->Err_0@ == e,
    }
}

// ---------------------------------------------------------------------------
// What always holds
// ---------------------------------------------------------------------------
/// The labels of the open frames.
pub open spec fn labels_of(frames: Seq<FrameV>) -> Set<usize>
    decreases frames.len(),
{
    if frames.len() == 0 {
        Set::empty()
    } else {
        labels_of(frames.drop_last()).insert(frames.last().label)
    }
}

/// Whether the bodies of finished `try` arms branch to `bound` labels only.
pub open spec fn arms_ok(arms: Seq<CatchV>, bound: Set<usize>) -> bool
    decreases arms.len(),
{
    arms.len() == 0 || (arms_ok(arms.drop_last(), bound) && lowerable(
        arms.last().body,
        bound,
        true,
    ))
}

/// Whether the buffers of a frame branch to open regions only: those of its
/// enclosing frames (`outer`), or, in a buffer of its own, to itself too.
pub open spec fn frame_ok(f: FrameV, outer: Set<usize>, cont: bool) -> bool {
    &&& lowerable(f.parent_buffer, outer, !cont)
    &&& match f.then_buffer {
        Some(b) => f.kind == FrameKind::If && lowerable(b, outer.insert(f.label), !cont),
        None => true,
    }
    &&& match f.try_state {
        Some(t) => !cont && arms_ok(t.arms, outer.insert(f.label)),
        None => true,
    }
}

pub open spec fn frames_ok(frames: Seq<FrameV>, cont: bool) -> bool
    decreases frames.len(),
{
    frames.len() == 0 || (frames_ok(frames.drop_last(), cont) && frame_ok(
        frames.last(),
        labels_of(frames.drop_last()),
        cont,
    ))
}

impl GenV {
    /// What holds of the generated nodes at every point: each branch goes to an
    /// open region, and points at which a continuation parks occur in continuation
    /// bodies only.
    pub open spec fn nodes_ok(self) -> bool {
        frames_ok(self.frames, self.in_continuation) && lowerable(
            self.cur,
            labels_of(self.frames),
            !self.in_continuation,
        )
    }
}

impl<'a> FuncGen<'a> {
    /// Whether every branch generated so far goes to an open region.
    pub open spec fn wf(&self) -> bool {
        self@.nodes_ok()
    }
}

/// One more node that branches nowhere new.
pub proof fn lemma_push_lowerable(ns: Seq<NodeV>, n: NodeV, bound: Set<usize>, structured: bool)
    requires
        lowerable(ns, bound, structured),
        lowerable_node(n, bound, structured),
    ensures
        lowerable(ns.push(n), bound, structured),
{
    assert(ns.push(n).drop_last() =~= ns);
}

/// Whether two frames differ only in what no invariant speaks of.
pub open spec fn same_buffers(a: FrameV, b: FrameV) -> bool {
    &&& a.kind == b.kind
    &&& a.label == b.label
    &&& a.parent_buffer == b.parent_buffer
    &&& a.then_buffer == b.then_buffer
    &&& match (a.try_state, b.try_state) {
        (Some(s), Some(t)) => s.arms == t.arms,
        (None, None) => true,
        _ => false,
    }
}

pub proof fn lemma_update_frame(frames: Seq<FrameV>, idx: int, f: FrameV, cont: bool)
    requires
        0 <= idx < frames.len(),
        same_buffers(frames[idx], f),
    ensures
        labels_of(frames.update(idx, f)) == labels_of(frames),
        frames_ok(frames.update(idx, f), cont) == frames_ok(frames, cont),
    decreases frames.len(),
{
    let now = frames.update(idx, f);
    if idx < frames.len() - 1 {
        lemma_update_frame(frames.drop_last(), idx, f, cont);
        assert(now.drop_last() =~= frames.drop_last().update(idx, f));
    } else {
        assert(now.drop_last() =~= frames.drop_last());
    }
}

/// The label of an open frame is bound.
pub proof fn lemma_frame_label(frames: Seq<FrameV>, idx: int)
    requires
        0 <= idx < frames.len(),
    ensures
        labels_of(frames).contains(frames[idx].label),
    decreases frames.len(),
{
    if idx < frames.len() - 1 {
        lemma_frame_label(frames.drop_last(), idx);
    }
}

// ---------------------------------------------------------------------------
// Elementary steps
// ---------------------------------------------------------------------------
/// Upper bound on the textual length of a single generated expression.
/// A "stable" value is never spilled, so a long straight-line chain of
/// operations folds into one Rust expression on one line; without a cap a
/// large function collapses into a multi-megabyte line that overflows
/// rustc's parser. `push_combined` spills any expression exceeding this.
pub const MAX_EXPR_LEN: usize = 4096;

impl GenV {
    /// One more operand on the stack.
    pub open spec fn push(self, code: Seq<char>, ty: ValType, stable: bool) -> GenV {
        GenV { stack: self.stack.push(ValV { code, ty, stable }), ..self }
    }

    /// The operand on top.
    pub open spec fn top(self) -> ValV {
        self.stack.last()
    }

    /// The operand `k` below the top.
    pub open spec fn below(self, k: int) -> ValV {
        self.stack[self.stack.len() - 1 - k]
    }

    /// `n` operands fewer.
    pub open spec fn drop(self, n: int) -> GenV {
        GenV { stack: self.stack.take(self.stack.len() - n), ..self }
    }

    /// Whether there are at least `n` operands.
    pub open spec fn has(self, n: int) -> bool {
        self.stack.len() >= n
    }

    /// One more statement.
    pub open spec fn line(self, text: Seq<char>) -> GenV {
        GenV { cur: self.cur.push(NodeV::Line(text)), ..self }
    }

    /// One more statement behind which control does not go on.
    pub open spec fn term(self, text: Seq<char>) -> GenV {
        GenV { cur: self.cur.push(NodeV::Term(text)), ..self }
    }

    /// One more node.
    pub open spec fn node(self, n: NodeV) -> GenV {
        GenV { cur: self.cur.push(n), ..self }
    }

    /// The name of the next temporary.
    pub open spec fn temp(self) -> Seq<char> {
        ("v"@ + dec(self.temp_counter as nat))
    }

    /// The next temporary taken.
    pub open spec fn temp_taken(self) -> GenV {
        GenV { temp_counter: inc(self.temp_counter), ..self }
    }

    /// Nothing is reachable until the enclosing region ends.
    pub open spec fn dead(self) -> GenV {
        GenV { reachable: false, dead_nesting: 0, ..self }
    }

    pub open spec fn using_helper(self, h: Helper, mem: u32) -> GenV {
        GenV { used_helpers: self.used_helpers.insert((h, mem)), ..self }
    }

    pub open spec fn using_rt(self, rt: Rt) -> GenV {
        GenV { used_rt: self.used_rt.insert(rt), ..self }
    }

    pub open spec fn using_simd(self, name: Seq<char>) -> GenV {
        GenV { used_simd: self.used_simd.insert(name), ..self }
    }

    pub open spec fn dispatching(self, type_index: u32) -> GenV {
        GenV { dispatch_sigs: self.dispatch_sigs.insert(type_index), ..self }
    }

    /// The Rust type of a value.
    pub open spec fn rust_type(self, ty: ValType) -> Result<Seq<char>, FailV> {
        rust_type_text(ty, self.ctx.kinds)
    }

    /// The value bound to a temporary at this point, and the temporary pushed.
    #[verifier::opaque]
    pub open spec fn materialized(self, code: Seq<char>, ty: ValType) -> GenR {
        match self.rust_type(ty) {
            Err(e) => Err(e),
            Ok(rty) => Ok(
                self.temp_taken().line(("let "@ + self.temp() + ": "@ + rty + " = "@ + code
                    + ";"@)).push(
                    self.temp(),
                    ty,
                    true,
                ),
            ),
        }
    }

    /// An expression built from other operands pushed; one that has grown too long
    /// is bound to a temporary.
    #[verifier::opaque]
    pub open spec fn combined(self, code: Seq<char>, ty: ValType, stable: bool) -> GenR {
        if byte_len(code) > MAX_EXPR_LEN {
            self.materialized(code, ty)
        } else {
            Ok(self.push(code, ty, stable))
        }
    }

    /// The operands below position `n` bound to temporaries, where they are not
    /// stable.
    pub open spec fn frozen(self, n: nat) -> GenR
        decreases n,
    {
        if n == 0 {
            Ok(self)
        } else {
            match self.frozen((n - 1) as nat) {
                Err(e) => Err(e),
                Ok(s) => s.frozen_at((n - 1) as int),
            }
        }
    }

    /// The operand at position `i` bound to a temporary, where it is not stable.
    pub open spec fn frozen_at(self, i: int) -> GenR {
        let v = self.stack[i];
        if v.stable {
            Ok(self)
        } else {
            match self.rust_type(v.ty) {
                Err(e) => Err(e),
                Ok(rty) => Ok(
                    GenV {
                        stack: self.stack.update(
                            i,
                            ValV { code: self.temp(), ty: v.ty, stable: true },
                        ),
                        ..self.temp_taken().line(("let "@ + self.temp() + ": "@ + rty + " = "@
                            + v.code + ";"@))
                    },
                ),
            }
        }
    }

    /// All operands but the top `keep` frozen.
    #[verifier::opaque]
    pub open spec fn survivors_frozen(self, keep: nat) -> GenR {
        if self.stack.len() <= keep {
            Ok(self)
        } else {
            self.frozen((self.stack.len() - keep) as nat)
        }
    }

    /// All operands frozen.
    pub open spec fn spilled(self) -> GenR {
        self.survivors_frozen(0)
    }
}

impl<'a> FuncGen<'a> {
    /// The module-wide context.
    pub fn context(&self) -> (r: &'a ModuleCtx<'a>)
        ensures
            r@ == self@.ctx,
    {
        self.ctx
    }

    /// The kinds of the module's types.
    pub fn kinds(&self) -> (r: &Vec<CompositeKind>)
        ensures
            kinds_view(r@) == self@.ctx.kinds,
    {
        self.ctx.type_kinds
    }

    /// Pushes an operand.
    pub fn push(&mut self, code: String, ty: ValType, stable: bool)
        requires
            old(self).wf(),
        ensures
            final(self)@ == old(self)@.push(code@, ty, stable),
            final(self).wf(),
    {
        self.stack.push(Val { code, ty, stable });
        assert(vals(self.stack@) =~= old(self)@.stack.push(ValV { code: code@, ty, stable }));
    }

    /// Pops the operand on top.
    pub fn pop(&mut self) -> (r: Result<Val, TranspileError>)
        requires
            old(self).wf(),
        ensures
            if old(self)@.has(1) {
                r is Ok && r->Ok_0@ == old(self)@.top() && final(self)@ == old(self)@.drop(1)
            } else {
                r is Err && r->Err_0@ == FailV::StackUnderflow && final(self)@ == old(self)@
            },
            final(self).wf(),
    {
        match self.stack.pop() {
            Some(v) => {
                assert(vals(self.stack@) =~= old(self)@.stack.take(old(self)@.stack.len() - 1));
                assert(vals(old(self).stack@).last() == v@);
                Ok(v)
            },
            None => Err(TranspileError::StackUnderflow),
        }
    }

    /// The expression on top of the stack, which stays there.
    pub fn top_code(&self) -> (r: Result<String, TranspileError>)
        ensures
            if self@.has(1) {
                r is Ok && r->Ok_0@ == self@.top().code
            } else {
                r is Err && r->Err_0@ == FailV::StackUnderflow
            },
    {
        let n: usize = self.stack.len();
        if n == 0 {
            return Err(TranspileError::StackUnderflow);
        }
        assert(self@.stack.last() == self.stack@[n - 1]@);
        Ok(self.stack[n - 1].code.clone())
    }

    /// The type of a local.
    pub fn local_ty(&self, local_index: u32) -> (r: Result<ValType, TranspileError>)
        ensures
            crate::error::same_result(r, self@.local_ty(local_index)),
    {
        if (local_index as usize) < self.local_types.len() {
            Ok(self.local_types[local_index as usize])
        } else {
            Err(crate::error::no_support("local index out of range"))
        }
    }

    /// Whether some operator writes a local.
    pub fn is_mutable_local(&self, local_index: u32) -> (r: bool)
        ensures
            r == self@.mutable_locals.contains(local_index),
    {
        self.mutable_locals.contains(&local_index)
    }

    /// Appends a statement.
    pub fn line(&mut self, text: String)
        requires
            old(self).wf(),
        ensures
            final(self)@ == old(self)@.line(text@),
            final(self).wf(),
    {
        self.node(Node::Line(text));
    }

    /// Appends a fixed statement.
    pub fn line_lit(&mut self, text: &str)
        requires
            old(self).wf(),
        ensures
            final(self)@ == old(self)@.line(text@),
            final(self).wf(),
    {
        self.line(crate::text::lit(text));
    }

    /// Push a terminating statement (control does not fall through afterwards).
    pub fn term(&mut self, text: String)
        requires
            old(self).wf(),
        ensures
            final(self)@ == old(self)@.term(text@),
            final(self).wf(),
    {
        self.node(Node::Term(text));
    }

    /// Push a structured control-flow node.
    pub fn node(&mut self, node: Node)
        requires
            old(self).wf(),
            lowerable_node(
                node_view(node),
                labels_of(old(self)@.frames),
                !old(self)@.in_continuation,
            ),
        ensures
            final(self)@ == old(self)@.node(node_view(node)),
            final(self).wf(),
    {
        proof {
            lemma_nodes_push(self.cur@, node);
            lemma_push_lowerable(
                self@.cur,
                node_view(node),
                labels_of(self@.frames),
                !self@.in_continuation,
            );
        }
        self.cur.push(node);
    }

    /// Takes the next temporary.
    pub fn fresh_temp(&mut self) -> (r: String)
        requires
            old(self).wf(),
        ensures
            r@ == old(self)@.temp(),
            final(self)@ == old(self)@.temp_taken(),
            final(self).wf(),
    {
        let name = Buf::lit("v").n(self.temp_counter as u64).end();
        self.temp_counter = next_of(self.temp_counter);
        name
    }

    /// Marks the program point unreachable.
    pub fn die(&mut self)
        requires
            old(self).wf(),
        ensures
            final(self)@ == old(self)@.dead(),
            final(self).wf(),
    {
        self.reachable = false;
        self.dead_nesting = 0;
    }

    pub fn use_helper(&mut self, h: Helper, mem: u32)
        requires
            old(self).wf(),
        ensures
            final(self)@ == old(self)@.using_helper(h, mem),
            final(self).wf(),
    {
        self.used_helpers.insert(h, mem);
    }

    pub fn use_rt(&mut self, rt: Rt)
        requires
            old(self).wf(),
        ensures
            final(self)@ == old(self)@.using_rt(rt),
            final(self).wf(),
    {
        self.used_rt.insert(rt);
    }

    pub fn use_simd(&mut self, name: &str)
        requires
            old(self).wf(),
        ensures
            final(self)@ == old(self)@.using_simd(name@),
            final(self).wf(),
    {
        self.used_simd.insert(name);
    }

    pub fn use_dispatch(&mut self, type_index: u32)
        requires
            old(self).wf(),
        ensures
            final(self)@ == old(self)@.dispatching(type_index),
            final(self).wf(),
    {
        self.dispatch_sigs.insert(type_index);
    }

    /// The Rust type of a value.
    pub fn rust_type(&self, ty: ValType) -> (r: Result<&'static str, TranspileError>)
        ensures
            crate::codegen::analysis::str_result(r, self@.rust_type(ty)),
    {
        rust_type(ty, self.ctx.type_kinds)
    }

    /// Bind a possibly-trapping expression (integer div/rem) to a temporary at
    /// exactly this program point, so the trap fires in program order and is
    /// not lost if the value is later dropped or skipped by a branch. Pushes
    /// the resulting stable temporary. This mirrors how `call`/`memory_grow`
    /// materialise their side-effecting results.
    pub fn materialize(&mut self, code: String, ty: ValType) -> (r: Result<(), TranspileError>)
        requires
            old(self).wf(),
        ensures
            gen_result(r, final(self)@, old(self)@.materialized(code@, ty)),
            r is Ok ==> final(self).wf(),
    {
        proof {
            reveal(GenV::materialized);
        }
        let rty = self.rust_type(ty)?;
        let name = self.fresh_temp();
        self.line(Buf::lit("let ").s(&name).s(": ").s(rty).s(" = ").s(&code).s(";").end());
        self.push(name, ty, true);
        Ok(())
    }

    /// Push an expression built from other operands, first spilling it into a
    /// `let` binding when it grows past [`MAX_EXPR_LEN`]. This bounds the size of
    /// any single generated line while preserving the computed value (the temp
    /// is itself stable, so it inlines cheaply into the next operation).
    pub fn push_combined(&mut self, code: String, ty: ValType, stable: bool) -> (r: Result<
        (),
        TranspileError,
    >)
        requires
            old(self).wf(),
        ensures
            gen_result(r, final(self)@, old(self)@.combined(code@, ty, stable)),
            r is Ok ==> final(self).wf(),
    {
        proof {
            reveal(GenV::combined);
        }
        if code.as_str().len() > MAX_EXPR_LEN {
            return self.materialize(code, ty);
        }
        self.push(code, ty, stable);
        Ok(())
    }

    /// Binds the operand at position `i` to a temporary, where it is not stable.
    fn freeze_at(&mut self, i: usize) -> (r: Result<(), TranspileError>)
        requires
            old(self).wf(),
            i < old(self)@.stack.len(),
        ensures
            gen_result(r, final(self)@, old(self)@.frozen_at(i as int)),
            r is Ok ==> final(self).wf(),
    {
        assert(self@.stack[i as int] == self.stack@[i as int]@);
        if self.stack[i].stable {
            return Ok(());
        }
        let ty = self.stack[i].ty;
        let code = self.stack[i].code.clone();
        let rty = self.rust_type(ty)?;
        let name = self.fresh_temp();
        self.line(Buf::lit("let ").s(&name).s(": ").s(rty).s(" = ").s(&code).s(";").end());
        let ghost before = self@;
        let val = Val { code: name, ty, stable: true };
        assert(vals(self.stack@.update(i as int, val)) =~= vals(self.stack@).update(
            i as int,
            val@,
        ));
        self.stack.set(i, val);
        Ok(())
    }

    /// Freeze the non-stable operands that *survive* an upcoming boundary into
    /// `let` temporaries, leaving the top `keep` operands — the ones the
    /// boundary consumes in place, in program order — as inline expressions.
    ///
    /// A deferred non-stable operand only ever *reads* state (a mutable local,
    /// a mutable or imported global, or a memory load; anything side-effecting
    /// or trapping is materialised to a stable temp the moment it is produced).
    /// So evaluating a consumed operand at the boundary cannot change a
    /// survivor, and the consumed operands are evaluated in wasm push order
    /// (left to right) exactly where the boundary emits them. That makes
    /// inlining the consumed operands sound while the survivors are still
    /// pinned against the boundary's own side effects.
    pub fn freeze_survivors(&mut self, keep: usize) -> (r: Result<(), TranspileError>)
        requires
            old(self).wf(),
        ensures
            gen_result(r, final(self)@, old(self)@.survivors_frozen(keep as nat)),
            r is Ok ==> final(self).wf(),
    {
        proof {
            reveal(GenV::survivors_frozen);
        }
        let n: usize = self.stack.len();
        assert(n == self@.stack.len());
        if n <= keep {
            return Ok(());
        }
        let survivors: usize = n - keep;
        let ghost start = self@;
        let mut i: usize = 0;
        while i < survivors
            invariant
                start == old(self)@,
                survivors == start.stack.len() - keep,
                i <= survivors,
                self.wf(),
                self@.stack.len() == start.stack.len(),
                start.frozen(i as nat) == Ok::<GenV, FailV>(self@),
            decreases survivors - i,
        {
            match self.freeze_at(i) {
                Ok(()) => {},
                Err(e) => {
                    proof {
                        reveal(GenV::survivors_frozen);
                        lemma_frozen_fails(start, (i + 1) as nat, survivors as nat);
                    }
                    return Err(e);
                },
            }
            i += 1;
        }
        Ok(())
    }

    /// Materialise every non-stable operand into a `let` temporary so its value
    /// is fixed across an upcoming control-flow boundary or local mutation.
    pub fn spill_nonstable(&mut self) -> (r: Result<(), TranspileError>)
        requires
            old(self).wf(),
        ensures
            gen_result(r, final(self)@, old(self)@.spilled()),
            r is Ok ==> final(self).wf(),
    {
        self.freeze_survivors(0)
    }
}

proof fn lemma_frozen_fails(s: GenV, i: nat, n: nat)
    requires
        i <= n,
        s.frozen(i) is Err,
    ensures
        s.frozen(n) == s.frozen(i),
    decreases n - i,
{
    if i < n {
        lemma_frozen_fails(s, i, (n - 1) as nat);
    }
}

// ---------------------------------------------------------------------------
// Several operands at once
// ---------------------------------------------------------------------------
/// The expressions of operands.
pub open spec fn codes(vs: Seq<ValV>) -> Seq<Seq<char>> {
    Seq::new(vs.len(), |i: int| vs[i].code)
}

impl GenV {
    /// The top `n` operands, the lowest first.
    pub open spec fn tail(self, n: int) -> Seq<ValV> {
        self.stack.skip(self.stack.len() - n)
    }

    /// The next `n` temporaries taken.
    pub open spec fn temps_taken(self, n: nat) -> GenV
        decreases n,
    {
        if n == 0 {
            self
        } else {
            self.temps_taken((n - 1) as nat).temp_taken()
        }
    }

    /// The names of the next `n` temporaries.
    pub open spec fn temps(self, n: nat) -> Seq<Seq<char>>
        decreases n,
    {
        if n == 0 {
            Seq::empty()
        } else {
            self.temps((n - 1) as nat).push(self.temps_taken((n - 1) as nat).temp())
        }
    }

    /// Stable operands pushed one after another.
    pub open spec fn pushed(self, vars: Seq<(Seq<char>, ValType)>) -> GenV
        decreases vars.len(),
    {
        if vars.len() == 0 {
            self
        } else {
            self.pushed(vars.drop_last()).push(vars.last().0, vars.last().1, true)
        }
    }
}

impl<'a> FuncGen<'a> {
    /// The number of operands.
    pub fn height(&self) -> (r: usize)
        ensures
            r == self@.stack.len(),
    {
        self.stack.len()
    }

    /// The operand at position `i`.
    pub fn operand(&self, i: usize) -> (r: &Val)
        requires
            i < self@.stack.len(),
        ensures
            r@ == self@.stack[i as int],
    {
        &self.stack[i]
    }

    /// Replaces the operand at position `i`.
    pub fn set_operand(&mut self, i: usize, code: String, ty: ValType)
        requires
            old(self).wf(),
            i < old(self)@.stack.len(),
        ensures
            final(self)@ == (GenV {
                stack: old(self)@.stack.update(i as int, ValV { code: code@, ty, stable: true }),
                ..old(self)@
            }),
            final(self).wf(),
    {
        let val = Val { code, ty, stable: true };
        assert(vals(self.stack@.update(i as int, val)) =~= vals(self.stack@).update(
            i as int,
            val@,
        ));
        self.stack.set(i, val);
    }

    /// Pops `n` operands, the lowest first.
    pub fn pop_many(&mut self, n: usize) -> (r: Result<Vec<Val>, TranspileError>)
        requires
            old(self).wf(),
        ensures
            if old(self)@.has(n as int) {
                r is Ok && r->Ok_0@.len() == n && vals(r->Ok_0@) == old(self)@.tail(n as int)
                    && final(self)@ == old(self)@.drop(n as int)
            } else {
                r is Err && r->Err_0@ == FailV::StackUnderflow
            },
            r is Ok ==> final(self).wf(),
    {
        let len: usize = self.stack.len();
        if len < n {
            return Err(TranspileError::StackUnderflow);
        }
        let out = self.stack.split_off(len - n);
        proof {
            assert(vals(self.stack@) =~= old(self)@.stack.take(len - n));
            assert(vals(out@) =~= old(self)@.tail(n as int));
        }
        Ok(out)
    }

    /// Drops all operands from height `n` on.
    pub fn truncate(&mut self, n: usize)
        requires
            old(self).wf(),
        ensures
            final(self)@ == (GenV {
                stack: if n <= old(self)@.stack.len() {
                    old(self)@.stack.take(n as int)
                } else {
                    old(self)@.stack
                },
                ..old(self)@
            }),
            final(self).wf(),
    {
        self.stack.truncate(n);
        assert(vals(self.stack@) =~= if n <= old(self)@.stack.len() {
            old(self)@.stack.take(n as int)
        } else {
            old(self)@.stack
        });
    }

    /// Copies of the operands from height `n` on.
    pub fn operands_from(&self, n: usize) -> (r: Vec<Val>)
        requires
            n <= self@.stack.len(),
        ensures
            vals(r@) == self@.stack.skip(n as int),
    {
        let mut out: Vec<Val> = Vec::new();
        let mut i: usize = n;
        while i < self.stack.len()
            invariant
                n <= i <= self.stack@.len(),
                vals(out@) =~= self@.stack.subrange(n as int, i as int),
            decreases self.stack@.len() - i,
        {
            let ghost before = vals(out@);
            let v = copy_val(&self.stack[i]);
            out.push(v);
            proof {
                assert(self@.stack[i as int] == self.stack@[i as int]@);
                assert(vals(out@) =~= before.push(v@));
                assert(self@.stack.subrange(n as int, i + 1) =~= self@.stack.subrange(
                    n as int,
                    i as int,
                ).push(self@.stack[i as int]));
            }
            i += 1;
        }
        assert(vals(out@) =~= self@.stack.skip(n as int));
        out
    }

    /// Takes the next `n` temporaries.
    pub fn fresh_temps(&mut self, n: usize) -> (r: Vec<String>)
        requires
            old(self).wf(),
        ensures
            crate::text::texts(r@) == old(self)@.temps(n as nat),
            final(self)@ == old(self)@.temps_taken(n as nat),
            final(self).wf(),
    {
        let ghost start = self@;
        let mut out = crate::text::Lines::new();
        let mut i: usize = 0;
        while i < n
            invariant
                i <= n,
                start == old(self)@,
                self.wf(),
                out@ == start.temps(i as nat),
                self@ == start.temps_taken(i as nat),
            decreases n - i,
        {
            let name = self.fresh_temp();
            out.add(name);
            i += 1;
        }
        out.v
    }

    /// Push materialised result temporaries onto the operand stack (stable).
    pub fn push_temps(&mut self, temps: &Vec<(String, ValType)>)
        requires
            old(self).wf(),
        ensures
            final(self)@ == old(self)@.pushed(crate::codegen::frame::typed(temps@)),
            final(self).wf(),
    {
        let ghost all = crate::codegen::frame::typed(temps@);
        let ghost start = self@;
        let mut i: usize = 0;
        while i < temps.len()
            invariant
                i <= temps@.len(),
                start == old(self)@,
                all == crate::codegen::frame::typed(temps@),
                self.wf(),
                self@ == start.pushed(all.take(i as int)),
            decreases temps@.len() - i,
        {
            assert(all.take(i + 1).drop_last() =~= all.take(i as int));
            self.push(temps[i].0.clone(), temps[i].1, true);
            i += 1;
        }
        assert(all.take(all.len() as int) =~= all);
    }
}

/// An owned copy of an operand.
pub fn copy_val(v: &Val) -> (r: Val)
    ensures
        r@ == v@,
{
    Val { code: v.code.clone(), ty: v.ty, stable: v.stable }
}

/// The expressions of operands.
pub fn code_list(vs: &Vec<Val>) -> (r: Vec<String>)
    ensures
        crate::text::texts(r@) == codes(vals(vs@)),
{
    let mut out = crate::text::Lines::new();
    let mut i: usize = 0;
    while i < vs.len()
        invariant
            i <= vs@.len(),
            out@ =~= codes(vals(vs@)).take(i as int),
        decreases vs@.len() - i,
    {
        out.add(vs[i].code.clone());
        i += 1;
    }
    assert(out@ =~= codes(vals(vs@)));
    out.v
}

// ---------------------------------------------------------------------------
// Regions
// ---------------------------------------------------------------------------
impl GenV {
    /// A region opened: it takes the next label and a fresh buffer.
    pub open spec fn opened(
        self,
        kind: FrameKind,
        results: Seq<(Seq<char>, ValType)>,
        entry_params: Seq<ValV>,
        loop_params: Seq<(Seq<char>, ValType)>,
        parent_height: usize,
        cond: Option<Seq<char>>,
    ) -> GenV {
        let frames = self.frames.push(
            FrameV {
                kind,
                label: self.label_counter,
                targeted: false,
                results,
                entry_params,
                loop_params,
                parent_height,
                parent_buffer: self.cur,
                then_buffer: None,
                then_reachable: false,
                cond,
                try_state: None,
            },
        );
        GenV {
            frames,
            label_counter: inc(self.label_counter),
            cur: Seq::empty(),
            max_depth: if self.max_depth < crate::text::clamp(frames.len()) {
                crate::text::clamp(frames.len())
            } else {
                self.max_depth
            },
            ..self
        }
    }

    /// The frame at `idx` replaced.
    pub open spec fn with_frame(self, idx: int, f: FrameV) -> GenV {
        GenV { frames: self.frames.update(idx, f), ..self }
    }

    /// The innermost frame ended and its nodes taken out.
    pub open spec fn frame_ended(self) -> GenV {
        GenV { frames: self.frames.drop_last(), cur: Seq::empty(), ..self }
    }
}

impl<'a> FuncGen<'a> {
    /// The number of open regions.
    pub fn depth(&self) -> (r: usize)
        ensures
            r == self@.frames.len(),
    {
        self.frames.len()
    }

    /// The open region at `idx`.
    pub fn frame(&self, idx: usize) -> (r: &Frame)
        requires
            idx < self@.frames.len(),
        ensures
            r@ == self@.frames[idx as int],
    {
        &self.frames[idx]
    }

    /// Opens a region.
    pub fn open_region(
        &mut self,
        kind: FrameKind,
        results: Vec<(String, ValType)>,
        entry_params: Vec<Val>,
        loop_params: Vec<(String, ValType)>,
        parent_height: usize,
        cond: Option<String>,
    )
        requires
            old(self).wf(),
        ensures
            final(self)@ == old(self)@.opened(
                kind,
                crate::codegen::frame::typed(results@),
                vals(entry_params@),
                crate::codegen::frame::typed(loop_params@),
                parent_height,
                opt_text(cond),
            ),
            final(self).wf(),
    {
        let label: usize = self.label_counter;
        self.label_counter = next_of(label);
        let mut parent_buffer: Vec<Node> = Vec::new();
        assert(nodes_view(parent_buffer@) =~= Seq::<NodeV>::empty());
        std::mem::swap(&mut parent_buffer, &mut self.cur);
        let ghost before = self@.frames;
        self.frames.push(
            Frame {
                kind,
                label,
                targeted: false,
                results,
                entry_params,
                loop_params,
                parent_height,
                parent_buffer,
                then_buffer: None,
                then_reachable: false,
                cond,
                try_state: None,
            },
        );
        if self.max_depth < self.frames.len() {
            self.max_depth = self.frames.len();
        }
        proof {
            let f = self.frames@.last()@;
            assert(frames_view(self.frames@) =~= before.push(f));
            assert(self@.frames.drop_last() =~= before);
        }
    }

    /// Ends the innermost region: its frame, and the nodes collected in it.
    pub fn end_region(&mut self) -> (r: (Frame, Vec<Node>))
        requires
            old(self).wf(),
            old(self)@.frames.len() > 0,
        ensures
            final(self)@ == old(self)@.frame_ended(),
            r.0@ == old(self)@.frames.last(),
            nodes_view(r.1@) == old(self)@.cur,
            final(self).wf(),
            frame_ok(
                r.0@,
                labels_of(final(self)@.frames),
                final(self)@.in_continuation,
            ),
            lowerable(
                nodes_view(r.1@),
                labels_of(final(self)@.frames).insert(r.0@.label),
                !final(self)@.in_continuation,
            ),
    {
        let mut body: Vec<Node> = Vec::new();
        assert(nodes_view(body@) =~= Seq::<NodeV>::empty());
        std::mem::swap(&mut body, &mut self.cur);
        let n: usize = self.frames.len();
        assert(frames_view(self.frames@).last() == self.frames@.last()@);
        let frame = self.frames.remove(n - 1);
        assert(frames_view(self.frames@) =~= old(self)@.frames.drop_last());
        (frame, body)
    }

    /// Continues in an enclosing buffer, with one more node.
    pub fn resume_buffer(&mut self, buffer: Vec<Node>)
        requires
            old(self).wf(),
            lowerable(
                nodes_view(buffer@),
                labels_of(old(self)@.frames),
                !old(self)@.in_continuation,
            ),
        ensures
            final(self)@ == (GenV { cur: nodes_view(buffer@), ..old(self)@ }),
            final(self).wf(),
    {
        self.cur = buffer;
    }

    /// Takes the nodes collected so far.
    pub fn take_nodes(&mut self) -> (r: Vec<Node>)
        requires
            old(self).wf(),
        ensures
            nodes_view(r@) == old(self)@.cur,
            final(self)@ == (GenV { cur: Seq::empty(), ..old(self)@ }),
            final(self).wf(),
            lowerable(
                nodes_view(r@),
                labels_of(final(self)@.frames),
                !final(self)@.in_continuation,
            ),
    {
        let mut nodes: Vec<Node> = Vec::new();
        assert(nodes_view(nodes@) =~= Seq::<NodeV>::empty());
        std::mem::swap(&mut nodes, &mut self.cur);
        nodes
    }

    /// Marks the region at `idx` as branched to.
    pub fn mark_targeted(&mut self, idx: usize)
        requires
            old(self).wf(),
            idx < old(self)@.frames.len(),
        ensures
            final(self)@ == old(self)@.with_frame(
                idx as int,
                FrameV { targeted: true, ..old(self)@.frames[idx as int] },
            ),
            final(self).wf(),
    {
        let ghost f = FrameV { targeted: true, ..self@.frames[idx as int] };
        proof {
            lemma_update_frame(self@.frames, idx as int, f, self@.in_continuation);
        }
        self.frames[idx].targeted = true;
        assert(frames_view(self.frames@) =~= old(self)@.frames.update(idx as int, f));
    }

    /// Keeps the nodes collected so far as the `then` arm of the innermost region.
    pub fn keep_then(&mut self)
        requires
            old(self).wf(),
            old(self)@.frames.len() > 0,
            old(self)@.frames.last().kind == FrameKind::If,
        ensures
            final(self)@ == (GenV {
                frames: old(self)@.frames.update(
                    old(self)@.frames.len() - 1,
                    FrameV {
                        then_buffer: Some(old(self)@.cur),
                        then_reachable: old(self)@.reachable,
                        ..old(self)@.frames.last()
                    },
                ),
                cur: Seq::empty(),
                ..old(self)@
            }),
            final(self).wf(),
    {
        let nodes = self.take_nodes();
        let n: usize = self.frames.len();
        let ghost before = self@.frames;
        let ghost f = FrameV {
            then_buffer: Some(nodes_view(nodes@)),
            then_reachable: self@.reachable,
            ..before.last()
        };
        let reachable = self.reachable;
        assert(before.last() == self.frames@[n - 1]@);
        self.frames[n - 1].then_buffer = Some(nodes);
        self.frames[n - 1].then_reachable = reachable;
        proof {
            let now = before.update(n - 1, f);
            assert(frames_view(self.frames@) =~= now);
            assert(now.drop_last() =~= before.drop_last());
        }
    }

    /// Whether the program point is reachable.
    pub fn is_reachable(&self) -> (r: bool)
        ensures
            r == self@.reachable,
    {
        self.reachable
    }

    /// Sets whether the program point is reachable; an unreachable one starts to
    /// count the regions it skips.
    pub fn set_reachable(&mut self, reachable: bool)
        requires
            old(self).wf(),
        ensures
            final(self)@ == if reachable {
                GenV { reachable: true, ..old(self)@ }
            } else {
                old(self)@.dead()
            },
            final(self).wf(),
    {
        self.reachable = reachable;
        if !reachable {
            self.dead_nesting = 0;
        }
    }

    /// The number of regions being skipped.
    pub fn skipping(&self) -> (r: usize)
        ensures
            r == self@.dead_nesting,
    {
        self.dead_nesting
    }

    pub fn set_skipping(&mut self, n: usize)
        requires
            old(self).wf(),
        ensures
            final(self)@ == (GenV { dead_nesting: n, ..old(self)@ }),
            final(self).wf(),
    {
        self.dead_nesting = n;
    }

    /// The function's result types.
    pub fn result_types(&self) -> (r: &Vec<ValType>)
        ensures
            r@ == self@.results,
    {
        &self.results
    }

    /// The types of the locals.
    pub fn locals(&self) -> (r: &Vec<ValType>)
        ensures
            r@ == self@.local_types,
    {
        &self.local_types
    }

    pub fn set_trailing(&mut self, trailing: Option<String>)
        requires
            old(self).wf(),
        ensures
            final(self)@ == (GenV { trailing: opt_text(trailing), ..old(self)@ }),
            final(self).wf(),
    {
        self.trailing = trailing;
    }

    pub fn use_exceptions(&mut self)
        requires
            old(self).wf(),
        ensures
            final(self)@ == (GenV { uses_eh: true, ..old(self)@ }),
            final(self).wf(),
    {
        self.uses_eh = true;
    }

    pub fn use_return_escape(&mut self)
        requires
            old(self).wf(),
        ensures
            final(self)@ == (GenV { uses_ret_escape: true, ..old(self)@ }),
            final(self).wf(),
    {
        self.uses_ret_escape = true;
    }

    /// The enclosing `try` regions.
    pub fn barriers(&self) -> (r: &Vec<TryBarrier>)
        ensures
            r@ == self@.try_barriers,
    {
        &self.try_barriers
    }

    /// Makes the innermost region a `try`.
    pub fn begin_try(&mut self, exc_var: String)
        requires
            old(self).wf(),
            old(self)@.frames.len() > 0,
            !old(self)@.in_continuation,
        ensures
            final(self)@ == (GenV {
                frames: old(self)@.frames.update(
                    old(self)@.frames.len() - 1,
                    FrameV {
                        try_state: Some(
                            TryStateV {
                                exc_var: exc_var@,
                                arms: Seq::empty(),
                                cur_kind: crate::codegen::ir::CatchKind::Body,
                                cur_binds: Seq::empty(),
                                escapes: Seq::empty(),
                                has_ret_escape: false,
                            },
                        ),
                        ..old(self)@.frames.last()
                    },
                ),
                try_barriers: old(self)@.try_barriers.push(
                    TryBarrier {
                        frame_idx: (old(self)@.frames.len() - 1) as usize,
                        phase: CatchPhase::Body,
                    },
                ),
                ..old(self)@
            }),
            final(self).wf(),
    {
        let n: usize = self.frames.len();
        let ghost before = self@.frames;
        let state = TryState {
            exc_var,
            arms: Vec::new(),
            cur_kind: crate::codegen::ir::CatchKind::Body,
            cur_binds: Vec::new(),
            escapes: Vec::new(),
            has_ret_escape: false,
        };
        assert(state@.arms =~= Seq::<CatchV>::empty());
        assert(state@.cur_binds =~= Seq::<Seq<char>>::empty());
        assert(state@.escapes =~= Seq::<BranchEscape>::empty());
        let ghost f = FrameV { try_state: Some(state@), ..before.last() };
        assert(before.last() == self.frames@[n - 1]@);
        self.frames[n - 1].try_state = Some(state);
        self.try_barriers.push(TryBarrier { frame_idx: n - 1, phase: CatchPhase::Body });
        proof {
            let now = before.update(n - 1, f);
            assert(frames_view(self.frames@) =~= now);
            assert(now.drop_last() =~= before.drop_last());
        }
    }
}

impl GenV {
    /// The current arm of the innermost `try` finished, and a handler begun.
    pub open spec fn arm_ended(
        self,
        kind: crate::codegen::ir::CatchKind,
        binds: Seq<Seq<char>>,
    ) -> GenV {
        let f = self.frames.last();
        let ts = f.try_state->0;
        GenV {
            frames: self.frames.update(
                self.frames.len() - 1,
                FrameV {
                    try_state: Some(
                        TryStateV {
                            arms: ts.arms.push(
                                CatchV {
                                    kind: ts.cur_kind,
                                    binds: ts.cur_binds,
                                    body: self.cur,
                                    reachable_at_end: self.reachable,
                                },
                            ),
                            cur_kind: kind,
                            cur_binds: binds,
                            ..ts
                        },
                    ),
                    ..f
                },
            ),
            cur: Seq::empty(),
            try_barriers: if self.try_barriers.len() > 0 {
                self.try_barriers.update(
                    self.try_barriers.len() - 1,
                    TryBarrier { phase: CatchPhase::Handler, ..self.try_barriers.last() },
                )
            } else {
                self.try_barriers
            },
            ..self
        }
    }
}

pub proof fn lemma_push_arm(arms: Seq<CatchV>, arm: CatchV, bound: Set<usize>)
    requires
        arms_ok(arms, bound),
        lowerable(arm.body, bound, true),
    ensures
        arms_ok(arms.push(arm), bound),
{
    assert(arms.push(arm).drop_last() =~= arms);
}

impl<'a> FuncGen<'a> {
    /// Finishes the current arm of the innermost `try` and begins a handler.
    pub fn end_arm(&mut self, kind: crate::codegen::ir::CatchKind, binds: Vec<String>)
        requires
            old(self).wf(),
            old(self)@.frames.len() > 0,
            old(self)@.frames.last().try_state is Some,
        ensures
            final(self)@ == old(self)@.arm_ended(kind, crate::text::texts(binds@)),
            final(self).wf(),
    {
        let ghost start = self@;
        let body = self.take_nodes();
        let n: usize = self.frames.len();
        let ghost before = self@.frames;
        let reachable_at_end = self.reachable;
        assert(before.last() == self.frames@[n - 1]@);
        let mut state: Option<TryState> = None;
        std::mem::swap(&mut state, &mut self.frames[n - 1].try_state);
        match state {
            Some(ts) => {
                let mut ts = ts;
                let ghost was = ts@;
                let mut new_kind = kind;
                let mut new_binds = binds;
                std::mem::swap(&mut ts.cur_kind, &mut new_kind);
                std::mem::swap(&mut ts.cur_binds, &mut new_binds);
                let arm = crate::codegen::ir::CatchArm {
                    kind: new_kind,
                    binds: new_binds,
                    body,
                    reachable_at_end,
                };
                let ghost arms0 = ts.arms@;
                let ghost arm_v = crate::codegen::ir::catch_view(arm);
                ts.arms.push(arm);
                proof {
                    assert(crate::codegen::ir::catches_view(ts.arms@)
                        =~= crate::codegen::ir::catches_view(arms0).push(arm_v));
                }
                let ghost f = FrameV { try_state: Some(ts@), ..before.last() };
                self.frames[n - 1].try_state = Some(ts);
                proof {
                    let now = before.update(n - 1, f);
                    assert(frames_view(self.frames@) =~= now);
                    assert(now.drop_last() =~= before.drop_last());
                    lemma_push_arm(
                        was.arms,
                        arm_v,
                        labels_of(before.drop_last()).insert(before.last().label),
                    );
                }
            },
            None => {},
        }
        // Handler code runs in the landing pad, outside the body's labelled
        // loop, so flip this try's barrier to the catch phase. Every nested try
        // opened in the body has already ended, so this try's barrier is on top.
        let m: usize = self.try_barriers.len();
        if m > 0 {
            let idx: usize = self.try_barriers[m - 1].frame_idx;
            self.try_barriers.set(
                m - 1,
                TryBarrier { frame_idx: idx, phase: CatchPhase::Handler },
            );
        }
    }

    /// Leaves the innermost `try`.
    pub fn pop_barrier(&mut self)
        requires
            old(self).wf(),
        ensures
            final(self)@ == (GenV {
                try_barriers: if old(self)@.try_barriers.len() > 0 {
                    old(self)@.try_barriers.drop_last()
                } else {
                    old(self)@.try_barriers
                },
                ..old(self)@
            }),
            final(self).wf(),
    {
        let popped = self.try_barriers.pop();
        assert(self.try_barriers@ =~= if old(self)@.try_barriers.len() > 0 {
            old(self)@.try_barriers.drop_last()
        } else {
            old(self)@.try_barriers
        });
    }

    /// Records a branch that escapes the `try` at `idx`.
    pub fn add_escape(&mut self, idx: usize, escape: BranchEscape)
        requires
            old(self).wf(),
            idx < old(self)@.frames.len(),
            old(self)@.frames[idx as int].try_state is Some,
        ensures
            final(self)@ == old(self)@.with_frame(
                idx as int,
                FrameV {
                    try_state: Some(
                        TryStateV {
                            escapes: old(
                                self,
                            )@.frames[idx as int].try_state->0.escapes.push(escape),
                            ..old(self)@.frames[idx as int].try_state->0
                        },
                    ),
                    ..old(self)@.frames[idx as int]
                },
            ),
            final(self).wf(),
    {
        let ghost before = self@.frames;
        assert(before[idx as int] == self.frames@[idx as int]@);
        let mut state: Option<TryState> = None;
        std::mem::swap(&mut state, &mut self.frames[idx].try_state);
        match state {
            Some(ts) => {
                let mut ts = ts;
                ts.escapes.push(escape);
                let ghost f = FrameV { try_state: Some(ts@), ..before[idx as int] };
                self.frames[idx].try_state = Some(ts);
                proof {
                    assert(frames_view(self.frames@) =~= before.update(idx as int, f));
                    lemma_update_frame(before, idx as int, f, self@.in_continuation);
                }
            },
            None => {},
        }
    }

    /// Records that a `return` escapes the `try` at `idx`.
    pub fn mark_ret_escape(&mut self, idx: usize)
        requires
            old(self).wf(),
            idx < old(self)@.frames.len(),
            old(self)@.frames[idx as int].try_state is Some,
        ensures
            final(self)@ == old(self)@.with_frame(
                idx as int,
                FrameV {
                    try_state: Some(
                        TryStateV {
                            has_ret_escape: true,
                            ..old(self)@.frames[idx as int].try_state->0
                        },
                    ),
                    ..old(self)@.frames[idx as int]
                },
            ),
            final(self).wf(),
    {
        let ghost before = self@.frames;
        assert(before[idx as int] == self.frames@[idx as int]@);
        let mut state: Option<TryState> = None;
        std::mem::swap(&mut state, &mut self.frames[idx].try_state);
        match state {
            Some(ts) => {
                let mut ts = ts;
                ts.has_ret_escape = true;
                let ghost f = FrameV { try_state: Some(ts@), ..before[idx as int] };
                self.frames[idx].try_state = Some(ts);
                proof {
                    assert(frames_view(self.frames@) =~= before.update(idx as int, f));
                    lemma_update_frame(before, idx as int, f, self@.in_continuation);
                }
            },
            None => {},
        }
    }
}

// ---------------------------------------------------------------------------
// Beginning and end
// ---------------------------------------------------------------------------
/// The helper dependencies discovered while generating one function.
pub struct GenMeta {
    /// Instance-method memory helpers, each tagged with the linear memory index
    /// it acts on (0 for the plain single-memory helpers, `i` for `_m{i}`).
    pub helpers: HelperSet,
    /// Module-scope free-function runtime helpers.
    pub rt: RtSet,
    /// Module-scope lane-wise SIMD helpers, tracked by function name.
    pub simd: NameSet,
    /// `call_indirect` type indices needing a `call_ref_t{ti}` dispatch method.
    pub dispatch_sigs: HashSet<u32>,
    /// Whether the function uses legacy exception handling, so the module needs
    /// the exception type's definition.
    pub uses_eh: bool,
    /// Shared state-struct definitions produced by splitting a large flattened
    /// method's dispatch; emitted at the crate root so every chunk's `use
    /// super::*` resolves them. Empty for a free function (whose struct is
    /// emitted inline) or an un-split function.
    pub state_structs: Vec<String>,
}

/// The model of a [`GenMeta`].
pub struct MetaV {
    pub helpers: Set<(Helper, u32)>,
    pub rt: Set<Rt>,
    pub simd: Set<Seq<char>>,
    pub dispatch_sigs: Set<u32>,
    pub uses_eh: bool,
    pub state_structs: Seq<Seq<char>>,
}

impl View for GenMeta {
    type V = MetaV;

    open spec fn view(&self) -> MetaV {
        MetaV {
            helpers: self.helpers@,
            rt: self.rt@,
            simd: self.simd@,
            dispatch_sigs: self.dispatch_sigs@,
            uses_eh: self.uses_eh,
            state_structs: crate::text::texts(self.state_structs@),
        }
    }
}

impl GenV {
    /// The state at the head of a function: nothing on the stack, no region open,
    /// and the given nodes in the buffer.
    pub open spec fn fresh(
        ctx: CtxV,
        local_types: Seq<ValType>,
        mutable_locals: Set<u32>,
        results: Seq<ValType>,
        cur: Seq<NodeV>,
    ) -> GenV {
        GenV {
            ctx,
            local_types,
            mutable_locals,
            results,
            stack: Seq::empty(),
            frames: Seq::empty(),
            cur,
            temp_counter: 0,
            label_counter: 0,
            max_depth: 0,
            reachable: true,
            dead_nesting: 0,
            trailing: None,
            used_helpers: Set::empty(),
            used_rt: Set::empty(),
            used_simd: Set::empty(),
            dispatch_sigs: Set::empty(),
            uses_eh: false,
            try_barriers: Seq::empty(),
            uses_ret_escape: false,
            in_continuation: false,
        }
    }

    /// What the function depends on.
    pub open spec fn meta(self, state_structs: Seq<Seq<char>>) -> MetaV {
        MetaV {
            helpers: self.used_helpers,
            rt: self.used_rt,
            simd: self.used_simd,
            dispatch_sigs: self.dispatch_sigs,
            uses_eh: self.uses_eh,
            state_structs,
        }
    }
}

impl<'a> FuncGen<'a> {
    /// The generator at the head of a function.
    pub fn fresh(
        ctx: &'a ModuleCtx<'a>,
        local_types: Vec<ValType>,
        mutable_locals: HashSet<u32>,
        results: Vec<ValType>,
        cur: Vec<Node>,
    ) -> (r: FuncGen<'a>)
        requires
            lowerable(nodes_view(cur@), Set::empty(), true),
        ensures
            r@ == GenV::fresh(
                ctx@,
                local_types@,
                mutable_locals@,
                results@,
                nodes_view(cur@),
            ),
            r.wf(),
    {
        let r = FuncGen {
            ctx,
            local_types,
            mutable_locals,
            results,
            stack: Vec::new(),
            frames: Vec::new(),
            cur,
            temp_counter: 0,
            label_counter: 0,
            max_depth: 0,
            reachable: true,
            dead_nesting: 0,
            trailing: None,
            used_helpers: HelperSet::new(),
            used_rt: RtSet::new(),
            used_simd: NameSet::new(),
            dispatch_sigs: HashSet::new(),
            uses_eh: false,
            try_barriers: Vec::new(),
            uses_ret_escape: false,
            in_continuation: false,
        };
        assert(r@.stack =~= Seq::<ValV>::empty());
        assert(r@.frames =~= Seq::<FrameV>::empty());
        assert(r@.try_barriers =~= Seq::<TryBarrier>::empty());
        r
    }

    /// Begins a continuation body: the nodes collected so far are dropped.
    pub fn enter_continuation(&mut self)
        requires
            old(self)@.frames.len() == 0,
        ensures
            final(self)@ == (GenV { cur: Seq::empty(), in_continuation: true, ..old(self)@ }),
            final(self).wf(),
    {
        self.cur = Vec::new();
        assert(nodes_view(self.cur@) =~= Seq::<NodeV>::empty());
        self.in_continuation = true;
    }

    /// The deepest nesting reached.
    pub fn deepest(&self) -> (r: usize)
        ensures
            r == self@.max_depth,
    {
        self.max_depth
    }

    /// Whether a `return` leaves some `try` body.
    pub fn returns_escape(&self) -> (r: bool)
        ensures
            r == self@.uses_ret_escape,
    {
        self.uses_ret_escape
    }

    /// The tail expression.
    pub fn tail_expr(&self) -> (r: &Option<String>)
        ensures
            opt_text(*r) == self@.trailing,
    {
        &self.trailing
    }

    /// Whether nothing is collected in the current buffer.
    pub fn is_buffer_empty(&self) -> (r: bool)
        ensures
            r == (self@.cur.len() == 0),
    {
        self.cur.len() == 0
    }

    /// What the function depends on.
    pub fn into_meta(self, state_structs: Vec<String>) -> (r: GenMeta)
        ensures
            r@ == self@.meta(crate::text::texts(state_structs@)),
    {
        GenMeta {
            helpers: self.used_helpers,
            rt: self.used_rt,
            simd: self.used_simd,
            dispatch_sigs: self.dispatch_sigs,
            uses_eh: self.uses_eh,
            state_structs,
        }
    }
}

} // verus!
