//! Structured control flow.

use vstd::prelude::*;

use crate::codegen::analysis::{default_value, default_value_text};
use crate::codegen::flatten::{lowerable, lowerable_node, lowerable_region};
use crate::codegen::frame::{goes_on, names, reachable_after, typed, vals, Frame, FrameV};
use crate::codegen::func::state::{
    code_list, codes, gen_result, labels_of, lemma_push_lowerable, FuncGen, GenR, GenV,
};
use crate::codegen::info::SigV;
use crate::codegen::ir::{
    condition_code, condition_text, lemma_nodes_push, node_view, nodes_view, region_view, FrameKind,
    Node, NodeV, RegionNode, RegionV, Val, ValV,
};
use crate::codegen::runtime::Rt;
use crate::error::{no_support, text_result, unsupported, FailV, TranspileError};
use crate::text::{join, joined, lit, opt_text, same, texts, Buf};
use crate::wasm::{BlockType, ValType};

verus! {

/// Appends a typed name.
pub fn add_typed(v: &mut Vec<(String, ValType)>, name: String, ty: ValType)
    ensures
        typed(final(v)@) == typed(old(v)@).push((name@, ty)),
{
    v.push((name, ty));
    assert(typed(v@) =~= typed(old(v)@).push((name@, ty)));
}

impl GenV {
    pub open spec fn emit_unreachable(self) -> GenV {
        self.using_rt(Rt::TrapUnreachable).term("trap_unreachable();"@).dead()
    }

    /// The parameters and results of a block type.
    pub open spec fn block_signature(self, blockty: BlockType) -> Result<SigV, FailV> {
        match blockty {
            BlockType::Empty => Ok(SigV { params: Seq::empty(), results: Seq::empty() }),
            BlockType::Type(ty) => Ok(
                SigV { params: Seq::empty(), results: Seq::empty().push(ty) },
            ),
            BlockType::FuncType(idx) => if idx < self.ctx.types.len() {
                Ok(self.ctx.types[idx as int])
            } else {
                Err(unsupported("block: unknown type"@))
            },
        }
    }

    /// One default-initialised variable declared per result type.
    pub open spec fn declared(self, tys: Seq<ValType>) -> Result<
        (GenV, Seq<(Seq<char>, ValType)>),
        FailV,
    >
        decreases tys.len(),
    {
        if tys.len() == 0 {
            Ok((self, Seq::empty()))
        } else {
            match self.declared(tys.drop_last()) {
                Err(e) => Err(e),
                Ok((s, vars)) => match s.rust_type(tys.last()) {
                    Err(e) => Err(e),
                    Ok(rty) => Ok(
                        (
                            s.temp_taken().line(
                                ("let mut "@ + s.temp() + ": "@ + rty + " = "@
                                    + default_value_text(tys.last(), s.ctx.kinds) + ";"@),
                            ),
                            vars.push((s.temp(), tys.last())),
                        ),
                    ),
                },
            }
        }
    }

    /// The operands from height `h` on turned into loop-carried variables.
    pub open spec fn looped(self, h: int, tys: Seq<ValType>) -> Result<
        (GenV, Seq<(Seq<char>, ValType)>),
        FailV,
    >
        decreases tys.len(),
    {
        if tys.len() == 0 {
            Ok((self, Seq::empty()))
        } else {
            let i = h + tys.len() - 1;
            match self.looped(h, tys.drop_last()) {
                Err(e) => Err(e),
                Ok((s, vars)) => match s.rust_type(tys.last()) {
                    Err(e) => Err(e),
                    Ok(rty) => Ok(
                        (
                            GenV {
                                stack: s.stack.update(
                                    i,
                                    ValV { code: s.temp(), ty: tys.last(), stable: true },
                                ),
                                ..s.temp_taken().line(
                                    ("let mut "@ + s.temp() + ": "@ + rty + " = "@
                                        + s.stack[i].code + ";"@),
                                )
                            },
                            vars.push((s.temp(), tys.last())),
                        ),
                    ),
                },
            }
        }
    }

    /// A region opened: the operand stack is spilled, a loop's parameters become
    /// variables, and the results are declared in the enclosing buffer.
    pub open spec fn push_frame(
        self,
        kind: FrameKind,
        blockty: BlockType,
        cond: Option<Seq<char>>,
    ) -> GenR {
        match self.block_signature(blockty) {
            Err(e) => Err(e),
            Ok(sig) => match self.spilled() {
                Err(e) => Err(e),
                Ok(s) => if s.stack.len() < sig.params.len() {
                    Err(FailV::StackUnderflow)
                } else {
                    let h = s.stack.len() - sig.params.len();
                    let entry = s.stack.skip(h);
                    let carried = if kind == FrameKind::Loop {
                        s.looped(h, sig.params)
                    } else {
                        Ok((s, Seq::empty()))
                    };
                    match carried {
                        Err(e) => Err(e),
                        Ok((s2, loop_params)) => match s2.declared(sig.results) {
                            Err(e) => Err(e),
                            Ok((s3, results)) => Ok(
                                s3.opened(kind, results, entry, loop_params, h as usize, cond),
                            ),
                        },
                    }
                },
            },
        }
    }

    pub open spec fn open_if(self, blockty: BlockType) -> GenR {
        if !self.has(1) {
            Err(FailV::StackUnderflow)
        } else {
            self.drop(1).push_frame(
                FrameKind::If,
                blockty,
                Some(condition_text(self.top().code)),
            )
        }
    }

    /// An operand's value for an assignment: a managed reference is cloned, so the
    /// operand stays readable.
    pub open spec fn moved(self, v: ValV) -> Result<Seq<char>, FailV> {
        match self.rust_type(v.ty) {
            Err(e) => Err(e),
            Ok(rty) => Ok(
                if rty == "GcRef"@ {
                    (v.code + ".clone()"@)
                } else {
                    v.code
                },
            ),
        }
    }

    /// One value popped per variable, so that the i-th variable receives the i-th
    /// operand in source order.
    pub open spec fn assigned(self, vars: Seq<Seq<char>>) -> GenR
        decreases vars.len(),
    {
        if vars.len() == 0 {
            Ok(self)
        } else if !self.has(1) {
            Err(FailV::StackUnderflow)
        } else {
            match self.moved(self.top()) {
                Err(e) => Err(e),
                Ok(value) => self.drop(1).line((vars.last() + " = "@ + value + ";"@)).assigned(
                    vars.drop_last(),
                ),
            }
        }
    }

    /// The results of the innermost region assigned, where control gets here.
    pub open spec fn fell_through(self) -> GenR {
        if self.reachable && self.frames.len() > 0 {
            self.assigned(names(self.frames.last().results))
        } else {
            Ok(self)
        }
    }

    /// The operands cut down to height `h`.
    pub open spec fn cut(self, h: usize) -> GenV {
        GenV {
            stack: if h <= self.stack.len() {
                self.stack.take(h as int)
            } else {
                self.stack
            },
            ..self
        }
    }

    pub open spec fn handle_else(self) -> GenR {
        match self.fell_through() {
            Err(e) => Err(e),
            Ok(s) => if s.frames.len() == 0 {
                Err(FailV::StackUnderflow)
            } else if s.frames.last().kind != FrameKind::If {
                Err(unsupported("else without if"@))
            } else {
                let f = s.frames.last();
                let s2 = GenV {
                    frames: s.frames.update(
                        s.frames.len() - 1,
                        FrameV { then_buffer: Some(s.cur), then_reachable: s.reachable, ..f },
                    ),
                    cur: Seq::empty(),
                    ..s
                };
                let s3 = s2.cut(f.parent_height);
                Ok(GenV { stack: s3.stack + f.entry_params, reachable: true, ..s3 })
            },
        }
    }

    /// The implicit `else` of an `if` with results: its parameters forwarded.
    pub open spec fn forwarded(
        self,
        results: Seq<(Seq<char>, ValType)>,
        params: Seq<ValV>,
        n: nat,
    ) -> Result<Seq<NodeV>, FailV>
        decreases n,
    {
        if n == 0 {
            Ok(Seq::empty())
        } else {
            match self.forwarded(results, params, (n - 1) as nat) {
                Err(e) => Err(e),
                Ok(front) => match self.moved(params[n - 1]) {
                    Err(e) => Err(e),
                    Ok(value) => Ok(
                        front.push(NodeV::Line((results[n - 1].0 + " = "@ + value + ";"@))),
                    ),
                },
            }
        }
    }

    /// The body and the `else` arm of the region that `f` and its nodes `body`
    /// make.
    pub open spec fn region_arms(self, f: FrameV, body: Seq<NodeV>) -> Result<
        (Seq<NodeV>, Option<Seq<NodeV>>),
        FailV,
    > {
        if f.kind != FrameKind::If {
            Ok((body, None))
        } else {
            match f.then_buffer {
                Some(then_nodes) => Ok((then_nodes, Some(body))),
                None => if f.results.len() > 0 {
                    let n = if f.results.len() < f.entry_params.len() {
                        f.results.len()
                    } else {
                        f.entry_params.len()
                    };
                    match self.forwarded(f.results, f.entry_params, n) {
                        Err(e) => Err(e),
                        Ok(els) => Ok((body, Some(els))),
                    }
                } else {
                    Ok((body, None))
                },
            }
        }
    }

    /// Reachable or not from here on.
    pub open spec fn going_on(self, reachable: bool) -> GenV {
        if reachable {
            GenV { reachable: true, ..self }
        } else {
            self.dead()
        }
    }

    /// The innermost region (no `try`) ended and put into the enclosing buffer.
    pub open spec fn region_ended(self) -> GenR {
        let f = self.frames.last();
        match self.fell_through() {
            Err(e) => Err(e),
            Ok(s) => match s.region_arms(f, s.cur) {
                Err(e) => Err(e),
                Ok((body, els)) => {
                    let region = RegionV {
                        kind: f.kind,
                        label: f.label,
                        targeted: f.targeted,
                        reachable_at_end: self.reachable,
                        cond: f.cond,
                        body,
                        els,
                    };
                    let s2 = GenV {
                        cur: f.parent_buffer.push(NodeV::Region(region)),
                        ..s.frame_ended()
                    };
                    Ok(
                        s2.cut(f.parent_height).pushed(f.results).going_on(
                            goes_on(f, self.reachable),
                        ),
                    )
                },
            },
        }
    }

    /// `n` results popped and put together: a single expression or a tuple.
    pub open spec fn results_text(self, n: nat) -> Result<Option<Seq<char>>, FailV> {
        if n == 0 {
            Ok(None)
        } else if !self.has(n as int) {
            Err(FailV::StackUnderflow)
        } else {
            let all = joined(codes(self.tail(n as int)), ", "@);
            Ok(
                Some(
                    if n == 1 {
                        all
                    } else {
                        ("("@ + all + ")"@)
                    },
                ),
            )
        }
    }

    pub open spec fn end_function(self) -> GenR {
        if self.reachable {
            match self.results_text(self.results.len()) {
                Err(e) => Err(e),
                Ok(t) => Ok(GenV { trailing: t, ..self.drop(self.results.len() as int) }),
            }
        } else {
            Ok(self)
        }
    }
}

impl<'a> FuncGen<'a> {
    /// `unreachable`: always traps, and code after it is dead, so emit the trap
    /// and stop lowering until the enclosing region ends (as for `return`/`br`).
    pub fn emit_unreachable(&mut self)
        requires
            old(self).wf(),
        ensures
            final(self)@ == old(self)@.emit_unreachable(),
            final(self).wf(),
    {
        self.use_rt(Rt::TrapUnreachable);
        self.term(lit("trap_unreachable();"));
        self.die();
    }

    /// Resolve a block type to its `(parameter types, result types)`.
    pub fn block_signature(&self, blockty: BlockType) -> (r: Result<
        (Vec<ValType>, Vec<ValType>),
        TranspileError,
    >)
        ensures
            match self@.block_signature(blockty) {
                Ok(s) => r matches Ok((p, q)) && p@ == s.params && q@ == s.results,
                Err(e) => r is Err && r->Err_0@ == e,
            },
    {
        match blockty {
            BlockType::Empty => {
                let p: Vec<ValType> = Vec::new();
                let q: Vec<ValType> = Vec::new();
                Ok((p, q))
            },
            BlockType::Type(ty) => {
                let p: Vec<ValType> = Vec::new();
                let mut q: Vec<ValType> = Vec::new();
                q.push(ty);
                Ok((p, q))
            },
            BlockType::FuncType(idx) => {
                let types = self.context().types;
                if (idx as usize) < types.len() {
                    let sig = &types[idx as usize];
                    assert(self@.ctx.types[idx as int] == sig@);
                    let p = copy_types(&sig.params);
                    let q = copy_types(&sig.results);
                    Ok((p, q))
                } else {
                    Err(no_support("block: unknown type"))
                }
            },
        }
    }

    /// Allocate one default-initialised `let mut` variable per result type so
    /// every control path is definitely assigned before the region's value is
    /// read.
    pub fn alloc_results(&mut self, result_types: &Vec<ValType>) -> (r: Result<
        Vec<(String, ValType)>,
        TranspileError,
    >)
        requires
            old(self).wf(),
        ensures
            match old(self)@.declared(result_types@) {
                Ok((s, vars)) => r is Ok && final(self)@ == s && typed(r->Ok_0@) == vars,
                Err(e) => r is Err && r->Err_0@ == e,
            },
            r is Ok ==> final(self).wf(),
    {
        let ghost start = self@;
        let mut out: Vec<(String, ValType)> = Vec::new();
        assert(typed(out@) =~= Seq::<(Seq<char>, ValType)>::empty());
        let mut i: usize = 0;
        while i < result_types.len()
            invariant
                i <= result_types@.len(),
                start == old(self)@,
                self.wf(),
                start.declared(result_types@.take(i as int)) == Ok::<
                    (GenV, Seq<(Seq<char>, ValType)>),
                    FailV,
                >((self@, typed(out@))),
            decreases result_types@.len() - i,
        {
            assert(result_types@.take(i + 1).drop_last() =~= result_types@.take(i as int));
            let ty = result_types[i];
            let rty = match self.rust_type(ty) {
                Ok(t) => t,
                Err(e) => {
                    proof {
                        lemma_declared_fails(start, result_types@, i + 1);
                    }
                    return Err(e);
                },
            };
            let default = default_value(ty, self.context().type_kinds);
            let name = self.fresh_temp();
            self.line(Buf::lit("let mut ").s(&name).s(": ").s(rty).s(" = ").s(default).s(";")
                .end());
            add_typed(&mut out, name, ty);
            i += 1;
        }
        assert(result_types@.take(result_types@.len() as int) =~= result_types@);
        Ok(out)
    }

    /// Turn a loop's entry parameters into `let mut` variables (initialised to
    /// their entry expressions) and rewrite their stack slots to reference the
    /// variables, so the loop body and any `br` back to it share the same
    /// loop-carried storage.
    pub fn materialize_loop_params(
        &mut self,
        parent_height: usize,
        param_types: &Vec<ValType>,
    ) -> (r: Result<Vec<(String, ValType)>, TranspileError>)
        requires
            old(self).wf(),
            parent_height + param_types@.len() == old(self)@.stack.len(),
        ensures
            match old(self)@.looped(parent_height as int, param_types@) {
                Ok((s, vars)) => r is Ok && final(self)@ == s && typed(r->Ok_0@) == vars,
                Err(e) => r is Err && r->Err_0@ == e,
            },
            r is Ok ==> final(self).wf(),
    {
        let ghost start = self@;
        let mut out: Vec<(String, ValType)> = Vec::new();
        assert(typed(out@) =~= Seq::<(Seq<char>, ValType)>::empty());
        let mut i: usize = 0;
        let h: usize = self.height();
        while i < param_types.len()
            invariant
                i <= param_types@.len(),
                start == old(self)@,
                self.wf(),
                h == start.stack.len(),
                parent_height + param_types@.len() == h,
                self@.stack.len() == h,
                start.looped(parent_height as int, param_types@.take(i as int)) == Ok::<
                    (GenV, Seq<(Seq<char>, ValType)>),
                    FailV,
                >((self@, typed(out@))),
            decreases param_types@.len() - i,
        {
            assert(param_types@.take(i + 1).drop_last() =~= param_types@.take(i as int));
            let ty = param_types[i];
            let rty = match self.rust_type(ty) {
                Ok(t) => t,
                Err(e) => {
                    proof {
                        lemma_looped_fails(start, parent_height as int, param_types@, i + 1);
                    }
                    return Err(e);
                },
            };
            let entry = self.operand(parent_height + i).code.clone();
            let name = self.fresh_temp();
            self.line(Buf::lit("let mut ").s(&name).s(": ").s(rty).s(" = ").s(&entry).s(";").end());
            self.set_operand(parent_height + i, name.clone(), ty);
            add_typed(&mut out, name, ty);
            i += 1;
        }
        assert(param_types@.take(param_types@.len() as int) =~= param_types@);
        Ok(out)
    }

    /// Opens a block or a loop.
    pub fn open_frame(&mut self, kind: FrameKind, blockty: BlockType) -> (r: Result<
        (),
        TranspileError,
    >)
        requires
            old(self).wf(),
        ensures
            gen_result(r, final(self)@, old(self)@.push_frame(kind, blockty, None)),
            r is Ok ==> final(self).wf(),
    {
        self.push_frame(kind, blockty, None)
    }

    /// Opens an `if`. The condition is consumed before the surrounding stack is
    /// spilled, so it is popped here rather than inside [`Self::push_frame`].
    pub fn open_if(&mut self, blockty: BlockType) -> (r: Result<(), TranspileError>)
        requires
            old(self).wf(),
        ensures
            gen_result(r, final(self)@, old(self)@.open_if(blockty)),
            r is Ok ==> final(self).wf(),
    {
        let cond = self.pop()?;
        self.push_frame(FrameKind::If, blockty, Some(condition_code(cond.code.as_str())))
    }

    /// Spill the operand stack, allocate a label, and push a fresh frame that
    /// captures the enclosing scope's height and output buffer.
    pub fn push_frame(&mut self, kind: FrameKind, blockty: BlockType, cond: Option<String>) -> (r:
        Result<(), TranspileError>)
        requires
            old(self).wf(),
        ensures
            gen_result(r, final(self)@, old(self)@.push_frame(kind, blockty, opt_text(cond))),
            r is Ok ==> final(self).wf(),
    {
        let (param_types, result_types) = self.block_signature(blockty)?;
        self.spill_nonstable()?;
        // The parameters are the top operands; they stay on the stack as the
        // region's initial values, so the enclosing scope ends below them.
        let height: usize = self.height();
        if height < param_types.len() {
            return Err(TranspileError::StackUnderflow);
        }
        let parent_height: usize = height - param_types.len();
        let entry_params = self.operands_from(parent_height);
        // A loop's parameters are loop-carried, so they become mutable variables
        // that a `br` back to the header can reassign. A block's/`if`'s
        // parameters are read-only and stay as their entry expressions.
        let loop_params = if kind == FrameKind::Loop {
            self.materialize_loop_params(parent_height, &param_types)?
        } else {
            let none: Vec<(String, ValType)> = Vec::new();
            assert(typed(none@) =~= Seq::<(Seq<char>, ValType)>::empty());
            none
        };
        // Result variables are declared in the enclosing buffer, before the
        // region, so a `br` out of it (or its fall-through) can assign them.
        let results = self.alloc_results(&result_types)?;
        self.open_region(kind, results, entry_params, loop_params, parent_height, cond);
        Ok(())
    }

    /// The value of an operand for an assignment: a managed reference is cloned.
    pub fn move_val(&self, v: &Val) -> (r: Result<String, TranspileError>)
        ensures
            text_result(r, self@.moved(v@)),
    {
        let rty = self.rust_type(v.ty)?;
        if same(rty, "GcRef") {
            Ok(Buf::lit(&v.code).s(".clone()").end())
        } else {
            Ok(v.code.clone())
        }
    }

    /// Pop one value per variable and assign them, so `vars[i]` receives the
    /// i-th source-order operand.
    pub fn assign_results(&mut self, vars: &Vec<String>) -> (r: Result<(), TranspileError>)
        requires
            old(self).wf(),
        ensures
            gen_result(r, final(self)@, old(self)@.assigned(texts(vars@))),
            r is Ok ==> final(self).wf(),
    {
        let ghost start = self@;
        let ghost all = texts(vars@);
        let mut i: usize = vars.len();
        assert(all.take(all.len() as int) =~= all);
        while i > 0
            invariant
                i <= vars@.len(),
                start == old(self)@,
                all == texts(vars@),
                self.wf(),
                start.assigned(all) == self@.assigned(all.take(i as int)),
            decreases i,
        {
            assert(all.take(i as int).drop_last() =~= all.take(i - 1));
            let ghost before = self@;
            let value = self.pop()?;
            let code = self.move_val(&value)?;
            self.line(Buf::lit(&vars[i - 1]).s(" = ").s(&code).s(";").end());
            i -= 1;
        }
        Ok(())
    }

    /// Assign the current frame's results from the top operands (in source
    /// order, popped last-first).
    pub fn assign_fallthrough_result(&mut self) -> (r: Result<(), TranspileError>)
        requires
            old(self).wf(),
        ensures
            gen_result(
                r,
                final(self)@,
                if old(self)@.frames.len() > 0 {
                    old(self)@.assigned(names(old(self)@.frames.last().results))
                } else {
                    Ok(old(self)@)
                },
            ),
            r is Ok ==> final(self).wf(),
    {
        let n: usize = self.depth();
        if n == 0 {
            return Ok(());
        }
        let vars = self.frame(n - 1).result_vars();
        self.assign_results(&vars)
    }

    /// `else`: keep the `then` arm and start the `else` arm with the same
    /// parameters.
    pub fn handle_else(&mut self) -> (r: Result<(), TranspileError>)
        requires
            old(self).wf(),
        ensures
            gen_result(r, final(self)@, old(self)@.handle_else()),
            r is Ok ==> final(self).wf(),
    {
        if self.is_reachable() {
            self.assign_fallthrough_result()?;
        }
        let n: usize = self.depth();
        if n == 0 {
            return Err(TranspileError::StackUnderflow);
        }
        proof {
            lemma_assigned_frames(old(self)@);
        }
        if self.frame(n - 1).kind != FrameKind::If {
            return Err(no_support("else without if"));
        }
        let parent_height: usize = self.frame(n - 1).parent_height;
        let entry_params = copy_vals(&self.frame(n - 1).entry_params);
        let ghost entry = self@.frames.last().entry_params;
        self.keep_then();
        // The `then` arm consumed the parameters; the `else` arm starts with the
        // same (stable) parameter values on the stack.
        self.truncate(parent_height);
        let ghost s3 = self@;
        let mut i: usize = 0;
        assert(s3.stack + entry.take(0) =~= s3.stack);
        while i < entry_params.len()
            invariant
                i <= entry_params@.len(),
                self.wf(),
                entry == vals(entry_params@),
                self@ == (GenV { stack: s3.stack + entry.take(i as int), ..s3 }),
            decreases entry_params@.len() - i,
        {
            let v = &entry_params[i];
            self.push(v.code.clone(), v.ty, v.stable);
            proof {
                assert(entry.take(i + 1) =~= entry.take(i as int).push(v@));
                assert(self@.stack =~= s3.stack + entry.take(i + 1));
            }
            i += 1;
        }
        assert(entry.take(entry.len() as int) =~= entry);
        self.set_reachable(true);
        Ok(())
    }
}

impl<'a> FuncGen<'a> {
    /// The nodes that forward an `if`'s parameters to its results.
    fn forward_params(&self, results: &Vec<(String, ValType)>, params: &Vec<Val>) -> (r: Result<
        Vec<Node>,
        TranspileError,
    >)
        ensures
            match self@.forwarded(
                typed(results@),
                vals(params@),
                if results@.len() < params@.len() {
                    results@.len()
                } else {
                    params@.len()
                },
            ) {
                Ok(ns) => r is Ok && nodes_view(r->Ok_0@) == ns,
                Err(e) => r is Err && r->Err_0@ == e,
            },
    {
        let mut out: Vec<Node> = Vec::new();
        assert(nodes_view(out@) =~= Seq::<NodeV>::empty());
        let n: usize = if results.len() < params.len() {
            results.len()
        } else {
            params.len()
        };
        let mut i: usize = 0;
        while i < n
            invariant
                i <= n <= results@.len(),
                n <= params@.len(),
                self@.forwarded(typed(results@), vals(params@), i as nat) == Ok::<Seq<NodeV>,
                    FailV>(
                    nodes_view(out@),
                ),
                n as nat == (if results@.len() < params@.len() {
                    results@.len()
                } else {
                    params@.len()
                }),
            decreases n - i,
        {
            let value = match self.move_val(&params[i]) {
                Ok(v) => v,
                Err(e) => {
                    proof {
                        lemma_forwarded_fails(
                            self@,
                            typed(results@),
                            vals(params@),
                            (i + 1) as nat,
                            n as nat,
                        );
                    }
                    return Err(e);
                },
            };
            let node = Node::Line(Buf::lit(&results[i].0).s(" = ").s(&value).s(";").end());
            let ghost was = out@;
            proof {
                lemma_nodes_push(was, node);
            }
            out.push(node);
            i += 1;
        }
        Ok(out)
    }

    /// Ends the innermost region (no `try`), and puts it into the enclosing
    /// buffer.
    pub fn close_region(&mut self) -> (r: Result<(), TranspileError>)
        requires
            old(self).wf(),
            old(self)@.frames.len() > 0,
        ensures
            gen_result(r, final(self)@, old(self)@.region_ended()),
            r is Ok ==> final(self).wf(),
    {
        // Fall-through result assignment (for blocks/loops and the else arm).
        if self.is_reachable() {
            self.assign_fallthrough_result()?;
        }
        proof {
            lemma_assigned_frames(old(self)@);
        }
        let ghost s = self@;
        let reachable_at_end = self.is_reachable();
        let (frame, body) = self.end_region();
        let next_reachable = reachable_after(&frame, reachable_at_end);
        let ghost f = frame@;
        let ghost outer = labels_of(self@.frames);
        let ghost structured = !self@.in_continuation;
        let Frame {
            kind,
            label,
            targeted,
            results,
            entry_params,
            parent_height,
            parent_buffer,
            then_buffer,
            cond,
            ..
        } = frame;

        // Split an `if` into its then/else arms. When the region yields results
        // but has no explicit `else`, synthesise an implicit else that forwards
        // the parameters to the results (validation guarantees matching arity
        // and types). Blocks and loops keep their whole body as-is.
        let (body, els) = match kind {
            FrameKind::Block | FrameKind::Loop => (body, None),
            FrameKind::If => match then_buffer {
                Some(then_nodes) => (then_nodes, Some(body)),
                None => if results.len() > 0 {
                    proof {
                        lemma_forwarded_context(
                            s,
                            self@,
                            typed(results@),
                            vals(entry_params@),
                            if results@.len() < entry_params@.len() {
                                results@.len()
                            } else {
                                entry_params@.len()
                            },
                        );
                    }
                    let forward = self.forward_params(&results, &entry_params)?;
                    proof {
                        lemma_forwarded_lowerable(
                            self@,
                            typed(results@),
                            vals(entry_params@),
                            if results@.len() < entry_params@.len() {
                                results@.len()
                            } else {
                                entry_params@.len()
                            },
                            outer.insert(label),
                            structured,
                        );
                    }
                    (body, Some(forward))
                } else {
                    (body, None)
                },
            },
        };
        let ghost els_v = if els is Some {
            Some(nodes_view(els->0@))
        } else {
            None
        };
        let region = RegionNode { kind, label, targeted, reachable_at_end, cond, body, els };
        let ghost region_v = region_view(region);
        let node = Node::Region(region);
        let mut buffer = parent_buffer;
        proof {
            assert(lowerable(region_v.body, outer.insert(region_v.label), structured));
            assert(region_v.els == els_v);
            if let Some(e) = els_v {
                assert(lowerable(e, outer.insert(region_v.label), structured));
            }
            assert(lowerable_region(region_v, outer, structured));
            assert(lowerable_node(node_view(node), outer, structured));
            lemma_push_lowerable(nodes_view(buffer@), node_view(node), outer, structured);
            lemma_nodes_push(buffer@, node);
        }
        buffer.push(node);
        self.resume_buffer(buffer);
        self.truncate(parent_height);
        self.push_temps(&results);
        self.set_reachable(next_reachable);
        Ok(())
    }

    /// Pop `n` result values (in source order) and format them as a single
    /// expression (`n == 1`) or a tuple (`n > 1`); `None` for `n == 0`.
    pub fn pop_results(&mut self, n: usize) -> (r: Result<Option<String>, TranspileError>)
        requires
            old(self).wf(),
        ensures
            match old(self)@.results_text(n as nat) {
                Ok(t) => r is Ok && opt_text(r->Ok_0) == t && final(self)@ == old(self)@.drop(
                    n as int,
                ),
                Err(e) => r is Err && r->Err_0@ == e,
            },
            r is Ok ==> final(self).wf(),
    {
        if n == 0 {
            assert(self@.drop(0).stack =~= self@.stack);
            return Ok(None);
        }
        let popped = self.pop_many(n)?;
        let codes = code_list(&popped);
        let all = join(&codes, ", ");
        Ok(
            Some(
                if n == 1 {
                    all
                } else {
                    Buf::lit("(").s(&all).s(")").end()
                },
            ),
        )
    }

    /// If control falls off the end, the remaining stack values are the results;
    /// otherwise a `return`/`br`/`unreachable` already produced them.
    pub fn end_function(&mut self) -> (r: Result<(), TranspileError>)
        requires
            old(self).wf(),
        ensures
            gen_result(r, final(self)@, old(self)@.end_function()),
            r is Ok ==> final(self).wf(),
    {
        if self.is_reachable() {
            let n: usize = self.result_types().len();
            let trailing = self.pop_results(n)?;
            self.set_trailing(trailing);
        }
        Ok(())
    }
}

proof fn lemma_forwarded_fails(
    s: GenV,
    results: Seq<(Seq<char>, ValType)>,
    params: Seq<ValV>,
    i: nat,
    n: nat,
)
    requires
        i <= n,
        s.forwarded(results, params, i) is Err,
    ensures
        s.forwarded(results, params, n) == s.forwarded(results, params, i),
    decreases n - i,
{
    if i < n {
        lemma_forwarded_fails(s, results, params, i, (n - 1) as nat);
    }
}

/// Forwarding branches nowhere.
proof fn lemma_forwarded_lowerable(
    s: GenV,
    results: Seq<(Seq<char>, ValType)>,
    params: Seq<ValV>,
    n: nat,
    bound: Set<usize>,
    structured: bool,
)
    ensures
        s.forwarded(results, params, n) matches Ok(ns) ==> lowerable(ns, bound, structured),
    decreases n,
{
    if n > 0 {
        lemma_forwarded_lowerable(s, results, params, (n - 1) as nat, bound, structured);
        if let Ok(front) = s.forwarded(results, params, (n - 1) as nat) {
            if let Ok(value) = s.moved(params[n - 1]) {
                lemma_push_lowerable(
                    front,
                    NodeV::Line((results[n - 1].0 + " = "@ + value + ";"@)),
                    bound,
                    structured,
                );
            }
        }
    }
}

/// Forwarding depends on the module alone.
proof fn lemma_forwarded_context(
    s: GenV,
    t: GenV,
    results: Seq<(Seq<char>, ValType)>,
    params: Seq<ValV>,
    n: nat,
)
    requires
        s.ctx == t.ctx,
    ensures
        s.forwarded(results, params, n) == t.forwarded(results, params, n),
    decreases n,
{
    if n > 0 {
        lemma_forwarded_context(s, t, results, params, (n - 1) as nat);
    }
}

/// Assigning results leaves the frames and the reachability alone.
pub proof fn lemma_assigned_keeps(s: GenV, vars: Seq<Seq<char>>)
    ensures
        match s.assigned(vars) {
            Ok(t) => t.frames == s.frames && t.reachable == s.reachable && t.ctx == s.ctx
                && t.try_barriers == s.try_barriers && t.in_continuation == s.in_continuation,
            Err(_) => true,
        },
    decreases vars.len(),
{
    if vars.len() > 0 && s.has(1) {
        if let Ok(value) = s.moved(s.top()) {
            lemma_assigned_keeps(
                s.drop(1).line((vars.last() + " = "@ + value + ";"@)),
                vars.drop_last(),
            );
        }
    }
}

/// Falling through leaves the frames and the reachability alone.
pub proof fn lemma_assigned_frames(s: GenV)
    ensures
        match s.fell_through() {
            Ok(t) => t.frames == s.frames && t.reachable == s.reachable && t.ctx == s.ctx
                && t.try_barriers == s.try_barriers && t.in_continuation == s.in_continuation,
            Err(_) => true,
        },
{
    if s.frames.len() > 0 {
        lemma_assigned_keeps(s, names(s.frames.last().results));
    }
}

proof fn lemma_declared_fails(s: GenV, tys: Seq<ValType>, k: int)
    requires
        0 <= k <= tys.len(),
        s.declared(tys.take(k)) is Err,
    ensures
        s.declared(tys) == s.declared(tys.take(k)),
    decreases tys.len() - k,
{
    if k < tys.len() {
        assert(tys.take(k + 1).drop_last() =~= tys.take(k));
        lemma_declared_fails(s, tys, k + 1);
    } else {
        assert(tys.take(k) =~= tys);
    }
}

proof fn lemma_looped_fails(s: GenV, h: int, tys: Seq<ValType>, k: int)
    requires
        0 <= k <= tys.len(),
        s.looped(h, tys.take(k)) is Err,
    ensures
        s.looped(h, tys) == s.looped(h, tys.take(k)),
    decreases tys.len() - k,
{
    if k < tys.len() {
        assert(tys.take(k + 1).drop_last() =~= tys.take(k));
        lemma_looped_fails(s, h, tys, k + 1);
    } else {
        assert(tys.take(k) =~= tys);
    }
}

/// An owned copy of types.
pub fn copy_types(v: &Vec<ValType>) -> (r: Vec<ValType>)
    ensures
        r@ == v@,
{
    let r = v.clone();
    assert(r@ =~= v@);
    r
}

/// Owned copies of operands.
pub fn copy_vals(v: &Vec<Val>) -> (r: Vec<Val>)
    ensures
        vals(r@) == vals(v@),
{
    let mut out: Vec<Val> = Vec::new();
    let mut i: usize = 0;
    while i < v.len()
        invariant
            i <= v@.len(),
            out@.len() == i,
            forall|k: int| 0 <= k < i ==> (#[trigger] out@[k])@ == v@[k]@,
        decreases v@.len() - i,
    {
        out.push(crate::codegen::func::state::copy_val(&v[i]));
        i += 1;
    }
    assert(vals(out@) =~= vals(v@));
    out
}

} // verus!
