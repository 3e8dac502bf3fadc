//! Continuation bodies as resumable step functions.
//!
//! A continuation body may have locals (kept in the frame across suspends) and
//! numeric parameters (injected by the first `resume` and decoded into their
//! parameter locals at `pc == 0`). It may also contain nested structured control
//! flow (`block`/`loop`/`if` and the branches into them). Where no `suspend`
//! occurs *inside* a region, a region uses Rust's own control flow and renders as
//! a single straight-line chunk within one `pc` state. A body whose `suspend` or
//! `switch` crosses a region boundary is lowered whole to a flat `pc` dispatch.

use vstd::prelude::*;

use crate::codegen::common::ALLOW;
use crate::codegen::dispatch::{dispatch_nodes, flat_body, flatten_cont_body, lemma_plain_dispatch};
use crate::codegen::flatten::lowerable;
use crate::codegen::func::body::{depth_after, meta_result};
use crate::codegen::func::control::copy_types;
use crate::codegen::func::keeps::{law_nesting, lemma_survivors, nested, same_function, shaped};
use crate::codegen::func::state::{gen_result, FuncGen, GenMeta, GenR, GenV, MetaV};
use crate::codegen::ir::{put_nodes, render_body_into, Node, NodeV};
use crate::codegen::scan::{has_text, holds_text};
use crate::error::{no_support, unsupported, FailV, TranspileError};
use crate::ops::{Instr, Operator};
use crate::text::{dec, inc, lit, next_of, opt_text, texts, Buf, Lines};
use crate::wasm::ValType;

verus! {

/// Whether a function is emitted as a step function.
fn is_step(step_set: &Vec<u32>, f: u32) -> (r: bool)
    ensures
        r == step_set@.contains(f),
{
    let mut i: usize = 0;
    while i < step_set.len()
        invariant
            i <= step_set@.len(),
            forall|k: int| 0 <= k < i ==> step_set@[k] != f,
        decreases step_set@.len() - i,
    {
        if step_set[i] == f {
            return true;
        }
        i += 1;
    }
    false
}

/// The number of regions open behind the given instructions, those of `try_table`
/// included.
pub open spec fn region_depth(ops: Seq<Instr>) -> nat
    decreases ops.len(),
{
    if ops.len() == 0 {
        0
    } else {
        let d = region_depth(ops.drop_last());
        match ops.last().op {
            Operator::Block { .. }
            | Operator::Loop { .. }
            | Operator::If { .. }
            | Operator::Try { .. }
            | Operator::TryTable => d + 1,
            Operator::End => if d > 0 {
                (d - 1) as nat
            } else {
                0
            },
            _ => d,
        }
    }
}

/// Whether the instruction at `i` transfers control away inside a region.
pub open spec fn transfers_inside(ops: Seq<Instr>, i: int) -> bool {
    (ops[i].op is Suspend || ops[i].op is Switch) && region_depth(ops.take(i)) > 0
}

/// Whether some `suspend` or `switch` occurs inside a region.
pub open spec fn crosses_region(ops: Seq<Instr>) -> bool {
    exists|i: int| 0 <= i < ops.len() && #[trigger] transfers_inside(ops, i)
}

/// Whether any control-transfer point (`suspend` or `switch`) in `ops` occurs
/// inside a nested region (control depth > 0). Such a body cannot render each
/// region as a single straight-line arm — the `pc` machine must thread through
/// the nesting — so it takes the flat path. A body whose transfers are all at the
/// top level keeps the simpler arm-splitting lowering.
pub fn transfer_crosses_region(ops: &Vec<Instr>) -> (r: bool)
    ensures
        r == crosses_region(ops@),
{
    let mut depth: usize = 0;
    let mut i: usize = 0;
    while i < ops.len()
        invariant
            i <= ops@.len(),
            depth <= i,
            depth == region_depth(ops@.take(i as int)),
            forall|k: int| 0 <= k < i ==> !#[trigger] transfers_inside(ops@, k),
        decreases ops@.len() - i,
    {
        assert(ops@.take(i + 1).drop_last() =~= ops@.take(i as int));
        match &ops[i].op {
            Operator::Block { .. }
            | Operator::Loop { .. }
            | Operator::If { .. }
            | Operator::Try { .. }
            | Operator::TryTable => {
                depth += 1;
            },
            Operator::End => {
                if depth > 0 {
                    depth -= 1;
                }
            },
            Operator::Suspend { .. } | Operator::Switch { .. } => {
                if depth > 0 {
                    assert(transfers_inside(ops@, i as int));
                    return true;
                }
            },
            _ => {},
        }
        i += 1;
    }
    false
}

// ---------------------------------------------------------------------------
// One arm per state
// ---------------------------------------------------------------------------
/// The walk through a body whose transfers are all outside its regions: the arms
/// of the finished states, the checkpoint pending at the end, and whether the
/// body's own `end` was reached.
pub struct WalkV {
    pub s: GenV,
    pub arms: Seq<Seq<char>>,
    pub checkpoint: Option<u32>,
    pub done: bool,
}

pub type WalkR = Result<WalkV, FailV>;

impl WalkV {
    /// The number of the next state.
    pub open spec fn next_pc(self) -> usize {
        inc(crate::text::clamp(self.arms.len()))
    }

    pub open spec fn suspended(self, tag: u32) -> WalkR {
        let s = self.s;
        if s.frames.len() > 0 {
            Err(
                unsupported(
                    "suspend inside nested control flow in a continuation body (phase 5b-2b: a suspend crossing a region is not yet lowered)"@,
                ),
            )
        } else if self.checkpoint is Some {
            Err(
                unsupported(
                    "suspend after a cross-call checkpoint (phase 5: a checkpoint must be in tail position)"@,
                ),
            )
        } else {
            match s.suspend_types(tag) {
                Err(e) => Err(e),
                Ok(tys) => match s.stack_encoded(tys) {
                    Err(e) => Err(e),
                    Ok(payload) => {
                        let s1 = s.drop(tys.len() as int);
                        match s1.arm_taken().all_saved() {
                            Err(e) => Err(e),
                            Ok(save) => match s1.arm_taken().suspend_resumed(tag) {
                                Err(e) => Err(e),
                                Ok(s2) => Ok(
                                    WalkV {
                                        s: s2,
                                        arms: self.arms.push(
                                            (s1.arm_text() + save + "__frame.pc = "@
                                                + dec(self.next_pc() as nat)
                                                + "u32; StepResult::Suspend { tag: "@
                                                + dec(tag as nat) + "u32, payload: vec!["@
                                                + payload + "] }"@),
                                        ),
                                        ..self
                                    },
                                ),
                            },
                        }
                    },
                },
            }
        }
    }

    pub open spec fn switched(self, cont_type_index: u32, tag: u32) -> WalkR {
        let s = self.s;
        if s.frames.len() > 0 {
            Err(
                unsupported(
                    "switch inside nested control flow in a continuation body (phase 8-2: a switch crossing a region is not yet lowered)"@,
                ),
            )
        } else if self.checkpoint is Some {
            Err(unsupported("switch after a cross-call checkpoint (phase 8)"@))
        } else {
            match s.ctx.switch_types(cont_type_index) {
                Err(e) => Err(e),
                Ok((payload_tys, injected_tys)) => match s.spilled() {
                    Err(e) => Err(e),
                    Ok(s1) => if !s1.has(1) {
                        Err(FailV::StackUnderflow)
                    } else {
                        match s1.drop(1).stack_encoded(payload_tys) {
                            Err(e) => Err(e),
                            Ok(payload) => {
                                let s2 = s1.drop(1).drop(payload_tys.len() as int);
                                match s2.arm_taken().all_saved() {
                                    Err(e) => Err(e),
                                    Ok(save) => match s2.arm_taken().injected(
                                        injected_tys,
                                        injected_tys.len(),
                                    ) {
                                        Err(e) => Err(e),
                                        Ok(s3) => Ok(
                                            WalkV {
                                                s: s3,
                                                arms: self.arms.push(
                                                    (s2.arm_text() + save + "__frame.pc = "@
                                                        + dec(self.next_pc() as nat)
                                                        + "u32; StepResult::Switch { tag: "@
                                                        + dec(tag as nat) + "u32, target: "@
                                                        + s1.top().code + ", args: vec!["@
                                                        + payload + "] }"@),
                                                ),
                                                ..self
                                            },
                                        ),
                                    },
                                }
                            },
                        }
                    },
                },
            }
        }
    }

    /// A tail call of another step function.
    pub open spec fn checkpointed(self, callee: u32) -> WalkR {
        match self.s.checkpoint_results(callee, self.checkpoint, true) {
            Err(e) => Err(e),
            Ok(tys) => match self.s.results_read("__cret"@, tys, tys.len()) {
                Err(e) => Err(e),
                Ok(s) => Ok(WalkV { s, checkpoint: Some(callee), ..self }),
            },
        }
    }

    /// The body's own `end`.
    pub open spec fn ended(self, has_params: bool) -> WalkR {
        let s = self.s;
        if !s.reachable {
            Ok(
                WalkV {
                    s: s.arm_taken(),
                    arms: self.arms.push(s.arm_text()),
                    done: true,
                    ..self
                },
            )
        } else {
            match s.stack_encoded(s.results) {
                Err(e) => Err(e),
                Ok(payload) => {
                    let s1 = s.drop(s.results.len() as int);
                    match self.checkpoint {
                        None => Ok(
                            WalkV {
                                s: s1.arm_taken(),
                                arms: self.arms.push(
                                    (s1.arm_text() + "StepResult::Return(vec!["@ + payload + "])"@),
                                ),
                                done: true,
                                ..self
                            },
                        ),
                        Some(g) => if s1.cur.len() > 0 {
                            Err(
                                unsupported(
                                    "statements after a cross-call checkpoint (phase 5b)"@,
                                ),
                            )
                        } else if self.arms.len() == 0 && has_params {
                            Err(
                                unsupported(
                                    "cross-call checkpoint at the entry of a continuation body with parameters (phase 8: a switch-back would clobber them)"@,
                                ),
                            )
                        } else {
                            match s1.all_saved() {
                                Err(e) => Err(e),
                                Ok(save) => {
                                    let bind = if holds_text(payload, "__cret"@) {
                                        "__cret"@
                                    } else {
                                        "_"@
                                    };
                                    Ok(
                                        WalkV {
                                            s: s1,
                                            arms: self.arms.push(
                                                ("match self.cont_step_func"@ + dec(g as nat)
                                                    + "(&mut __frame.sub, __args) { StepResult::Suspend { tag: __t, payload: __p } => { "@
                                                    + save
                                                    + "StepResult::Suspend { tag: __t, payload: __p } }, StepResult::Switch { tag: __t, target: __tgt, args: __a } => { "@
                                                    + save
                                                    + "StepResult::Switch { tag: __t, target: __tgt, args: __a } }, StepResult::Return("@
                                                    + bind + ") => StepResult::Return(vec!["@
                                                    + payload + "]) }"@),
                                            ),
                                            done: true,
                                            ..self
                                        },
                                    )
                                },
                            }
                        },
                    }
                },
            }
        }
    }

    /// An ordinary instruction.
    pub open spec fn plainly(self, op: Operator, text: Seq<char>) -> WalkR {
        match self.s.emitted(op, text) {
            Err(e) => Err(e),
            Ok(s) => Ok(WalkV { s, ..self }),
        }
    }

    /// One instruction of the body.
    #[verifier::opaque]
    pub open spec fn walked(self, op: Operator, text: Seq<char>, has_params: bool) -> WalkR {
        if self.done {
            Ok(self)
        } else {
            match op {
                Operator::Suspend { tag_index } => self.suspended(tag_index),
                Operator::Switch { cont_type_index, tag_index } => {
                    self.switched(cont_type_index, tag_index)
                },
                Operator::Call { function_index } => if self.s.ctx.cont.step_set.contains(
                    function_index,
                ) {
                    self.checkpointed(function_index)
                } else {
                    self.plainly(op, text)
                },
                Operator::ReturnCall { function_index } => if self.s.ctx.cont.step_set.contains(
                    function_index,
                ) {
                    Err(unsupported("return_call across a continuation (phase 5)"@))
                } else {
                    self.plainly(op, text)
                },
                Operator::End => if self.s.frames.len() > 0 {
                    self.plainly(op, text)
                } else {
                    self.ended(has_params)
                },
                Operator::Try { .. }
                | Operator::TryTable
                | Operator::Return
                | Operator::Resume { .. }
                | Operator::Unreachable => Err(
                    unsupported(("operator "@ + text + " in a continuation body (phase 5b-2b)"@)),
                ),
                _ => self.plainly(op, text),
            }
        }
    }

    /// All instructions of the body.
    pub open spec fn walk(self, ops: Seq<Instr>, has_params: bool) -> WalkR
        decreases ops.len(),
    {
        if ops.len() == 0 {
            Ok(self)
        } else {
            match self.walk(ops.drop_last(), has_params) {
                Err(e) => Err(e),
                Ok(v) => v.walked(ops.last().op, ops.last().text@, has_params),
            }
        }
    }
}

/// The `match` on the state, one arm per state, behind `out`.
pub open spec fn put_step_arms(out: Seq<char>, arms: Seq<Seq<char>>, prefix: Seq<char>) -> Seq<char>
    decreases arms.len(),
{
    if arms.len() == 0 {
        (out + prefix + "    match __frame.pc {\n"@)
    } else {
        (put_step_arms(out, arms.drop_last(), prefix) + prefix + "        "@
            + dec((arms.len() - 1) as nat) + "u32 => { "@ + arms.last() + " }\n"@)
    }
}

// ---------------------------------------------------------------------------
// The flat dispatch
// ---------------------------------------------------------------------------
/// The walk through a body whose transfers cross its regions: the results at its
/// end, and its checkpoint.
pub struct FlatWalkV {
    pub s: GenV,
    pub payload: Option<Seq<char>>,
    pub checkpoint: Option<u32>,
}

pub type FlatWalkR = Result<FlatWalkV, FailV>;

impl GenV {
    /// A `suspend` recorded as a node: what outlives it is saved in the frame.
    pub open spec fn suspend_noted(self, tag: u32) -> GenR {
        match self.suspend_types(tag) {
            Err(e) => Err(e),
            Ok(tys) => match self.tail_encoded(tys) {
                Err(e) => Err(e),
                Ok(payload) => match self.drop(tys.len() as int).survivors_saved() {
                    Err(e) => Err(e),
                    Ok((s1, stack_save)) => match s1.all_saved() {
                        Err(e) => Err(e),
                        Ok(save) => s1.node(
                            NodeV::Suspend { tag, payload, save: (stack_save + save) },
                        ).suspend_resumed(tag),
                    },
                },
            },
        }
    }

    /// A `switch` recorded as a node.
    pub open spec fn switch_noted(self, cont_type_index: u32, tag: u32) -> GenR {
        match self.ctx.switch_types(cont_type_index) {
            Err(e) => Err(e),
            Ok((payload_tys, injected_tys)) => if !self.has(1) {
                Err(FailV::StackUnderflow)
            } else {
                match self.drop(1).tail_encoded(payload_tys) {
                    Err(e) => Err(e),
                    Ok(payload) => match self.drop(1).drop(
                        payload_tys.len() as int,
                    ).survivors_saved() {
                        Err(e) => Err(e),
                        Ok((s1, stack_save)) => match s1.all_saved() {
                            Err(e) => Err(e),
                            Ok(save) => s1.node(
                                NodeV::Switch {
                                    tag,
                                    target: self.top().code,
                                    payload,
                                    save: (stack_save + save),
                                },
                            ).injected(injected_tys, injected_tys.len()),
                        },
                    },
                }
            },
        }
    }

    /// A call of another step function recorded as a node; the results are read
    /// from the frame.
    pub open spec fn checkpoint_noted(self, callee: u32, checkpoint: Option<u32>) -> GenR {
        match self.checkpoint_results(callee, checkpoint, false) {
            Err(e) => Err(e),
            Ok(tys) => match self.all_saved() {
                Err(e) => Err(e),
                Ok(save) => self.node(NodeV::Checkpoint { callee, save }).results_read(
                    "__frame.ostack"@,
                    tys,
                    tys.len(),
                ),
            },
        }
    }
}

impl FlatWalkV {
    pub open spec fn plainly(self, r: GenR) -> FlatWalkR {
        match r {
            Err(e) => Err(e),
            Ok(s) => Ok(FlatWalkV { s, ..self }),
        }
    }

    /// One instruction of the body.
    #[verifier::opaque]
    pub open spec fn walked(self, op: Operator, text: Seq<char>) -> FlatWalkR {
        match op {
            Operator::Suspend { tag_index } => self.plainly(self.s.suspend_noted(tag_index)),
            Operator::Switch { cont_type_index, tag_index } => {
                self.plainly(self.s.switch_noted(cont_type_index, tag_index))
            },
            Operator::Call { function_index } => if self.s.ctx.cont.step_set.contains(
                function_index,
            ) {
                match self.s.checkpoint_noted(function_index, self.checkpoint) {
                    Err(e) => Err(e),
                    Ok(s) => Ok(FlatWalkV { s, checkpoint: Some(function_index), ..self }),
                }
            } else {
                self.plainly(self.s.emitted(op, text))
            },
            Operator::ReturnCall { function_index } => if self.s.ctx.cont.step_set.contains(
                function_index,
            ) {
                Err(unsupported("return_call across a continuation (phase 5)"@))
            } else {
                self.plainly(self.s.emitted(op, text))
            },
            Operator::End => if self.s.frames.len() > 0 {
                self.plainly(self.s.emitted(op, text))
            } else if self.s.reachable {
                match self.s.stack_encoded(self.s.results) {
                    Err(e) => Err(e),
                    Ok(payload) => Ok(
                        FlatWalkV {
                            s: self.s.drop(self.s.results.len() as int),
                            payload: Some(payload),
                            ..self
                        },
                    ),
                }
            } else {
                Ok(self)
            },
            Operator::Try { .. }
            | Operator::TryTable
            | Operator::Return
            | Operator::Resume { .. } => Err(
                unsupported(("operator "@ + text + " in a continuation body (phase 5b-2b)"@)),
            ),
            _ => self.plainly(self.s.emitted(op, text)),
        }
    }

    /// All instructions of the body.
    pub open spec fn walk(self, ops: Seq<Instr>) -> FlatWalkR
        decreases ops.len(),
    {
        if ops.len() == 0 {
            Ok(self)
        } else {
            match self.walk(ops.drop_last()) {
                Err(e) => Err(e),
                Ok(v) => v.walked(ops.last().op, ops.last().text@),
            }
        }
    }
}

/// What a flat step function does at its end.
pub open spec fn step_exit(payload: Option<Seq<char>>) -> Seq<char> {
    match payload {
        Some(p) => ("return StepResult::Return(vec!["@ + p + "]);"@),
        None => "unreachable!();"@,
    }
}

impl GenV {
    /// The step function of a body whose transfers are all outside its regions,
    /// behind `out`.
    pub open spec fn split_step(
        self,
        index: usize,
        params: Seq<ValType>,
        ops: Seq<Instr>,
        prefix: Seq<char>,
        out: Seq<char>,
    ) -> Result<(Seq<char>, MetaV), FailV> {
        let v = WalkV { s: self.arm_taken(), arms: Seq::empty(), checkpoint: None, done: false };
        match v.walk(ops, params.len() > 0) {
            Err(e) => Err(e),
            Ok(w) => match w.s.put_step_header(Seq::empty(), index, params, prefix) {
                Err(e) => Err(e),
                Ok(head) => Ok(
                    (
                        out + (put_step_arms(head, w.arms, prefix) + prefix
                            + "        _ => unreachable!(),\n"@ + prefix + "    }\n"@ + prefix
                            + "}\n"@),
                        w.s.meta(Seq::empty()),
                    ),
                ),
            },
        }
    }

    /// Whether no branch in the step function's body goes to a region that the body
    /// leaves open.
    pub open spec fn closed_step(self, ops: Seq<Instr>) -> bool {
        let v = FlatWalkV {
            s: GenV { cur: Seq::empty(), in_continuation: true, ..self },
            payload: None,
            checkpoint: None,
        };
        match v.walk(ops) {
            Err(_) => true,
            Ok(w) => lowerable(w.s.cur, Set::empty(), false),
        }
    }

    /// The step function of a body whose transfers cross its regions, behind
    /// `out`.
    pub open spec fn flat_step(
        self,
        index: usize,
        params: Seq<ValType>,
        ops: Seq<Instr>,
        prefix: Seq<char>,
        out: Seq<char>,
    ) -> Result<(Seq<char>, MetaV), FailV> {
        let v = FlatWalkV {
            s: GenV { cur: Seq::empty(), in_continuation: true, ..self },
            payload: None,
            checkpoint: None,
        };
        match v.walk(ops) {
            Err(e) => Err(e),
            Ok(w) => {
                let f = flat_body(w.s.cur, step_exit(w.payload), false);
                let nodes = dispatch_nodes(
                    f.arms,
                    f.uses_continue,
                    "let mut pc: usize = __frame.pc as usize;"@,
                );
                match w.s.put_step_header(Seq::empty(), index, params, prefix) {
                    Err(e) => Err(e),
                    Ok(head) => Ok(
                        (
                            out + (put_nodes(head, nodes, 0, prefix) + prefix + "}\n"@),
                            w.s.meta(Seq::empty()),
                        ),
                    ),
                }
            },
        }
    }

    /// The step function of a continuation body, behind `out`.
    pub open spec fn cont_step(
        self,
        index: usize,
        params: Seq<ValType>,
        ops: Seq<Instr>,
        prefix: Seq<char>,
        out: Seq<char>,
    ) -> Result<(Seq<char>, MetaV), FailV> {
        if crosses_region(ops) {
            self.flat_step(index, params, ops, prefix, out)
        } else {
            self.split_step(index, params, ops, prefix, out)
        }
    }
}

// ---------------------------------------------------------------------------
// Emission
// ---------------------------------------------------------------------------
struct Walk<'a> {
    gen: FuncGen<'a>,
    /// Each element is one `pc` state's arm body: the state's statements followed
    /// by a terminal `StepResult` expression.
    arms: Lines,
    /// A pending tail cross-call checkpoint: a `call` to another step function
    /// whose result becomes (part of) this function's result. The arm it produces
    /// wraps its callee's `StepResult`, so it is only closed out at `end`.
    checkpoint: Option<u32>,
    done: bool,
}

impl<'a> Walk<'a> {
    spec fn model(&self) -> WalkV {
        WalkV {
            s: self.gen@,
            arms: self.arms@,
            checkpoint: self.checkpoint,
            done: self.done,
        }
    }

    spec fn ok(&self) -> bool {
        self.gen.wf() && !self.gen@.in_continuation
    }

    fn next_pc(&self) -> (r: usize)
        ensures
            r == self.model().next_pc(),
    {
        assert(self.arms@.len() == self.arms.v@.len());
        next_of(self.arms.v.len())
    }

    /// `suspend`: the statements computed since the last boundary run first; then
    /// the mutated locals are saved into the frame so the next resume reloads
    /// them, and the state advances before returning the suspension up. The values
    /// that the resuming side injects are the resumed state's initial operands.
    fn suspend(&mut self, tag: u32) -> (r: Result<(), TranspileError>)
        requires
            old(self).ok(),
        ensures
            walk_result(r, final(self).model(), old(self).model().suspended(tag)),
            r is Ok ==> final(self).gen.wf(),
    {
        if self.gen.depth() > 0 {
            return Err(
                no_support(
                    "suspend inside nested control flow in a continuation body (phase 5b-2b: a suspend crossing a region is not yet lowered)",
                ),
            );
        }
        if self.checkpoint.is_some() {
            return Err(
                no_support(
                    "suspend after a cross-call checkpoint (phase 5: a checkpoint must be in tail position)",
                ),
            );
        }
        let tys = self.gen.suspend_payload_tys(tag)?;
        let payload = self.gen.encode_stack_tail(tys)?;
        let stmts = self.gen.take_arm_statements();
        let save = self.gen.save_mutated_locals()?;
        let next: usize = self.next_pc();
        self.arms.add(
            Buf::lit(&stmts).s(&save).s("__frame.pc = ").n(next as u64)
                .s("u32; StepResult::Suspend { tag: ").n(tag as u64).s("u32, payload: vec![")
                .s(&payload).s("] }").end(),
        );
        self.gen.push_suspend_results(tag)
    }

    /// `switch`: every operand is frozen into a temp, so the target handle and the
    /// payload read stable names in the returned `Switch`. The target continuation
    /// handle is on top; the payload sits below it and is handed to that target.
    /// Control switches back here carrying the self-continuation's parameters.
    fn switch(&mut self, cont_type_index: u32, tag: u32) -> (r: Result<(), TranspileError>)
        requires
            old(self).ok(),
        ensures
            walk_result(r, final(self).model(), old(self).model().switched(cont_type_index, tag)),
            r is Ok ==> final(self).gen.wf(),
    {
        if self.gen.depth() > 0 {
            return Err(
                no_support(
                    "switch inside nested control flow in a continuation body (phase 8-2: a switch crossing a region is not yet lowered)",
                ),
            );
        }
        if self.checkpoint.is_some() {
            return Err(no_support("switch after a cross-call checkpoint (phase 8)"));
        }
        let (payload_tys, injected_tys) = self.gen.switch_transfer_types(cont_type_index)?;
        proof {
            lemma_survivors(self.gen@, 0);
        }
        self.gen.spill_nonstable()?;
        let target = self.gen.pop()?;
        let payload = self.gen.encode_stack_tail(&payload_tys)?;
        let stmts = self.gen.take_arm_statements();
        let save = self.gen.save_mutated_locals()?;
        let next: usize = self.next_pc();
        self.arms.add(
            Buf::lit(&stmts).s(&save).s("__frame.pc = ").n(next as u64)
                .s("u32; StepResult::Switch { tag: ").n(tag as u64).s("u32, target: ")
                .s(&target.code).s(", args: vec![").s(&payload).s("] }").end(),
        );
        self.gen.push_injected(injected_tys)
    }

    /// Begin a tail cross-call checkpoint: a `call` to another step function
    /// `callee`. Like a suspend point, this requires a clean boundary — an empty
    /// operand stack (the callee takes no arguments) and no pending statements —
    /// so that re-entering the arm on each callee-suspend re-runs nothing
    /// side-effecting before the resumed call. The callee's results are pushed as
    /// operands reading the `__cret` binding the arm introduces at `end`; only one
    /// such checkpoint is allowed per body.
    fn begin_checkpoint(&mut self, callee: u32) -> (r: Result<(), TranspileError>)
        requires
            old(self).ok(),
        ensures
            walk_result(r, final(self).model(), old(self).model().checkpointed(callee)),
            r is Ok ==> final(self).gen.wf(),
    {
        let tys = self.gen.check_checkpoint_boundary(callee, self.checkpoint, true)?;
        self.gen.push_read_results("__cret", tys)?;
        self.checkpoint = Some(callee);
        Ok(())
    }

    /// The outermost `end`: the remaining stack is the function's results.
    ///
    /// Control that diverges before it (e.g. an infinite `loop`) makes any
    /// trailing `StepResult::Return` unreachable and leaves the operand stack
    /// unreadable, so only the (already diverging) statements make the arm.
    ///
    /// A tail checkpoint resumes its callee once: on the callee's suspend, this
    /// frame's locals are saved and the suspension goes up unchanged (this frame's
    /// `pc` is untouched, so the next resume re-enters here and drives the callee
    /// on); on the callee's return, its results (already on the operand stack as
    /// `__cret` reads) become this function's results. A checkpoint at `pc == 0`
    /// re-runs the header's param prologue on every re-entry, so a switch-back's
    /// injection would clobber this body's own parameter slots: that combination
    /// is rejected.
    fn end(&mut self, has_params: bool) -> (r: Result<(), TranspileError>)
        requires
            old(self).ok(),
        ensures
            walk_result(r, final(self).model(), old(self).model().ended(has_params)),
            r is Ok ==> final(self).gen.wf(),
    {
        if !self.gen.is_reachable() {
            let stmts = self.gen.take_arm_statements();
            self.arms.add(stmts);
            self.done = true;
            return Ok(());
        }
        let results = copy_types(self.gen.result_types());
        let payload = self.gen.encode_stack_tail(&results)?;
        match self.checkpoint {
            None => {
                let stmts = self.gen.take_arm_statements();
                self.arms.add(Buf::lit(&stmts).s("StepResult::Return(vec![").s(&payload).s("])")
                    .end());
            },
            Some(g) => {
                if !self.gen.is_buffer_empty() {
                    return Err(no_support("statements after a cross-call checkpoint (phase 5b)"));
                }
                assert(self.arms@.len() == self.arms.v@.len());
                if self.arms.v.len() == 0 && has_params {
                    return Err(
                        no_support(
                            "cross-call checkpoint at the entry of a continuation body with parameters (phase 8: a switch-back would clobber them)",
                        ),
                    );
                }
                let save = self.gen.save_mutated_locals()?;
                let bind = if has_text(payload.as_str(), "__cret") {
                    "__cret"
                } else {
                    "_"
                };
                self.arms.add(
                    Buf::lit("match self.cont_step_func").n(g as u64)
                        .s("(&mut __frame.sub, __args) { StepResult::Suspend { tag: __t, payload: __p } => { ")
                        .s(&save)
                        .s("StepResult::Suspend { tag: __t, payload: __p } }, StepResult::Switch { tag: __t, target: __tgt, args: __a } => { ")
                        .s(&save)
                        .s("StepResult::Switch { tag: __t, target: __tgt, args: __a } }, StepResult::Return(")
                        .s(bind).s(") => StepResult::Return(vec![").s(&payload).s("]) }").end(),
                );
            },
        }
        self.done = true;
        Ok(())
    }

    /// One instruction of the body.
    fn step(&mut self, instr: &Instr, has_params: bool) -> (r: Result<(), TranspileError>)
        requires
            old(self).ok(),
        ensures
            walk_result(
                r,
                final(self).model(),
                old(self).model().walked(instr.op, instr.text@, has_params),
            ),
            r is Ok ==> final(self).gen.wf(),
    {
        proof {
            reveal(WalkV::walked);
        }
        if self.done {
            return Ok(());
        }
        match &instr.op {
            Operator::Suspend { tag_index } => self.suspend(*tag_index),
            Operator::Switch { cont_type_index, tag_index } => {
                self.switch(*cont_type_index, *tag_index)
            },
            Operator::Call { function_index } => if is_step(
                &self.gen.context().cont.step_set,
                *function_index,
            ) {
                self.begin_checkpoint(*function_index)
            } else {
                self.gen.emit_op(instr)
            },
            Operator::ReturnCall { function_index } => if is_step(
                &self.gen.context().cont.step_set,
                *function_index,
            ) {
                Err(no_support("return_call across a continuation (phase 5)"))
            } else {
                self.gen.emit_op(instr)
            },
            // A nested region's end (`block`/`loop`/`if`): the ordinary lowering
            // closes it into a region node, which is rendered into the current
            // arm as straight-line Rust control flow.
            Operator::End => if self.gen.depth() > 0 {
                self.gen.emit_op(instr)
            } else {
                self.end(has_params)
            },
            Operator::Try { .. }
            | Operator::TryTable
            | Operator::Return
            | Operator::Resume { .. }
            | Operator::Unreachable => Err(
                TranspileError::Unsupported(
                    Buf::lit("operator ").s(&instr.text).s(" in a continuation body (phase 5b-2b)")
                        .end(),
                ),
            ),
            _ => self.gen.emit_op(instr),
        }
    }
}

impl<'a> Walk<'a> {
    /// All instructions of the body.
    fn walk_all(&mut self, ops: &Vec<Instr>, has_params: bool) -> (r: Result<(), TranspileError>)
        requires
            old(self).ok(),
        ensures
            walk_result(r, final(self).model(), old(self).model().walk(ops@, has_params)),
            r is Ok ==> final(self).gen.wf(),
    {
        let ghost v0 = self.model();
        let mut i: usize = 0;
        while i < ops.len()
            invariant
                i <= ops@.len(),
                self.ok(),
                v0 == old(self).model(),
                !v0.s.in_continuation,
                v0.walk(ops@.take(i as int), has_params) == Ok::<WalkV, FailV>(self.model()),
            decreases ops@.len() - i,
        {
            assert(ops@.take(i + 1).drop_last() =~= ops@.take(i as int));
            match self.step(&ops[i], has_params) {
                Ok(()) => {},
                Err(e) => {
                    proof {
                        lemma_walk_fails(v0, ops@, has_params, i + 1);
                    }
                    return Err(e);
                },
            }
            proof {
                lemma_walk_keeps(v0, ops@.take(i + 1), has_params);
            }
            i += 1;
        }
        assert(ops@.take(ops@.len() as int) =~= ops@);
        Ok(())
    }
}

spec fn walk_result(r: Result<(), TranspileError>, post: WalkV, want: WalkR) -> bool {
    match want {
        Ok(v) => r is Ok && post == v,
        Err(e) => r is Err && r->Err_0@ == e,
    }
}

proof fn lemma_injected_keeps(s: GenV, tys: Seq<ValType>, n: nat)
    ensures
        shaped(s, s.injected(tys, n)),
    decreases n,
{
    if n > 0 {
        lemma_injected_keeps(s, tys, (n - 1) as nat);
    }
}

proof fn lemma_read_keeps(s: GenV, src: Seq<char>, tys: Seq<ValType>, n: nat)
    ensures
        shaped(s, s.results_read(src, tys, n)),
    decreases n,
{
    if n > 0 {
        lemma_read_keeps(s, src, tys, (n - 1) as nat);
    }
}

/// A body stays the body of the same function all along.
proof fn lemma_walked_keeps(v: WalkV, op: Operator, text: Seq<char>, has_params: bool)
    ensures
        v.walked(op, text, has_params) matches Ok(w) ==> same_function(v.s, w.s),
{
    reveal(WalkV::walked);
    law_nesting(v.s, op, text);
    match op {
        Operator::Suspend { tag_index } => {
            if let Ok(tys) = v.s.suspend_types(tag_index) {
                let s1 = v.s.drop(tys.len() as int).arm_taken();
                if tag_index < s1.ctx.tag_results.len() {
                    let injected = s1.ctx.tag_results[tag_index as int];
                    lemma_injected_keeps(s1, injected, injected.len());
                }
            }
        },
        Operator::Switch { cont_type_index, tag_index } => {
            lemma_survivors(v.s, 0);
            if let Ok((payload_tys, injected_tys)) = v.s.ctx.switch_types(cont_type_index) {
                if let Ok(s1) = v.s.spilled() {
                    lemma_injected_keeps(
                        s1.drop(1).drop(payload_tys.len() as int).arm_taken(),
                        injected_tys,
                        injected_tys.len(),
                    );
                }
            }
        },
        Operator::Call { function_index } => {
            if let Ok(tys) = v.s.checkpoint_results(function_index, v.checkpoint, true) {
                lemma_read_keeps(v.s, "__cret"@, tys, tys.len());
            }
        },
        _ => {},
    }
}

proof fn lemma_walk_keeps(v: WalkV, ops: Seq<Instr>, has_params: bool)
    ensures
        v.walk(ops, has_params) matches Ok(w) ==> same_function(v.s, w.s),
    decreases ops.len(),
{
    if ops.len() > 0 {
        lemma_walk_keeps(v, ops.drop_last(), has_params);
        if let Ok(w) = v.walk(ops.drop_last(), has_params) {
            lemma_walked_keeps(w, ops.last().op, ops.last().text@, has_params);
        }
    }
}

proof fn lemma_walk_fails(v: WalkV, ops: Seq<Instr>, has_params: bool, k: int)
    requires
        0 <= k <= ops.len(),
        v.walk(ops.take(k), has_params) is Err,
    ensures
        v.walk(ops, has_params) == v.walk(ops.take(k), has_params),
    decreases ops.len() - k,
{
    if k < ops.len() {
        assert(ops.take(k + 1).drop_last() =~= ops.take(k));
        lemma_walk_fails(v, ops, has_params, k + 1);
    } else {
        assert(ops.take(k) =~= ops);
    }
}

/// Writes the `match` on the state.
fn write_step_arms(out: String, arms: &Vec<String>, line_prefix: &str) -> (r: String)
    ensures
        r@ == put_step_arms(out@, texts(arms@), line_prefix@),
{
    let ghost all = texts(arms@);
    let ghost start = out@;
    let mut out = Buf::lit(&out).s(line_prefix).s("    match __frame.pc {\n").end();
    let mut i: usize = 0;
    while i < arms.len()
        invariant
            i <= arms@.len(),
            all == texts(arms@),
            out@ == put_step_arms(start, all.take(i as int), line_prefix@),
        decreases arms@.len() - i,
    {
        assert(all.take(i + 1).drop_last() =~= all.take(i as int));
        out = Buf::lit(&out).s(line_prefix).s("        ").n(i as u64).s("u32 => { ").s(&arms[i])
            .s(" }\n").end();
        i += 1;
    }
    assert(all.take(all.len() as int) =~= all);
    out
}

impl<'a> FuncGen<'a> {
    /// The step function of a body whose transfers are all outside its regions.
    fn emit_cont_step_split(
        self,
        index: usize,
        params: &Vec<ValType>,
        ops: &Vec<Instr>,
        line_prefix: &str,
        out: &mut String,
    ) -> (r: Result<GenMeta, TranspileError>)
        requires
            self.wf(),
            !self@.in_continuation,
        ensures
            meta_result(
                r,
                old(out)@,
                final(out)@,
                self@.split_step(index, params@, ops@, line_prefix@, old(out)@),
            ),
    {
        let has_params = params.len() > 0;
        // Locals now live in the frame (loaded at entry, saved at every suspend),
        // so discard the default-init `let` bindings of the function's head; the
        // entry prologue reloads them from `__frame` instead.
        let mut this = self;
        let heads = this.take_nodes();
        let mut walk = Walk { gen: this, arms: Lines::new(), checkpoint: None, done: false };
        walk.walk_all(ops, has_params)?;
        proof {
            reveal_strlit("");
            assert(""@ =~= Seq::<char>::empty());
        }
        let head = walk.gen.write_cont_step_header(index, params, line_prefix, "")?;
        let body = write_step_arms(head, &walk.arms.v, line_prefix);
        let src = Buf::lit(&body).s(line_prefix).s("        _ => unreachable!(),\n").s(line_prefix)
            .s("    }\n").s(line_prefix).s("}\n").end();
        out.append(src.as_str());
        let structs: Vec<String> = Vec::new();
        assert(texts(structs@) =~= Seq::<Seq<char>>::empty());
        Ok(walk.gen.into_meta(structs))
    }
}

struct FlatWalk<'a> {
    gen: FuncGen<'a>,
    /// Fall-off-the-end results, captured when the outermost `end` is reached and
    /// the program point is still reachable (a diverging body never falls through,
    /// so its exit stays unreachable).
    payload: Option<String>,
    /// A cross-call checkpoint: at most one per body, so the single nested `sub`
    /// frame is enough.
    checkpoint: Option<u32>,
}

spec fn flat_walk_result(r: Result<(), TranspileError>, post: FlatWalkV, want: FlatWalkR) -> bool {
    match want {
        Ok(v) => r is Ok && post == v,
        Err(e) => r is Err && r->Err_0@ == e,
    }
}

impl<'a> FuncGen<'a> {
    /// Record a `suspend` as a [`Node::Suspend`] in the current scope: pop and
    /// encode its payload, snapshot the mutated locals, and push the values the
    /// resumer will inject (`__args`) as the resumed state's initial operands.
    ///
    /// Operands still on the stack below the payload (e.g. a region's entry
    /// parameters) outlive the suspend. A suspend returns from the step function,
    /// so anything kept only in a local `let` would be lost on the next resume;
    /// these survivors are saved into the frame's `ostack` and each is rewritten
    /// to read back from there, so the resumed state (a later invocation) sees the
    /// value that was live at the suspend.
    fn emit_suspend_node(&mut self, tag: u32) -> (r: Result<(), TranspileError>)
        requires
            old(self).wf(),
            old(self)@.in_continuation,
        ensures
            gen_result(r, final(self)@, old(self)@.suspend_noted(tag)),
            r is Ok ==> final(self).wf(),
    {
        let tys = self.suspend_payload_tys(tag)?;
        let payload = self.pop_encode_tail(tys)?;
        let save_stack = self.save_surviving_operands()?;
        let save_locals = self.save_mutated_locals()?;
        let save = Buf::lit(&save_stack).s(&save_locals).end();
        self.node(Node::Suspend { tag, payload, save });
        self.push_suspend_results(tag)
    }

    /// Record a `switch` as a [`Node::Switch`] in the current scope: pop the target
    /// continuation handle and encode the payload `t1*`, snapshot the operands
    /// surviving below (as [`Self::emit_suspend_node`] does), save the mutated
    /// locals, and push the self-continuation parameters `t2*` — delivered as the
    /// next step's `__args` when control switches back — as the resumed state's
    /// initial operands.
    fn emit_switch_node(&mut self, cont_type_index: u32, tag: u32) -> (r: Result<
        (),
        TranspileError,
    >)
        requires
            old(self).wf(),
            old(self)@.in_continuation,
        ensures
            gen_result(r, final(self)@, old(self)@.switch_noted(cont_type_index, tag)),
            r is Ok ==> final(self).wf(),
    {
        let (payload_tys, injected_tys) = self.switch_transfer_types(cont_type_index)?;
        let target = self.pop()?;
        let payload = self.pop_encode_tail(&payload_tys)?;
        let save_stack = self.save_surviving_operands()?;
        let save_locals = self.save_mutated_locals()?;
        let save = Buf::lit(&save_stack).s(&save_locals).end();
        self.node(Node::Switch { tag, target: target.code, payload, save });
        self.push_injected(injected_tys)
    }

    /// Record a cross-call checkpoint as a [`Node::Checkpoint`] in the body tree.
    /// It requires a clean boundary — the checkpoint sits at region depth 0, the
    /// callee takes no parameters, and the operand stack is empty (the checkpoint
    /// state clobbers `__frame.ostack` with the callee's return, so no survivor
    /// may sit there). The callee's results are pushed as operands reading back
    /// from `__frame.ostack`, where the checkpoint state stores the callee's
    /// return.
    fn emit_checkpoint_node(&mut self, callee: u32, checkpoint: Option<u32>) -> (r: Result<
        (),
        TranspileError,
    >)
        requires
            old(self).wf(),
            old(self)@.in_continuation,
        ensures
            gen_result(r, final(self)@, old(self)@.checkpoint_noted(callee, checkpoint)),
            r is Ok ==> final(self).wf(),
    {
        let tys = self.check_checkpoint_boundary(callee, checkpoint, false)?;
        let save = self.save_mutated_locals()?;
        self.node(Node::Checkpoint { callee, save });
        self.push_read_results("__frame.ostack", tys)
    }
}

impl<'a> FlatWalk<'a> {
    spec fn model(&self) -> FlatWalkV {
        FlatWalkV {
            s: self.gen@,
            payload: opt_text(self.payload),
            checkpoint: self.checkpoint,
        }
    }

    spec fn ok(&self) -> bool {
        self.gen.wf() && self.gen@.in_continuation
    }

    /// One instruction of the body.
    fn step(&mut self, instr: &Instr) -> (r: Result<(), TranspileError>)
        requires
            old(self).ok(),
        ensures
            flat_walk_result(
                r,
                final(self).model(),
                old(self).model().walked(instr.op, instr.text@),
            ),
            r is Ok ==> final(self).gen.wf(),
    {
        proof {
            reveal(FlatWalkV::walked);
        }
        match &instr.op {
            Operator::Suspend { tag_index } => self.gen.emit_suspend_node(*tag_index),
            Operator::Switch { cont_type_index, tag_index } => {
                self.gen.emit_switch_node(*cont_type_index, *tag_index)
            },
            Operator::Call { function_index } => if is_step(
                &self.gen.context().cont.step_set,
                *function_index,
            ) {
                self.gen.emit_checkpoint_node(*function_index, self.checkpoint)?;
                self.checkpoint = Some(*function_index);
                Ok(())
            } else {
                self.gen.emit_op(instr)
            },
            Operator::ReturnCall { function_index } => if is_step(
                &self.gen.context().cont.step_set,
                *function_index,
            ) {
                Err(no_support("return_call across a continuation (phase 5)"))
            } else {
                self.gen.emit_op(instr)
            },
            // A nested region's `end` closes it into a region node via the ordinary
            // lowering. At the outermost `end` the remaining operands are the
            // function's results: they are captured as the fall-through return; the
            // body tree stays for the flattener.
            Operator::End => if self.gen.depth() > 0 {
                self.gen.emit_op(instr)
            } else {
                if self.gen.is_reachable() {
                    let results = copy_types(self.gen.result_types());
                    let payload = self.gen.encode_stack_tail(&results)?;
                    self.payload = Some(payload);
                }
                Ok(())
            },
            Operator::Try { .. }
            | Operator::TryTable
            | Operator::Return
            | Operator::Resume { .. } => Err(
                TranspileError::Unsupported(
                    Buf::lit("operator ").s(&instr.text).s(" in a continuation body (phase 5b-2b)")
                        .end(),
                ),
            ),
            _ => self.gen.emit_op(instr),
        }
    }

    /// All instructions of the body.
    fn walk_all(&mut self, ops: &Vec<Instr>) -> (r: Result<(), TranspileError>)
        requires
            old(self).ok(),
        ensures
            flat_walk_result(r, final(self).model(), old(self).model().walk(ops@)),
            r is Ok ==> final(self).ok(),
    {
        let ghost v0 = self.model();
        let mut i: usize = 0;
        while i < ops.len()
            invariant
                i <= ops@.len(),
                self.ok(),
                v0 == old(self).model(),
                v0.s.in_continuation,
                v0.walk(ops@.take(i as int)) == Ok::<FlatWalkV, FailV>(self.model()),
            decreases ops@.len() - i,
        {
            assert(ops@.take(i + 1).drop_last() =~= ops@.take(i as int));
            let ghost before = self.model();
            match self.step(&ops[i]) {
                Ok(()) => {},
                Err(e) => {
                    proof {
                        lemma_flat_walk_fails(v0, ops@, i + 1);
                    }
                    return Err(e);
                },
            }
            proof {
                lemma_flat_walked_keeps(before, ops@[i as int].op, ops@[i as int].text@);
            }
            i += 1;
        }
        assert(ops@.take(ops@.len() as int) =~= ops@);
        Ok(())
    }
}

proof fn lemma_flat_walk_fails(v: FlatWalkV, ops: Seq<Instr>, k: int)
    requires
        0 <= k <= ops.len(),
        v.walk(ops.take(k)) is Err,
    ensures
        v.walk(ops) == v.walk(ops.take(k)),
    decreases ops.len() - k,
{
    if k < ops.len() {
        assert(ops.take(k + 1).drop_last() =~= ops.take(k));
        lemma_flat_walk_fails(v, ops, k + 1);
    } else {
        assert(ops.take(k) =~= ops);
    }
}

proof fn lemma_suspend_noted_keeps(s: GenV, tag: u32)
    ensures
        shaped(s, s.suspend_noted(tag)),
{
    if let Ok(tys) = s.suspend_types(tag) {
        if let Ok(payload) = s.tail_encoded(tys) {
            if let Ok((s1, stack_save)) = s.drop(tys.len() as int).survivors_saved() {
                if let Ok(save) = s1.all_saved() {
                    if tag < s1.ctx.tag_results.len() {
                        let injected = s1.ctx.tag_results[tag as int];
                        lemma_injected_keeps(
                            s1.node(
                                NodeV::Suspend { tag, payload, save: (stack_save + save) },
                            ),
                            injected,
                            injected.len(),
                        );
                    }
                }
            }
        }
    }
}

proof fn lemma_switch_noted_keeps(s: GenV, cont_type_index: u32, tag: u32)
    ensures
        shaped(s, s.switch_noted(cont_type_index, tag)),
{
    if let Ok((payload_tys, injected_tys)) = s.ctx.switch_types(cont_type_index) {
        if s.has(1) {
            if let Ok(payload) = s.drop(1).tail_encoded(payload_tys) {
                if let Ok((s1, stack_save)) = s.drop(1).drop(
                    payload_tys.len() as int,
                ).survivors_saved() {
                    if let Ok(save) = s1.all_saved() {
                        lemma_injected_keeps(
                            s1.node(
                                NodeV::Switch {
                                    tag,
                                    target: s.top().code,
                                    payload,
                                    save: (stack_save + save),
                                },
                            ),
                            injected_tys,
                            injected_tys.len(),
                        );
                    }
                }
            }
        }
    }
}

proof fn lemma_checkpoint_noted_keeps(s: GenV, callee: u32, checkpoint: Option<u32>)
    ensures
        shaped(s, s.checkpoint_noted(callee, checkpoint)),
{
    if let Ok(tys) = s.checkpoint_results(callee, checkpoint, false) {
        if let Ok(save) = s.all_saved() {
            lemma_read_keeps(
                s.node(NodeV::Checkpoint { callee, save }),
                "__frame.ostack"@,
                tys,
                tys.len(),
            );
        }
    }
}

/// Whether the regions open in the generated code are those open in the source,
/// `d` in number; behind diverging code outside every region nothing is tracked,
/// and nothing opens any more.
spec fn follows(s: GenV, d: nat) -> bool {
    (s.frames.len() == 0 && !s.reachable) || s.nesting() == d
}

proof fn lemma_flat_walked_keeps(v: FlatWalkV, op: Operator, text: Seq<char>)
    ensures
        v.walked(op, text) matches Ok(w) ==> {
            &&& same_function(v.s, w.s)
            &&& forall|d: nat| #[trigger]
                follows(v.s, d) && d < usize::MAX ==> follows(w.s, nested(d, op))
        },
{
    reveal(FlatWalkV::walked);
    law_nesting(v.s, op, text);
    match op {
        Operator::Suspend { tag_index } => lemma_suspend_noted_keeps(v.s, tag_index),
        Operator::Switch { cont_type_index, tag_index } => {
            lemma_switch_noted_keeps(v.s, cont_type_index, tag_index)
        },
        Operator::Call { function_index } => {
            lemma_checkpoint_noted_keeps(v.s, function_index, v.checkpoint)
        },
        _ => {},
    }
}

/// Behind a whole body whose regions all end, no region is open.
proof fn lemma_flat_walk_closes(v: FlatWalkV, ops: Seq<Instr>)
    requires
        v.s.frames.len() == 0,
        v.s.reachable,
        ops.len() <= usize::MAX,
    ensures
        v.walk(ops) matches Ok(w) ==> same_function(v.s, w.s) && follows(w.s, depth_after(ops)),
        depth_after(ops) <= ops.len(),
    decreases ops.len(),
{
    if ops.len() > 0 {
        lemma_flat_walk_closes(v, ops.drop_last());
        if let Ok(w) = v.walk(ops.drop_last()) {
            lemma_flat_walked_keeps(w, ops.last().op, ops.last().text@);
            assert(follows(w.s, depth_after(ops.drop_last())));
        }
    }
}

impl<'a> FuncGen<'a> {
    /// Emit this function as a resumable step function via the flat continuation
    /// dispatch. The whole body is first walked into a [`Node`] tree (with each
    /// `suspend` recorded as a [`Node::Suspend`]), then lowered to a `pc` state
    /// machine that can be re-entered at a suspend inside a region.
    fn emit_cont_step_flat(
        self,
        index: usize,
        params: &Vec<ValType>,
        ops: &Vec<Instr>,
        line_prefix: &str,
        out: &mut String,
    ) -> (r: Result<GenMeta, TranspileError>)
        requires
            self@.frames.len() == 0,
            self@.reachable,
            depth_after(ops@) == 0 || self@.closed_step(ops@),
        ensures
            meta_result(
                r,
                old(out)@,
                final(out)@,
                self@.flat_step(index, params@, ops@, line_prefix@, old(out)@),
            ),
    {
        // Locals live in the frame; drop the default-init bindings and reload from
        // `__frame` in the entry prologue instead.
        let mut this = self;
        this.enter_continuation();
        let mut walk = FlatWalk { gen: this, payload: None, checkpoint: None };
        let ghost v0 = walk.model();
        walk.walk_all(ops)?;
        let n_ops: usize = ops.len();
        proof {
            lemma_flat_walk_closes(v0, ops@);
        }
        let exit_stmt = match &walk.payload {
            Some(p) => Buf::lit("return StepResult::Return(vec![").s(p).s("]);").end(),
            // A diverging body never falls off its end, so its exit is unreachable.
            None => lit("unreachable!();"),
        };
        let ghost w = walk.model();
        let mut gen = walk.gen;
        let nodes = gen.take_nodes();
        let ghost f = flat_body(w.s.cur, exit_stmt@, false);
        let flat = flatten_cont_body(&nodes, exit_stmt);
        proof {
            lemma_plain_dispatch(
                f.arms,
                f.uses_continue,
                "let mut pc: usize = __frame.pc as usize;"@,
            );
            reveal_strlit("");
            assert(""@ =~= Seq::<char>::empty());
            lemma_header_of_buffer(w.s, gen@, index, params@, line_prefix@);
        }
        let mut src = gen.write_cont_step_header(index, params, line_prefix, "")?;
        render_body_into(&flat, line_prefix, &mut src);
        src.append(line_prefix);
        src.append("}\n");
        out.append(src.as_str());
        let structs: Vec<String> = Vec::new();
        assert(texts(structs@) =~= Seq::<Seq<char>>::empty());
        Ok(gen.into_meta(structs))
    }

    /// Emit this function as a resumable continuation step function (see the
    /// module docs).
    ///
    /// A body whose `suspend` or `switch` crosses a nested region cannot render
    /// each region as one straight-line arm; it needs the `pc` state machine
    /// woven through the nesting, which the flat path does by lowering the whole
    /// body through the continuation flattener.
    pub fn emit_cont_step(
        self,
        index: usize,
        params: &Vec<ValType>,
        ops: &Vec<Instr>,
        line_prefix: &str,
        out: &mut String,
    ) -> (r: Result<GenMeta, TranspileError>)
        requires
            self.wf(),
            self@.frames.len() == 0,
            self@.reachable,
            !self@.in_continuation,
            depth_after(ops@) == 0 || !crosses_region(ops@) || self@.closed_step(ops@),
        ensures
            meta_result(
                r,
                old(out)@,
                final(out)@,
                self@.cont_step(index, params@, ops@, line_prefix@, old(out)@),
            ),
    {
        if transfer_crosses_region(ops) {
            self.emit_cont_step_flat(index, params, ops, line_prefix, out)
        } else {
            self.emit_cont_step_split(index, params, ops, line_prefix, out)
        }
    }
}

proof fn lemma_put_params_same(
    s: GenV,
    t: GenV,
    out: Seq<char>,
    params: Seq<ValType>,
    prefix: Seq<char>,
    n: nat,
)
    requires
        same_function(s, t),
    ensures
        s.put_params(out, params, prefix, n) == t.put_params(out, params, prefix, n),
    decreases n,
{
    if n > 0 {
        lemma_put_params_same(s, t, out, params, prefix, (n - 1) as nat);
    }
}

proof fn lemma_put_reloads_same(s: GenV, t: GenV, out: Seq<char>, prefix: Seq<char>, n: nat)
    requires
        same_function(s, t),
    ensures
        s.put_reloads(out, prefix, n) == t.put_reloads(out, prefix, n),
    decreases n,
{
    if n > 0 {
        lemma_put_reloads_same(s, t, out, prefix, (n - 1) as nat);
    }
}

/// The head of a step function depends on the function alone.
proof fn lemma_header_of_buffer(
    s: GenV,
    t: GenV,
    index: usize,
    params: Seq<ValType>,
    prefix: Seq<char>,
)
    requires
        same_function(s, t),
    ensures
        s.put_step_header(Seq::empty(), index, params, prefix) == t.put_step_header(
            Seq::empty(),
            index,
            params,
            prefix,
        ),
{
    let o1 = (Seq::<char>::empty() + prefix + ALLOW@ + "\n"@ + prefix + "pub fn cont_step_func"@
        + dec(index as nat) + "(&mut self, __frame: &mut ContFrame"@ + dec(index as nat)
        + ", __args: &[i64]) -> StepResult {\n"@);
    lemma_put_params_same(
        s,
        t,
        (o1 + prefix + "    if __frame.pc == 0u32 {\n"@),
        params,
        prefix,
        params.len(),
    );
    let o2 = if params.len() == 0 {
        Ok(o1)
    } else {
        match s.put_params(
            (o1 + prefix + "    if __frame.pc == 0u32 {\n"@),
            params,
            prefix,
            params.len(),
        ) {
            Err(e) => Err(e),
            Ok(o) => Ok((o + prefix + "    }\n"@)),
        }
    };
    if let Ok(o) = o2 {
        lemma_put_reloads_same(s, t, o, prefix, s.local_types.len());
    }
}

} // verus!
