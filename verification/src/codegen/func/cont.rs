//! The pieces of a resumable step function.
//!
//! A function reachable as a continuation body (the target of a `ref.func` fed
//! into `cont.new`) is not emitted as an ordinary `func{N}`. Instead it becomes
//! `cont_step_func{N}(&mut self, __frame: &mut ContFrame{N}, __args: &[i64]) ->
//! StepResult`: a little state machine keyed on `__frame.pc`. Each `suspend`
//! splits the body into another `pc` state — the arm saves the next `pc` into the
//! frame and returns `StepResult::Suspend`; falling off the end returns
//! `StepResult::Return`. Both the suspend payload and the returned results are
//! carried as `Vec<i64>`, decoded back to their wasm types by the resumer.

use vstd::prelude::*;

use crate::codegen::common::{index_u32, ALLOW};
use crate::codegen::context::CtxV;
use crate::codegen::flatten::lemma_lowerable_plain;
use crate::codegen::func::control::copy_types;
use crate::codegen::func::resume::{
    decode_from_i64, decoded64, encode_all, encoded64, encoded_upto, law_step_values_round,
};
use crate::codegen::func::state::{code_list, codes, gen_result, labels_of, FuncGen, GenR, GenV};
use crate::codegen::ir::{nodes_view, put_nodes, render_nodes_into, ValV};
use crate::error::{no_support, text_result, unsupported, FailV, TranspileError};
use crate::text::{dec, join, joined, lit, same, texts, Buf};
use crate::wasm::{HeapType, TypeIndex, ValType};

verus! {

/// The index of the type that a concrete reference points at.
pub open spec fn ref_target(ty: ValType) -> Result<u32, FailV> {
    match ty {
        ValType::Ref(rt) => match rt.heap {
            HeapType::Concrete(TypeIndex::Module(i)) => Ok(i),
            _ => Err(unsupported("switch requires a concrete continuation reference"@)),
        },
        _ => Err(unsupported("switch requires a concrete continuation reference"@)),
    }
}

/// The module type index a concrete reference `(ref $t)` points at (e.g. the
/// self-continuation type in a `switch` target's trailing parameter). Rejects
/// abstract or out-of-module references, which cannot name a continuation type.
fn concrete_ref_index(ty: ValType) -> (r: Result<u32, TranspileError>)
    ensures
        crate::error::same_result(r, ref_target(ty)),
{
    match ty {
        ValType::Ref(rt) => match rt.heap {
            HeapType::Concrete(TypeIndex::Module(i)) => Ok(i),
            _ => Err(no_support("switch requires a concrete continuation reference")),
        },
        _ => Err(no_support("switch requires a concrete continuation reference")),
    }
}

/// The types of operands.
pub open spec fn val_types(vs: Seq<ValV>) -> Seq<ValType> {
    Seq::new(vs.len(), |i: int| vs[i].ty)
}

/// A slot of the frame's operand stack.
pub open spec fn ostack_slot(i: nat) -> Seq<char> {
    ("__frame.ostack["@ + dec(i as nat) + "]"@)
}

impl CtxV {
    /// What a `switch` through this continuation type hands to its target, and
    /// what it receives back.
    pub open spec fn switch_types(self, cont_type_index: u32) -> Result<
        (Seq<ValType>, Seq<ValType>),
        FailV,
    > {
        match self.cont_sig(cont_type_index) {
            Err(e) => Err(e),
            Ok(sig) => if sig.params.len() == 0 {
                Err(unsupported("switch target continuation has no self-reference parameter"@))
            } else {
                match ref_target(sig.params.last()) {
                    Err(e) => Err(e),
                    Ok(self_cont) => match self.cont_sig(self_cont) {
                        Err(e) => Err(e),
                        Ok(own) => Ok((sig.params.drop_last(), own.params)),
                    },
                }
            },
        }
    }
}

impl GenV {
    /// The statements collected so far, as the text of an arm.
    pub open spec fn arm_text(self) -> Seq<char> {
        put_nodes(Seq::empty(), self.cur, 0, ""@)
    }

    /// The state without the statements collected so far.
    pub open spec fn arm_taken(self) -> GenV {
        GenV { cur: Seq::empty(), ..self }
    }

    /// The write-back of those of the first `n` locals that are written somewhere.
    pub open spec fn locals_saved(self, n: nat) -> Result<Seq<char>, FailV>
        decreases n,
    {
        if n == 0 {
            Ok(Seq::empty())
        } else {
            match self.locals_saved((n - 1) as nat) {
                Err(e) => Err(e),
                Ok(front) => if n - 1 > u32::MAX {
                    Err(unsupported("index too large"@))
                } else if self.mutable_locals.contains((n - 1) as u32) {
                    Ok((front + "__frame.l"@ + dec((n - 1) as nat) + " = l"@ + dec((n - 1) as nat)
                        + "; "@))
                } else {
                    Ok(front)
                },
            }
        }
    }

    /// The write-back of all locals that are written somewhere.
    pub open spec fn all_saved(self) -> Result<Seq<char>, FailV> {
        self.locals_saved(self.local_types.len())
    }

    /// The topmost operands encoded, the lowest first.
    pub open spec fn tail_encoded(self, tys: Seq<ValType>) -> Result<Seq<char>, FailV> {
        if !self.has(tys.len() as int) {
            Err(FailV::StackUnderflow)
        } else {
            match encoded_upto(codes(self.tail(tys.len() as int)), tys, tys.len()) {
                Err(e) => Err(e),
                Ok(all) => Ok(joined(all, ", "@)),
            }
        }
    }

    /// All operands encoded; none may be left behind.
    pub open spec fn stack_encoded(self, tys: Seq<ValType>) -> Result<Seq<char>, FailV> {
        if self.stack.len() != tys.len() {
            Err(
                unsupported(
                    "non-empty operand stack at a continuation suspend/return (phase 5b)"@,
                ),
            )
        } else {
            self.tail_encoded(tys)
        }
    }

    /// The types that a `suspend` with this tag consumes.
    pub open spec fn suspend_types(self, tag_index: u32) -> Result<Seq<ValType>, FailV> {
        if tag_index < self.ctx.tag_params.len() {
            Ok(self.ctx.tag_params[tag_index as int])
        } else {
            Err(unsupported("suspend: unknown tag index"@))
        }
    }

    /// A value out of an `i64` slot: like a step's own values, but a handle rides
    /// as a `u32`.
    pub open spec fn unerased(self, expr: Seq<char>, ty: ValType) -> Result<Seq<char>, FailV> {
        if ty is Ref {
            match self.rust_type(ty) {
                Err(e) => Err(e),
                Ok(rty) => if rty == "u32"@ {
                    Ok(("(("@ + expr + ") as u32)"@))
                } else {
                    decoded64(expr, ty)
                },
            }
        } else {
            decoded64(expr, ty)
        }
    }

    /// The first `n` values that the next step is given pushed as operands.
    pub open spec fn injected(self, tys: Seq<ValType>, n: nat) -> GenR
        decreases n,
    {
        if n == 0 {
            Ok(self)
        } else {
            match self.injected(tys, (n - 1) as nat) {
                Err(e) => Err(e),
                Ok(s) => match s.unerased(("__args["@ + dec((n - 1) as nat) + "]"@), tys[n - 1]) {
                    Err(e) => Err(e),
                    Ok(code) => Ok(s.push(code, tys[n - 1], true)),
                },
            }
        }
    }

    /// The values that the resumer injects at a `suspend` with this tag pushed.
    pub open spec fn suspend_resumed(self, tag_index: u32) -> GenR {
        if tag_index < self.ctx.tag_results.len() {
            let tys = self.ctx.tag_results[tag_index as int];
            self.injected(tys, tys.len())
        } else {
            Err(unsupported("suspend: unknown tag index"@))
        }
    }

    /// The first `n` values of the array `src` pushed as operands.
    pub open spec fn results_read(self, src: Seq<char>, tys: Seq<ValType>, n: nat) -> GenR
        decreases n,
    {
        if n == 0 {
            Ok(self)
        } else {
            match self.results_read(src, tys, (n - 1) as nat) {
                Err(e) => Err(e),
                Ok(s) => match decoded64((src + "["@ + dec((n - 1) as nat) + "]"@), tys[n - 1]) {
                    Err(e) => Err(e),
                    Ok(code) => Ok(s.push(code, tys[n - 1], true)),
                },
            }
        }
    }

    /// The operands that outlive a suspension moved into the frame: the state
    /// whose operands read them back, and the statement that saves them.
    pub open spec fn survivors_saved(self) -> Result<(GenV, Seq<char>), FailV> {
        if self.stack.len() == 0 {
            Ok((self, Seq::empty()))
        } else {
            match encoded_upto(codes(self.stack), val_types(self.stack), self.stack.len()) {
                Err(e) => Err(e),
                Ok(all) => Ok(
                    (
                        GenV {
                            stack: Seq::new(
                                self.stack.len(),
                                |i: int|
                                    ValV {
                                        code: decoded64(
                                            ostack_slot(i as nat),
                                            self.stack[i].ty,
                                        )->Ok_0,
                                        ty: self.stack[i].ty,
                                        stable: true,
                                    },
                            ),
                            ..self
                        },
                        ("__frame.ostack = vec!["@ + joined(all, ", "@) + "]; "@),
                    ),
                ),
            }
        }
    }

    /// The results of the callee of a checkpoint, where one can stand here: at
    /// most one per body, outside every region, to a callee without parameters,
    /// with nothing on the operand stack (and, where `clean`, no statements
    /// pending).
    pub open spec fn checkpoint_results(
        self,
        callee: u32,
        checkpoint: Option<u32>,
        clean: bool,
    ) -> Result<Seq<ValType>, FailV> {
        if checkpoint is Some {
            Err(
                unsupported(
                    "more than one cross-call checkpoint in a continuation body (phase 5)"@,
                ),
            )
        } else if self.frames.len() > 0 {
            Err(
                unsupported(
                    "cross-call checkpoint inside nested control flow in a continuation body (phase 5b-2b)"@,
                ),
            )
        } else {
            match self.ctx.sig(callee as int) {
                None => Err(unsupported("checkpoint call to unknown function"@)),
                Some(sig) => if sig.params.len() > 0 {
                    Err(
                        unsupported(
                            "cross-call checkpoint to a continuation with parameters (phase 5)"@,
                        ),
                    )
                } else if self.stack.len() > 0 || (clean && self.cur.len() > 0) {
                    Err(
                        unsupported(
                            "non-empty operand stack before a cross-call checkpoint (phase 5)"@,
                        ),
                    )
                } else {
                    Ok(sig.results)
                },
            }
        }
    }

    /// The decoding of the first `n` parameters at the first step, behind `out`.
    pub open spec fn put_params(
        self,
        out: Seq<char>,
        params: Seq<ValType>,
        prefix: Seq<char>,
        n: nat,
    ) -> Result<Seq<char>, FailV>
        decreases n,
    {
        if n == 0 {
            Ok(out)
        } else {
            match self.put_params(out, params, prefix, (n - 1) as nat) {
                Err(e) => Err(e),
                Ok(front) => match self.unerased(("__args["@ + dec((n - 1) as nat)
                    + "]"@), params[n - 1]) {
                    Err(e) => Err(e),
                    Ok(value) => Ok(
                        (front + prefix + "        __frame.l"@ + dec((n - 1) as nat) + " = "@
                            + value + ";\n"@),
                    ),
                },
            }
        }
    }

    /// The reload of the first `n` locals, behind `out`.
    pub open spec fn put_reloads(self, out: Seq<char>, prefix: Seq<char>, n: nat) -> Result<
        Seq<char>,
        FailV,
    >
        decreases n,
    {
        if n == 0 {
            Ok(out)
        } else {
            match self.put_reloads(out, prefix, (n - 1) as nat) {
                Err(e) => Err(e),
                Ok(front) => if n - 1 > u32::MAX {
                    Err(unsupported("index too large"@))
                } else {
                    let m = if self.mutable_locals.contains((n - 1) as u32) {
                        "let mut"@
                    } else {
                        "let"@
                    };
                    Ok((front + prefix + "    "@ + m + " l"@ + dec((n - 1) as nat)
                        + " = __frame.l"@ + dec((n - 1) as nat) + ";\n"@))
                },
            }
        }
    }

    /// The head of a step function behind `out`: its signature, the decoding of
    /// its parameters at the first step, and the reload of its locals.
    pub open spec fn put_step_header(
        self,
        out: Seq<char>,
        index: usize,
        params: Seq<ValType>,
        prefix: Seq<char>,
    ) -> Result<Seq<char>, FailV> {
        let o1 = (out + prefix + ALLOW@ + "\n"@ + prefix + "pub fn cont_step_func"@
            + dec(index as nat) + "(&mut self, __frame: &mut ContFrame"@ + dec(index as nat)
            + ", __args: &[i64]) -> StepResult {\n"@);
        let o2 = if params.len() == 0 {
            Ok(o1)
        } else {
            match self.put_params(
                (o1 + prefix + "    if __frame.pc == 0u32 {\n"@),
                params,
                prefix,
                params.len(),
            ) {
                Err(e) => Err(e),
                Ok(o) => Ok((o + prefix + "    }\n"@)),
            }
        };
        match o2 {
            Err(e) => Err(e),
            Ok(o) => self.put_reloads(o, prefix, self.local_types.len()),
        }
    }
}

proof fn lemma_saved_fails(s: GenV, i: nat, n: nat)
    requires
        i <= n,
        s.locals_saved(i) is Err,
    ensures
        s.locals_saved(n) == s.locals_saved(i),
    decreases n - i,
{
    if i < n {
        lemma_saved_fails(s, i, (n - 1) as nat);
    }
}

proof fn lemma_injected_fails(s: GenV, tys: Seq<ValType>, i: nat, n: nat)
    requires
        i <= n,
        s.injected(tys, i) is Err,
    ensures
        s.injected(tys, n) == s.injected(tys, i),
    decreases n - i,
{
    if i < n {
        lemma_injected_fails(s, tys, i, (n - 1) as nat);
    }
}

proof fn lemma_read_fails(s: GenV, src: Seq<char>, tys: Seq<ValType>, i: nat, n: nat)
    requires
        i <= n,
        s.results_read(src, tys, i) is Err,
    ensures
        s.results_read(src, tys, n) == s.results_read(src, tys, i),
    decreases n - i,
{
    if i < n {
        lemma_read_fails(s, src, tys, i, (n - 1) as nat);
    }
}

proof fn lemma_put_params_fails(
    s: GenV,
    out: Seq<char>,
    params: Seq<ValType>,
    prefix: Seq<char>,
    i: nat,
    n: nat,
)
    requires
        i <= n,
        s.put_params(out, params, prefix, i) is Err,
    ensures
        s.put_params(out, params, prefix, n) == s.put_params(out, params, prefix, i),
    decreases n - i,
{
    if i < n {
        lemma_put_params_fails(s, out, params, prefix, i, (n - 1) as nat);
    }
}

proof fn lemma_put_reloads_fails(s: GenV, out: Seq<char>, prefix: Seq<char>, i: nat, n: nat)
    requires
        i <= n,
        s.put_reloads(out, prefix, i) is Err,
    ensures
        s.put_reloads(out, prefix, n) == s.put_reloads(out, prefix, i),
    decreases n - i,
{
    if i < n {
        lemma_put_reloads_fails(s, out, prefix, i, (n - 1) as nat);
    }
}

/// Where values were encoded, each can be decoded.
proof fn lemma_encoded_each(all: Seq<Seq<char>>, tys: Seq<ValType>, n: nat, i: int)
    requires
        encoded_upto(all, tys, n) is Ok,
        0 <= i < n,
    ensures
        encoded64(all[i], tys[i]) is Ok,
    decreases n,
{
    if i < n - 1 {
        lemma_encoded_each(all, tys, (n - 1) as nat, i);
    }
}

impl<'a> FuncGen<'a> {
    /// Drain the nodes queued for the current `pc` state (from `local.set`,
    /// operand spills, and any nested `block`/`loop`/`if` regions that contain no
    /// suspend) and render them into Rust source for the arm. Regions render via
    /// the ordinary rendering, so their branches use Rust's own `'lN` labels and
    /// control flow — self-contained within this one state.
    pub fn take_arm_statements(&mut self) -> (r: String)
        requires
            old(self).wf(),
            !old(self)@.in_continuation,
        ensures
            r@ == old(self)@.arm_text(),
            final(self)@ == old(self)@.arm_taken(),
            final(self).wf(),
    {
        let nodes = self.take_nodes();
        proof {
            lemma_lowerable_plain(nodes_view(nodes@), labels_of(self@.frames));
        }
        let mut out = String::new();
        render_nodes_into(&nodes, 0, "", &mut out);
        out
    }

    /// Save the mutated locals back into the frame, so the next resume reloads
    /// their current values. Unmutated locals never change from their frame
    /// default, so they need no write-back.
    pub fn save_mutated_locals(&self) -> (r: Result<String, TranspileError>)
        ensures
            text_result(r, self@.all_saved()),
    {
        let n: usize = self.locals().len();
        let mut out = String::new();
        let mut i: usize = 0;
        while i < n
            invariant
                i <= n,
                n == self@.local_types.len(),
                self@.locals_saved(i as nat) == Ok::<Seq<char>, FailV>(out@),
            decreases n - i,
        {
            let idx: u32 = match index_u32(i) {
                Ok(x) => x,
                Err(e) => {
                    proof {
                        lemma_saved_fails(self@, (i + 1) as nat, n as nat);
                    }
                    return Err(e);
                },
            };
            if self.is_mutable_local(idx) {
                out = Buf::lit(&out).s("__frame.l").n(i as u64).s(" = l").n(i as u64).s("; ").end();
            }
            i += 1;
        }
        Ok(out)
    }

    /// Pop the top `tys.len()` operands (the tail matching `tys`, deepest first)
    /// and return them comma-joined as `i64`-encoded expressions. Operands below
    /// the tail (if any) are left on the stack for the caller to handle.
    pub fn pop_encode_tail(&mut self, tys: &Vec<ValType>) -> (r: Result<String, TranspileError>)
        requires
            old(self).wf(),
        ensures
            text_result(r, old(self)@.tail_encoded(tys@)),
            r is Ok ==> final(self)@ == old(self)@.drop(tys@.len() as int) && final(self).wf(),
    {
        let vals = self.pop_many(tys.len())?;
        let all = code_list(&vals);
        assert(texts(all@).len() == tys@.len());
        let encoded = encode_all(&all, tys)?;
        Ok(join(&encoded, ", "))
    }

    /// Like [`Self::pop_encode_tail`], but require the operand stack to be exactly
    /// the tail — nothing may survive the boundary. Used where cross-state
    /// operand survival is not modelled: a function/continuation `return` (its
    /// results are the whole stack) and a top-level suspend in the arm-splitting
    /// lowering (a later arm cannot see an earlier arm's temporaries). The flat
    /// lowering instead saves survivors into the frame's `ostack` (see
    /// [`Self::save_surviving_operands`]).
    pub fn encode_stack_tail(&mut self, tys: &Vec<ValType>) -> (r: Result<String, TranspileError>)
        requires
            old(self).wf(),
        ensures
            text_result(r, old(self)@.stack_encoded(tys@)),
            r is Ok ==> final(self)@ == old(self)@.drop(tys@.len() as int) && final(self).wf(),
    {
        if self.height() != tys.len() {
            return Err(
                no_support("non-empty operand stack at a continuation suspend/return (phase 5b)"),
            );
        }
        self.pop_encode_tail(tys)
    }

    /// The parameter types a `suspend $tag` consumes (the tag's parameters).
    pub fn suspend_payload_tys(&self, tag_index: u32) -> (r: Result<
        &'a Vec<ValType>,
        TranspileError,
    >)
        ensures
            match self@.suspend_types(tag_index) {
                Ok(t) => r is Ok && r->Ok_0@ == t,
                Err(e) => r is Err && r->Err_0@ == e,
            },
    {
        let tags = &self.context().tags.params;
        if (tag_index as usize) < tags.len() {
            assert(self@.ctx.tag_params[tag_index as int] == tags@[tag_index as int]@);
            Ok(&tags[tag_index as usize])
        } else {
            Err(no_support("suspend: unknown tag index"))
        }
    }

    /// Decode an `i64` slot back to a wasm value, extending [`decode_from_i64`]
    /// (numeric only) with the `u32`-lowering references — a `funcref`/`contref`
    /// handle — which a `switch` transfers and delivers back as a self-reference.
    /// Managed (`GcRef`) references still have no `i64` erasure and are rejected.
    pub fn unerase_from_i64(&self, expr: &str, ty: ValType) -> (r: Result<String, TranspileError>)
        ensures
            text_result(r, self@.unerased(expr@, ty)),
    {
        if let ValType::Ref(_) = ty {
            let rty = self.rust_type(ty)?;
            if same(rty, "u32") {
                return Ok(Buf::lit("((").s(expr).s(") as u32)").end());
            }
        }
        decode_from_i64(expr, ty)
    }

    /// Push, as the resumed state's initial operands, the values the next step's
    /// `__args` will carry — the resumer's injection at a suspend/switch point.
    /// Each is decoded from its `i64` slot; a continuation/funcref handle rides as
    /// a `u32` (see [`Self::unerase_from_i64`]).
    pub fn push_injected(&mut self, tys: &Vec<ValType>) -> (r: Result<(), TranspileError>)
        requires
            old(self).wf(),
        ensures
            gen_result(r, final(self)@, old(self)@.injected(tys@, tys@.len())),
            r is Ok ==> final(self).wf(),
    {
        let ghost start = self@;
        let mut i: usize = 0;
        while i < tys.len()
            invariant
                i <= tys@.len(),
                start == old(self)@,
                self.wf(),
                start.injected(tys@, i as nat) == Ok::<GenV, FailV>(self@),
            decreases tys@.len() - i,
        {
            let slot = Buf::lit("__args[").n(i as u64).s("]").end();
            match self.unerase_from_i64(slot.as_str(), tys[i]) {
                Ok(code) => self.push(code, tys[i], true),
                Err(e) => {
                    proof {
                        lemma_injected_fails(start, tys@, (i + 1) as nat, tys@.len());
                    }
                    return Err(e);
                },
            }
            i += 1;
        }
        Ok(())
    }

    /// Push a `suspend $tag`'s result values — the ones the resumer injects,
    /// delivered as the next step's `__args` — as the resumed state's initial
    /// operands, so the code after the suspend consumes them. Shared by both
    /// lowerings of a continuation.
    pub fn push_suspend_results(&mut self, tag_index: u32) -> (r: Result<(), TranspileError>)
        requires
            old(self).wf(),
        ensures
            gen_result(r, final(self)@, old(self)@.suspend_resumed(tag_index)),
            r is Ok ==> final(self).wf(),
    {
        let tags = &self.context().tags.results;
        if tag_index as usize >= tags.len() {
            return Err(no_support("suspend: unknown tag index"));
        }
        assert(self@.ctx.tag_results[tag_index as int] == tags@[tag_index as int]@);
        self.push_injected(&tags[tag_index as usize])
    }

    /// Pushes the values of the array `src` as operands.
    pub fn push_read_results(&mut self, src: &str, tys: &Vec<ValType>) -> (r: Result<
        (),
        TranspileError,
    >)
        requires
            old(self).wf(),
        ensures
            gen_result(r, final(self)@, old(self)@.results_read(src@, tys@, tys@.len())),
            r is Ok ==> final(self).wf(),
    {
        let ghost start = self@;
        let mut i: usize = 0;
        while i < tys.len()
            invariant
                i <= tys@.len(),
                start == old(self)@,
                self.wf(),
                start.results_read(src@, tys@, i as nat) == Ok::<GenV, FailV>(self@),
            decreases tys@.len() - i,
        {
            let slot = Buf::lit(src).s("[").n(i as u64).s("]").end();
            match decode_from_i64(slot.as_str(), tys[i]) {
                Ok(code) => self.push(code, tys[i], true),
                Err(e) => {
                    proof {
                        lemma_read_fails(start, src@, tys@, (i + 1) as nat, tys@.len());
                    }
                    return Err(e);
                },
            }
            i += 1;
        }
        Ok(())
    }

    /// Snapshot the operands surviving a suspend (everything left on the stack
    /// after the payload was popped) into the frame's `ostack`, deepest-first, and
    /// rewrite each surviving operand to read back its `i64`-erased slot. Returns
    /// the assignment statement to emit before the suspend returns (empty when
    /// nothing survives). Reference-typed survivors are unsupported (the erasure
    /// only covers the numeric types), matching the suspend payload's own limits.
    pub fn save_surviving_operands(&mut self) -> (r: Result<String, TranspileError>)
        requires
            old(self).wf(),
        ensures
            match old(self)@.survivors_saved() {
                Ok((s, t)) => r is Ok && r->Ok_0@ == t && final(self)@ == s,
                Err(e) => r is Err && r->Err_0@ == e,
            },
            r is Ok ==> final(self).wf(),
    {
        let n: usize = self.height();
        if n == 0 {
            return Ok(String::new());
        }
        let ghost start = self@;
        let survivors = self.operands_from(0);
        assert(crate::codegen::frame::vals(survivors@) =~= start.stack);
        let mut tys: Vec<ValType> = Vec::new();
        let mut k: usize = 0;
        while k < survivors.len()
            invariant
                k <= survivors@.len(),
                tys@.len() == k,
                forall|i: int| 0 <= i < k ==> #[trigger] tys@[i] == survivors@[i].ty,
            decreases survivors@.len() - k,
        {
            tys.push(survivors[k].ty);
            k += 1;
        }
        let all = code_list(&survivors);
        assert(texts(all@).len() == survivors@.len());
        assert(survivors@.len() == n) by {
            assert(crate::codegen::frame::vals(survivors@).len() == n);
        }
        assert(tys@ =~= val_types(start.stack)) by {
            assert forall|i: int| 0 <= i < n implies #[trigger] tys@[i] == start.stack[i].ty by {
                assert(crate::codegen::frame::vals(survivors@)[i] == survivors@[i]@);
            }
        }
        let encoded = encode_all(&all, &tys)?;
        let joined_all = join(&encoded, ", ");
        let ghost want = start.survivors_saved()->Ok_0.0.stack;
        // Rewrite each survivor to read its slot; `__frame` is in scope in every
        // arm, so this stays valid across the suspend/resume boundary.
        let mut i: usize = 0;
        while i < n
            invariant
                i <= n,
                n == start.stack.len(),
                n > 0,
                tys@ == val_types(start.stack),
                encoded_upto(codes(start.stack), tys@, n as nat) is Ok,
                start.survivors_saved() is Ok,
                want == start.survivors_saved()->Ok_0.0.stack,
                self.wf(),
                self@.stack.len() == n,
                self@ == (GenV { stack: self@.stack, ..start }),
                forall|j: int| 0 <= j < i ==> #[trigger] self@.stack[j] == want[j],
                start == old(self)@,
            decreases n - i,
        {
            proof {
                lemma_encoded_each(codes(start.stack), tys@, n as nat, i as int);
                law_step_values_round(
                    tys@[i as int],
                    codes(start.stack)[i as int],
                    ostack_slot(i as nat),
                );
            }
            let slot = Buf::lit("__frame.ostack[").n(i as u64).s("]").end();
            let code = decode_from_i64(slot.as_str(), tys[i])?;
            self.set_operand(i, code, tys[i]);
            i += 1;
        }
        assert(self@.stack =~= want);
        Ok(Buf::lit("__frame.ostack = vec![").s(&joined_all).s("]; ").end())
    }

    /// Shared validation for both cross-call checkpoint lowerings: at most one
    /// checkpoint per body, region depth 0, a no-parameter callee, and an empty
    /// operand stack. `require_empty_cur` additionally rejects pending nodes — the
    /// arm-splitting path needs it (a later arm cannot see an earlier arm's
    /// pending statements), while the flat path does not (the buffer is the whole
    /// body tree). Returns the callee's result types.
    pub fn check_checkpoint_boundary(
        &self,
        callee: u32,
        checkpoint: Option<u32>,
        require_empty_cur: bool,
    ) -> (r: Result<&'a Vec<ValType>, TranspileError>)
        ensures
            match self@.checkpoint_results(callee, checkpoint, require_empty_cur) {
                Ok(t) => r is Ok && r->Ok_0@ == t,
                Err(e) => r is Err && r->Err_0@ == e,
            },
    {
        if checkpoint.is_some() {
            return Err(
                no_support("more than one cross-call checkpoint in a continuation body (phase 5)"),
            );
        }
        if self.depth() > 0 {
            return Err(
                no_support(
                    "cross-call checkpoint inside nested control flow in a continuation body (phase 5b-2b)",
                ),
            );
        }
        let ctx = self.context();
        match ctx.full_sig(callee as usize) {
            None => Err(no_support("checkpoint call to unknown function")),
            Some((params, results)) => {
                if params.len() > 0 {
                    return Err(
                        no_support(
                            "cross-call checkpoint to a continuation with parameters (phase 5)",
                        ),
                    );
                }
                if self.height() > 0 || (require_empty_cur && !self.is_buffer_empty()) {
                    return Err(
                        no_support(
                            "non-empty operand stack before a cross-call checkpoint (phase 5)",
                        ),
                    );
                }
                Ok(results)
            },
        }
    }

    /// The types a `switch $ct2 $tag` transfers to its target and receives back.
    /// `$ct2 = cont $ft2` with `$ft2 : [t1* (ref $ct_self)] -> [tr*]`: the payload
    /// `t1*` (all of `$ft2`'s parameters but the trailing self-reference) is handed
    /// to the target, and the self-reference names the continuation type
    /// `$ct_self`, whose parameters `t2*` are delivered as operands when control
    /// switches back. Returns `(t1*, t2*)`.
    pub fn switch_transfer_types(&self, cont_type_index: u32) -> (r: Result<
        (Vec<ValType>, &'a Vec<ValType>),
        TranspileError,
    >)
        ensures
            match self@.ctx.switch_types(cont_type_index) {
                Ok((p, q)) => r matches Ok((a, b)) && a@ == p && b@ == q,
                Err(e) => r is Err && r->Err_0@ == e,
            },
    {
        let sig = self.cont_underlying_sig(cont_type_index)?;
        let n: usize = sig.params.len();
        if n == 0 {
            return Err(
                no_support("switch target continuation has no self-reference parameter"),
            );
        }
        let self_cont: u32 = concrete_ref_index(sig.params[n - 1])?;
        let own = self.cont_underlying_sig(self_cont)?;
        let mut payload = copy_types(&sig.params);
        let last = payload.pop();
        assert(payload@ =~= sig.params@.drop_last());
        Ok((payload, &own.params))
    }

    /// Write the step function's opening: the `#[allow]` line, the `pub fn
    /// cont_step_func{index}` signature, the first-step parameter decode (at
    /// `pc == 0`), and the entry reload of every local from `__frame`. Both
    /// lowerings share this prologue; they differ only in the dispatch body that
    /// follows.
    pub fn write_cont_step_header(
        &self,
        index: usize,
        params: &Vec<ValType>,
        line_prefix: &str,
        src: &str,
    ) -> (r: Result<String, TranspileError>)
        ensures
            text_result(r, self@.put_step_header(src@, index, params@, line_prefix@)),
    {
        // Locals live in `__frame`; a body may declare more than it reads, so the
        // same allowances the ordinary `func{N}`s carry keep the reload prologue
        // and per-suspend saves warning-free. `pub` so the root impl's `cont_step`
        // can reach it when this body is emitted into a separate chunk module
        // (like the ordinary `func{N}`s).
        let head = Buf::lit(src).s(line_prefix).s(ALLOW).s("\n").s(line_prefix)
            .s("pub fn cont_step_func").n(index as u64).s("(&mut self, __frame: &mut ContFrame")
            .n(index as u64).s(", __args: &[i64]) -> StepResult {\n").end();
        // On the first step (`pc == 0`) the resume's injected `__args` are the
        // body's parameters (locals `0..params.len()`); decode them into their
        // frame slots before the reload below picks them up. A parameter-less
        // body has nothing to inject, so no prologue is emitted (and `__args`
        // stays unused, covered by the ALLOW attribute).
        let mut out = head;
        if params.len() > 0 {
            out = Buf::lit(&out).s(line_prefix).s("    if __frame.pc == 0u32 {\n").end();
            let ghost o1 = out@;
            let mut i: usize = 0;
            while i < params.len()
                invariant
                    i <= params@.len(),
                    params@.len() > 0,
                    o1 == (src@ + line_prefix@ + ALLOW@ + "\n"@ + line_prefix@
                        + "pub fn cont_step_func"@ + dec(index as nat)
                        + "(&mut self, __frame: &mut ContFrame"@ + dec(index as nat)
                        + ", __args: &[i64]) -> StepResult {\n"@) + line_prefix@
                        + "    if __frame.pc == 0u32 {\n"@,
                    self@.put_params(o1, params@, line_prefix@, i as nat) == Ok::<Seq<char>, FailV>(
                        out@,
                    ),
                decreases params@.len() - i,
            {
                let slot = Buf::lit("__args[").n(i as u64).s("]").end();
                match self.unerase_from_i64(slot.as_str(), params[i]) {
                    Ok(value) => {
                        out = Buf::lit(&out).s(line_prefix).s("        __frame.l").n(i as u64)
                            .s(" = ").s(&value).s(";\n").end();
                    },
                    Err(e) => {
                        proof {
                            lemma_put_params_fails(
                                self@,
                                o1,
                                params@,
                                line_prefix@,
                                (i + 1) as nat,
                                params@.len(),
                            );
                        }
                        return Err(e);
                    },
                }
                i += 1;
            }
            out = Buf::lit(&out).s(line_prefix).s("    }\n").end();
        }
        // Reload every local from the frame at entry; arm bodies reference `lN`
        // bare (unchanged from the ordinary lowering).
        let ghost o2 = out@;
        let n: usize = self.locals().len();
        let mut k: usize = 0;
        while k < n
            invariant
                k <= n,
                n == self@.local_types.len(),
                self@.put_step_header(src@, index, params@, line_prefix@) == self@.put_reloads(
                    o2,
                    line_prefix@,
                    n as nat,
                ),
                self@.put_reloads(o2, line_prefix@, k as nat) == Ok::<Seq<char>, FailV>(out@),
            decreases n - k,
        {
            let idx: u32 = match index_u32(k) {
                Ok(x) => x,
                Err(e) => {
                    proof {
                        lemma_put_reloads_fails(
                            self@,
                            o2,
                            line_prefix@,
                            (k + 1) as nat,
                            n as nat,
                        );
                    }
                    return Err(e);
                },
            };
            let m = if self.is_mutable_local(idx) {
                "let mut"
            } else {
                "let"
            };
            out = Buf::lit(&out).s(line_prefix).s("    ").s(m).s(" l").n(k as u64).s(" = __frame.l")
                .n(k as u64).s(";\n").end();
            k += 1;
        }
        Ok(out)
    }
}

} // verus!
