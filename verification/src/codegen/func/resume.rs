//! Resuming continuations: the `i64` slots that carry values across a step, and
//! the `resume` and `resume_throw` operators.

use vstd::prelude::*;

use crate::codegen::context::CtxV;
use crate::codegen::frame::{name_list, names, typed};
use crate::codegen::func::branch::{jump_keyword, jump_word};
use crate::codegen::func::control::add_typed;
use crate::codegen::func::state::{code_list, codes, gen_result, FuncGen, GenR, GenV};
use crate::codegen::info::{CompositeKind, SigV, TypeSig};
use crate::error::{no_support, text_result, unsupported, FailV, TranspileError};
use crate::ops::Handle;
use crate::text::{dec, join, joined, lit, texts, Buf, Lines};
use crate::wasm::{show_val_type, val_type_text, ValType};

verus! {

/// A value as the `i64` that carries it across a step.
pub open spec fn encoded64(code: Seq<char>, ty: ValType) -> Result<Seq<char>, FailV> {
    match ty {
        ValType::I32 => Ok(("(("@ + code + ") as i64)"@)),
        ValType::I64 => Ok(("("@ + code + ")"@)),
        ValType::F32 => Ok(("(f32::to_bits("@ + code + ") as i64)"@)),
        ValType::F64 => Ok(("(f64::to_bits("@ + code + ") as i64)"@)),
        _ => Err(
            unsupported(("continuation value type "@ + val_type_text(ty)
                + " (only i32/i64/f32/f64)"@)),
        ),
    }
}

/// A value out of the `i64` that carries it across a step.
pub open spec fn decoded64(expr: Seq<char>, ty: ValType) -> Result<Seq<char>, FailV> {
    match ty {
        ValType::I32 => Ok(("(("@ + expr + ") as i32)"@)),
        ValType::I64 => Ok(("("@ + expr + ")"@)),
        ValType::F32 => Ok(("f32::from_bits(("@ + expr + ") as u32)"@)),
        ValType::F64 => Ok(("f64::from_bits(("@ + expr + ") as u64)"@)),
        _ => Err(
            unsupported(("continuation value type "@ + val_type_text(ty)
                + " (only i32/i64/f32/f64)"@)),
        ),
    }
}

/// A value can be carried into a step exactly when it can be carried out of one.
pub proof fn law_step_values_round(ty: ValType, a: Seq<char>, b: Seq<char>)
    ensures
        encoded64(a, ty) is Ok <==> decoded64(b, ty) is Ok,
        encoded64(a, ty) is Err ==> encoded64(a, ty)->Err_0 == decoded64(b, ty)->Err_0,
{
}

/// Encode a wasm value (given its Rust expression `code` and type) into the
/// `i64` slot used by `StepResult` payloads/results. Integers widen (sign- or
/// zero-preserving round-trips through [`decode_from_i64`]); floats carry their
/// bit pattern.
pub fn encode_to_i64(code: &str, ty: ValType) -> (r: Result<String, TranspileError>)
    ensures
        text_result(r, encoded64(code@, ty)),
{
    match ty {
        ValType::I32 => Ok(Buf::lit("((").s(code).s(") as i64)").end()),
        ValType::I64 => Ok(Buf::lit("(").s(code).s(")").end()),
        ValType::F32 => Ok(Buf::lit("(f32::to_bits(").s(code).s(") as i64)").end()),
        ValType::F64 => Ok(Buf::lit("(f64::to_bits(").s(code).s(") as i64)").end()),
        _ => Err(
            TranspileError::Unsupported(
                Buf::lit("continuation value type ").s(&show_val_type(ty))
                    .s(" (only i32/i64/f32/f64)").end(),
            ),
        ),
    }
}

/// Decode an `i64` slot (given as the Rust expression `expr`) back into a wasm
/// value of type `ty`, inverting [`encode_to_i64`].
pub fn decode_from_i64(expr: &str, ty: ValType) -> (r: Result<String, TranspileError>)
    ensures
        text_result(r, decoded64(expr@, ty)),
{
    match ty {
        ValType::I32 => Ok(Buf::lit("((").s(expr).s(") as i32)").end()),
        ValType::I64 => Ok(Buf::lit("(").s(expr).s(")").end()),
        ValType::F32 => Ok(Buf::lit("f32::from_bits((").s(expr).s(") as u32)").end()),
        ValType::F64 => Ok(Buf::lit("f64::from_bits((").s(expr).s(") as u64)").end()),
        _ => Err(
            TranspileError::Unsupported(
                Buf::lit("continuation value type ").s(&show_val_type(ty))
                    .s(" (only i32/i64/f32/f64)").end(),
            ),
        ),
    }
}

/// The first `n` expressions encoded.
pub open spec fn encoded_upto(all: Seq<Seq<char>>, tys: Seq<ValType>, n: nat) -> Result<
    Seq<Seq<char>>,
    FailV,
>
    decreases n,
{
    if n == 0 {
        Ok(Seq::empty())
    } else {
        match encoded_upto(all, tys, (n - 1) as nat) {
            Err(e) => Err(e),
            Ok(front) => match encoded64(all[n - 1], tys[n - 1]) {
                Err(e) => Err(e),
                Ok(t) => Ok(front.push(t)),
            },
        }
    }
}

proof fn lemma_encoded_fails(all: Seq<Seq<char>>, tys: Seq<ValType>, i: nat, n: nat)
    requires
        i <= n,
        encoded_upto(all, tys, i) is Err,
    ensures
        encoded_upto(all, tys, n) == encoded_upto(all, tys, i),
    decreases n - i,
{
    if i < n {
        lemma_encoded_fails(all, tys, i, (n - 1) as nat);
    }
}

/// Encodes each expression.
pub fn encode_all(all: &Vec<String>, tys: &Vec<ValType>) -> (r: Result<
    Vec<String>,
    TranspileError,
>)
    requires
        all@.len() == tys@.len(),
    ensures
        match encoded_upto(texts(all@), tys@, tys@.len()) {
            Ok(t) => r is Ok && texts(r->Ok_0@) == t,
            Err(e) => r is Err && r->Err_0@ == e,
        },
{
    let mut out = Lines::new();
    let mut i: usize = 0;
    while i < tys.len()
        invariant
            i <= tys@.len(),
            all@.len() == tys@.len(),
            encoded_upto(texts(all@), tys@, i as nat) == Ok::<Seq<Seq<char>>, FailV>(out@),
        decreases tys@.len() - i,
    {
        match encode_to_i64(all[i].as_str(), tys[i]) {
            Ok(t) => out.add(t),
            Err(e) => {
                proof {
                    lemma_encoded_fails(texts(all@), tys@, (i + 1) as nat, tys@.len());
                }
                return Err(e);
            },
        }
        i += 1;
    }
    Ok(out.v)
}

impl CtxV {
    /// Whether the type at this index is a continuation type.
    pub open spec fn is_cont(self, cont_type_index: u32) -> bool {
        cont_type_index < self.kinds.len() && self.kinds[cont_type_index as int] is Cont
    }

    /// The function signature underlying the continuation type at this index.
    pub open spec fn cont_sig(self, cont_type_index: u32) -> Result<SigV, FailV> {
        if cont_type_index >= self.kinds.len() {
            Err(unsupported("continuation type index out of range"@))
        } else if !self.is_cont(cont_type_index) {
            Err(unsupported(("type index "@ + dec(cont_type_index as nat)
                + " is not a continuation type"@)))
        } else if self.kinds[cont_type_index as int]->Cont_0 >= self.types.len() {
            Err(unsupported("continuation underlying function type out of range"@))
        } else {
            Ok(self.types[self.kinds[cont_type_index as int]->Cont_0 as int])
        }
    }
}

/// Whether some handler switches.
pub open spec fn some_switch(handlers: Seq<Handle>) -> bool {
    exists|i: int| 0 <= i < handlers.len() && (#[trigger] handlers[i]) is OnSwitch
}

/// Whether some handler goes to a label.
pub open spec fn some_label(handlers: Seq<Handle>) -> bool {
    exists|i: int| 0 <= i < handlers.len() && (#[trigger] handlers[i]) is OnLabel
}

/// Whether some handler switches, and whether some goes to a label.
fn handler_kinds(handlers: &Vec<Handle>) -> (r: (bool, bool))
    ensures
        r.0 == some_switch(handlers@),
        r.1 == some_label(handlers@),
{
    let mut has_switch = false;
    let mut has_label = false;
    let mut i: usize = 0;
    while i < handlers.len()
        invariant
            i <= handlers@.len(),
            has_switch == exists|k: int| 0 <= k < i && (#[trigger] handlers@[k]) is OnSwitch,
            has_label == exists|k: int| 0 <= k < i && (#[trigger] handlers@[k]) is OnLabel,
        decreases handlers@.len() - i,
    {
        assert(handlers@[i as int] is OnSwitch || handlers@[i as int] is OnLabel);
        match handlers[i] {
            Handle::OnSwitch { .. } => {
                has_switch = true;
            },
            Handle::OnLabel { .. } => {
                has_label = true;
            },
        }
        i += 1;
    }
    (has_switch, has_label)
}

impl GenV {
    /// The first `n` slots of the array `src` decoded into `targets`.
    pub open spec fn decoded_assigned(
        self,
        targets: Seq<Seq<char>>,
        tys: Seq<ValType>,
        src: Seq<char>,
        n: nat,
    ) -> GenR
        decreases n,
    {
        if n == 0 {
            Ok(self)
        } else {
            match self.decoded_assigned(targets, tys, src, (n - 1) as nat) {
                Err(e) => Err(e),
                Ok(s) => match decoded64((src + "["@ + dec((n - 1) as nat) + "]"@), tys[n - 1]) {
                    Err(e) => Err(e),
                    Ok(value) => Ok(s.line((targets[n - 1] + " = "@ + value + ";"@))),
                },
            }
        }
    }

    /// One variable declared per type, to be assigned later.
    pub open spec fn holders_declared(self, tys: Seq<ValType>) -> Result<
        (GenV, Seq<(Seq<char>, ValType)>),
        FailV,
    >
        decreases tys.len(),
    {
        if tys.len() == 0 {
            Ok((self, Seq::empty()))
        } else {
            match self.holders_declared(tys.drop_last()) {
                Err(e) => Err(e),
                Ok((s, vars)) => match s.rust_type(tys.last()) {
                    Err(e) => Err(e),
                    Ok(rty) => Ok(
                        (
                            s.temp_taken().line(("let "@ + s.temp() + ": "@ + rty + ";"@)),
                            vars.push((s.temp(), tys.last())),
                        ),
                    ),
                },
            }
        }
    }

    /// The arm of a handler that goes to a label.
    pub open spec fn resumed_on_label(self, tag: u32, depth: u32, handle_var: Seq<char>) -> GenR {
        if tag >= self.ctx.tag_params.len() {
            Err(unsupported("resume: unknown tag index"@))
        } else {
            let tys = self.ctx.tag_params[tag as int];
            match self.resolved(depth) {
                Err(e) => Err(e),
                Ok((s, t)) => if t.escape {
                    Err(unsupported("resume handler crossing a try body"@))
                } else if t.vars.len() != tys.len() + 1 {
                    Err(
                        unsupported("resume handler block does not yield (payload.., contref)"@),
                    )
                } else {
                    let pat = if tys.len() == 0 {
                        "_"@
                    } else {
                        "__pl"@
                    };
                    match s.line(
                        ("StepResult::Suspend { tag: __t, payload: "@ + pat + " } if __t == "@
                            + dec(tag as nat) + "u32 => {"@),
                    ).decoded_assigned(t.vars, tys, "__pl"@, tys.len()) {
                        Err(e) => Err(e),
                        Ok(s2) => Ok(
                            s2.line((t.vars.last() + " = "@ + handle_var + ";"@)).line(
                                (jump_word(t.is_loop) + " 'l"@ + dec(t.label as nat) + ";"@),
                            ).line("}"@),
                        ),
                    }
                },
            }
        }
    }

    /// The arm of a handler that follows a switch.
    pub open spec fn resumed_on_switch(
        self,
        tag: u32,
        cur_var: Seq<char>,
        args_var: Seq<char>,
    ) -> GenV {
        self.line(
            ("StepResult::Switch { tag: __t, target: __tgt, args: __sa } if __t == "@
                + dec(tag as nat) + "u32 => {"@),
        ).line(("let mut __next = __sa; __next.push("@ + cur_var + " as i64);"@)).line(
            (cur_var + " = __tgt; "@ + args_var + " = __next;"@),
        ).line("continue 'drive;"@).line("}"@)
    }

    /// The arms of the first `n` handlers.
    pub open spec fn resume_handled(
        self,
        handlers: Seq<Handle>,
        n: nat,
        handle_var: Seq<char>,
        cur_var: Seq<char>,
        args_var: Seq<char>,
    ) -> GenR
        decreases n,
    {
        if n == 0 {
            Ok(self)
        } else {
            match self.resume_handled(handlers, (n - 1) as nat, handle_var, cur_var, args_var) {
                Err(e) => Err(e),
                Ok(s) => match handlers[n - 1] {
                    Handle::OnLabel { tag, label } => s.resumed_on_label(tag, label, handle_var),
                    Handle::OnSwitch { tag } => Ok(s.resumed_on_switch(tag, cur_var, args_var)),
                },
            }
        }
    }

    /// The operands of a `resume` taken: the handle, the encoded arguments, and
    /// everything below frozen. Gives the two variables that hold them.
    pub open spec fn resume_operands(self, params: Seq<ValType>, has_switch: bool) -> Result<
        (GenV, Seq<char>),
        FailV,
    > {
        let n = params.len();
        if !self.has(n as int) {
            Err(FailV::StackUnderflow)
        } else {
            match encoded_upto(codes(self.tail(n as int)), params, n) {
                Err(e) => Err(e),
                Ok(encoded) => {
                    let s = self.drop(n as int);
                    let all = joined(encoded, ", "@);
                    let text = if has_switch {
                        ("let mut "@ + s.temp() + ": Vec<i64> = vec!["@ + all + "];"@)
                    } else {
                        ("let "@ + s.temp() + ": [i64; "@ + dec(n as nat) + "] = ["@ + all + "];"@)
                    };
                    match s.temp_taken().line(text).spilled() {
                        Err(e) => Err(e),
                        Ok(s2) => Ok((s2, s.temp())),
                    }
                },
            }
        }
    }

    /// The `match` on a step's outcome: its opening and the arm of a return.
    pub open spec fn step_matched(
        self,
        handle_var: Seq<char>,
        args_var: Seq<char>,
        holders: Seq<(Seq<char>, ValType)>,
        results: Seq<ValType>,
        has_switch: bool,
    ) -> GenR {
        let cur_var = self.temp();
        let s = self.temp_taken();
        let opened = if has_switch {
            s.line(("let mut "@ + cur_var + ": u32 = "@ + handle_var
                + ";"@)).line("'drive: loop {"@).line(
                ("match self.cont_step("@ + cur_var + ", &"@ + args_var + ") {"@),
            )
        } else {
            s.line(("match self.cont_step("@ + handle_var + ", &"@ + args_var + ") {"@))
        };
        let pat = if results.len() == 0 {
            "_"@
        } else {
            "__vals"@
        };
        match opened.line(("StepResult::Return("@ + pat + ") => {"@)).decoded_assigned(
            names(holders),
            results,
            "__vals"@,
            results.len(),
        ) {
            Err(e) => Err(e),
            Ok(s2) => Ok(
                if has_switch {
                    s2.line("break 'drive;"@).line("}"@)
                } else {
                    s2.line("}"@)
                },
            ),
        }
    }

    /// `resume $ct (on $tag $lbl)...`.
    pub open spec fn resumed(self, cont_type_index: u32, handlers: Seq<Handle>) -> GenR {
        let has_switch = some_switch(handlers);
        if has_switch && some_label(handlers) {
            Err(
                unsupported(
                    "resume combining a switch handler with a suspend-to-label handler"@,
                ),
            )
        } else if !self.has(1) {
            Err(FailV::StackUnderflow)
        } else {
            let s = self.drop(1);
            let handle_var = s.temp();
            match self.ctx.cont_sig(cont_type_index) {
                Err(e) => Err(e),
                Ok(sig) => match s.temp_taken().line(
                    ("let "@ + handle_var + ": u32 = "@ + self.top().code + ";"@),
                ).resume_operands(sig.params, has_switch) {
                    Err(e) => Err(e),
                    Ok((s2, args_var)) => match s2.holders_declared(sig.results) {
                        Err(e) => Err(e),
                        Ok((s3, holders)) => match s3.step_matched(
                            handle_var,
                            args_var,
                            holders,
                            sig.results,
                            has_switch,
                        ) {
                            Err(e) => Err(e),
                            Ok(s4) => match s4.resume_handled(
                                handlers,
                                handlers.len(),
                                handle_var,
                                s3.temp(),
                                args_var,
                            ) {
                                Err(e) => Err(e),
                                Ok(s5) => {
                                    let s6 = s5.line(
                                        "_ => panic!(\"resume: unhandled continuation suspend tag\"),"@,
                                    ).line("}"@);
                                    let s7 = if has_switch {
                                        s6.line("}"@)
                                    } else {
                                        s6
                                    };
                                    Ok(s7.pushed(holders))
                                },
                            },
                        },
                    },
                },
            }
        }
    }

    /// `resume_throw $ct $exn`.
    pub open spec fn resume_thrown(
        self,
        cont_type_index: u32,
        tag_index: u32,
        handlers: Seq<Handle>,
    ) -> GenR {
        if !self.ctx.is_cont(cont_type_index) {
            Err(unsupported(("type index "@ + dec(cont_type_index as nat)
                + " is not a continuation type"@)))
        } else if handlers.len() > 0 {
            Err(
                unsupported(
                    "resume_throw with suspend handlers (needs an exception handler inside the continuation body)"@,
                ),
            )
        } else if !self.has(1) {
            Err(FailV::StackUnderflow)
        } else {
            let s = self.drop(1);
            s.temp_taken().line(("let "@ + s.temp() + ": u32 = "@ + self.top().code + ";"@)).line(
                ("let _ = self.conts["@ + s.temp() + " as usize].take();"@),
            ).emit_throw(tag_index)
        }
    }
}

proof fn lemma_decoded_fails(
    s: GenV,
    targets: Seq<Seq<char>>,
    tys: Seq<ValType>,
    src: Seq<char>,
    i: nat,
    n: nat,
)
    requires
        i <= n,
        s.decoded_assigned(targets, tys, src, i) is Err,
    ensures
        s.decoded_assigned(targets, tys, src, n) == s.decoded_assigned(targets, tys, src, i),
    decreases n - i,
{
    if i < n {
        lemma_decoded_fails(s, targets, tys, src, i, (n - 1) as nat);
    }
}

proof fn lemma_holders_fail(s: GenV, tys: Seq<ValType>, k: int)
    requires
        0 <= k <= tys.len(),
        s.holders_declared(tys.take(k)) is Err,
    ensures
        s.holders_declared(tys) == s.holders_declared(tys.take(k)),
    decreases tys.len() - k,
{
    if k < tys.len() {
        assert(tys.take(k + 1).drop_last() =~= tys.take(k));
        lemma_holders_fail(s, tys, k + 1);
    } else {
        assert(tys.take(k) =~= tys);
    }
}

proof fn lemma_handled_fails(
    s: GenV,
    handlers: Seq<Handle>,
    handle_var: Seq<char>,
    cur_var: Seq<char>,
    args_var: Seq<char>,
    i: nat,
    n: nat,
)
    requires
        i <= n,
        s.resume_handled(handlers, i, handle_var, cur_var, args_var) is Err,
    ensures
        s.resume_handled(handlers, n, handle_var, cur_var, args_var) == s.resume_handled(
            handlers,
            i,
            handle_var,
            cur_var,
            args_var,
        ),
    decreases n - i,
{
    if i < n {
        lemma_handled_fails(s, handlers, handle_var, cur_var, args_var, i, (n - 1) as nat);
    }
}

impl<'a> FuncGen<'a> {
    /// Validate that `cont_type_index` names a continuation type, without needing
    /// its underlying signature (used where only the kind matters, e.g.
    /// `resume_throw`).
    pub fn require_cont_type(&self, cont_type_index: u32) -> (r: Result<(), TranspileError>)
        ensures
            if self@.ctx.is_cont(cont_type_index) {
                r is Ok
            } else {
                r is Err && r->Err_0@ == unsupported(
                    ("type index "@ + dec(cont_type_index as nat) + " is not a continuation type"@),
                )
            },
    {
        let kinds = self.context().type_kinds;
        if (cont_type_index as usize) < kinds.len() {
            assert(self@.ctx.kinds[cont_type_index as int] == kinds@[cont_type_index as int]@);
            if let CompositeKind::Cont(_) = &kinds[cont_type_index as usize] {
                return Ok(());
            }
        }
        Err(
            TranspileError::Unsupported(
                Buf::lit("type index ").n(cont_type_index as u64).s(" is not a continuation type")
                    .end(),
            ),
        )
    }

    /// The function signature underlying a continuation type index.
    pub fn cont_underlying_sig(&self, cont_type_index: u32) -> (r: Result<
        &'a TypeSig,
        TranspileError,
    >)
        ensures
            match self@.ctx.cont_sig(cont_type_index) {
                Ok(s) => r is Ok && r->Ok_0@ == s,
                Err(e) => r is Err && r->Err_0@ == e,
            },
    {
        let ctx = self.context();
        let kinds = ctx.type_kinds;
        if cont_type_index as usize >= kinds.len() {
            return Err(no_support("continuation type index out of range"));
        }
        assert(self@.ctx.kinds[cont_type_index as int] == kinds@[cont_type_index as int]@);
        let func_ty: u32 = match &kinds[cont_type_index as usize] {
            CompositeKind::Cont(f) => *f,
            _ => {
                return Err(
                    TranspileError::Unsupported(
                        Buf::lit("type index ").n(cont_type_index as u64)
                            .s(" is not a continuation type").end(),
                    ),
                );
            },
        };
        let types = ctx.types;
        if func_ty as usize >= types.len() {
            return Err(no_support("continuation underlying function type out of range"));
        }
        assert(self@.ctx.types[func_ty as int] == types@[func_ty as int]@);
        Ok(&types[func_ty as usize])
    }

    /// Emit `target = <decoded>;` for each target, decoding the i-th `i64` slot
    /// of the runtime array named `src_array` back to its wasm type. `tys`
    /// governs the count (the Return arm decodes every result; a Suspend arm
    /// decodes only the payload prefix of the handler's result vars, leaving the
    /// trailing continuation var to the caller).
    fn assign_decoded(&mut self, targets: &Vec<String>, tys: &Vec<ValType>, src_array: &str) -> (r:
        Result<(), TranspileError>)
        requires
            old(self).wf(),
            tys@.len() <= targets@.len(),
        ensures
            gen_result(
                r,
                final(self)@,
                old(self)@.decoded_assigned(texts(targets@), tys@, src_array@, tys@.len()),
            ),
            r is Ok ==> final(self).wf(),
    {
        let ghost start = self@;
        let mut i: usize = 0;
        while i < tys.len()
            invariant
                i <= tys@.len() <= targets@.len(),
                self.wf(),
                start == old(self)@,
                start.decoded_assigned(texts(targets@), tys@, src_array@, i as nat) == Ok::<
                    GenV,
                    FailV,
                >(self@),
            decreases tys@.len() - i,
        {
            let slot = Buf::lit(src_array).s("[").n(i as u64).s("]").end();
            match decode_from_i64(slot.as_str(), tys[i]) {
                Ok(value) => self.line(Buf::lit(&targets[i]).s(" = ").s(&value).s(";").end()),
                Err(e) => {
                    proof {
                        lemma_decoded_fails(
                            start,
                            texts(targets@),
                            tys@,
                            src_array@,
                            (i + 1) as nat,
                            tys@.len(),
                        );
                    }
                    return Err(e);
                },
            }
            i += 1;
        }
        Ok(())
    }

    /// Declares one variable per type, to be assigned later.
    fn declare_holders(&mut self, tys: &Vec<ValType>) -> (r: Result<
        Vec<(String, ValType)>,
        TranspileError,
    >)
        requires
            old(self).wf(),
        ensures
            match old(self)@.holders_declared(tys@) {
                Ok((s, vars)) => r is Ok && final(self)@ == s && typed(r->Ok_0@) == vars
                    && vars.len() == tys@.len(),
                Err(e) => r is Err && r->Err_0@ == e,
            },
            r is Ok ==> final(self).wf(),
    {
        let ghost start = self@;
        let mut out: Vec<(String, ValType)> = Vec::new();
        assert(typed(out@) =~= Seq::<(Seq<char>, ValType)>::empty());
        let mut i: usize = 0;
        while i < tys.len()
            invariant
                i <= tys@.len(),
                out@.len() == i,
                start == old(self)@,
                self.wf(),
                start.holders_declared(tys@.take(i as int)) == Ok::<
                    (GenV, Seq<(Seq<char>, ValType)>),
                    FailV,
                >((self@, typed(out@))),
            decreases tys@.len() - i,
        {
            assert(tys@.take(i + 1).drop_last() =~= tys@.take(i as int));
            let rty = match self.rust_type(tys[i]) {
                Ok(t) => t,
                Err(e) => {
                    proof {
                        lemma_holders_fail(start, tys@, i + 1);
                    }
                    return Err(e);
                },
            };
            let name = self.fresh_temp();
            self.line(Buf::lit("let ").s(&name).s(": ").s(rty).s(";").end());
            let ghost was = typed(out@);
            add_typed(&mut out, name, tys[i]);
            assert(typed(out@).len() == was.len() + 1);
            i += 1;
        }
        assert(tys@.take(tys@.len() as int) =~= tys@);
        Ok(out)
    }

    /// Emit one `(on $tag $label)` resume handler arm: on a matching suspend,
    /// decode the tag payload into the target block's leading result variables,
    /// hand it the reused (one-shot) continuation handle in the trailing variable,
    /// and branch there. Shared by the plain and switch-driver forms of `resume`.
    fn emit_resume_on_label(&mut self, tag: u32, label_depth: u32, handle_var: &str) -> (r: Result<
        (),
        TranspileError,
    >)
        requires
            old(self).wf(),
        ensures
            gen_result(r, final(self)@, old(self)@.resumed_on_label(tag, label_depth, handle_var@)),
            r is Ok ==> final(self).wf(),
    {
        let tags = &self.context().tags.params;
        if tag as usize >= tags.len() {
            return Err(no_support("resume: unknown tag index"));
        }
        let payload_tys = &tags[tag as usize];
        assert(payload_tys@ == self@.ctx.tag_params[tag as int]);
        let t = self.resolve_target(label_depth)?;
        if t.escape {
            return Err(no_support("resume handler crossing a try body"));
        }
        // The handler block receives the tag payload followed by the continuation
        // reference, so it must yield exactly that arity.
        if t.vars.len() == 0 || t.vars.len() - 1 != payload_tys.len() {
            return Err(no_support("resume handler block does not yield (payload.., contref)"));
        }
        let pat = if payload_tys.len() == 0 {
            "_"
        } else {
            "__pl"
        };
        self.line(Buf::lit("StepResult::Suspend { tag: __t, payload: ").s(pat).s(" } if __t == ")
            .n(tag as u64).s("u32 => {").end());
        self.assign_decoded(&t.vars, payload_tys, "__pl")?;
        let last: usize = t.vars.len() - 1;
        assert(texts(t.vars@).last() == t.vars@[last as int]@);
        self.line(Buf::lit(&t.vars[last]).s(" = ").s(handle_var).s(";").end());
        let keyword = jump_keyword(t.is_loop);
        self.line(Buf::lit(keyword).s(" 'l").n(t.label as u64).s(";").end());
        self.line_lit("}");
        Ok(())
    }

    /// Follow a switch: `cont_step` has already reified the parked switcher
    /// (`cur_var`), so append its handle as the target's trailing self-reference
    /// and drive the target with the switch payload as its injected args.
    fn emit_resume_on_switch(&mut self, tag: u32, cur_var: &str, args_var: &str)
        requires
            old(self).wf(),
        ensures
            final(self)@ == old(self)@.resumed_on_switch(tag, cur_var@, args_var@),
            final(self).wf(),
    {
        self.line(
            Buf::lit("StepResult::Switch { tag: __t, target: __tgt, args: __sa } if __t == ")
                .n(tag as u64).s("u32 => {").end(),
        );
        self.line(Buf::lit("let mut __next = __sa; __next.push(").s(cur_var).s(" as i64);").end());
        self.line(Buf::lit(cur_var).s(" = __tgt; ").s(args_var).s(" = __next;").end());
        self.line_lit("continue 'drive;");
        self.line_lit("}");
    }

    /// Pops the arguments of a `resume`, encodes them into a slice, and freezes
    /// the rest of the stack so it survives the `match` unchanged.
    fn take_resume_operands(&mut self, params: &Vec<ValType>, has_switch: bool) -> (r: Result<
        String,
        TranspileError,
    >)
        requires
            old(self).wf(),
        ensures
            match old(self)@.resume_operands(params@, has_switch) {
                Ok((s, v)) => r is Ok && r->Ok_0@ == v && final(self)@ == s,
                Err(e) => r is Err && r->Err_0@ == e,
            },
            r is Ok ==> final(self).wf(),
    {
        let n: usize = params.len();
        let args = self.pop_many(n)?;
        let arg_codes = code_list(&args);
        assert(texts(arg_codes@).len() == n);
        let encoded = encode_all(&arg_codes, params)?;
        let all = join(&encoded, ", ");
        // A `(on $tag switch)` handler makes this resume a trampoline: it follows
        // each switch to a new continuation with new injected args, so the stepped
        // handle and the args live in mutable bindings a `'drive` loop rewrites.
        // Without one, the older single-step form (a fixed handle, an array of
        // args) suffices.
        let args_var = self.fresh_temp();
        if has_switch {
            self.line(Buf::lit("let mut ").s(&args_var).s(": Vec<i64> = vec![").s(&all).s("];")
                .end());
        } else {
            self.line(Buf::lit("let ").s(&args_var).s(": [i64; ").n(n as u64).s("] = [").s(&all)
                .s("];").end());
        }
        self.spill_nonstable()?;
        Ok(args_var)
    }

    /// Opens the `match` on a step's outcome, with the arm of a return. Gives the
    /// variable of the continuation being driven.
    fn open_step_match(
        &mut self,
        handle_var: &str,
        args_var: &str,
        holders: &Vec<(String, ValType)>,
        results: &Vec<ValType>,
        has_switch: bool,
    ) -> (r: Result<String, TranspileError>)
        requires
            old(self).wf(),
            holders@.len() == results@.len(),
        ensures
            match old(self)@.step_matched(
                handle_var@,
                args_var@,
                typed(holders@),
                results@,
                has_switch,
            ) {
                Ok(s) => r is Ok && final(self)@ == s && r->Ok_0@ == old(self)@.temp(),
                Err(e) => r is Err && r->Err_0@ == e,
            },
            r is Ok ==> final(self).wf(),
    {
        // The trampoline steps `cur_var` (initially the resumed handle); a plain
        // resume steps the fixed handle directly.
        let cur_var = self.fresh_temp();
        if has_switch {
            self.line(Buf::lit("let mut ").s(&cur_var).s(": u32 = ").s(handle_var).s(";").end());
            self.line_lit("'drive: loop {");
            self.line(Buf::lit("match self.cont_step(").s(&cur_var).s(", &").s(args_var).s(") {")
                .end());
        } else {
            self.line(Buf::lit("match self.cont_step(").s(handle_var).s(", &").s(args_var).s(") {")
                .end());
        }
        let pat = if results.len() == 0 {
            "_"
        } else {
            "__vals"
        };
        self.line(Buf::lit("StepResult::Return(").s(pat).s(") => {").end());
        let vars = name_list(holders);
        assert(texts(vars@).len() == holders@.len());
        self.assign_decoded(&vars, results, "__vals")?;
        if has_switch {
            // A returning continuation ends the trampoline; its results fall
            // through to the resume's continuation below.
            self.line_lit("break 'drive;");
        }
        self.line_lit("}");
        Ok(cur_var)
    }

    /// `resume $ct (on $tag $lbl)...`: step the continuation handle on top of the
    /// stack once. On a normal return the decoded results are left on the stack
    /// (control falls through). On a suspension whose tag matches an on-clause,
    /// the tag payload plus the (reused, one-shot) continuation handle are
    /// carried into that clause's block and control branches there. An
    /// unmatched tag panics — propagating an unhandled suspension to a resuming
    /// caller is a later phase.
    ///
    /// The `match` is emitted as raw statements: its suspend arm branches out of
    /// an enclosing block, which the generic `Node` model has no single node
    /// for, so `resolve_target` is used only to mark the target reachable and
    /// name its label/result variables.
    #[verifier::rlimit(40)]
    pub fn resume(&mut self, cont_type_index: u32, handlers: &Vec<Handle>) -> (r: Result<
        (),
        TranspileError,
    >)
        requires
            old(self).wf(),
        ensures
            gen_result(r, final(self)@, old(self)@.resumed(cont_type_index, handlers@)),
            r is Ok ==> final(self).wf(),
    {
        // A `(on $tag switch)` handler turns this resume into a trampoline that
        // follows switches through a chain of continuations (see below). Its
        // on-label arms would need to hand a suspending continuation back to the
        // label using the *currently driven* handle, not the originally resumed
        // one — re-dispatching a suspend across the switch chain — which is not
        // lowered yet. Reject the mix rather than mistranslate it.
        let (has_switch, has_label) = handler_kinds(handlers);
        if has_switch && has_label {
            return Err(
                no_support("resume combining a switch handler with a suspend-to-label handler"),
            );
        }
        // The handle is referenced twice (the step call and, on suspension, the
        // reused continuation), so materialise it into a stable temporary. Below
        // it on the stack sit the continuation's parameters, which this resume
        // injects: the body's parameters at its first step (empty for a
        // parameter-less continuation).
        let handle = self.pop()?;
        let handle_var = self.fresh_temp();
        self.line(Buf::lit("let ").s(&handle_var).s(": u32 = ").s(&handle.code).s(";").end());
        let sig = self.cont_underlying_sig(cont_type_index)?;
        let args_var = self.take_resume_operands(&sig.params, has_switch)?;

        // The Return path pushes the continuation's result values; hold them in
        // per-result temporaries assigned only on that arm (the suspend/switch
        // arms diverge via their branch or `continue`, so definite assignment
        // holds).
        let holders = self.declare_holders(&sig.results)?;
        let cur_var = self.open_step_match(
            handle_var.as_str(),
            args_var.as_str(),
            &holders,
            &sig.results,
            has_switch,
        )?;
        self.emit_handlers(handlers, handle_var.as_str(), cur_var.as_str(), args_var.as_str())?;
        self.line_lit("_ => panic!(\"resume: unhandled continuation suspend tag\"),");
        self.line_lit("}");
        if has_switch {
            self.line_lit("}");
        }
        self.push_temps(&holders);
        Ok(())
    }

    /// Emits the arm of every handler.
    fn emit_handlers(
        &mut self,
        handlers: &Vec<Handle>,
        handle_var: &str,
        cur_var: &str,
        args_var: &str,
    ) -> (r: Result<(), TranspileError>)
        requires
            old(self).wf(),
        ensures
            gen_result(r, final(self)@, old(self)@.resume_handled(handlers@, handlers@.len(),
                handle_var@, cur_var@, args_var@)),
            r is Ok ==> final(self).wf(),
    {
        let ghost start = self@;
        let mut i: usize = 0;
        while i < handlers.len()
            invariant
                i <= handlers@.len(),
                self.wf(),
                start == old(self)@,
                start.resume_handled(handlers@, i as nat, handle_var@, cur_var@, args_var@) == Ok::<
                    GenV,
                    FailV,
                >(self@),
            decreases handlers@.len() - i,
        {
            match handlers[i] {
                Handle::OnLabel { tag, label } => {
                    match self.emit_resume_on_label(tag, label, handle_var) {
                        Ok(()) => {},
                        Err(e) => {
                            proof {
                                lemma_handled_fails(
                                    start,
                                    handlers@,
                                    handle_var@,
                                    cur_var@,
                                    args_var@,
                                    (i + 1) as nat,
                                    handlers@.len(),
                                );
                            }
                            return Err(e);
                        },
                    }
                },
                Handle::OnSwitch { tag } => {
                    self.emit_resume_on_switch(tag, cur_var, args_var);
                },
            }
            i += 1;
        }
        Ok(())
    }

    /// `resume_throw $ct $exn`: resume a suspended continuation by raising
    /// exception `$exn` at its suspension point instead of continuing normally.
    /// A continuation body cannot (yet) install an exception handler, so the
    /// injected exception always propagates straight out to here — equivalent to
    /// abandoning the continuation and raising the exception in the resumer. The
    /// resume handlers would only fire on a re-suspend after an *internal* catch,
    /// which cannot happen, so a non-empty table is rejected.
    pub fn resume_throw(&mut self, cont_type_index: u32, tag_index: u32, handlers: &Vec<Handle>) -> (r:
        Result<(), TranspileError>)
        requires
            old(self).wf(),
        ensures
            gen_result(r, final(self)@, old(self)@.resume_thrown(cont_type_index, tag_index,
                handlers@)),
            r is Ok ==> final(self).wf(),
    {
        self.require_cont_type(cont_type_index)?;
        if handlers.len() > 0 {
            return Err(
                no_support(
                    "resume_throw with suspend handlers (needs an exception handler inside the continuation body)",
                ),
            );
        }
        // The continuation reference sits on top of the exception payload; pop and
        // consume it (one-shot — the throw abandons it) before raising the payload.
        let handle = self.pop()?;
        let handle_var = self.fresh_temp();
        self.line(Buf::lit("let ").s(&handle_var).s(": u32 = ").s(&handle.code).s(";").end());
        self.line(Buf::lit("let _ = self.conts[").s(&handle_var).s(" as usize].take();").end());
        self.emit_throw(tag_index)
    }
}

} // verus!
