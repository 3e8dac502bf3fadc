//! Numeric operators.

use vstd::prelude::*;

use crate::codegen::analysis::{unsigned_text, unsigned_type};
use crate::codegen::func::state::{gen_result, FuncGen, GenR, GenV};
use crate::codegen::runtime::{rt_name, rt_text, Rt};
use crate::error::{FailV, TranspileError};
use crate::text::Buf;
use crate::wasm::ValType;

verus! {

/// How a unary conversion is spelled around its operand.
#[derive(Clone, Copy)]
pub enum Wrap {
    /// `(x as target)`
    As { target: &'static str },
    /// `((x as via) as target)`
    Through { via: &'static str, target: &'static str },
    /// `(x.to_bits() as target)`
    Bits { target: &'static str },
    /// `float::from_bits(x as via)`
    FromBits { float: &'static str, via: &'static str },
    /// `(x.method() as target)`
    Count { method: &'static str, target: &'static str },
}

/// The conversion `w` of the expression `x`.
pub open spec fn wrapped(w: Wrap, x: Seq<char>) -> Seq<char> {
    match w {
        Wrap::As { target } => ("("@ + x + " as "@ + target@ + ")"@),
        Wrap::Through { via, target } => ("(("@ + x + " as "@ + via@ + ") as "@ + target@ + ")"@),
        Wrap::Bits { target } => ("("@ + x + ".to_bits() as "@ + target@ + ")"@),
        Wrap::FromBits { float, via } => (float@ + "::from_bits("@ + x + " as "@ + via@ + ")"@),
        Wrap::Count { method, target } => ("("@ + x + "."@ + method@ + "() as "@ + target@ + ")"@),
    }
}

fn wrap_code(w: Wrap, x: &str) -> (r: String)
    ensures
        r@ == wrapped(w, x@),
{
    match w {
        Wrap::As { target } => Buf::lit("(").s(x).s(" as ").s(target).s(")").end(),
        Wrap::Through { via, target } => Buf::lit("((").s(x).s(" as ").s(via).s(") as ").s(target)
            .s(")").end(),
        Wrap::Bits { target } => Buf::lit("(").s(x).s(".to_bits() as ").s(target).s(")").end(),
        Wrap::FromBits { float, via } => Buf::lit(float).s("::from_bits(").s(x).s(" as ").s(via)
            .s(")").end(),
        Wrap::Count { method, target } => Buf::lit("(").s(x).s(".").s(method).s("() as ").s(target)
            .s(")").end(),
    }
}

impl GenV {
    /// A binary operator spelled `code` over the two operands `a` and `b` on top.
    pub open spec fn binary(self, code: Seq<char>, ty: ValType) -> GenR {
        self.drop(2).combined(code, ty, self.below(1).stable && self.top().stable)
    }

    /// A unary operator spelled `code` over the operand on top.
    pub open spec fn unary(self, code: Seq<char>, ty: ValType) -> GenR {
        self.drop(1).combined(code, ty, self.top().stable)
    }

    pub open spec fn binop_method(self, method: Seq<char>) -> GenR {
        if !self.has(2) {
            Err(FailV::StackUnderflow)
        } else {
            self.binary((self.below(1).code + "."@ + method + "("@ + self.top().code
                + ")"@), self.below(1).ty)
        }
    }

    pub open spec fn binop_infix(self, op: Seq<char>) -> GenR {
        if !self.has(2) {
            Err(FailV::StackUnderflow)
        } else {
            self.binary(("("@ + self.below(1).code + " "@ + op + " "@ + self.top().code
                + ")"@), self.below(1).ty)
        }
    }

    pub open spec fn compare_zero(self) -> GenR {
        if !self.has(1) {
            Err(FailV::StackUnderflow)
        } else {
            self.unary(("i32::from("@ + self.top().code + " == 0)"@), ValType::I32)
        }
    }

    pub open spec fn compare_signed(self, op: Seq<char>) -> GenR {
        if !self.has(2) {
            Err(FailV::StackUnderflow)
        } else {
            self.binary(("i32::from("@ + self.below(1).code + " "@ + op + " "@ + self.top().code
                + ")"@), ValType::I32)
        }
    }

    pub open spec fn compare_unsigned(self, op: Seq<char>) -> GenR {
        if !self.has(2) {
            Err(FailV::StackUnderflow)
        } else {
            match unsigned_text(self.below(1).ty) {
                Err(e) => Err(e),
                Ok(u) => self.binary(
                    ("i32::from(("@ + self.below(1).code + " as "@ + u + ") "@ + op + " ("@
                        + self.top().code + " as "@ + u + "))"@),
                    ValType::I32,
                ),
            }
        }
    }

    pub open spec fn shift_op(self, method: Seq<char>) -> GenR {
        if !self.has(2) {
            Err(FailV::StackUnderflow)
        } else {
            self.binary(
                (self.below(1).code + "."@ + method + "("@ + self.top().code + " as u32)"@),
                self.below(1).ty,
            )
        }
    }

    pub open spec fn div_signed(self) -> GenR {
        if !self.has(2) {
            Err(FailV::StackUnderflow)
        } else {
            self.drop(2).materialized(
                (self.below(1).code + " / "@ + self.top().code),
                self.below(1).ty,
            )
        }
    }

    pub open spec fn rem_signed(self) -> GenR {
        if !self.has(2) {
            Err(FailV::StackUnderflow)
        } else {
            self.drop(2).materialized(
                (self.below(1).code + ".wrapping_rem("@ + self.top().code + ")"@),
                self.below(1).ty,
            )
        }
    }

    pub open spec fn div_rem_unsigned(self, op: Seq<char>) -> GenR {
        if !self.has(2) {
            Err(FailV::StackUnderflow)
        } else {
            match unsigned_text(self.below(1).ty) {
                Err(e) => Err(e),
                Ok(u) => match self.rust_type(self.below(1).ty) {
                    Err(e) => Err(e),
                    Ok(s) => self.drop(2).materialized(
                        ("(("@ + self.below(1).code + " as "@ + u + ") "@ + op + " ("@
                            + self.top().code + " as "@ + u + ")) as "@ + s),
                        self.below(1).ty,
                    ),
                },
            }
        }
    }

    pub open spec fn unsigned_shift(self, method: Seq<char>) -> GenR {
        if !self.has(2) {
            Err(FailV::StackUnderflow)
        } else {
            match unsigned_text(self.below(1).ty) {
                Err(e) => Err(e),
                Ok(u) => match self.rust_type(self.below(1).ty) {
                    Err(e) => Err(e),
                    Ok(s) => self.binary(
                        ("(("@ + self.below(1).code + " as "@ + u + ")."@ + method + "("@
                            + self.top().code + " as u32) as "@ + s + ")"@),
                        self.below(1).ty,
                    ),
                },
            }
        }
    }

    pub open spec fn call_rt_binop(self, rt: Rt) -> GenR {
        if !self.has(2) {
            Err(FailV::StackUnderflow)
        } else {
            self.using_rt(rt).binary(
                (rt_text(rt) + "("@ + self.below(1).code + ", "@ + self.top().code + ")"@),
                self.below(1).ty,
            )
        }
    }

    pub open spec fn call_rt_unop(self, rt: Rt, ty: ValType) -> GenR {
        if !self.has(1) {
            Err(FailV::StackUnderflow)
        } else {
            self.using_rt(rt).unary((rt_text(rt) + "("@ + self.top().code + ")"@), ty)
        }
    }

    pub open spec fn call_rt_unop_trapping(self, rt: Rt, ty: ValType) -> GenR {
        if !self.has(1) {
            Err(FailV::StackUnderflow)
        } else {
            self.drop(1).using_rt(rt).materialized((rt_text(rt) + "("@ + self.top().code
                + ")"@), ty)
        }
    }

    pub open spec fn unop_method(self, method: Seq<char>) -> GenR {
        if !self.has(1) {
            Err(FailV::StackUnderflow)
        } else {
            self.unary((self.top().code + "."@ + method + "()"@), self.top().ty)
        }
    }

    pub open spec fn unop_neg(self) -> GenR {
        if !self.has(1) {
            Err(FailV::StackUnderflow)
        } else {
            self.unary(("(-"@ + self.top().code + ")"@), self.top().ty)
        }
    }

    pub open spec fn convert(self, ty: ValType, w: Wrap) -> GenR {
        if !self.has(1) {
            Err(FailV::StackUnderflow)
        } else {
            self.unary(wrapped(w, self.top().code), ty)
        }
    }

    pub open spec fn select(self) -> GenR {
        if !self.has(3) {
            Err(FailV::StackUnderflow)
        } else {
            self.drop(3).combined(
                ("(if "@ + self.top().code + " != 0 { "@ + self.below(2).code + " } else { "@
                    + self.below(1).code + " })"@),
                self.below(2).ty,
                self.top().stable && self.below(2).stable && self.below(1).stable,
            )
        }
    }
}

/// Popping one operand after another drops them together.
pub proof fn lemma_drop_twice(s: GenV, a: int, b: int)
    requires
        0 <= a,
        0 <= b,
        s.has(a + b),
    ensures
        s.drop(a).drop(b) == s.drop(a + b),
        s.drop(a).has(b),
        b > 0 ==> s.drop(a).top() == s.below(a),
{
    assert(s.drop(a).drop(b).stack =~= s.drop(a + b).stack);
}

impl<'a> FuncGen<'a> {
    /// Pops the two operands on top: the lower and the upper one.
    pub fn pop2(&mut self) -> (r: Result<(crate::codegen::ir::Val, crate::codegen::ir::Val), TranspileError>)
        requires
            old(self).wf(),
        ensures
            if old(self)@.has(2) {
                r matches Ok((a, b)) && a@ == old(self)@.below(1) && b@ == old(self)@.top()
                    && final(self)@ == old(self)@.drop(2)
            } else {
                r is Err && r->Err_0@ == FailV::StackUnderflow
            },
            r is Ok ==> final(self).wf(),
    {
        let rhs = self.pop()?;
        let lhs = self.pop()?;
        proof {
            lemma_drop_twice(old(self)@, 1, 1);
        }
        Ok((lhs, rhs))
    }

    /// A binary method call: the result keeps the operand type.
    pub fn binop_method(&mut self, method: &str) -> (r: Result<(), TranspileError>)
        requires
            old(self).wf(),
        ensures
            gen_result(r, final(self)@, old(self)@.binop_method(method@)),
            r is Ok ==> final(self).wf(),
    {
        let (lhs, rhs) = self.pop2()?;
        self.push_combined(
            Buf::lit(&lhs.code).s(".").s(method).s("(").s(&rhs.code).s(")").end(),
            lhs.ty,
            lhs.stable && rhs.stable,
        )
    }

    /// A binary operator: the result keeps the operand type.
    pub fn binop_infix(&mut self, op: &str) -> (r: Result<(), TranspileError>)
        requires
            old(self).wf(),
        ensures
            gen_result(r, final(self)@, old(self)@.binop_infix(op@)),
            r is Ok ==> final(self).wf(),
    {
        let (lhs, rhs) = self.pop2()?;
        self.push_combined(
            Buf::lit("(").s(&lhs.code).s(" ").s(op).s(" ").s(&rhs.code).s(")").end(),
            lhs.ty,
            lhs.stable && rhs.stable,
        )
    }

    /// A test for zero.
    pub fn compare_zero(&mut self) -> (r: Result<(), TranspileError>)
        requires
            old(self).wf(),
        ensures
            gen_result(r, final(self)@, old(self)@.compare_zero()),
            r is Ok ==> final(self).wf(),
    {
        let a = self.pop()?;
        self.push_combined(Buf::lit("i32::from(").s(&a.code).s(" == 0)")
            .end(), ValType::I32, a.stable)
    }

    /// A comparison of the operands as they are.
    pub fn compare_signed(&mut self, op: &str) -> (r: Result<(), TranspileError>)
        requires
            old(self).wf(),
        ensures
            gen_result(r, final(self)@, old(self)@.compare_signed(op@)),
            r is Ok ==> final(self).wf(),
    {
        let (lhs, rhs) = self.pop2()?;
        self.push_combined(
            Buf::lit("i32::from(").s(&lhs.code).s(" ").s(op).s(" ").s(&rhs.code).s(")").end(),
            ValType::I32,
            lhs.stable && rhs.stable,
        )
    }

    /// A comparison of the operands reinterpreted as the unsigned integer of their
    /// width.
    pub fn compare_unsigned(&mut self, op: &str) -> (r: Result<(), TranspileError>)
        requires
            old(self).wf(),
        ensures
            gen_result(r, final(self)@, old(self)@.compare_unsigned(op@)),
            r is Ok ==> final(self).wf(),
    {
        let (lhs, rhs) = self.pop2()?;
        let unsigned = unsigned_type(lhs.ty)?;
        self.push_combined(
            Buf::lit("i32::from((").s(&lhs.code).s(" as ").s(unsigned).s(") ").s(op).s(" (")
                .s(&rhs.code).s(" as ").s(unsigned).s("))").end(),
            ValType::I32,
            lhs.stable && rhs.stable,
        )
    }

    /// A shift or rotate: `lhs.method(rhs as u32)`. `wrapping_shl`/`wrapping_shr`
    /// and `rotate_left`/`rotate_right` all take the count mod the bit width, so
    /// this matches wasm's masked shift/rotate count for both i32 and i64.
    pub fn shift_op(&mut self, method: &str) -> (r: Result<(), TranspileError>)
        requires
            old(self).wf(),
        ensures
            gen_result(r, final(self)@, old(self)@.shift_op(method@)),
            r is Ok ==> final(self).wf(),
    {
        let (lhs, rhs) = self.pop2()?;
        self.push_combined(
            Buf::lit(&lhs.code).s(".").s(method).s("(").s(&rhs.code).s(" as u32)").end(),
            lhs.ty,
            lhs.stable && rhs.stable,
        )
    }

    /// Signed division. Rust's `/` panics on both a zero divisor and
    /// `iN::MIN / -1`, matching the two wasm `div_s` traps.
    pub fn div_signed(&mut self) -> (r: Result<(), TranspileError>)
        requires
            old(self).wf(),
        ensures
            gen_result(r, final(self)@, old(self)@.div_signed()),
            r is Ok ==> final(self).wf(),
    {
        let (lhs, rhs) = self.pop2()?;
        self.materialize(Buf::lit(&lhs.code).s(" / ").s(&rhs.code).end(), lhs.ty)
    }

    /// Signed remainder. `wrapping_rem` panics on a zero divisor and yields 0
    /// for `iN::MIN % -1`, matching wasm `rem_s`.
    pub fn rem_signed(&mut self) -> (r: Result<(), TranspileError>)
        requires
            old(self).wf(),
        ensures
            gen_result(r, final(self)@, old(self)@.rem_signed()),
            r is Ok ==> final(self).wf(),
    {
        let (lhs, rhs) = self.pop2()?;
        self.materialize(Buf::lit(&lhs.code).s(".wrapping_rem(").s(&rhs.code).s(")").end(), lhs.ty)
    }

    /// Unsigned division (`op` = `/`) or remainder (`op` = `%`): reinterpret both
    /// operands as the unsigned integer of their width, apply `op` (which panics
    /// on a zero divisor), then reinterpret back to the signed type.
    pub fn div_rem_unsigned(&mut self, op: &str) -> (r: Result<(), TranspileError>)
        requires
            old(self).wf(),
        ensures
            gen_result(r, final(self)@, old(self)@.div_rem_unsigned(op@)),
            r is Ok ==> final(self).wf(),
    {
        let (lhs, rhs) = self.pop2()?;
        let unsigned = unsigned_type(lhs.ty)?;
        let signed = self.rust_type(lhs.ty)?;
        self.materialize(
            Buf::lit("((").s(&lhs.code).s(" as ").s(unsigned).s(") ").s(op).s(" (").s(&rhs.code)
                .s(" as ").s(unsigned).s(")) as ").s(signed).end(),
            lhs.ty,
        )
    }

    /// A logical (unsigned) shift right: shift the unsigned reinterpretation so
    /// the high bits fill with zero, then reinterpret back to the signed type.
    /// Shifts do not trap, so the value stays a (stable) inline expression.
    pub fn unsigned_shift(&mut self, method: &str) -> (r: Result<(), TranspileError>)
        requires
            old(self).wf(),
        ensures
            gen_result(r, final(self)@, old(self)@.unsigned_shift(method@)),
            r is Ok ==> final(self).wf(),
    {
        let (lhs, rhs) = self.pop2()?;
        let unsigned = unsigned_type(lhs.ty)?;
        let signed = self.rust_type(lhs.ty)?;
        self.push_combined(
            Buf::lit("((").s(&lhs.code).s(" as ").s(unsigned).s(").").s(method).s("(").s(&rhs.code)
                .s(" as u32) as ").s(signed).s(")").end(),
            lhs.ty,
            lhs.stable && rhs.stable,
        )
    }

    /// A binary call to a free-function runtime helper `name(lhs, rhs)` (used
    /// for float `min`/`max`, whose wasm semantics differ from Rust's). The
    /// helpers are pure, so the result stays stable when both operands are.
    pub fn call_rt_binop(&mut self, rt: Rt) -> (r: Result<(), TranspileError>)
        requires
            old(self).wf(),
        ensures
            gen_result(r, final(self)@, old(self)@.call_rt_binop(rt)),
            r is Ok ==> final(self).wf(),
    {
        let (lhs, rhs) = self.pop2()?;
        self.use_rt(rt);
        self.push_combined(
            Buf::lit(rt_name(rt)).s("(").s(&lhs.code).s(", ").s(&rhs.code).s(")").end(),
            lhs.ty,
            lhs.stable && rhs.stable,
        )
    }

    /// A unary call to a pure runtime helper.
    pub fn call_rt_unop(&mut self, rt: Rt, ty: ValType) -> (r: Result<(), TranspileError>)
        requires
            old(self).wf(),
        ensures
            gen_result(r, final(self)@, old(self)@.call_rt_unop(rt, ty)),
            r is Ok ==> final(self).wf(),
    {
        let a = self.pop()?;
        self.use_rt(rt);
        self.push_combined(Buf::lit(rt_name(rt)).s("(").s(&a.code).s(")").end(), ty, a.stable)
    }

    /// A unary call to a possibly-trapping runtime helper (the non-saturating
    /// float->int truncations, which trap on NaN or an out-of-range operand).
    /// Like div/rem the result is materialised here so the trap fires in
    /// program order rather than being lost if the value is later dropped.
    pub fn call_rt_unop_trapping(&mut self, rt: Rt, ty: ValType) -> (r: Result<
        (),
        TranspileError,
    >)
        requires
            old(self).wf(),
        ensures
            gen_result(r, final(self)@, old(self)@.call_rt_unop_trapping(rt, ty)),
            r is Ok ==> final(self).wf(),
    {
        let a = self.pop()?;
        self.use_rt(rt);
        self.materialize(Buf::lit(rt_name(rt)).s("(").s(&a.code).s(")").end(), ty)
    }

    /// A unary method call `operand.method()` (float math like `abs`, `sqrt`).
    pub fn unop_method(&mut self, method: &str) -> (r: Result<(), TranspileError>)
        requires
            old(self).wf(),
        ensures
            gen_result(r, final(self)@, old(self)@.unop_method(method@)),
            r is Ok ==> final(self).wf(),
    {
        let a = self.pop()?;
        self.push_combined(Buf::lit(&a.code).s(".").s(method).s("()").end(), a.ty, a.stable)
    }

    /// Floating-point negation, parenthesised so it composes as a subexpression.
    pub fn unop_neg(&mut self) -> (r: Result<(), TranspileError>)
        requires
            old(self).wf(),
        ensures
            gen_result(r, final(self)@, old(self)@.unop_neg()),
            r is Ok ==> final(self).wf(),
    {
        let a = self.pop()?;
        self.push_combined(Buf::lit("(-").s(&a.code).s(")").end(), a.ty, a.stable)
    }

    /// A unary numeric conversion: pop one operand, build the converted
    /// expression from its code, and push it with `result_ty`. Used for
    /// wrap/extend, int<->float conversions, demote/promote, reinterpret, the
    /// saturating truncations and the bit counts — all pure and non-trapping.
    pub fn convert(&mut self, result_ty: ValType, w: Wrap) -> (r: Result<(), TranspileError>)
        requires
            old(self).wf(),
        ensures
            gen_result(r, final(self)@, old(self)@.convert(result_ty, w)),
            r is Ok ==> final(self).wf(),
    {
        let a = self.pop()?;
        self.push_combined(wrap_code(w, a.code.as_str()), result_ty, a.stable)
    }

    /// wasm's bit-counting unary ops (`clz`/`ctz`/`popcnt`). Rust's
    /// `leading_zeros`/`trailing_zeros`/`count_ones` match wasm's semantics
    /// exactly — including `clz(0)` and `ctz(0)` returning the full width — but
    /// return `u32`, so the count is cast back to the operand's integer type.
    pub fn bit_count(&mut self, ty: ValType, method: &'static str, target: &'static str) -> (r:
        Result<(), TranspileError>)
        requires
            old(self).wf(),
        ensures
            gen_result(r, final(self)@, old(self)@.convert(ty, Wrap::Count { method, target })),
            r is Ok ==> final(self).wf(),
    {
        self.convert(ty, Wrap::Count { method, target })
    }

    /// A single `operand as target` cast (`target` is the Rust primitive name),
    /// pushing the result as `result_ty`.
    pub fn cast_as(&mut self, result_ty: ValType, target: &'static str) -> (r: Result<
        (),
        TranspileError,
    >)
        requires
            old(self).wf(),
        ensures
            gen_result(r, final(self)@, old(self)@.convert(result_ty, Wrap::As { target })),
            r is Ok ==> final(self).wf(),
    {
        self.convert(result_ty, Wrap::As { target })
    }

    /// A cast that first reinterprets `operand as via` and then casts the result
    /// `as target`. Used for unsigned int<->float conversions and byte/half-word
    /// sign extension.
    pub fn cast_through(
        &mut self,
        result_ty: ValType,
        via: &'static str,
        target: &'static str,
    ) -> (r: Result<(), TranspileError>)
        requires
            old(self).wf(),
        ensures
            gen_result(r, final(self)@, old(self)@.convert(result_ty, Wrap::Through { via,
                target })),
            r is Ok ==> final(self).wf(),
    {
        self.convert(result_ty, Wrap::Through { via, target })
    }

    /// A float->int reinterpret: read the operand's raw bits and cast them to the
    /// signed integer `target` of the same width.
    pub fn reinterpret(&mut self, result_ty: ValType, target: &'static str) -> (r: Result<
        (),
        TranspileError,
    >)
        requires
            old(self).wf(),
        ensures
            gen_result(r, final(self)@, old(self)@.convert(result_ty, Wrap::Bits { target })),
            r is Ok ==> final(self).wf(),
    {
        self.convert(result_ty, Wrap::Bits { target })
    }

    /// A choice between two operands.
    pub fn select(&mut self) -> (r: Result<(), TranspileError>)
        requires
            old(self).wf(),
        ensures
            gen_result(r, final(self)@, old(self)@.select()),
            r is Ok ==> final(self).wf(),
    {
        let cond = self.pop()?;
        let (a, b) = self.pop2()?;
        proof {
            lemma_drop_twice(old(self)@, 1, 2);
        }
        // Parenthesised so the `if` expression composes safely when this value
        // is later embedded in a larger expression (e.g. as an operator arm).
        self.push_combined(
            Buf::lit("(if ").s(&cond.code).s(" != 0 { ").s(&a.code).s(" } else { ").s(&b.code)
                .s(" })").end(),
            a.ty,
            cond.stable && a.stable && b.stable,
        )
    }
}

} // verus!
