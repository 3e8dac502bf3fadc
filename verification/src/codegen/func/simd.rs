//! SIMD/v128 lowering. A v128 is a `u128` whose bits are the little-endian
//! bytes of the vector, so lane access shifts/masks the `u128` and reinterprets
//! the relevant slice as the lane type. Whole-register bitwise operations map
//! straight to `u128` operators. Splat helpers live with the other pure runtime
//! free functions; everything here is inline.

use vstd::prelude::*;

use crate::codegen::func::numeric::lemma_drop_twice;
use crate::codegen::func::state::{gen_result, FuncGen, GenR, GenV};
use crate::error::{FailV, TranspileError};
use crate::ops::{ExtractOp, ReplaceOp};
use crate::text::{dec, Buf};
use crate::wasm::ValType;

verus! {

/// The number that bytes spell, the lowest first.
pub open spec fn le_value(bytes: Seq<u8>) -> nat
    decreases bytes.len(),
{
    if bytes.len() == 0 {
        0
    } else {
        bytes[0] as nat + 256 * le_value(bytes.skip(1))
    }
}

proof fn lemma_le_value(bytes: Seq<u8>)
    ensures
        le_value(bytes) < vstd::arithmetic::power::pow(256, bytes.len()),
    decreases bytes.len(),
{
    broadcast use vstd::arithmetic::power::lemma_pow0;

    if bytes.len() > 0 {
        lemma_le_value(bytes.skip(1));
        let p = vstd::arithmetic::power::pow(256, (bytes.len() - 1) as nat);
        vstd::arithmetic::power::lemma_pow_adds(256, 1, (bytes.len() - 1) as nat);
        vstd::arithmetic::power::lemma_pow1(256);
        assert(vstd::arithmetic::power::pow(256, bytes.len()) == 256 * p);
        assert(bytes[0] as int + 256 * le_value(bytes.skip(1)) < 256 * p) by (nonlinear_arith)
            requires
                le_value(bytes.skip(1)) < p,
                bytes[0] < 256,
        ;
    } else {
        vstd::arithmetic::power::lemma_pow0(256);
    }
}

/// The `u128` that 16 bytes spell, the lowest first.
pub fn le_u128(bytes: &[u8; 16]) -> (r: u128)
    ensures
        r as nat == le_value(bytes@),
{
    let mut v: u128 = 0;
    let mut i: usize = 16;
    assert(bytes@.skip(16) =~= Seq::<u8>::empty());
    while i > 0
        invariant
            i <= 16,
            bytes@.len() == 16,
            v as nat == le_value(bytes@.skip(i as int)),
        decreases i,
    {
        let ghost rest = bytes@.skip(i as int);
        let ghost now = bytes@.skip(i - 1);
        proof {
            assert(now.skip(1) =~= rest);
            assert(now[0] == bytes@[i - 1]);
            lemma_le_value(rest);
            lemma_pow256(rest.len());
        }
        v = v * 256 + bytes[i - 1] as u128;
        i -= 1;
    }
    assert(bytes@.skip(0) =~= bytes@);
    v
}

/// Fifteen bytes leave room for one more in a `u128`.
proof fn lemma_pow256(n: nat)
    requires
        n <= 15,
    ensures
        vstd::arithmetic::power::pow(256, n) <= 0x1_00_0000_0000_0000_0000_0000_0000_0000,
{
    vstd::arithmetic::power::lemma_pow_increases(256, n, 15);
    assert(vstd::arithmetic::power::pow(256, 15) == 0x1_00_0000_0000_0000_0000_0000_0000_0000) by {
        lemma_pow256_step(15);
    }
}

/// 256 to the power of `n`, multiplied out.
proof fn lemma_pow256_step(n: nat)
    requires
        n <= 15,
    ensures
        vstd::arithmetic::power::pow(256, n) == pow256(n),
    decreases n,
{
    if n == 0 {
        vstd::arithmetic::power::lemma_pow0(256);
    } else {
        lemma_pow256_step((n - 1) as nat);
        vstd::arithmetic::power::lemma_pow_adds(256, 1, (n - 1) as nat);
        vstd::arithmetic::power::lemma_pow1(256);
    }
}

spec fn pow256(n: nat) -> int {
    if n == 0 {
        1
    } else if n == 1 {
        0x100
    } else if n == 2 {
        0x1_0000
    } else if n == 3 {
        0x100_0000
    } else if n == 4 {
        0x1_0000_0000
    } else if n == 5 {
        0x100_0000_0000
    } else if n == 6 {
        0x1_0000_0000_0000
    } else if n == 7 {
        0x100_0000_0000_0000
    } else if n == 8 {
        0x1_0000_0000_0000_0000
    } else if n == 9 {
        0x100_0000_0000_0000_0000
    } else if n == 10 {
        0x1_0000_0000_0000_0000_0000
    } else if n == 11 {
        0x100_0000_0000_0000_0000_0000
    } else if n == 12 {
        0x1_0000_0000_0000_0000_0000_0000
    } else if n == 13 {
        0x100_0000_0000_0000_0000_0000_0000
    } else if n == 14 {
        0x1_0000_0000_0000_0000_0000_0000_0000
    } else {
        0x100_0000_0000_0000_0000_0000_0000_0000
    }
}

/// The number of bits in the lanes that an extract reads.
pub open spec fn extract_bits(op: ExtractOp) -> u32 {
    match op {
        ExtractOp::I8x16ExtractLaneS => 8,
        ExtractOp::I8x16ExtractLaneU => 8,
        ExtractOp::I16x8ExtractLaneS => 16,
        ExtractOp::I16x8ExtractLaneU => 16,
        ExtractOp::I32x4ExtractLane => 32,
        ExtractOp::I64x2ExtractLane => 64,
        ExtractOp::F32x4ExtractLane => 32,
        ExtractOp::F64x2ExtractLane => 64,
    }
}

/// The type of an extracted lane.
pub open spec fn extract_type(op: ExtractOp) -> ValType {
    match op {
        ExtractOp::I64x2ExtractLane => ValType::I64,
        ExtractOp::F32x4ExtractLane => ValType::F32,
        ExtractOp::F64x2ExtractLane => ValType::F64,
        _ => ValType::I32,
    }
}

/// The lane out of the register shifted down to it, `s`. The `_s`/`_u` extracts
/// sign- or zero-extend a sub-word lane into the i32 result.
pub open spec fn extract_text(op: ExtractOp, s: Seq<char>) -> Seq<char> {
    match op {
        ExtractOp::I8x16ExtractLaneS => ("("@ + s + " as u8 as i8 as i32)"@),
        ExtractOp::I8x16ExtractLaneU => ("("@ + s + " as u8 as i32)"@),
        ExtractOp::I16x8ExtractLaneS => ("("@ + s + " as u16 as i16 as i32)"@),
        ExtractOp::I16x8ExtractLaneU => ("("@ + s + " as u16 as i32)"@),
        ExtractOp::I32x4ExtractLane => ("("@ + s + " as u32 as i32)"@),
        ExtractOp::I64x2ExtractLane => ("("@ + s + " as u64 as i64)"@),
        ExtractOp::F32x4ExtractLane => ("f32::from_bits("@ + s + " as u32)"@),
        ExtractOp::F64x2ExtractLane => ("f64::from_bits("@ + s + " as u64)"@),
    }
}

/// The number of bits in the lanes that a replacement writes.
pub open spec fn replace_bits(op: ReplaceOp) -> u32 {
    match op {
        ReplaceOp::I8x16ReplaceLane => 8,
        ReplaceOp::I16x8ReplaceLane => 16,
        ReplaceOp::I32x4ReplaceLane => 32,
        ReplaceOp::I64x2ReplaceLane => 64,
        ReplaceOp::F32x4ReplaceLane => 32,
        ReplaceOp::F64x2ReplaceLane => 64,
    }
}

/// The all-ones mask of one lane.
pub open spec fn lane_mask(op: ReplaceOp) -> Seq<char> {
    match op {
        ReplaceOp::I8x16ReplaceLane => "0xFFu128"@,
        ReplaceOp::I16x8ReplaceLane => "0xFFFFu128"@,
        ReplaceOp::I32x4ReplaceLane => "0xFFFFFFFFu128"@,
        ReplaceOp::I64x2ReplaceLane => "0xFFFFFFFFFFFFFFFFu128"@,
        ReplaceOp::F32x4ReplaceLane => "0xFFFFFFFFu128"@,
        ReplaceOp::F64x2ReplaceLane => "0xFFFFFFFFFFFFFFFFu128"@,
    }
}

/// The scalar `x` as the bits of a lane.
pub open spec fn lane_bits_text(op: ReplaceOp, x: Seq<char>) -> Seq<char> {
    match op {
        ReplaceOp::I8x16ReplaceLane => (x + " as u8 as u128"@),
        ReplaceOp::I16x8ReplaceLane => (x + " as u16 as u128"@),
        ReplaceOp::I32x4ReplaceLane => (x + " as u32 as u128"@),
        ReplaceOp::I64x2ReplaceLane => (x + " as u64 as u128"@),
        ReplaceOp::F32x4ReplaceLane => (x + ".to_bits() as u128"@),
        ReplaceOp::F64x2ReplaceLane => (x + ".to_bits() as u128"@),
    }
}

impl GenV {
    pub open spec fn extract_lane(self, op: ExtractOp, lane: u8) -> GenR {
        if !self.has(1) {
            Err(FailV::StackUnderflow)
        } else {
            let shifted = ("("@ + self.top().code + " >> "@ + dec((lane * extract_bits(op)) as nat)
                + ")"@);
            self.unary(extract_text(op, shifted), extract_type(op))
        }
    }

    pub open spec fn replace_lane(self, op: ReplaceOp, lane: u8) -> GenR {
        if !self.has(2) {
            Err(FailV::StackUnderflow)
        } else {
            let shift = (lane * replace_bits(op)) as nat;
            self.binary(
                ("(("@ + self.below(1).code + " & !("@ + lane_mask(op) + " << "@
                    + dec(shift as nat) + ")) | (("@ + lane_bits_text(op, self.top().code)
                    + ") << "@ + dec(shift as nat) + "))"@),
                ValType::V128,
            )
        }
    }

    pub open spec fn v128_not(self) -> GenR {
        if !self.has(1) {
            Err(FailV::StackUnderflow)
        } else {
            self.unary(("(!"@ + self.top().code + ")"@), ValType::V128)
        }
    }

    pub open spec fn v128_andnot(self) -> GenR {
        if !self.has(2) {
            Err(FailV::StackUnderflow)
        } else {
            self.binary(("("@ + self.below(1).code + " & !"@ + self.top().code
                + ")"@), ValType::V128)
        }
    }

    pub open spec fn v128_bitselect(self) -> GenR {
        if !self.has(3) {
            Err(FailV::StackUnderflow)
        } else {
            let ct = self.temp();
            self.drop(3).temp_taken().line(("let "@ + ct + ": u128 = "@ + self.top().code
                + ";"@)).combined(
                ("(("@ + self.below(2).code + " & "@ + ct + ") | ("@ + self.below(1).code + " & !"@
                    + ct + "))"@),
                ValType::V128,
                self.below(2).stable && self.below(1).stable && self.top().stable,
            )
        }
    }

    pub open spec fn v128_any_true(self) -> GenR {
        if !self.has(1) {
            Err(FailV::StackUnderflow)
        } else {
            self.unary(("i32::from("@ + self.top().code + " != 0)"@), ValType::I32)
        }
    }

    pub open spec fn call_simd_binop(self, name: Seq<char>) -> GenR {
        if !self.has(2) {
            Err(FailV::StackUnderflow)
        } else {
            self.using_simd(name).binary(
                (name + "("@ + self.below(1).code + ", "@ + self.top().code + ")"@),
                ValType::V128,
            )
        }
    }

    pub open spec fn call_simd_ternop(self, name: Seq<char>) -> GenR {
        if !self.has(3) {
            Err(FailV::StackUnderflow)
        } else {
            self.drop(3).using_simd(name).combined(
                (name + "("@ + self.below(2).code + ", "@ + self.below(1).code + ", "@
                    + self.top().code + ")"@),
                ValType::V128,
                self.below(2).stable && self.below(1).stable && self.top().stable,
            )
        }
    }

    pub open spec fn call_simd_unop(self, name: Seq<char>, ty: ValType) -> GenR {
        if !self.has(1) {
            Err(FailV::StackUnderflow)
        } else {
            self.using_simd(name).unary((name + "("@ + self.top().code + ")"@), ty)
        }
    }

    pub open spec fn call_simd_shuffle(self, lanes: Seq<u8>) -> GenR {
        if !self.has(2) {
            Err(FailV::StackUnderflow)
        } else {
            self.using_simd("i8x16_shuffle"@).binary(
                ("i8x16_shuffle("@ + self.below(1).code + ", "@ + self.top().code + ", "@
                    + dec(le_value(lanes) as nat) + "u128)"@),
                ValType::V128,
            )
        }
    }

    pub open spec fn v128_mask_op(self, op: Seq<char>, mask: Seq<char>) -> GenR {
        if !self.has(1) {
            Err(FailV::StackUnderflow)
        } else {
            self.unary(("("@ + self.top().code + " "@ + op + " 0x"@ + mask
                + "u128)"@), ValType::V128)
        }
    }

    pub open spec fn v128_const(self, bytes: Seq<u8>) -> GenV {
        self.push((dec(le_value(bytes) as nat) + "u128"@), ValType::V128, true)
    }
}

fn extract_width(op: ExtractOp) -> (r: u32)
    ensures
        r == extract_bits(op),
        r <= 64,
{
    match op {
        ExtractOp::I8x16ExtractLaneS => 8,
        ExtractOp::I8x16ExtractLaneU => 8,
        ExtractOp::I16x8ExtractLaneS => 16,
        ExtractOp::I16x8ExtractLaneU => 16,
        ExtractOp::I32x4ExtractLane => 32,
        ExtractOp::I64x2ExtractLane => 64,
        ExtractOp::F32x4ExtractLane => 32,
        ExtractOp::F64x2ExtractLane => 64,
    }
}

fn extract_code(op: ExtractOp, s: &str) -> (r: String)
    ensures
        r@ == extract_text(op, s@),
{
    match op {
        ExtractOp::I8x16ExtractLaneS => Buf::lit("(").s(s).s(" as u8 as i8 as i32)").end(),
        ExtractOp::I8x16ExtractLaneU => Buf::lit("(").s(s).s(" as u8 as i32)").end(),
        ExtractOp::I16x8ExtractLaneS => Buf::lit("(").s(s).s(" as u16 as i16 as i32)").end(),
        ExtractOp::I16x8ExtractLaneU => Buf::lit("(").s(s).s(" as u16 as i32)").end(),
        ExtractOp::I32x4ExtractLane => Buf::lit("(").s(s).s(" as u32 as i32)").end(),
        ExtractOp::I64x2ExtractLane => Buf::lit("(").s(s).s(" as u64 as i64)").end(),
        ExtractOp::F32x4ExtractLane => Buf::lit("f32::from_bits(").s(s).s(" as u32)").end(),
        ExtractOp::F64x2ExtractLane => Buf::lit("f64::from_bits(").s(s).s(" as u64)").end(),
    }
}

fn replace_width(op: ReplaceOp) -> (r: u32)
    ensures
        r == replace_bits(op),
        r <= 64,
{
    match op {
        ReplaceOp::I8x16ReplaceLane => 8,
        ReplaceOp::I16x8ReplaceLane => 16,
        ReplaceOp::I32x4ReplaceLane => 32,
        ReplaceOp::I64x2ReplaceLane => 64,
        ReplaceOp::F32x4ReplaceLane => 32,
        ReplaceOp::F64x2ReplaceLane => 64,
    }
}

fn lane_mask_str(op: ReplaceOp) -> (r: &'static str)
    ensures
        r@ == lane_mask(op),
{
    match op {
        ReplaceOp::I8x16ReplaceLane => "0xFFu128",
        ReplaceOp::I16x8ReplaceLane => "0xFFFFu128",
        ReplaceOp::I32x4ReplaceLane => "0xFFFFFFFFu128",
        ReplaceOp::I64x2ReplaceLane => "0xFFFFFFFFFFFFFFFFu128",
        ReplaceOp::F32x4ReplaceLane => "0xFFFFFFFFu128",
        ReplaceOp::F64x2ReplaceLane => "0xFFFFFFFFFFFFFFFFu128",
    }
}

fn lane_bits_code(op: ReplaceOp, x: &str) -> (r: String)
    ensures
        r@ == lane_bits_text(op, x@),
{
    match op {
        ReplaceOp::I8x16ReplaceLane => Buf::lit(x).s(" as u8 as u128").end(),
        ReplaceOp::I16x8ReplaceLane => Buf::lit(x).s(" as u16 as u128").end(),
        ReplaceOp::I32x4ReplaceLane => Buf::lit(x).s(" as u32 as u128").end(),
        ReplaceOp::I64x2ReplaceLane => Buf::lit(x).s(" as u64 as u128").end(),
        ReplaceOp::F32x4ReplaceLane => Buf::lit(x).s(".to_bits() as u128").end(),
        ReplaceOp::F64x2ReplaceLane => Buf::lit(x).s(".to_bits() as u128").end(),
    }
}

impl<'a> FuncGen<'a> {
    /// Extract one lane as a scalar. The lane's bits are shifted down to the low
    /// end of the `u128` and reinterpreted (truncating via `as` to the lane
    /// width) into the result type.
    pub fn extract_lane(&mut self, op: ExtractOp, lane: u8) -> (r: Result<(), TranspileError>)
        requires
            old(self).wf(),
        ensures
            gen_result(r, final(self)@, old(self)@.extract_lane(op, lane)),
            r is Ok ==> final(self).wf(),
    {
        let v = self.pop()?;
        let bits: u32 = extract_width(op);
        assert(lane * bits <= 255 * 64) by (nonlinear_arith)
            requires
                lane <= 255,
                bits <= 64,
        ;
        let shift: u32 = lane as u32 * bits;
        let shifted = Buf::lit("(").s(&v.code).s(" >> ").n(shift as u64).s(")").end();
        let ty = match op {
            ExtractOp::I64x2ExtractLane => ValType::I64,
            ExtractOp::F32x4ExtractLane => ValType::F32,
            ExtractOp::F64x2ExtractLane => ValType::F64,
            _ => ValType::I32,
        };
        self.push_combined(extract_code(op, shifted.as_str()), ty, v.stable)
    }

    /// Replace one lane with a scalar: clear the lane's bits with a shifted mask,
    /// then OR in the scalar (reinterpreted to the lane width) shifted into
    /// place.
    pub fn replace_lane(&mut self, op: ReplaceOp, lane: u8) -> (r: Result<(), TranspileError>)
        requires
            old(self).wf(),
        ensures
            gen_result(r, final(self)@, old(self)@.replace_lane(op, lane)),
            r is Ok ==> final(self).wf(),
    {
        let (v, x) = self.pop2()?;
        let bits: u32 = replace_width(op);
        assert(lane * bits <= 255 * 64) by (nonlinear_arith)
            requires
                lane <= 255,
                bits <= 64,
        ;
        let shift: u32 = lane as u32 * bits;
        let mask = lane_mask_str(op);
        let bits_code = lane_bits_code(op, x.code.as_str());
        self.push_combined(
            Buf::lit("((").s(&v.code).s(" & !(").s(mask).s(" << ").n(shift as u64).s(")) | ((")
                .s(&bits_code).s(") << ").n(shift as u64).s("))").end(),
            ValType::V128,
            v.stable && x.stable,
        )
    }

    /// `v128.not`: bitwise complement of the whole register.
    pub fn v128_not(&mut self) -> (r: Result<(), TranspileError>)
        requires
            old(self).wf(),
        ensures
            gen_result(r, final(self)@, old(self)@.v128_not()),
            r is Ok ==> final(self).wf(),
    {
        let v = self.pop()?;
        self.push_combined(Buf::lit("(!").s(&v.code).s(")").end(), ValType::V128, v.stable)
    }

    /// `v128.andnot`: `a & !b` over the whole register.
    pub fn v128_andnot(&mut self) -> (r: Result<(), TranspileError>)
        requires
            old(self).wf(),
        ensures
            gen_result(r, final(self)@, old(self)@.v128_andnot()),
            r is Ok ==> final(self).wf(),
    {
        let (a, b) = self.pop2()?;
        self.push_combined(Buf::lit("(").s(&a.code).s(" & !").s(&b.code).s(")")
            .end(), ValType::V128, a.stable && b.stable)
    }

    /// `v128.bitselect`: `(v1 & c) | (v2 & !c)`. `c` is read twice, so it is
    /// bound to a temporary to evaluate it exactly once.
    pub fn v128_bitselect(&mut self) -> (r: Result<(), TranspileError>)
        requires
            old(self).wf(),
        ensures
            gen_result(r, final(self)@, old(self)@.v128_bitselect()),
            r is Ok ==> final(self).wf(),
    {
        let c = self.pop()?;
        let (v1, v2) = self.pop2()?;
        proof {
            lemma_drop_twice(old(self)@, 1, 2);
        }
        let ct = self.fresh_temp();
        self.line(Buf::lit("let ").s(&ct).s(": u128 = ").s(&c.code).s(";").end());
        self.push_combined(
            Buf::lit("((").s(&v1.code).s(" & ").s(&ct).s(") | (").s(&v2.code).s(" & !").s(&ct)
                .s("))").end(),
            ValType::V128,
            v1.stable && v2.stable && c.stable,
        )
    }

    /// `v128.any_true`: 1 if any bit of the register is set, else 0.
    pub fn v128_any_true(&mut self) -> (r: Result<(), TranspileError>)
        requires
            old(self).wf(),
        ensures
            gen_result(r, final(self)@, old(self)@.v128_any_true()),
            r is Ok ==> final(self).wf(),
    {
        let v = self.pop()?;
        self.push_combined(Buf::lit("i32::from(").s(&v.code).s(" != 0)")
            .end(), ValType::I32, v.stable)
    }

    /// A binary lane-wise op `name(a, b) -> u128`: pop two v128 operands and push
    /// the helper call. Pure, so stable when both are.
    pub fn call_simd_binop(&mut self, name: &str) -> (r: Result<(), TranspileError>)
        requires
            old(self).wf(),
        ensures
            gen_result(r, final(self)@, old(self)@.call_simd_binop(name@)),
            r is Ok ==> final(self).wf(),
    {
        let (a, b) = self.pop2()?;
        self.use_simd(name);
        self.push_combined(Buf::lit(name).s("(").s(&a.code).s(", ").s(&b.code).s(")")
            .end(), ValType::V128, a.stable && b.stable)
    }

    /// A ternary lane-wise op `name(a, b, c) -> u128`: pop the three v128 operands
    /// (`c` is on top) and push the helper call. Used by the relaxed
    /// fused-multiply-add and dot-product-accumulate ops.
    pub fn call_simd_ternop(&mut self, name: &str) -> (r: Result<(), TranspileError>)
        requires
            old(self).wf(),
        ensures
            gen_result(r, final(self)@, old(self)@.call_simd_ternop(name@)),
            r is Ok ==> final(self).wf(),
    {
        let c = self.pop()?;
        let (a, b) = self.pop2()?;
        proof {
            lemma_drop_twice(old(self)@, 1, 2);
        }
        self.use_simd(name);
        self.push_combined(
            Buf::lit(name).s("(").s(&a.code).s(", ").s(&b.code).s(", ").s(&c.code).s(")").end(),
            ValType::V128,
            a.stable && b.stable && c.stable,
        )
    }

    /// A unary lane-wise op `name(a) -> u128`.
    pub fn call_simd_unop(&mut self, name: &str) -> (r: Result<(), TranspileError>)
        requires
            old(self).wf(),
        ensures
            gen_result(r, final(self)@, old(self)@.call_simd_unop(name@, ValType::V128)),
            r is Ok ==> final(self).wf(),
    {
        let a = self.pop()?;
        self.use_simd(name);
        self.push_combined(Buf::lit(name).s("(").s(&a.code).s(")").end(), ValType::V128, a.stable)
    }

    /// `i8x16.shuffle`: a binary op with a constant 16-byte index vector baked in
    /// as a third argument.
    pub fn call_simd_shuffle(&mut self, lanes: &[u8; 16]) -> (r: Result<(), TranspileError>)
        requires
            old(self).wf(),
        ensures
            gen_result(r, final(self)@, old(self)@.call_simd_shuffle(lanes@)),
            r is Ok ==> final(self).wf(),
    {
        let (a, b) = self.pop2()?;
        self.use_simd("i8x16_shuffle");
        let idx: u128 = le_u128(lanes);
        self.push_combined(
            Buf::lit("i8x16_shuffle(").s(a.code.as_str()).s(", ").s(b.code.as_str()).s(", ").wide(
                idx,
            ).s("u128)").end(),
            ValType::V128,
            a.stable && b.stable,
        )
    }

    /// A lane-reducing op `name(a: u128) -> i32`: pop the v128 operand and push
    /// the scalar result. Used by `all_true`/`bitmask`.
    pub fn call_simd_reduce(&mut self, name: &str) -> (r: Result<(), TranspileError>)
        requires
            old(self).wf(),
        ensures
            gen_result(r, final(self)@, old(self)@.call_simd_unop(name@, ValType::I32)),
            r is Ok ==> final(self).wf(),
    {
        let a = self.pop()?;
        self.use_simd(name);
        self.push_combined(Buf::lit(name).s("(").s(&a.code).s(")").end(), ValType::I32, a.stable)
    }

    /// A lane shift `name(a: u128, s: i32) -> u128`: pop the i32 shift count then
    /// the v128 operand.
    pub fn call_simd_shift(&mut self, name: &str) -> (r: Result<(), TranspileError>)
        requires
            old(self).wf(),
        ensures
            gen_result(r, final(self)@, old(self)@.call_simd_binop(name@)),
            r is Ok ==> final(self).wf(),
    {
        self.call_simd_binop(name)
    }

    /// A whole-register bitwise op against a constant `mask` (32 hexadecimal
    /// digits), used for float `neg` (`^` the lane sign bits) and `abs` (`&` the
    /// magnitude bits). These are exact sign-bit rewrites, so unlike the
    /// arithmetic lane helpers they need no per-lane loop and stay bit-exact even
    /// for NaN.
    pub fn v128_mask_op(&mut self, op: &str, mask: &str) -> (r: Result<(), TranspileError>)
        requires
            old(self).wf(),
        ensures
            gen_result(r, final(self)@, old(self)@.v128_mask_op(op@, mask@)),
            r is Ok ==> final(self).wf(),
    {
        let v = self.pop()?;
        self.push_combined(Buf::lit("(").s(&v.code).s(" ").s(op).s(" 0x").s(mask).s("u128)")
            .end(), ValType::V128, v.stable)
    }

    /// Push a `v128.const` literal from its 16 little-endian bytes.
    pub fn v128_const(&mut self, bytes: &[u8; 16])
        requires
            old(self).wf(),
        ensures
            final(self)@ == old(self)@.v128_const(bytes@),
            final(self).wf(),
    {
        let value: u128 = le_u128(bytes);
        let mut code = String::new();
        crate::text::push_dec(&mut code, value);
        code.append("u128");
        assert(code@ =~= dec(value as nat) + "u128"@);
        self.push(code, ValType::V128, true);
    }
}

} // verus!
