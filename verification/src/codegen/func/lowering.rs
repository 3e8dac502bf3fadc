//! Which lowering each operator without control flow takes.

use vstd::prelude::*;

use crate::codegen::func::numeric::Wrap;
use crate::codegen::func::state::{gen_result, FuncGen, GenR, GenV};
use crate::codegen::helpers::Helper;
use crate::codegen::runtime::Rt;
use crate::error::TranspileError;
use crate::ops::{
    ConvertOp, FloatOp, FloatTy, IntOp, IntTy, LaneOp, LoadLaneOp, LoadOp, StoreLaneOp, StoreOp,
};
use crate::wasm::{MemArg, ValType};

verus! {

/// How a conversion is lowered.
#[derive(Clone, Copy)]
pub enum ConvertRule {
    /// A pure expression around the operand.
    Pure { ty: ValType, wrap: Wrap },
    /// A runtime helper that traps.
    Trapping { rt: Rt, ty: ValType },
}

/// How a lane-wise operator is lowered.
#[derive(Clone, Copy)]
pub enum LaneRule {
    /// A call of a lane helper over one vector.
    Unary { name: &'static str },
    /// A call of a lane helper over one vector, with a scalar result.
    Reduce { name: &'static str },
    /// A call of a lane helper over two vectors.
    Binary { name: &'static str },
    /// A call of a lane helper over a vector and a shift count.
    Shift { name: &'static str },
    /// A call of a lane helper over three vectors.
    Ternary { name: &'static str },
    /// A scalar in every lane.
    Splat { rt: Rt },
    /// A bitwise operator over two registers.
    Infix { op: &'static str },
    /// A bitwise operator against a constant, in hexadecimal digits.
    Mask { op: &'static str, digits: &'static str },
    Not,
    AndNot,
    Choose,
    AnyTrue,
}

/// How each conversion is lowered.
pub open spec fn convert_rule(op: ConvertOp) -> ConvertRule {
    match op {
        ConvertOp::I32WrapI64 => {
            ConvertRule::Pure { ty: ValType::I32, wrap: Wrap::As { target: "i32" } }
        },
        ConvertOp::I64ExtendI32S => {
            ConvertRule::Pure { ty: ValType::I64, wrap: Wrap::As { target: "i64" } }
        },
        ConvertOp::I64ExtendI32U => {
            ConvertRule::Pure { ty: ValType::I64, wrap: Wrap::Through { via: "u32", target: "i64" } }
        },
        ConvertOp::I32Extend8S => {
            ConvertRule::Pure { ty: ValType::I32, wrap: Wrap::Through { via: "i8", target: "i32" } }
        },
        ConvertOp::I32Extend16S => {
            ConvertRule::Pure { ty: ValType::I32, wrap: Wrap::Through { via: "i16", target: "i32" } }
        },
        ConvertOp::I64Extend8S => {
            ConvertRule::Pure { ty: ValType::I64, wrap: Wrap::Through { via: "i8", target: "i64" } }
        },
        ConvertOp::I64Extend16S => {
            ConvertRule::Pure { ty: ValType::I64, wrap: Wrap::Through { via: "i16", target: "i64" } }
        },
        ConvertOp::I64Extend32S => {
            ConvertRule::Pure { ty: ValType::I64, wrap: Wrap::Through { via: "i32", target: "i64" } }
        },
        ConvertOp::F32ConvertI32S => {
            ConvertRule::Pure { ty: ValType::F32, wrap: Wrap::As { target: "f32" } }
        },
        ConvertOp::F32ConvertI64S => {
            ConvertRule::Pure { ty: ValType::F32, wrap: Wrap::As { target: "f32" } }
        },
        ConvertOp::F64ConvertI32S => {
            ConvertRule::Pure { ty: ValType::F64, wrap: Wrap::As { target: "f64" } }
        },
        ConvertOp::F64ConvertI64S => {
            ConvertRule::Pure { ty: ValType::F64, wrap: Wrap::As { target: "f64" } }
        },
        ConvertOp::F32ConvertI32U => {
            ConvertRule::Pure { ty: ValType::F32, wrap: Wrap::Through { via: "u32", target: "f32" } }
        },
        ConvertOp::F32ConvertI64U => {
            ConvertRule::Pure { ty: ValType::F32, wrap: Wrap::Through { via: "u64", target: "f32" } }
        },
        ConvertOp::F64ConvertI32U => {
            ConvertRule::Pure { ty: ValType::F64, wrap: Wrap::Through { via: "u32", target: "f64" } }
        },
        ConvertOp::F64ConvertI64U => {
            ConvertRule::Pure { ty: ValType::F64, wrap: Wrap::Through { via: "u64", target: "f64" } }
        },
        ConvertOp::F32DemoteF64 => {
            ConvertRule::Pure { ty: ValType::F32, wrap: Wrap::As { target: "f32" } }
        },
        ConvertOp::F64PromoteF32 => {
            ConvertRule::Pure { ty: ValType::F64, wrap: Wrap::As { target: "f64" } }
        },
        ConvertOp::I32ReinterpretF32 => {
            ConvertRule::Pure { ty: ValType::I32, wrap: Wrap::Bits { target: "i32" } }
        },
        ConvertOp::I64ReinterpretF64 => {
            ConvertRule::Pure { ty: ValType::I64, wrap: Wrap::Bits { target: "i64" } }
        },
        ConvertOp::F32ReinterpretI32 => {
            ConvertRule::Pure { ty: ValType::F32, wrap: Wrap::FromBits { float: "f32", via: "u32" } }
        },
        ConvertOp::F64ReinterpretI64 => {
            ConvertRule::Pure { ty: ValType::F64, wrap: Wrap::FromBits { float: "f64", via: "u64" } }
        },
        ConvertOp::I32TruncF32S => ConvertRule::Trapping { rt: Rt::I32TruncF32S, ty: ValType::I32 },
        ConvertOp::I32TruncF32U => ConvertRule::Trapping { rt: Rt::I32TruncF32U, ty: ValType::I32 },
        ConvertOp::I32TruncF64S => ConvertRule::Trapping { rt: Rt::I32TruncF64S, ty: ValType::I32 },
        ConvertOp::I32TruncF64U => ConvertRule::Trapping { rt: Rt::I32TruncF64U, ty: ValType::I32 },
        ConvertOp::I64TruncF32S => ConvertRule::Trapping { rt: Rt::I64TruncF32S, ty: ValType::I64 },
        ConvertOp::I64TruncF32U => ConvertRule::Trapping { rt: Rt::I64TruncF32U, ty: ValType::I64 },
        ConvertOp::I64TruncF64S => ConvertRule::Trapping { rt: Rt::I64TruncF64S, ty: ValType::I64 },
        ConvertOp::I64TruncF64U => ConvertRule::Trapping { rt: Rt::I64TruncF64U, ty: ValType::I64 },
        ConvertOp::I32TruncSatF32S => {
            ConvertRule::Pure { ty: ValType::I32, wrap: Wrap::As { target: "i32" } }
        },
        ConvertOp::I32TruncSatF64S => {
            ConvertRule::Pure { ty: ValType::I32, wrap: Wrap::As { target: "i32" } }
        },
        ConvertOp::I64TruncSatF32S => {
            ConvertRule::Pure { ty: ValType::I64, wrap: Wrap::As { target: "i64" } }
        },
        ConvertOp::I64TruncSatF64S => {
            ConvertRule::Pure { ty: ValType::I64, wrap: Wrap::As { target: "i64" } }
        },
        ConvertOp::I32TruncSatF32U => {
            ConvertRule::Pure { ty: ValType::I32, wrap: Wrap::Through { via: "u32", target: "i32" } }
        },
        ConvertOp::I32TruncSatF64U => {
            ConvertRule::Pure { ty: ValType::I32, wrap: Wrap::Through { via: "u32", target: "i32" } }
        },
        ConvertOp::I64TruncSatF32U => {
            ConvertRule::Pure { ty: ValType::I64, wrap: Wrap::Through { via: "u64", target: "i64" } }
        },
        ConvertOp::I64TruncSatF64U => {
            ConvertRule::Pure { ty: ValType::I64, wrap: Wrap::Through { via: "u64", target: "i64" } }
        },
    }
}

/// How each conversion is lowered.
fn pick_convert(op: ConvertOp) -> (r: ConvertRule)
    ensures
        r == convert_rule(op),
{
    match op {
        ConvertOp::I32WrapI64 => {
            ConvertRule::Pure { ty: ValType::I32, wrap: Wrap::As { target: "i32" } }
        },
        ConvertOp::I64ExtendI32S => {
            ConvertRule::Pure { ty: ValType::I64, wrap: Wrap::As { target: "i64" } }
        },
        ConvertOp::I64ExtendI32U => {
            ConvertRule::Pure { ty: ValType::I64, wrap: Wrap::Through { via: "u32", target: "i64" } }
        },
        ConvertOp::I32Extend8S => {
            ConvertRule::Pure { ty: ValType::I32, wrap: Wrap::Through { via: "i8", target: "i32" } }
        },
        ConvertOp::I32Extend16S => {
            ConvertRule::Pure { ty: ValType::I32, wrap: Wrap::Through { via: "i16", target: "i32" } }
        },
        ConvertOp::I64Extend8S => {
            ConvertRule::Pure { ty: ValType::I64, wrap: Wrap::Through { via: "i8", target: "i64" } }
        },
        ConvertOp::I64Extend16S => {
            ConvertRule::Pure { ty: ValType::I64, wrap: Wrap::Through { via: "i16", target: "i64" } }
        },
        ConvertOp::I64Extend32S => {
            ConvertRule::Pure { ty: ValType::I64, wrap: Wrap::Through { via: "i32", target: "i64" } }
        },
        ConvertOp::F32ConvertI32S => {
            ConvertRule::Pure { ty: ValType::F32, wrap: Wrap::As { target: "f32" } }
        },
        ConvertOp::F32ConvertI64S => {
            ConvertRule::Pure { ty: ValType::F32, wrap: Wrap::As { target: "f32" } }
        },
        ConvertOp::F64ConvertI32S => {
            ConvertRule::Pure { ty: ValType::F64, wrap: Wrap::As { target: "f64" } }
        },
        ConvertOp::F64ConvertI64S => {
            ConvertRule::Pure { ty: ValType::F64, wrap: Wrap::As { target: "f64" } }
        },
        ConvertOp::F32ConvertI32U => {
            ConvertRule::Pure { ty: ValType::F32, wrap: Wrap::Through { via: "u32", target: "f32" } }
        },
        ConvertOp::F32ConvertI64U => {
            ConvertRule::Pure { ty: ValType::F32, wrap: Wrap::Through { via: "u64", target: "f32" } }
        },
        ConvertOp::F64ConvertI32U => {
            ConvertRule::Pure { ty: ValType::F64, wrap: Wrap::Through { via: "u32", target: "f64" } }
        },
        ConvertOp::F64ConvertI64U => {
            ConvertRule::Pure { ty: ValType::F64, wrap: Wrap::Through { via: "u64", target: "f64" } }
        },
        ConvertOp::F32DemoteF64 => {
            ConvertRule::Pure { ty: ValType::F32, wrap: Wrap::As { target: "f32" } }
        },
        ConvertOp::F64PromoteF32 => {
            ConvertRule::Pure { ty: ValType::F64, wrap: Wrap::As { target: "f64" } }
        },
        ConvertOp::I32ReinterpretF32 => {
            ConvertRule::Pure { ty: ValType::I32, wrap: Wrap::Bits { target: "i32" } }
        },
        ConvertOp::I64ReinterpretF64 => {
            ConvertRule::Pure { ty: ValType::I64, wrap: Wrap::Bits { target: "i64" } }
        },
        ConvertOp::F32ReinterpretI32 => {
            ConvertRule::Pure { ty: ValType::F32, wrap: Wrap::FromBits { float: "f32", via: "u32" } }
        },
        ConvertOp::F64ReinterpretI64 => {
            ConvertRule::Pure { ty: ValType::F64, wrap: Wrap::FromBits { float: "f64", via: "u64" } }
        },
        ConvertOp::I32TruncF32S => ConvertRule::Trapping { rt: Rt::I32TruncF32S, ty: ValType::I32 },
        ConvertOp::I32TruncF32U => ConvertRule::Trapping { rt: Rt::I32TruncF32U, ty: ValType::I32 },
        ConvertOp::I32TruncF64S => ConvertRule::Trapping { rt: Rt::I32TruncF64S, ty: ValType::I32 },
        ConvertOp::I32TruncF64U => ConvertRule::Trapping { rt: Rt::I32TruncF64U, ty: ValType::I32 },
        ConvertOp::I64TruncF32S => ConvertRule::Trapping { rt: Rt::I64TruncF32S, ty: ValType::I64 },
        ConvertOp::I64TruncF32U => ConvertRule::Trapping { rt: Rt::I64TruncF32U, ty: ValType::I64 },
        ConvertOp::I64TruncF64S => ConvertRule::Trapping { rt: Rt::I64TruncF64S, ty: ValType::I64 },
        ConvertOp::I64TruncF64U => ConvertRule::Trapping { rt: Rt::I64TruncF64U, ty: ValType::I64 },
        ConvertOp::I32TruncSatF32S => {
            ConvertRule::Pure { ty: ValType::I32, wrap: Wrap::As { target: "i32" } }
        },
        ConvertOp::I32TruncSatF64S => {
            ConvertRule::Pure { ty: ValType::I32, wrap: Wrap::As { target: "i32" } }
        },
        ConvertOp::I64TruncSatF32S => {
            ConvertRule::Pure { ty: ValType::I64, wrap: Wrap::As { target: "i64" } }
        },
        ConvertOp::I64TruncSatF64S => {
            ConvertRule::Pure { ty: ValType::I64, wrap: Wrap::As { target: "i64" } }
        },
        ConvertOp::I32TruncSatF32U => {
            ConvertRule::Pure { ty: ValType::I32, wrap: Wrap::Through { via: "u32", target: "i32" } }
        },
        ConvertOp::I32TruncSatF64U => {
            ConvertRule::Pure { ty: ValType::I32, wrap: Wrap::Through { via: "u32", target: "i32" } }
        },
        ConvertOp::I64TruncSatF32U => {
            ConvertRule::Pure { ty: ValType::I64, wrap: Wrap::Through { via: "u64", target: "i64" } }
        },
        ConvertOp::I64TruncSatF64U => {
            ConvertRule::Pure { ty: ValType::I64, wrap: Wrap::Through { via: "u64", target: "i64" } }
        },
    }
}

/// How each lane-wise operator is lowered.
pub open spec fn lane_rule(op: LaneOp) -> LaneRule {
    match op {
        LaneOp::I8x16Splat => LaneRule::Splat { rt: Rt::SplatI8x16 },
        LaneOp::I16x8Splat => LaneRule::Splat { rt: Rt::SplatI16x8 },
        LaneOp::I32x4Splat => LaneRule::Splat { rt: Rt::SplatI32x4 },
        LaneOp::I64x2Splat => LaneRule::Splat { rt: Rt::SplatI64x2 },
        LaneOp::F32x4Splat => LaneRule::Splat { rt: Rt::SplatF32x4 },
        LaneOp::F64x2Splat => LaneRule::Splat { rt: Rt::SplatF64x2 },
        LaneOp::V128And => LaneRule::Infix { op: "&" },
        LaneOp::V128Or => LaneRule::Infix { op: "|" },
        LaneOp::V128Xor => LaneRule::Infix { op: "^" },
        LaneOp::V128Not => LaneRule::Not,
        LaneOp::V128AndNot => LaneRule::AndNot,
        LaneOp::V128Bitselect => LaneRule::Choose,
        LaneOp::V128AnyTrue => LaneRule::AnyTrue,
        LaneOp::I8x16Add => LaneRule::Binary { name: "i8x16_add" },
        LaneOp::I16x8Add => LaneRule::Binary { name: "i16x8_add" },
        LaneOp::I32x4Add => LaneRule::Binary { name: "i32x4_add" },
        LaneOp::I64x2Add => LaneRule::Binary { name: "i64x2_add" },
        LaneOp::I8x16Sub => LaneRule::Binary { name: "i8x16_sub" },
        LaneOp::I16x8Sub => LaneRule::Binary { name: "i16x8_sub" },
        LaneOp::I32x4Sub => LaneRule::Binary { name: "i32x4_sub" },
        LaneOp::I64x2Sub => LaneRule::Binary { name: "i64x2_sub" },
        LaneOp::I16x8Mul => LaneRule::Binary { name: "i16x8_mul" },
        LaneOp::I32x4Mul => LaneRule::Binary { name: "i32x4_mul" },
        LaneOp::I64x2Mul => LaneRule::Binary { name: "i64x2_mul" },
        LaneOp::I8x16Neg => LaneRule::Unary { name: "i8x16_neg" },
        LaneOp::I16x8Neg => LaneRule::Unary { name: "i16x8_neg" },
        LaneOp::I32x4Neg => LaneRule::Unary { name: "i32x4_neg" },
        LaneOp::I64x2Neg => LaneRule::Unary { name: "i64x2_neg" },
        LaneOp::F32x4Neg => LaneRule::Mask { op: "^", digits: "80000000800000008000000080000000" },
        LaneOp::F64x2Neg => LaneRule::Mask { op: "^", digits: "80000000000000008000000000000000" },
        LaneOp::F32x4Abs => LaneRule::Mask { op: "&", digits: "7fffffff7fffffff7fffffff7fffffff" },
        LaneOp::F64x2Abs => LaneRule::Mask { op: "&", digits: "7fffffffffffffff7fffffffffffffff" },
        LaneOp::F32x4Add => LaneRule::Binary { name: "f32x4_add" },
        LaneOp::F64x2Add => LaneRule::Binary { name: "f64x2_add" },
        LaneOp::F32x4Sub => LaneRule::Binary { name: "f32x4_sub" },
        LaneOp::F64x2Sub => LaneRule::Binary { name: "f64x2_sub" },
        LaneOp::F32x4Mul => LaneRule::Binary { name: "f32x4_mul" },
        LaneOp::F64x2Mul => LaneRule::Binary { name: "f64x2_mul" },
        LaneOp::F32x4Div => LaneRule::Binary { name: "f32x4_div" },
        LaneOp::F64x2Div => LaneRule::Binary { name: "f64x2_div" },
        LaneOp::F32x4Min => LaneRule::Binary { name: "f32x4_min" },
        LaneOp::F64x2Min => LaneRule::Binary { name: "f64x2_min" },
        LaneOp::F32x4Max => LaneRule::Binary { name: "f32x4_max" },
        LaneOp::F64x2Max => LaneRule::Binary { name: "f64x2_max" },
        LaneOp::F32x4PMin => LaneRule::Binary { name: "f32x4_pmin" },
        LaneOp::F64x2PMin => LaneRule::Binary { name: "f64x2_pmin" },
        LaneOp::F32x4PMax => LaneRule::Binary { name: "f32x4_pmax" },
        LaneOp::F64x2PMax => LaneRule::Binary { name: "f64x2_pmax" },
        LaneOp::F32x4Sqrt => LaneRule::Unary { name: "f32x4_sqrt" },
        LaneOp::F64x2Sqrt => LaneRule::Unary { name: "f64x2_sqrt" },
        LaneOp::F32x4Ceil => LaneRule::Unary { name: "f32x4_ceil" },
        LaneOp::F64x2Ceil => LaneRule::Unary { name: "f64x2_ceil" },
        LaneOp::F32x4Floor => LaneRule::Unary { name: "f32x4_floor" },
        LaneOp::F64x2Floor => LaneRule::Unary { name: "f64x2_floor" },
        LaneOp::F32x4Trunc => LaneRule::Unary { name: "f32x4_trunc" },
        LaneOp::F64x2Trunc => LaneRule::Unary { name: "f64x2_trunc" },
        LaneOp::F32x4Nearest => LaneRule::Unary { name: "f32x4_nearest" },
        LaneOp::F64x2Nearest => LaneRule::Unary { name: "f64x2_nearest" },
        LaneOp::I8x16Eq => LaneRule::Binary { name: "i8x16_eq" },
        LaneOp::I8x16Ne => LaneRule::Binary { name: "i8x16_ne" },
        LaneOp::I8x16LtS => LaneRule::Binary { name: "i8x16_lt_s" },
        LaneOp::I8x16LtU => LaneRule::Binary { name: "i8x16_lt_u" },
        LaneOp::I8x16GtS => LaneRule::Binary { name: "i8x16_gt_s" },
        LaneOp::I8x16GtU => LaneRule::Binary { name: "i8x16_gt_u" },
        LaneOp::I8x16LeS => LaneRule::Binary { name: "i8x16_le_s" },
        LaneOp::I8x16LeU => LaneRule::Binary { name: "i8x16_le_u" },
        LaneOp::I8x16GeS => LaneRule::Binary { name: "i8x16_ge_s" },
        LaneOp::I8x16GeU => LaneRule::Binary { name: "i8x16_ge_u" },
        LaneOp::I16x8Eq => LaneRule::Binary { name: "i16x8_eq" },
        LaneOp::I16x8Ne => LaneRule::Binary { name: "i16x8_ne" },
        LaneOp::I16x8LtS => LaneRule::Binary { name: "i16x8_lt_s" },
        LaneOp::I16x8LtU => LaneRule::Binary { name: "i16x8_lt_u" },
        LaneOp::I16x8GtS => LaneRule::Binary { name: "i16x8_gt_s" },
        LaneOp::I16x8GtU => LaneRule::Binary { name: "i16x8_gt_u" },
        LaneOp::I16x8LeS => LaneRule::Binary { name: "i16x8_le_s" },
        LaneOp::I16x8LeU => LaneRule::Binary { name: "i16x8_le_u" },
        LaneOp::I16x8GeS => LaneRule::Binary { name: "i16x8_ge_s" },
        LaneOp::I16x8GeU => LaneRule::Binary { name: "i16x8_ge_u" },
        LaneOp::I32x4Eq => LaneRule::Binary { name: "i32x4_eq" },
        LaneOp::I32x4Ne => LaneRule::Binary { name: "i32x4_ne" },
        LaneOp::I32x4LtS => LaneRule::Binary { name: "i32x4_lt_s" },
        LaneOp::I32x4LtU => LaneRule::Binary { name: "i32x4_lt_u" },
        LaneOp::I32x4GtS => LaneRule::Binary { name: "i32x4_gt_s" },
        LaneOp::I32x4GtU => LaneRule::Binary { name: "i32x4_gt_u" },
        LaneOp::I32x4LeS => LaneRule::Binary { name: "i32x4_le_s" },
        LaneOp::I32x4LeU => LaneRule::Binary { name: "i32x4_le_u" },
        LaneOp::I32x4GeS => LaneRule::Binary { name: "i32x4_ge_s" },
        LaneOp::I32x4GeU => LaneRule::Binary { name: "i32x4_ge_u" },
        LaneOp::I64x2Eq => LaneRule::Binary { name: "i64x2_eq" },
        LaneOp::I64x2Ne => LaneRule::Binary { name: "i64x2_ne" },
        LaneOp::I64x2LtS => LaneRule::Binary { name: "i64x2_lt_s" },
        LaneOp::I64x2GtS => LaneRule::Binary { name: "i64x2_gt_s" },
        LaneOp::I64x2LeS => LaneRule::Binary { name: "i64x2_le_s" },
        LaneOp::I64x2GeS => LaneRule::Binary { name: "i64x2_ge_s" },
        LaneOp::F32x4Eq => LaneRule::Binary { name: "f32x4_eq" },
        LaneOp::F32x4Ne => LaneRule::Binary { name: "f32x4_ne" },
        LaneOp::F32x4Lt => LaneRule::Binary { name: "f32x4_lt" },
        LaneOp::F32x4Gt => LaneRule::Binary { name: "f32x4_gt" },
        LaneOp::F32x4Le => LaneRule::Binary { name: "f32x4_le" },
        LaneOp::F32x4Ge => LaneRule::Binary { name: "f32x4_ge" },
        LaneOp::F64x2Eq => LaneRule::Binary { name: "f64x2_eq" },
        LaneOp::F64x2Ne => LaneRule::Binary { name: "f64x2_ne" },
        LaneOp::F64x2Lt => LaneRule::Binary { name: "f64x2_lt" },
        LaneOp::F64x2Gt => LaneRule::Binary { name: "f64x2_gt" },
        LaneOp::F64x2Le => LaneRule::Binary { name: "f64x2_le" },
        LaneOp::F64x2Ge => LaneRule::Binary { name: "f64x2_ge" },
        LaneOp::I8x16Shl => LaneRule::Shift { name: "i8x16_shl" },
        LaneOp::I16x8Shl => LaneRule::Shift { name: "i16x8_shl" },
        LaneOp::I32x4Shl => LaneRule::Shift { name: "i32x4_shl" },
        LaneOp::I64x2Shl => LaneRule::Shift { name: "i64x2_shl" },
        LaneOp::I8x16ShrS => LaneRule::Shift { name: "i8x16_shr_s" },
        LaneOp::I16x8ShrS => LaneRule::Shift { name: "i16x8_shr_s" },
        LaneOp::I32x4ShrS => LaneRule::Shift { name: "i32x4_shr_s" },
        LaneOp::I64x2ShrS => LaneRule::Shift { name: "i64x2_shr_s" },
        LaneOp::I8x16ShrU => LaneRule::Shift { name: "i8x16_shr_u" },
        LaneOp::I16x8ShrU => LaneRule::Shift { name: "i16x8_shr_u" },
        LaneOp::I32x4ShrU => LaneRule::Shift { name: "i32x4_shr_u" },
        LaneOp::I64x2ShrU => LaneRule::Shift { name: "i64x2_shr_u" },
        LaneOp::I8x16AddSatS => LaneRule::Binary { name: "i8x16_add_sat_s" },
        LaneOp::I8x16AddSatU => LaneRule::Binary { name: "i8x16_add_sat_u" },
        LaneOp::I16x8AddSatS => LaneRule::Binary { name: "i16x8_add_sat_s" },
        LaneOp::I16x8AddSatU => LaneRule::Binary { name: "i16x8_add_sat_u" },
        LaneOp::I8x16SubSatS => LaneRule::Binary { name: "i8x16_sub_sat_s" },
        LaneOp::I8x16SubSatU => LaneRule::Binary { name: "i8x16_sub_sat_u" },
        LaneOp::I16x8SubSatS => LaneRule::Binary { name: "i16x8_sub_sat_s" },
        LaneOp::I16x8SubSatU => LaneRule::Binary { name: "i16x8_sub_sat_u" },
        LaneOp::I16x8ExtendLowI8x16S => LaneRule::Unary { name: "i16x8_extend_low_i8x16_s" },
        LaneOp::I16x8ExtendHighI8x16S => LaneRule::Unary { name: "i16x8_extend_high_i8x16_s" },
        LaneOp::I16x8ExtendLowI8x16U => LaneRule::Unary { name: "i16x8_extend_low_i8x16_u" },
        LaneOp::I16x8ExtendHighI8x16U => LaneRule::Unary { name: "i16x8_extend_high_i8x16_u" },
        LaneOp::I32x4ExtendLowI16x8S => LaneRule::Unary { name: "i32x4_extend_low_i16x8_s" },
        LaneOp::I32x4ExtendHighI16x8S => LaneRule::Unary { name: "i32x4_extend_high_i16x8_s" },
        LaneOp::I32x4ExtendLowI16x8U => LaneRule::Unary { name: "i32x4_extend_low_i16x8_u" },
        LaneOp::I32x4ExtendHighI16x8U => LaneRule::Unary { name: "i32x4_extend_high_i16x8_u" },
        LaneOp::I64x2ExtendLowI32x4S => LaneRule::Unary { name: "i64x2_extend_low_i32x4_s" },
        LaneOp::I64x2ExtendHighI32x4S => LaneRule::Unary { name: "i64x2_extend_high_i32x4_s" },
        LaneOp::I64x2ExtendLowI32x4U => LaneRule::Unary { name: "i64x2_extend_low_i32x4_u" },
        LaneOp::I64x2ExtendHighI32x4U => LaneRule::Unary { name: "i64x2_extend_high_i32x4_u" },
        LaneOp::I8x16NarrowI16x8S => LaneRule::Binary { name: "i8x16_narrow_i16x8_s" },
        LaneOp::I8x16NarrowI16x8U => LaneRule::Binary { name: "i8x16_narrow_i16x8_u" },
        LaneOp::I16x8NarrowI32x4S => LaneRule::Binary { name: "i16x8_narrow_i32x4_s" },
        LaneOp::I16x8NarrowI32x4U => LaneRule::Binary { name: "i16x8_narrow_i32x4_u" },
        LaneOp::I16x8ExtMulLowI8x16S => LaneRule::Binary { name: "i16x8_extmul_low_i8x16_s" },
        LaneOp::I16x8ExtMulHighI8x16S => LaneRule::Binary { name: "i16x8_extmul_high_i8x16_s" },
        LaneOp::I16x8ExtMulLowI8x16U => LaneRule::Binary { name: "i16x8_extmul_low_i8x16_u" },
        LaneOp::I16x8ExtMulHighI8x16U => LaneRule::Binary { name: "i16x8_extmul_high_i8x16_u" },
        LaneOp::I32x4ExtMulLowI16x8S => LaneRule::Binary { name: "i32x4_extmul_low_i16x8_s" },
        LaneOp::I32x4ExtMulHighI16x8S => LaneRule::Binary { name: "i32x4_extmul_high_i16x8_s" },
        LaneOp::I32x4ExtMulLowI16x8U => LaneRule::Binary { name: "i32x4_extmul_low_i16x8_u" },
        LaneOp::I32x4ExtMulHighI16x8U => LaneRule::Binary { name: "i32x4_extmul_high_i16x8_u" },
        LaneOp::I64x2ExtMulLowI32x4S => LaneRule::Binary { name: "i64x2_extmul_low_i32x4_s" },
        LaneOp::I64x2ExtMulHighI32x4S => LaneRule::Binary { name: "i64x2_extmul_high_i32x4_s" },
        LaneOp::I64x2ExtMulLowI32x4U => LaneRule::Binary { name: "i64x2_extmul_low_i32x4_u" },
        LaneOp::I64x2ExtMulHighI32x4U => LaneRule::Binary { name: "i64x2_extmul_high_i32x4_u" },
        LaneOp::I16x8ExtAddPairwiseI8x16S => {
            LaneRule::Unary { name: "i16x8_extadd_pairwise_i8x16_s" }
        },
        LaneOp::I16x8ExtAddPairwiseI8x16U => {
            LaneRule::Unary { name: "i16x8_extadd_pairwise_i8x16_u" }
        },
        LaneOp::I32x4ExtAddPairwiseI16x8S => {
            LaneRule::Unary { name: "i32x4_extadd_pairwise_i16x8_s" }
        },
        LaneOp::I32x4ExtAddPairwiseI16x8U => {
            LaneRule::Unary { name: "i32x4_extadd_pairwise_i16x8_u" }
        },
        LaneOp::I32x4DotI16x8S => LaneRule::Binary { name: "i32x4_dot_i16x8_s" },
        LaneOp::I16x8Q15MulrSatS => LaneRule::Binary { name: "i16x8_q15mulr_sat_s" },
        LaneOp::I32x4TruncSatF32x4S => LaneRule::Unary { name: "i32x4_trunc_sat_f32x4_s" },
        LaneOp::I32x4TruncSatF32x4U => LaneRule::Unary { name: "i32x4_trunc_sat_f32x4_u" },
        LaneOp::I32x4TruncSatF64x2SZero => LaneRule::Unary { name: "i32x4_trunc_sat_f64x2_s_zero" },
        LaneOp::I32x4TruncSatF64x2UZero => LaneRule::Unary { name: "i32x4_trunc_sat_f64x2_u_zero" },
        LaneOp::F32x4ConvertI32x4S => LaneRule::Unary { name: "f32x4_convert_i32x4_s" },
        LaneOp::F32x4ConvertI32x4U => LaneRule::Unary { name: "f32x4_convert_i32x4_u" },
        LaneOp::F64x2ConvertLowI32x4S => LaneRule::Unary { name: "f64x2_convert_low_i32x4_s" },
        LaneOp::F64x2ConvertLowI32x4U => LaneRule::Unary { name: "f64x2_convert_low_i32x4_u" },
        LaneOp::F32x4DemoteF64x2Zero => LaneRule::Unary { name: "f32x4_demote_f64x2_zero" },
        LaneOp::F64x2PromoteLowF32x4 => LaneRule::Unary { name: "f64x2_promote_low_f32x4" },
        LaneOp::I8x16Abs => LaneRule::Unary { name: "i8x16_abs" },
        LaneOp::I16x8Abs => LaneRule::Unary { name: "i16x8_abs" },
        LaneOp::I32x4Abs => LaneRule::Unary { name: "i32x4_abs" },
        LaneOp::I64x2Abs => LaneRule::Unary { name: "i64x2_abs" },
        LaneOp::I8x16AvgrU => LaneRule::Binary { name: "i8x16_avgr_u" },
        LaneOp::I16x8AvgrU => LaneRule::Binary { name: "i16x8_avgr_u" },
        LaneOp::I8x16Popcnt => LaneRule::Unary { name: "i8x16_popcnt" },
        LaneOp::I8x16AllTrue => LaneRule::Reduce { name: "i8x16_all_true" },
        LaneOp::I16x8AllTrue => LaneRule::Reduce { name: "i16x8_all_true" },
        LaneOp::I32x4AllTrue => LaneRule::Reduce { name: "i32x4_all_true" },
        LaneOp::I64x2AllTrue => LaneRule::Reduce { name: "i64x2_all_true" },
        LaneOp::I8x16Bitmask => LaneRule::Reduce { name: "i8x16_bitmask" },
        LaneOp::I16x8Bitmask => LaneRule::Reduce { name: "i16x8_bitmask" },
        LaneOp::I32x4Bitmask => LaneRule::Reduce { name: "i32x4_bitmask" },
        LaneOp::I64x2Bitmask => LaneRule::Reduce { name: "i64x2_bitmask" },
        LaneOp::I8x16Swizzle => LaneRule::Binary { name: "i8x16_swizzle" },
        LaneOp::I8x16RelaxedSwizzle => LaneRule::Binary { name: "i8x16_swizzle" },
        LaneOp::I32x4RelaxedTruncF32x4S => LaneRule::Unary { name: "i32x4_trunc_sat_f32x4_s" },
        LaneOp::I32x4RelaxedTruncF32x4U => LaneRule::Unary { name: "i32x4_trunc_sat_f32x4_u" },
        LaneOp::I32x4RelaxedTruncF64x2SZero => {
            LaneRule::Unary { name: "i32x4_trunc_sat_f64x2_s_zero" }
        },
        LaneOp::I32x4RelaxedTruncF64x2UZero => {
            LaneRule::Unary { name: "i32x4_trunc_sat_f64x2_u_zero" }
        },
        LaneOp::F32x4RelaxedMin => LaneRule::Binary { name: "f32x4_min" },
        LaneOp::F32x4RelaxedMax => LaneRule::Binary { name: "f32x4_max" },
        LaneOp::F64x2RelaxedMin => LaneRule::Binary { name: "f64x2_min" },
        LaneOp::F64x2RelaxedMax => LaneRule::Binary { name: "f64x2_max" },
        LaneOp::I16x8RelaxedQ15mulrS => LaneRule::Binary { name: "i16x8_q15mulr_sat_s" },
        LaneOp::I8x16RelaxedLaneselect => LaneRule::Choose,
        LaneOp::I16x8RelaxedLaneselect => LaneRule::Choose,
        LaneOp::I32x4RelaxedLaneselect => LaneRule::Choose,
        LaneOp::I64x2RelaxedLaneselect => LaneRule::Choose,
        LaneOp::F32x4RelaxedMadd => LaneRule::Ternary { name: "f32x4_relaxed_madd" },
        LaneOp::F32x4RelaxedNmadd => LaneRule::Ternary { name: "f32x4_relaxed_nmadd" },
        LaneOp::F64x2RelaxedMadd => LaneRule::Ternary { name: "f64x2_relaxed_madd" },
        LaneOp::F64x2RelaxedNmadd => LaneRule::Ternary { name: "f64x2_relaxed_nmadd" },
        LaneOp::I16x8RelaxedDotI8x16I7x16S => {
            LaneRule::Binary { name: "i16x8_relaxed_dot_i8x16_i7x16_s" }
        },
        LaneOp::I32x4RelaxedDotI8x16I7x16AddS => {
            LaneRule::Ternary { name: "i32x4_relaxed_dot_i8x16_i7x16_add_s" }
        },
    }
}

/// How each lane-wise operator is lowered.
fn pick_lane(op: LaneOp) -> (r: LaneRule)
    ensures
        r == lane_rule(op),
{
    match op {
        LaneOp::I8x16Splat => LaneRule::Splat { rt: Rt::SplatI8x16 },
        LaneOp::I16x8Splat => LaneRule::Splat { rt: Rt::SplatI16x8 },
        LaneOp::I32x4Splat => LaneRule::Splat { rt: Rt::SplatI32x4 },
        LaneOp::I64x2Splat => LaneRule::Splat { rt: Rt::SplatI64x2 },
        LaneOp::F32x4Splat => LaneRule::Splat { rt: Rt::SplatF32x4 },
        LaneOp::F64x2Splat => LaneRule::Splat { rt: Rt::SplatF64x2 },
        LaneOp::V128And => LaneRule::Infix { op: "&" },
        LaneOp::V128Or => LaneRule::Infix { op: "|" },
        LaneOp::V128Xor => LaneRule::Infix { op: "^" },
        LaneOp::V128Not => LaneRule::Not,
        LaneOp::V128AndNot => LaneRule::AndNot,
        LaneOp::V128Bitselect => LaneRule::Choose,
        LaneOp::V128AnyTrue => LaneRule::AnyTrue,
        LaneOp::I8x16Add => LaneRule::Binary { name: "i8x16_add" },
        LaneOp::I16x8Add => LaneRule::Binary { name: "i16x8_add" },
        LaneOp::I32x4Add => LaneRule::Binary { name: "i32x4_add" },
        LaneOp::I64x2Add => LaneRule::Binary { name: "i64x2_add" },
        LaneOp::I8x16Sub => LaneRule::Binary { name: "i8x16_sub" },
        LaneOp::I16x8Sub => LaneRule::Binary { name: "i16x8_sub" },
        LaneOp::I32x4Sub => LaneRule::Binary { name: "i32x4_sub" },
        LaneOp::I64x2Sub => LaneRule::Binary { name: "i64x2_sub" },
        LaneOp::I16x8Mul => LaneRule::Binary { name: "i16x8_mul" },
        LaneOp::I32x4Mul => LaneRule::Binary { name: "i32x4_mul" },
        LaneOp::I64x2Mul => LaneRule::Binary { name: "i64x2_mul" },
        LaneOp::I8x16Neg => LaneRule::Unary { name: "i8x16_neg" },
        LaneOp::I16x8Neg => LaneRule::Unary { name: "i16x8_neg" },
        LaneOp::I32x4Neg => LaneRule::Unary { name: "i32x4_neg" },
        LaneOp::I64x2Neg => LaneRule::Unary { name: "i64x2_neg" },
        LaneOp::F32x4Neg => LaneRule::Mask { op: "^", digits: "80000000800000008000000080000000" },
        LaneOp::F64x2Neg => LaneRule::Mask { op: "^", digits: "80000000000000008000000000000000" },
        LaneOp::F32x4Abs => LaneRule::Mask { op: "&", digits: "7fffffff7fffffff7fffffff7fffffff" },
        LaneOp::F64x2Abs => LaneRule::Mask { op: "&", digits: "7fffffffffffffff7fffffffffffffff" },
        LaneOp::F32x4Add => LaneRule::Binary { name: "f32x4_add" },
        LaneOp::F64x2Add => LaneRule::Binary { name: "f64x2_add" },
        LaneOp::F32x4Sub => LaneRule::Binary { name: "f32x4_sub" },
        LaneOp::F64x2Sub => LaneRule::Binary { name: "f64x2_sub" },
        LaneOp::F32x4Mul => LaneRule::Binary { name: "f32x4_mul" },
        LaneOp::F64x2Mul => LaneRule::Binary { name: "f64x2_mul" },
        LaneOp::F32x4Div => LaneRule::Binary { name: "f32x4_div" },
        LaneOp::F64x2Div => LaneRule::Binary { name: "f64x2_div" },
        LaneOp::F32x4Min => LaneRule::Binary { name: "f32x4_min" },
        LaneOp::F64x2Min => LaneRule::Binary { name: "f64x2_min" },
        LaneOp::F32x4Max => LaneRule::Binary { name: "f32x4_max" },
        LaneOp::F64x2Max => LaneRule::Binary { name: "f64x2_max" },
        LaneOp::F32x4PMin => LaneRule::Binary { name: "f32x4_pmin" },
        LaneOp::F64x2PMin => LaneRule::Binary { name: "f64x2_pmin" },
        LaneOp::F32x4PMax => LaneRule::Binary { name: "f32x4_pmax" },
        LaneOp::F64x2PMax => LaneRule::Binary { name: "f64x2_pmax" },
        LaneOp::F32x4Sqrt => LaneRule::Unary { name: "f32x4_sqrt" },
        LaneOp::F64x2Sqrt => LaneRule::Unary { name: "f64x2_sqrt" },
        LaneOp::F32x4Ceil => LaneRule::Unary { name: "f32x4_ceil" },
        LaneOp::F64x2Ceil => LaneRule::Unary { name: "f64x2_ceil" },
        LaneOp::F32x4Floor => LaneRule::Unary { name: "f32x4_floor" },
        LaneOp::F64x2Floor => LaneRule::Unary { name: "f64x2_floor" },
        LaneOp::F32x4Trunc => LaneRule::Unary { name: "f32x4_trunc" },
        LaneOp::F64x2Trunc => LaneRule::Unary { name: "f64x2_trunc" },
        LaneOp::F32x4Nearest => LaneRule::Unary { name: "f32x4_nearest" },
        LaneOp::F64x2Nearest => LaneRule::Unary { name: "f64x2_nearest" },
        LaneOp::I8x16Eq => LaneRule::Binary { name: "i8x16_eq" },
        LaneOp::I8x16Ne => LaneRule::Binary { name: "i8x16_ne" },
        LaneOp::I8x16LtS => LaneRule::Binary { name: "i8x16_lt_s" },
        LaneOp::I8x16LtU => LaneRule::Binary { name: "i8x16_lt_u" },
        LaneOp::I8x16GtS => LaneRule::Binary { name: "i8x16_gt_s" },
        LaneOp::I8x16GtU => LaneRule::Binary { name: "i8x16_gt_u" },
        LaneOp::I8x16LeS => LaneRule::Binary { name: "i8x16_le_s" },
        LaneOp::I8x16LeU => LaneRule::Binary { name: "i8x16_le_u" },
        LaneOp::I8x16GeS => LaneRule::Binary { name: "i8x16_ge_s" },
        LaneOp::I8x16GeU => LaneRule::Binary { name: "i8x16_ge_u" },
        LaneOp::I16x8Eq => LaneRule::Binary { name: "i16x8_eq" },
        LaneOp::I16x8Ne => LaneRule::Binary { name: "i16x8_ne" },
        LaneOp::I16x8LtS => LaneRule::Binary { name: "i16x8_lt_s" },
        LaneOp::I16x8LtU => LaneRule::Binary { name: "i16x8_lt_u" },
        LaneOp::I16x8GtS => LaneRule::Binary { name: "i16x8_gt_s" },
        LaneOp::I16x8GtU => LaneRule::Binary { name: "i16x8_gt_u" },
        LaneOp::I16x8LeS => LaneRule::Binary { name: "i16x8_le_s" },
        LaneOp::I16x8LeU => LaneRule::Binary { name: "i16x8_le_u" },
        LaneOp::I16x8GeS => LaneRule::Binary { name: "i16x8_ge_s" },
        LaneOp::I16x8GeU => LaneRule::Binary { name: "i16x8_ge_u" },
        LaneOp::I32x4Eq => LaneRule::Binary { name: "i32x4_eq" },
        LaneOp::I32x4Ne => LaneRule::Binary { name: "i32x4_ne" },
        LaneOp::I32x4LtS => LaneRule::Binary { name: "i32x4_lt_s" },
        LaneOp::I32x4LtU => LaneRule::Binary { name: "i32x4_lt_u" },
        LaneOp::I32x4GtS => LaneRule::Binary { name: "i32x4_gt_s" },
        LaneOp::I32x4GtU => LaneRule::Binary { name: "i32x4_gt_u" },
        LaneOp::I32x4LeS => LaneRule::Binary { name: "i32x4_le_s" },
        LaneOp::I32x4LeU => LaneRule::Binary { name: "i32x4_le_u" },
        LaneOp::I32x4GeS => LaneRule::Binary { name: "i32x4_ge_s" },
        LaneOp::I32x4GeU => LaneRule::Binary { name: "i32x4_ge_u" },
        LaneOp::I64x2Eq => LaneRule::Binary { name: "i64x2_eq" },
        LaneOp::I64x2Ne => LaneRule::Binary { name: "i64x2_ne" },
        LaneOp::I64x2LtS => LaneRule::Binary { name: "i64x2_lt_s" },
        LaneOp::I64x2GtS => LaneRule::Binary { name: "i64x2_gt_s" },
        LaneOp::I64x2LeS => LaneRule::Binary { name: "i64x2_le_s" },
        LaneOp::I64x2GeS => LaneRule::Binary { name: "i64x2_ge_s" },
        LaneOp::F32x4Eq => LaneRule::Binary { name: "f32x4_eq" },
        LaneOp::F32x4Ne => LaneRule::Binary { name: "f32x4_ne" },
        LaneOp::F32x4Lt => LaneRule::Binary { name: "f32x4_lt" },
        LaneOp::F32x4Gt => LaneRule::Binary { name: "f32x4_gt" },
        LaneOp::F32x4Le => LaneRule::Binary { name: "f32x4_le" },
        LaneOp::F32x4Ge => LaneRule::Binary { name: "f32x4_ge" },
        LaneOp::F64x2Eq => LaneRule::Binary { name: "f64x2_eq" },
        LaneOp::F64x2Ne => LaneRule::Binary { name: "f64x2_ne" },
        LaneOp::F64x2Lt => LaneRule::Binary { name: "f64x2_lt" },
        LaneOp::F64x2Gt => LaneRule::Binary { name: "f64x2_gt" },
        LaneOp::F64x2Le => LaneRule::Binary { name: "f64x2_le" },
        LaneOp::F64x2Ge => LaneRule::Binary { name: "f64x2_ge" },
        LaneOp::I8x16Shl => LaneRule::Shift { name: "i8x16_shl" },
        LaneOp::I16x8Shl => LaneRule::Shift { name: "i16x8_shl" },
        LaneOp::I32x4Shl => LaneRule::Shift { name: "i32x4_shl" },
        LaneOp::I64x2Shl => LaneRule::Shift { name: "i64x2_shl" },
        LaneOp::I8x16ShrS => LaneRule::Shift { name: "i8x16_shr_s" },
        LaneOp::I16x8ShrS => LaneRule::Shift { name: "i16x8_shr_s" },
        LaneOp::I32x4ShrS => LaneRule::Shift { name: "i32x4_shr_s" },
        LaneOp::I64x2ShrS => LaneRule::Shift { name: "i64x2_shr_s" },
        LaneOp::I8x16ShrU => LaneRule::Shift { name: "i8x16_shr_u" },
        LaneOp::I16x8ShrU => LaneRule::Shift { name: "i16x8_shr_u" },
        LaneOp::I32x4ShrU => LaneRule::Shift { name: "i32x4_shr_u" },
        LaneOp::I64x2ShrU => LaneRule::Shift { name: "i64x2_shr_u" },
        LaneOp::I8x16AddSatS => LaneRule::Binary { name: "i8x16_add_sat_s" },
        LaneOp::I8x16AddSatU => LaneRule::Binary { name: "i8x16_add_sat_u" },
        LaneOp::I16x8AddSatS => LaneRule::Binary { name: "i16x8_add_sat_s" },
        LaneOp::I16x8AddSatU => LaneRule::Binary { name: "i16x8_add_sat_u" },
        LaneOp::I8x16SubSatS => LaneRule::Binary { name: "i8x16_sub_sat_s" },
        LaneOp::I8x16SubSatU => LaneRule::Binary { name: "i8x16_sub_sat_u" },
        LaneOp::I16x8SubSatS => LaneRule::Binary { name: "i16x8_sub_sat_s" },
        LaneOp::I16x8SubSatU => LaneRule::Binary { name: "i16x8_sub_sat_u" },
        LaneOp::I16x8ExtendLowI8x16S => LaneRule::Unary { name: "i16x8_extend_low_i8x16_s" },
        LaneOp::I16x8ExtendHighI8x16S => LaneRule::Unary { name: "i16x8_extend_high_i8x16_s" },
        LaneOp::I16x8ExtendLowI8x16U => LaneRule::Unary { name: "i16x8_extend_low_i8x16_u" },
        LaneOp::I16x8ExtendHighI8x16U => LaneRule::Unary { name: "i16x8_extend_high_i8x16_u" },
        LaneOp::I32x4ExtendLowI16x8S => LaneRule::Unary { name: "i32x4_extend_low_i16x8_s" },
        LaneOp::I32x4ExtendHighI16x8S => LaneRule::Unary { name: "i32x4_extend_high_i16x8_s" },
        LaneOp::I32x4ExtendLowI16x8U => LaneRule::Unary { name: "i32x4_extend_low_i16x8_u" },
        LaneOp::I32x4ExtendHighI16x8U => LaneRule::Unary { name: "i32x4_extend_high_i16x8_u" },
        LaneOp::I64x2ExtendLowI32x4S => LaneRule::Unary { name: "i64x2_extend_low_i32x4_s" },
        LaneOp::I64x2ExtendHighI32x4S => LaneRule::Unary { name: "i64x2_extend_high_i32x4_s" },
        LaneOp::I64x2ExtendLowI32x4U => LaneRule::Unary { name: "i64x2_extend_low_i32x4_u" },
        LaneOp::I64x2ExtendHighI32x4U => LaneRule::Unary { name: "i64x2_extend_high_i32x4_u" },
        LaneOp::I8x16NarrowI16x8S => LaneRule::Binary { name: "i8x16_narrow_i16x8_s" },
        LaneOp::I8x16NarrowI16x8U => LaneRule::Binary { name: "i8x16_narrow_i16x8_u" },
        LaneOp::I16x8NarrowI32x4S => LaneRule::Binary { name: "i16x8_narrow_i32x4_s" },
        LaneOp::I16x8NarrowI32x4U => LaneRule::Binary { name: "i16x8_narrow_i32x4_u" },
        LaneOp::I16x8ExtMulLowI8x16S => LaneRule::Binary { name: "i16x8_extmul_low_i8x16_s" },
        LaneOp::I16x8ExtMulHighI8x16S => LaneRule::Binary { name: "i16x8_extmul_high_i8x16_s" },
        LaneOp::I16x8ExtMulLowI8x16U => LaneRule::Binary { name: "i16x8_extmul_low_i8x16_u" },
        LaneOp::I16x8ExtMulHighI8x16U => LaneRule::Binary { name: "i16x8_extmul_high_i8x16_u" },
        LaneOp::I32x4ExtMulLowI16x8S => LaneRule::Binary { name: "i32x4_extmul_low_i16x8_s" },
        LaneOp::I32x4ExtMulHighI16x8S => LaneRule::Binary { name: "i32x4_extmul_high_i16x8_s" },
        LaneOp::I32x4ExtMulLowI16x8U => LaneRule::Binary { name: "i32x4_extmul_low_i16x8_u" },
        LaneOp::I32x4ExtMulHighI16x8U => LaneRule::Binary { name: "i32x4_extmul_high_i16x8_u" },
        LaneOp::I64x2ExtMulLowI32x4S => LaneRule::Binary { name: "i64x2_extmul_low_i32x4_s" },
        LaneOp::I64x2ExtMulHighI32x4S => LaneRule::Binary { name: "i64x2_extmul_high_i32x4_s" },
        LaneOp::I64x2ExtMulLowI32x4U => LaneRule::Binary { name: "i64x2_extmul_low_i32x4_u" },
        LaneOp::I64x2ExtMulHighI32x4U => LaneRule::Binary { name: "i64x2_extmul_high_i32x4_u" },
        LaneOp::I16x8ExtAddPairwiseI8x16S => {
            LaneRule::Unary { name: "i16x8_extadd_pairwise_i8x16_s" }
        },
        LaneOp::I16x8ExtAddPairwiseI8x16U => {
            LaneRule::Unary { name: "i16x8_extadd_pairwise_i8x16_u" }
        },
        LaneOp::I32x4ExtAddPairwiseI16x8S => {
            LaneRule::Unary { name: "i32x4_extadd_pairwise_i16x8_s" }
        },
        LaneOp::I32x4ExtAddPairwiseI16x8U => {
            LaneRule::Unary { name: "i32x4_extadd_pairwise_i16x8_u" }
        },
        LaneOp::I32x4DotI16x8S => LaneRule::Binary { name: "i32x4_dot_i16x8_s" },
        LaneOp::I16x8Q15MulrSatS => LaneRule::Binary { name: "i16x8_q15mulr_sat_s" },
        LaneOp::I32x4TruncSatF32x4S => LaneRule::Unary { name: "i32x4_trunc_sat_f32x4_s" },
        LaneOp::I32x4TruncSatF32x4U => LaneRule::Unary { name: "i32x4_trunc_sat_f32x4_u" },
        LaneOp::I32x4TruncSatF64x2SZero => LaneRule::Unary { name: "i32x4_trunc_sat_f64x2_s_zero" },
        LaneOp::I32x4TruncSatF64x2UZero => LaneRule::Unary { name: "i32x4_trunc_sat_f64x2_u_zero" },
        LaneOp::F32x4ConvertI32x4S => LaneRule::Unary { name: "f32x4_convert_i32x4_s" },
        LaneOp::F32x4ConvertI32x4U => LaneRule::Unary { name: "f32x4_convert_i32x4_u" },
        LaneOp::F64x2ConvertLowI32x4S => LaneRule::Unary { name: "f64x2_convert_low_i32x4_s" },
        LaneOp::F64x2ConvertLowI32x4U => LaneRule::Unary { name: "f64x2_convert_low_i32x4_u" },
        LaneOp::F32x4DemoteF64x2Zero => LaneRule::Unary { name: "f32x4_demote_f64x2_zero" },
        LaneOp::F64x2PromoteLowF32x4 => LaneRule::Unary { name: "f64x2_promote_low_f32x4" },
        LaneOp::I8x16Abs => LaneRule::Unary { name: "i8x16_abs" },
        LaneOp::I16x8Abs => LaneRule::Unary { name: "i16x8_abs" },
        LaneOp::I32x4Abs => LaneRule::Unary { name: "i32x4_abs" },
        LaneOp::I64x2Abs => LaneRule::Unary { name: "i64x2_abs" },
        LaneOp::I8x16AvgrU => LaneRule::Binary { name: "i8x16_avgr_u" },
        LaneOp::I16x8AvgrU => LaneRule::Binary { name: "i16x8_avgr_u" },
        LaneOp::I8x16Popcnt => LaneRule::Unary { name: "i8x16_popcnt" },
        LaneOp::I8x16AllTrue => LaneRule::Reduce { name: "i8x16_all_true" },
        LaneOp::I16x8AllTrue => LaneRule::Reduce { name: "i16x8_all_true" },
        LaneOp::I32x4AllTrue => LaneRule::Reduce { name: "i32x4_all_true" },
        LaneOp::I64x2AllTrue => LaneRule::Reduce { name: "i64x2_all_true" },
        LaneOp::I8x16Bitmask => LaneRule::Reduce { name: "i8x16_bitmask" },
        LaneOp::I16x8Bitmask => LaneRule::Reduce { name: "i16x8_bitmask" },
        LaneOp::I32x4Bitmask => LaneRule::Reduce { name: "i32x4_bitmask" },
        LaneOp::I64x2Bitmask => LaneRule::Reduce { name: "i64x2_bitmask" },
        LaneOp::I8x16Swizzle => LaneRule::Binary { name: "i8x16_swizzle" },
        LaneOp::I8x16RelaxedSwizzle => LaneRule::Binary { name: "i8x16_swizzle" },
        LaneOp::I32x4RelaxedTruncF32x4S => LaneRule::Unary { name: "i32x4_trunc_sat_f32x4_s" },
        LaneOp::I32x4RelaxedTruncF32x4U => LaneRule::Unary { name: "i32x4_trunc_sat_f32x4_u" },
        LaneOp::I32x4RelaxedTruncF64x2SZero => {
            LaneRule::Unary { name: "i32x4_trunc_sat_f64x2_s_zero" }
        },
        LaneOp::I32x4RelaxedTruncF64x2UZero => {
            LaneRule::Unary { name: "i32x4_trunc_sat_f64x2_u_zero" }
        },
        LaneOp::F32x4RelaxedMin => LaneRule::Binary { name: "f32x4_min" },
        LaneOp::F32x4RelaxedMax => LaneRule::Binary { name: "f32x4_max" },
        LaneOp::F64x2RelaxedMin => LaneRule::Binary { name: "f64x2_min" },
        LaneOp::F64x2RelaxedMax => LaneRule::Binary { name: "f64x2_max" },
        LaneOp::I16x8RelaxedQ15mulrS => LaneRule::Binary { name: "i16x8_q15mulr_sat_s" },
        LaneOp::I8x16RelaxedLaneselect => LaneRule::Choose,
        LaneOp::I16x8RelaxedLaneselect => LaneRule::Choose,
        LaneOp::I32x4RelaxedLaneselect => LaneRule::Choose,
        LaneOp::I64x2RelaxedLaneselect => LaneRule::Choose,
        LaneOp::F32x4RelaxedMadd => LaneRule::Ternary { name: "f32x4_relaxed_madd" },
        LaneOp::F32x4RelaxedNmadd => LaneRule::Ternary { name: "f32x4_relaxed_nmadd" },
        LaneOp::F64x2RelaxedMadd => LaneRule::Ternary { name: "f64x2_relaxed_madd" },
        LaneOp::F64x2RelaxedNmadd => LaneRule::Ternary { name: "f64x2_relaxed_nmadd" },
        LaneOp::I16x8RelaxedDotI8x16I7x16S => {
            LaneRule::Binary { name: "i16x8_relaxed_dot_i8x16_i7x16_s" }
        },
        LaneOp::I32x4RelaxedDotI8x16I7x16AddS => {
            LaneRule::Ternary { name: "i32x4_relaxed_dot_i8x16_i7x16_add_s" }
        },
    }
}

/// The helper of each load, and the type it loads. Atomic loads are those of
/// plain memory: the instance owns its memory.
pub open spec fn load_rule(op: LoadOp) -> (Helper, ValType) {
    match op {
        LoadOp::I32Load => (Helper::LoadI32, ValType::I32),
        LoadOp::I32Load8U => (Helper::Load8U, ValType::I32),
        LoadOp::I32Load8S => (Helper::Load8S, ValType::I32),
        LoadOp::I32Load16U => (Helper::Load16U, ValType::I32),
        LoadOp::I32Load16S => (Helper::Load16S, ValType::I32),
        LoadOp::I64Load => (Helper::LoadI64, ValType::I64),
        LoadOp::F32Load => (Helper::LoadF32, ValType::F32),
        LoadOp::F64Load => (Helper::LoadF64, ValType::F64),
        LoadOp::I64Load8U => (Helper::Load8UI64, ValType::I64),
        LoadOp::I64Load8S => (Helper::Load8SI64, ValType::I64),
        LoadOp::I64Load16U => (Helper::Load16UI64, ValType::I64),
        LoadOp::I64Load16S => (Helper::Load16SI64, ValType::I64),
        LoadOp::I64Load32U => (Helper::Load32UI64, ValType::I64),
        LoadOp::I64Load32S => (Helper::Load32SI64, ValType::I64),
        LoadOp::I32AtomicLoad => (Helper::LoadI32, ValType::I32),
        LoadOp::I32AtomicLoad8U => (Helper::Load8U, ValType::I32),
        LoadOp::I32AtomicLoad16U => (Helper::Load16U, ValType::I32),
        LoadOp::I64AtomicLoad => (Helper::LoadI64, ValType::I64),
        LoadOp::I64AtomicLoad8U => (Helper::Load8UI64, ValType::I64),
        LoadOp::I64AtomicLoad16U => (Helper::Load16UI64, ValType::I64),
        LoadOp::I64AtomicLoad32U => (Helper::Load32UI64, ValType::I64),
        LoadOp::V128Load => (Helper::LoadV128, ValType::V128),
        LoadOp::V128Load8Splat => (Helper::Load8Splat, ValType::V128),
        LoadOp::V128Load16Splat => (Helper::Load16Splat, ValType::V128),
        LoadOp::V128Load32Splat => (Helper::Load32Splat, ValType::V128),
        LoadOp::V128Load64Splat => (Helper::Load64Splat, ValType::V128),
        LoadOp::V128Load32Zero => (Helper::Load32Zero, ValType::V128),
        LoadOp::V128Load64Zero => (Helper::Load64Zero, ValType::V128),
        LoadOp::V128Load8x8S => (Helper::Load8x8S, ValType::V128),
        LoadOp::V128Load8x8U => (Helper::Load8x8U, ValType::V128),
        LoadOp::V128Load16x4S => (Helper::Load16x4S, ValType::V128),
        LoadOp::V128Load16x4U => (Helper::Load16x4U, ValType::V128),
        LoadOp::V128Load32x2S => (Helper::Load32x2S, ValType::V128),
        LoadOp::V128Load32x2U => (Helper::Load32x2U, ValType::V128),
    }
}

/// The helper of each load, and the type it loads. Atomic loads are those of
/// plain memory: the instance owns its memory.
fn pick_load(op: LoadOp) -> (r: (Helper, ValType))
    ensures
        r == load_rule(op),
{
    match op {
        LoadOp::I32Load => (Helper::LoadI32, ValType::I32),
        LoadOp::I32Load8U => (Helper::Load8U, ValType::I32),
        LoadOp::I32Load8S => (Helper::Load8S, ValType::I32),
        LoadOp::I32Load16U => (Helper::Load16U, ValType::I32),
        LoadOp::I32Load16S => (Helper::Load16S, ValType::I32),
        LoadOp::I64Load => (Helper::LoadI64, ValType::I64),
        LoadOp::F32Load => (Helper::LoadF32, ValType::F32),
        LoadOp::F64Load => (Helper::LoadF64, ValType::F64),
        LoadOp::I64Load8U => (Helper::Load8UI64, ValType::I64),
        LoadOp::I64Load8S => (Helper::Load8SI64, ValType::I64),
        LoadOp::I64Load16U => (Helper::Load16UI64, ValType::I64),
        LoadOp::I64Load16S => (Helper::Load16SI64, ValType::I64),
        LoadOp::I64Load32U => (Helper::Load32UI64, ValType::I64),
        LoadOp::I64Load32S => (Helper::Load32SI64, ValType::I64),
        LoadOp::I32AtomicLoad => (Helper::LoadI32, ValType::I32),
        LoadOp::I32AtomicLoad8U => (Helper::Load8U, ValType::I32),
        LoadOp::I32AtomicLoad16U => (Helper::Load16U, ValType::I32),
        LoadOp::I64AtomicLoad => (Helper::LoadI64, ValType::I64),
        LoadOp::I64AtomicLoad8U => (Helper::Load8UI64, ValType::I64),
        LoadOp::I64AtomicLoad16U => (Helper::Load16UI64, ValType::I64),
        LoadOp::I64AtomicLoad32U => (Helper::Load32UI64, ValType::I64),
        LoadOp::V128Load => (Helper::LoadV128, ValType::V128),
        LoadOp::V128Load8Splat => (Helper::Load8Splat, ValType::V128),
        LoadOp::V128Load16Splat => (Helper::Load16Splat, ValType::V128),
        LoadOp::V128Load32Splat => (Helper::Load32Splat, ValType::V128),
        LoadOp::V128Load64Splat => (Helper::Load64Splat, ValType::V128),
        LoadOp::V128Load32Zero => (Helper::Load32Zero, ValType::V128),
        LoadOp::V128Load64Zero => (Helper::Load64Zero, ValType::V128),
        LoadOp::V128Load8x8S => (Helper::Load8x8S, ValType::V128),
        LoadOp::V128Load8x8U => (Helper::Load8x8U, ValType::V128),
        LoadOp::V128Load16x4S => (Helper::Load16x4S, ValType::V128),
        LoadOp::V128Load16x4U => (Helper::Load16x4U, ValType::V128),
        LoadOp::V128Load32x2S => (Helper::Load32x2S, ValType::V128),
        LoadOp::V128Load32x2U => (Helper::Load32x2U, ValType::V128),
    }
}

/// The helper of each store.
pub open spec fn store_rule(op: StoreOp) -> Helper {
    match op {
        StoreOp::I32Store => Helper::StoreI32,
        StoreOp::I32Store8 => Helper::Store8,
        StoreOp::I32Store16 => Helper::Store16,
        StoreOp::I64Store => Helper::StoreI64,
        StoreOp::F32Store => Helper::StoreF32,
        StoreOp::F64Store => Helper::StoreF64,
        StoreOp::I64Store8 => Helper::Store8I64,
        StoreOp::I64Store16 => Helper::Store16I64,
        StoreOp::I64Store32 => Helper::Store32I64,
        StoreOp::I32AtomicStore => Helper::StoreI32,
        StoreOp::I32AtomicStore8 => Helper::Store8,
        StoreOp::I32AtomicStore16 => Helper::Store16,
        StoreOp::I64AtomicStore => Helper::StoreI64,
        StoreOp::I64AtomicStore8 => Helper::Store8I64,
        StoreOp::I64AtomicStore16 => Helper::Store16I64,
        StoreOp::I64AtomicStore32 => Helper::Store32I64,
        StoreOp::V128Store => Helper::StoreV128,
    }
}

/// The helper of each store.
fn pick_store(op: StoreOp) -> (r: Helper)
    ensures
        r == store_rule(op),
{
    match op {
        StoreOp::I32Store => Helper::StoreI32,
        StoreOp::I32Store8 => Helper::Store8,
        StoreOp::I32Store16 => Helper::Store16,
        StoreOp::I64Store => Helper::StoreI64,
        StoreOp::F32Store => Helper::StoreF32,
        StoreOp::F64Store => Helper::StoreF64,
        StoreOp::I64Store8 => Helper::Store8I64,
        StoreOp::I64Store16 => Helper::Store16I64,
        StoreOp::I64Store32 => Helper::Store32I64,
        StoreOp::I32AtomicStore => Helper::StoreI32,
        StoreOp::I32AtomicStore8 => Helper::Store8,
        StoreOp::I32AtomicStore16 => Helper::Store16,
        StoreOp::I64AtomicStore => Helper::StoreI64,
        StoreOp::I64AtomicStore8 => Helper::Store8I64,
        StoreOp::I64AtomicStore16 => Helper::Store16I64,
        StoreOp::I64AtomicStore32 => Helper::Store32I64,
        StoreOp::V128Store => Helper::StoreV128,
    }
}

/// The helper of each lane load.
pub open spec fn load_lane_rule(op: LoadLaneOp) -> Helper {
    match op {
        LoadLaneOp::V128Load8Lane => Helper::Load8Lane,
        LoadLaneOp::V128Load16Lane => Helper::Load16Lane,
        LoadLaneOp::V128Load32Lane => Helper::Load32Lane,
        LoadLaneOp::V128Load64Lane => Helper::Load64Lane,
    }
}

/// The helper of each lane load.
fn pick_load_lane(op: LoadLaneOp) -> (r: Helper)
    ensures
        r == load_lane_rule(op),
{
    match op {
        LoadLaneOp::V128Load8Lane => Helper::Load8Lane,
        LoadLaneOp::V128Load16Lane => Helper::Load16Lane,
        LoadLaneOp::V128Load32Lane => Helper::Load32Lane,
        LoadLaneOp::V128Load64Lane => Helper::Load64Lane,
    }
}

/// The helper of each lane store.
pub open spec fn store_lane_rule(op: StoreLaneOp) -> Helper {
    match op {
        StoreLaneOp::V128Store8Lane => Helper::Store8Lane,
        StoreLaneOp::V128Store16Lane => Helper::Store16Lane,
        StoreLaneOp::V128Store32Lane => Helper::Store32Lane,
        StoreLaneOp::V128Store64Lane => Helper::Store64Lane,
    }
}

/// The helper of each lane store.
fn pick_store_lane(op: StoreLaneOp) -> (r: Helper)
    ensures
        r == store_lane_rule(op),
{
    match op {
        StoreLaneOp::V128Store8Lane => Helper::Store8Lane,
        StoreLaneOp::V128Store16Lane => Helper::Store16Lane,
        StoreLaneOp::V128Store32Lane => Helper::Store32Lane,
        StoreLaneOp::V128Store64Lane => Helper::Store64Lane,
    }
}

/// The value type of an integer type.
pub open spec fn int_type(ty: IntTy) -> ValType {
    match ty {
        IntTy::I32 => ValType::I32,
        IntTy::I64 => ValType::I64,
    }
}

/// The Rust name of an integer type.
pub open spec fn int_word(ty: IntTy) -> &'static str {
    match ty {
        IntTy::I32 => "i32",
        IntTy::I64 => "i64",
    }
}

fn int_ty(ty: IntTy) -> (r: ValType)
    ensures
        r == int_type(ty),
{
    match ty {
        IntTy::I32 => ValType::I32,
        IntTy::I64 => ValType::I64,
    }
}

fn int_target(ty: IntTy) -> (r: &'static str)
    ensures
        r == int_word(ty),
{
    match ty {
        IntTy::I32 => "i32",
        IntTy::I64 => "i64",
    }
}

impl GenV {
    /// The integer operators, in either width.
    #[verifier::opaque]
    pub open spec fn integer(self, ty: IntTy, op: IntOp) -> GenR {
        match op {
            IntOp::Clz => self.convert(
                int_type(ty),
                Wrap::Count { method: "leading_zeros", target: int_word(ty) },
            ),
            IntOp::Ctz => self.convert(
                int_type(ty),
                Wrap::Count { method: "trailing_zeros", target: int_word(ty) },
            ),
            IntOp::Popcnt => self.convert(
                int_type(ty),
                Wrap::Count { method: "count_ones", target: int_word(ty) },
            ),
            IntOp::Add => self.binop_method("wrapping_add"@),
            IntOp::Sub => self.binop_method("wrapping_sub"@),
            IntOp::Mul => self.binop_method("wrapping_mul"@),
            IntOp::DivS => self.div_signed(),
            IntOp::DivU => self.div_rem_unsigned("/"@),
            IntOp::RemS => self.rem_signed(),
            IntOp::RemU => self.div_rem_unsigned("%"@),
            IntOp::And => self.binop_infix("&"@),
            IntOp::Or => self.binop_infix("|"@),
            IntOp::Xor => self.binop_infix("^"@),
            IntOp::Shl => self.shift_op("wrapping_shl"@),
            IntOp::ShrS => self.shift_op("wrapping_shr"@),
            IntOp::ShrU => self.unsigned_shift("wrapping_shr"@),
            IntOp::Rotl => self.shift_op("rotate_left"@),
            IntOp::Rotr => self.shift_op("rotate_right"@),
            IntOp::Eqz => self.compare_zero(),
            IntOp::Eq => self.compare_signed("=="@),
            IntOp::Ne => self.compare_signed("!="@),
            IntOp::LtS => self.compare_signed("<"@),
            IntOp::LtU => self.compare_unsigned("<"@),
            IntOp::GtS => self.compare_signed(">"@),
            IntOp::GtU => self.compare_unsigned(">"@),
            IntOp::LeS => self.compare_signed("<="@),
            IntOp::LeU => self.compare_unsigned("<="@),
            IntOp::GeS => self.compare_signed(">="@),
            IntOp::GeU => self.compare_unsigned(">="@),
        }
    }

    /// The floating-point operators, in either width.
    #[verifier::opaque]
    pub open spec fn floating(self, ty: FloatTy, op: FloatOp) -> GenR {
        match op {
            FloatOp::Abs => self.unop_method("abs"@),
            FloatOp::Neg => self.unop_neg(),
            FloatOp::Ceil => self.unop_method("ceil"@),
            FloatOp::Floor => self.unop_method("floor"@),
            FloatOp::Trunc => self.unop_method("trunc"@),
            FloatOp::Nearest => self.unop_method("round_ties_even"@),
            FloatOp::Sqrt => self.unop_method("sqrt"@),
            FloatOp::Add => self.binop_infix("+"@),
            FloatOp::Sub => self.binop_infix("-"@),
            FloatOp::Mul => self.binop_infix("*"@),
            FloatOp::Div => self.binop_infix("/"@),
            FloatOp::Min => match ty {
                FloatTy::F32 => self.call_rt_binop(Rt::F32Min),
                FloatTy::F64 => self.call_rt_binop(Rt::F64Min),
            },
            FloatOp::Max => match ty {
                FloatTy::F32 => self.call_rt_binop(Rt::F32Max),
                FloatTy::F64 => self.call_rt_binop(Rt::F64Max),
            },
            FloatOp::Copysign => self.binop_method("copysign"@),
            FloatOp::Eq => self.compare_signed("=="@),
            FloatOp::Ne => self.compare_signed("!="@),
            FloatOp::Lt => self.compare_signed("<"@),
            FloatOp::Gt => self.compare_signed(">"@),
            FloatOp::Le => self.compare_signed("<="@),
            FloatOp::Ge => self.compare_signed(">="@),
        }
    }

    #[verifier::opaque]
    pub open spec fn converted(self, op: ConvertOp) -> GenR {
        match convert_rule(op) {
            ConvertRule::Pure { ty, wrap } => self.convert(ty, wrap),
            ConvertRule::Trapping { rt, ty } => self.call_rt_unop_trapping(rt, ty),
        }
    }

    #[verifier::opaque]
    pub open spec fn lane_wise(self, op: LaneOp) -> GenR {
        match lane_rule(op) {
            LaneRule::Unary { name } => self.call_simd_unop(name@, ValType::V128),
            LaneRule::Reduce { name } => self.call_simd_unop(name@, ValType::I32),
            LaneRule::Binary { name } => self.call_simd_binop(name@),
            LaneRule::Shift { name } => self.call_simd_binop(name@),
            LaneRule::Ternary { name } => self.call_simd_ternop(name@),
            LaneRule::Splat { rt } => self.call_rt_unop(rt, ValType::V128),
            LaneRule::Infix { op } => self.binop_infix(op@),
            LaneRule::Mask { op, digits } => self.v128_mask_op(op@, digits@),
            LaneRule::Not => self.v128_not(),
            LaneRule::AndNot => self.v128_andnot(),
            LaneRule::Choose => self.v128_bitselect(),
            LaneRule::AnyTrue => self.v128_any_true(),
        }
    }
}

impl<'a> FuncGen<'a> {
    /// The integer operators, in either width.
    pub fn emit_int(&mut self, ty: IntTy, op: IntOp) -> (r: Result<(), TranspileError>)
        requires
            old(self).wf(),
        ensures
            gen_result(r, final(self)@, old(self)@.integer(ty, op)),
            r is Ok ==> final(self).wf(),
    {
        proof {
            reveal(GenV::integer);
        }
        match op {
            IntOp::Clz => self.bit_count(int_ty(ty), "leading_zeros", int_target(ty)),
            IntOp::Ctz => self.bit_count(int_ty(ty), "trailing_zeros", int_target(ty)),
            IntOp::Popcnt => self.bit_count(int_ty(ty), "count_ones", int_target(ty)),
            IntOp::Add => self.binop_method("wrapping_add"),
            IntOp::Sub => self.binop_method("wrapping_sub"),
            IntOp::Mul => self.binop_method("wrapping_mul"),
            IntOp::DivS => self.div_signed(),
            IntOp::DivU => self.div_rem_unsigned("/"),
            IntOp::RemS => self.rem_signed(),
            IntOp::RemU => self.div_rem_unsigned("%"),
            IntOp::And => self.binop_infix("&"),
            IntOp::Or => self.binop_infix("|"),
            IntOp::Xor => self.binop_infix("^"),
            IntOp::Shl => self.shift_op("wrapping_shl"),
            IntOp::ShrS => self.shift_op("wrapping_shr"),
            IntOp::ShrU => self.unsigned_shift("wrapping_shr"),
            IntOp::Rotl => self.shift_op("rotate_left"),
            IntOp::Rotr => self.shift_op("rotate_right"),
            IntOp::Eqz => self.compare_zero(),
            IntOp::Eq => self.compare_signed("=="),
            IntOp::Ne => self.compare_signed("!="),
            IntOp::LtS => self.compare_signed("<"),
            IntOp::LtU => self.compare_unsigned("<"),
            IntOp::GtS => self.compare_signed(">"),
            IntOp::GtU => self.compare_unsigned(">"),
            IntOp::LeS => self.compare_signed("<="),
            IntOp::LeU => self.compare_unsigned("<="),
            IntOp::GeS => self.compare_signed(">="),
            IntOp::GeU => self.compare_unsigned(">="),
        }
    }

    /// The floating-point operators, in either width. Arithmetic and comparisons
    /// map to native operators (Rust float compare yields false for NaN, as wasm
    /// requires). `min`/`max` differ from Rust's built-ins: wasm propagates NaN
    /// and orders -0 below +0, so they route through runtime helpers. `nearest`
    /// rounds halves to even.
    pub fn emit_float(&mut self, ty: FloatTy, op: FloatOp) -> (r: Result<(), TranspileError>)
        requires
            old(self).wf(),
        ensures
            gen_result(r, final(self)@, old(self)@.floating(ty, op)),
            r is Ok ==> final(self).wf(),
    {
        proof {
            reveal(GenV::floating);
        }
        match op {
            FloatOp::Abs => self.unop_method("abs"),
            FloatOp::Neg => self.unop_neg(),
            FloatOp::Ceil => self.unop_method("ceil"),
            FloatOp::Floor => self.unop_method("floor"),
            FloatOp::Trunc => self.unop_method("trunc"),
            FloatOp::Nearest => self.unop_method("round_ties_even"),
            FloatOp::Sqrt => self.unop_method("sqrt"),
            FloatOp::Add => self.binop_infix("+"),
            FloatOp::Sub => self.binop_infix("-"),
            FloatOp::Mul => self.binop_infix("*"),
            FloatOp::Div => self.binop_infix("/"),
            FloatOp::Min => match ty {
                FloatTy::F32 => self.call_rt_binop(Rt::F32Min),
                FloatTy::F64 => self.call_rt_binop(Rt::F64Min),
            },
            FloatOp::Max => match ty {
                FloatTy::F32 => self.call_rt_binop(Rt::F32Max),
                FloatTy::F64 => self.call_rt_binop(Rt::F64Max),
            },
            FloatOp::Copysign => self.binop_method("copysign"),
            FloatOp::Eq => self.compare_signed("=="),
            FloatOp::Ne => self.compare_signed("!="),
            FloatOp::Lt => self.compare_signed("<"),
            FloatOp::Gt => self.compare_signed(">"),
            FloatOp::Le => self.compare_signed("<="),
            FloatOp::Ge => self.compare_signed(">="),
        }
    }

    /// Numeric conversions. Integer wrap/extend and int<->float casts map to Rust
    /// `as` (which truncates integers and, for float->int, is saturating —
    /// matching wasm's `trunc_sat`). Non-saturating truncations trap on NaN or an
    /// out-of-range value, so they route through runtime helpers.
    pub fn emit_convert(&mut self, op: ConvertOp) -> (r: Result<(), TranspileError>)
        requires
            old(self).wf(),
        ensures
            gen_result(r, final(self)@, old(self)@.converted(op)),
            r is Ok ==> final(self).wf(),
    {
        proof {
            reveal(GenV::converted);
        }
        match pick_convert(op) {
            ConvertRule::Pure { ty, wrap } => self.convert(ty, wrap),
            ConvertRule::Trapping { rt, ty } => self.call_rt_unop_trapping(rt, ty),
        }
    }

    /// Lane-wise vector operators.
    pub fn emit_lane(&mut self, op: LaneOp) -> (r: Result<(), TranspileError>)
        requires
            old(self).wf(),
        ensures
            gen_result(r, final(self)@, old(self)@.lane_wise(op)),
            r is Ok ==> final(self).wf(),
    {
        proof {
            reveal(GenV::lane_wise);
        }
        match pick_lane(op) {
            LaneRule::Unary { name } => self.call_simd_unop(name),
            LaneRule::Reduce { name } => self.call_simd_reduce(name),
            LaneRule::Binary { name } => self.call_simd_binop(name),
            LaneRule::Shift { name } => self.call_simd_shift(name),
            LaneRule::Ternary { name } => self.call_simd_ternop(name),
            LaneRule::Splat { rt } => self.call_rt_unop(rt, ValType::V128),
            LaneRule::Infix { op } => self.binop_infix(op),
            LaneRule::Mask { op, digits } => self.v128_mask_op(op, digits),
            LaneRule::Not => self.v128_not(),
            LaneRule::AndNot => self.v128_andnot(),
            LaneRule::Choose => self.v128_bitselect(),
            LaneRule::AnyTrue => self.v128_any_true(),
        }
    }

    /// A load, atomic or not. The instance owns its memory, so an atomic access
    /// lowers to the plain one; narrow atomic loads are always zero-extending.
    pub fn emit_load(&mut self, op: LoadOp, memarg: MemArg) -> (r: Result<(), TranspileError>)
        requires
            old(self).wf(),
        ensures
            gen_result(r, final(self)@, old(self)@.load(load_rule(op).0, load_rule(op).1, memarg)),
            r is Ok ==> final(self).wf(),
    {
        let (helper, ty) = pick_load(op);
        self.load(helper, ty, memarg)
    }

    /// A store, atomic or not.
    pub fn emit_store(&mut self, op: StoreOp, memarg: MemArg) -> (r: Result<(), TranspileError>)
        requires
            old(self).wf(),
        ensures
            gen_result(r, final(self)@, old(self)@.store(store_rule(op), memarg)),
            r is Ok ==> final(self).wf(),
    {
        self.store(pick_store(op), memarg)
    }

    /// A load into one lane.
    pub fn emit_load_lane(&mut self, op: LoadLaneOp, memarg: MemArg, lane: u8) -> (r: Result<
        (),
        TranspileError,
    >)
        requires
            old(self).wf(),
        ensures
            gen_result(r, final(self)@, old(self)@.load_lane(load_lane_rule(op), memarg, lane)),
            r is Ok ==> final(self).wf(),
    {
        self.load_lane(pick_load_lane(op), memarg, lane)
    }

    /// A store out of one lane.
    pub fn emit_store_lane(&mut self, op: StoreLaneOp, memarg: MemArg, lane: u8) -> (r: Result<
        (),
        TranspileError,
    >)
        requires
            old(self).wf(),
        ensures
            gen_result(r, final(self)@, old(self)@.store_lane(store_lane_rule(op), memarg, lane)),
            r is Ok ==> final(self).wf(),
    {
        self.store_lane(pick_store_lane(op), memarg, lane)
    }
}

} // verus!
