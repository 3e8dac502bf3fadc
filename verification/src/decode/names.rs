//! The operators by their names.

use vstd::prelude::*;

use crate::ops::{
    AtomicWidth, ConvertOp, ExtractOp, FloatOp, FloatTy, IntOp, IntTy, LaneOp, LoadLaneOp, LoadOp,
    ReplaceOp, RmwOp, StoreLaneOp, StoreOp,
};
use crate::text::same;

verus! {

/// The integer operator with this name.
pub open spec fn int_named(w: Seq<char>) -> Option<(IntTy, IntOp)> {
    if w == "I32Clz"@ {
        Some((IntTy::I32, IntOp::Clz))
    } else if w == "I32Ctz"@ {
        Some((IntTy::I32, IntOp::Ctz))
    } else if w == "I32Popcnt"@ {
        Some((IntTy::I32, IntOp::Popcnt))
    } else if w == "I32Add"@ {
        Some((IntTy::I32, IntOp::Add))
    } else if w == "I32Sub"@ {
        Some((IntTy::I32, IntOp::Sub))
    } else if w == "I32Mul"@ {
        Some((IntTy::I32, IntOp::Mul))
    } else if w == "I32DivS"@ {
        Some((IntTy::I32, IntOp::DivS))
    } else if w == "I32DivU"@ {
        Some((IntTy::I32, IntOp::DivU))
    } else if w == "I32RemS"@ {
        Some((IntTy::I32, IntOp::RemS))
    } else if w == "I32RemU"@ {
        Some((IntTy::I32, IntOp::RemU))
    } else if w == "I32And"@ {
        Some((IntTy::I32, IntOp::And))
    } else if w == "I32Or"@ {
        Some((IntTy::I32, IntOp::Or))
    } else if w == "I32Xor"@ {
        Some((IntTy::I32, IntOp::Xor))
    } else if w == "I32Shl"@ {
        Some((IntTy::I32, IntOp::Shl))
    } else if w == "I32ShrS"@ {
        Some((IntTy::I32, IntOp::ShrS))
    } else if w == "I32ShrU"@ {
        Some((IntTy::I32, IntOp::ShrU))
    } else if w == "I32Rotl"@ {
        Some((IntTy::I32, IntOp::Rotl))
    } else if w == "I32Rotr"@ {
        Some((IntTy::I32, IntOp::Rotr))
    } else if w == "I32Eqz"@ {
        Some((IntTy::I32, IntOp::Eqz))
    } else if w == "I32Eq"@ {
        Some((IntTy::I32, IntOp::Eq))
    } else if w == "I32Ne"@ {
        Some((IntTy::I32, IntOp::Ne))
    } else if w == "I32LtS"@ {
        Some((IntTy::I32, IntOp::LtS))
    } else if w == "I32LtU"@ {
        Some((IntTy::I32, IntOp::LtU))
    } else if w == "I32GtS"@ {
        Some((IntTy::I32, IntOp::GtS))
    } else if w == "I32GtU"@ {
        Some((IntTy::I32, IntOp::GtU))
    } else if w == "I32LeS"@ {
        Some((IntTy::I32, IntOp::LeS))
    } else if w == "I32LeU"@ {
        Some((IntTy::I32, IntOp::LeU))
    } else if w == "I32GeS"@ {
        Some((IntTy::I32, IntOp::GeS))
    } else if w == "I32GeU"@ {
        Some((IntTy::I32, IntOp::GeU))
    } else if w == "I64Clz"@ {
        Some((IntTy::I64, IntOp::Clz))
    } else if w == "I64Ctz"@ {
        Some((IntTy::I64, IntOp::Ctz))
    } else if w == "I64Popcnt"@ {
        Some((IntTy::I64, IntOp::Popcnt))
    } else if w == "I64Add"@ {
        Some((IntTy::I64, IntOp::Add))
    } else if w == "I64Sub"@ {
        Some((IntTy::I64, IntOp::Sub))
    } else if w == "I64Mul"@ {
        Some((IntTy::I64, IntOp::Mul))
    } else if w == "I64DivS"@ {
        Some((IntTy::I64, IntOp::DivS))
    } else if w == "I64DivU"@ {
        Some((IntTy::I64, IntOp::DivU))
    } else if w == "I64RemS"@ {
        Some((IntTy::I64, IntOp::RemS))
    } else if w == "I64RemU"@ {
        Some((IntTy::I64, IntOp::RemU))
    } else if w == "I64And"@ {
        Some((IntTy::I64, IntOp::And))
    } else {
        int_named_1(w)
    }
}

/// The integer operator with this name.
pub fn read_int(w: &str) -> (r: Option<(IntTy, IntOp)>)
    ensures
        r == int_named(w@),
{
    if same(w, "I32Clz") {
        Some((IntTy::I32, IntOp::Clz))
    } else if same(w, "I32Ctz") {
        Some((IntTy::I32, IntOp::Ctz))
    } else if same(w, "I32Popcnt") {
        Some((IntTy::I32, IntOp::Popcnt))
    } else if same(w, "I32Add") {
        Some((IntTy::I32, IntOp::Add))
    } else if same(w, "I32Sub") {
        Some((IntTy::I32, IntOp::Sub))
    } else if same(w, "I32Mul") {
        Some((IntTy::I32, IntOp::Mul))
    } else if same(w, "I32DivS") {
        Some((IntTy::I32, IntOp::DivS))
    } else if same(w, "I32DivU") {
        Some((IntTy::I32, IntOp::DivU))
    } else if same(w, "I32RemS") {
        Some((IntTy::I32, IntOp::RemS))
    } else if same(w, "I32RemU") {
        Some((IntTy::I32, IntOp::RemU))
    } else if same(w, "I32And") {
        Some((IntTy::I32, IntOp::And))
    } else if same(w, "I32Or") {
        Some((IntTy::I32, IntOp::Or))
    } else if same(w, "I32Xor") {
        Some((IntTy::I32, IntOp::Xor))
    } else if same(w, "I32Shl") {
        Some((IntTy::I32, IntOp::Shl))
    } else if same(w, "I32ShrS") {
        Some((IntTy::I32, IntOp::ShrS))
    } else if same(w, "I32ShrU") {
        Some((IntTy::I32, IntOp::ShrU))
    } else if same(w, "I32Rotl") {
        Some((IntTy::I32, IntOp::Rotl))
    } else if same(w, "I32Rotr") {
        Some((IntTy::I32, IntOp::Rotr))
    } else if same(w, "I32Eqz") {
        Some((IntTy::I32, IntOp::Eqz))
    } else if same(w, "I32Eq") {
        Some((IntTy::I32, IntOp::Eq))
    } else if same(w, "I32Ne") {
        Some((IntTy::I32, IntOp::Ne))
    } else if same(w, "I32LtS") {
        Some((IntTy::I32, IntOp::LtS))
    } else if same(w, "I32LtU") {
        Some((IntTy::I32, IntOp::LtU))
    } else if same(w, "I32GtS") {
        Some((IntTy::I32, IntOp::GtS))
    } else if same(w, "I32GtU") {
        Some((IntTy::I32, IntOp::GtU))
    } else if same(w, "I32LeS") {
        Some((IntTy::I32, IntOp::LeS))
    } else if same(w, "I32LeU") {
        Some((IntTy::I32, IntOp::LeU))
    } else if same(w, "I32GeS") {
        Some((IntTy::I32, IntOp::GeS))
    } else if same(w, "I32GeU") {
        Some((IntTy::I32, IntOp::GeU))
    } else if same(w, "I64Clz") {
        Some((IntTy::I64, IntOp::Clz))
    } else if same(w, "I64Ctz") {
        Some((IntTy::I64, IntOp::Ctz))
    } else if same(w, "I64Popcnt") {
        Some((IntTy::I64, IntOp::Popcnt))
    } else if same(w, "I64Add") {
        Some((IntTy::I64, IntOp::Add))
    } else if same(w, "I64Sub") {
        Some((IntTy::I64, IntOp::Sub))
    } else if same(w, "I64Mul") {
        Some((IntTy::I64, IntOp::Mul))
    } else if same(w, "I64DivS") {
        Some((IntTy::I64, IntOp::DivS))
    } else if same(w, "I64DivU") {
        Some((IntTy::I64, IntOp::DivU))
    } else if same(w, "I64RemS") {
        Some((IntTy::I64, IntOp::RemS))
    } else if same(w, "I64RemU") {
        Some((IntTy::I64, IntOp::RemU))
    } else if same(w, "I64And") {
        Some((IntTy::I64, IntOp::And))
    } else {
        read_int_1(w)
    }
}

/// The integer operator with this name.
pub open spec fn int_named_1(w: Seq<char>) -> Option<(IntTy, IntOp)> {
    if w == "I64Or"@ {
        Some((IntTy::I64, IntOp::Or))
    } else if w == "I64Xor"@ {
        Some((IntTy::I64, IntOp::Xor))
    } else if w == "I64Shl"@ {
        Some((IntTy::I64, IntOp::Shl))
    } else if w == "I64ShrS"@ {
        Some((IntTy::I64, IntOp::ShrS))
    } else if w == "I64ShrU"@ {
        Some((IntTy::I64, IntOp::ShrU))
    } else if w == "I64Rotl"@ {
        Some((IntTy::I64, IntOp::Rotl))
    } else if w == "I64Rotr"@ {
        Some((IntTy::I64, IntOp::Rotr))
    } else if w == "I64Eqz"@ {
        Some((IntTy::I64, IntOp::Eqz))
    } else if w == "I64Eq"@ {
        Some((IntTy::I64, IntOp::Eq))
    } else if w == "I64Ne"@ {
        Some((IntTy::I64, IntOp::Ne))
    } else if w == "I64LtS"@ {
        Some((IntTy::I64, IntOp::LtS))
    } else if w == "I64LtU"@ {
        Some((IntTy::I64, IntOp::LtU))
    } else if w == "I64GtS"@ {
        Some((IntTy::I64, IntOp::GtS))
    } else if w == "I64GtU"@ {
        Some((IntTy::I64, IntOp::GtU))
    } else if w == "I64LeS"@ {
        Some((IntTy::I64, IntOp::LeS))
    } else if w == "I64LeU"@ {
        Some((IntTy::I64, IntOp::LeU))
    } else if w == "I64GeS"@ {
        Some((IntTy::I64, IntOp::GeS))
    } else if w == "I64GeU"@ {
        Some((IntTy::I64, IntOp::GeU))
    } else {
        None
    }
}

/// The integer operator with this name.
fn read_int_1(w: &str) -> (r: Option<(IntTy, IntOp)>)
    ensures
        r == int_named_1(w@),
{
    if same(w, "I64Or") {
        Some((IntTy::I64, IntOp::Or))
    } else if same(w, "I64Xor") {
        Some((IntTy::I64, IntOp::Xor))
    } else if same(w, "I64Shl") {
        Some((IntTy::I64, IntOp::Shl))
    } else if same(w, "I64ShrS") {
        Some((IntTy::I64, IntOp::ShrS))
    } else if same(w, "I64ShrU") {
        Some((IntTy::I64, IntOp::ShrU))
    } else if same(w, "I64Rotl") {
        Some((IntTy::I64, IntOp::Rotl))
    } else if same(w, "I64Rotr") {
        Some((IntTy::I64, IntOp::Rotr))
    } else if same(w, "I64Eqz") {
        Some((IntTy::I64, IntOp::Eqz))
    } else if same(w, "I64Eq") {
        Some((IntTy::I64, IntOp::Eq))
    } else if same(w, "I64Ne") {
        Some((IntTy::I64, IntOp::Ne))
    } else if same(w, "I64LtS") {
        Some((IntTy::I64, IntOp::LtS))
    } else if same(w, "I64LtU") {
        Some((IntTy::I64, IntOp::LtU))
    } else if same(w, "I64GtS") {
        Some((IntTy::I64, IntOp::GtS))
    } else if same(w, "I64GtU") {
        Some((IntTy::I64, IntOp::GtU))
    } else if same(w, "I64LeS") {
        Some((IntTy::I64, IntOp::LeS))
    } else if same(w, "I64LeU") {
        Some((IntTy::I64, IntOp::LeU))
    } else if same(w, "I64GeS") {
        Some((IntTy::I64, IntOp::GeS))
    } else if same(w, "I64GeU") {
        Some((IntTy::I64, IntOp::GeU))
    } else {
        None
    }
}

/// The floating-point operator with this name.
pub open spec fn float_named(w: Seq<char>) -> Option<(FloatTy, FloatOp)> {
    if w == "F32Abs"@ {
        Some((FloatTy::F32, FloatOp::Abs))
    } else if w == "F32Neg"@ {
        Some((FloatTy::F32, FloatOp::Neg))
    } else if w == "F32Ceil"@ {
        Some((FloatTy::F32, FloatOp::Ceil))
    } else if w == "F32Floor"@ {
        Some((FloatTy::F32, FloatOp::Floor))
    } else if w == "F32Trunc"@ {
        Some((FloatTy::F32, FloatOp::Trunc))
    } else if w == "F32Nearest"@ {
        Some((FloatTy::F32, FloatOp::Nearest))
    } else if w == "F32Sqrt"@ {
        Some((FloatTy::F32, FloatOp::Sqrt))
    } else if w == "F32Add"@ {
        Some((FloatTy::F32, FloatOp::Add))
    } else if w == "F32Sub"@ {
        Some((FloatTy::F32, FloatOp::Sub))
    } else if w == "F32Mul"@ {
        Some((FloatTy::F32, FloatOp::Mul))
    } else if w == "F32Div"@ {
        Some((FloatTy::F32, FloatOp::Div))
    } else if w == "F32Min"@ {
        Some((FloatTy::F32, FloatOp::Min))
    } else if w == "F32Max"@ {
        Some((FloatTy::F32, FloatOp::Max))
    } else if w == "F32Copysign"@ {
        Some((FloatTy::F32, FloatOp::Copysign))
    } else if w == "F32Eq"@ {
        Some((FloatTy::F32, FloatOp::Eq))
    } else if w == "F32Ne"@ {
        Some((FloatTy::F32, FloatOp::Ne))
    } else if w == "F32Lt"@ {
        Some((FloatTy::F32, FloatOp::Lt))
    } else if w == "F32Gt"@ {
        Some((FloatTy::F32, FloatOp::Gt))
    } else if w == "F32Le"@ {
        Some((FloatTy::F32, FloatOp::Le))
    } else if w == "F32Ge"@ {
        Some((FloatTy::F32, FloatOp::Ge))
    } else if w == "F64Abs"@ {
        Some((FloatTy::F64, FloatOp::Abs))
    } else if w == "F64Neg"@ {
        Some((FloatTy::F64, FloatOp::Neg))
    } else if w == "F64Ceil"@ {
        Some((FloatTy::F64, FloatOp::Ceil))
    } else if w == "F64Floor"@ {
        Some((FloatTy::F64, FloatOp::Floor))
    } else if w == "F64Trunc"@ {
        Some((FloatTy::F64, FloatOp::Trunc))
    } else if w == "F64Nearest"@ {
        Some((FloatTy::F64, FloatOp::Nearest))
    } else if w == "F64Sqrt"@ {
        Some((FloatTy::F64, FloatOp::Sqrt))
    } else if w == "F64Add"@ {
        Some((FloatTy::F64, FloatOp::Add))
    } else if w == "F64Sub"@ {
        Some((FloatTy::F64, FloatOp::Sub))
    } else if w == "F64Mul"@ {
        Some((FloatTy::F64, FloatOp::Mul))
    } else if w == "F64Div"@ {
        Some((FloatTy::F64, FloatOp::Div))
    } else if w == "F64Min"@ {
        Some((FloatTy::F64, FloatOp::Min))
    } else if w == "F64Max"@ {
        Some((FloatTy::F64, FloatOp::Max))
    } else if w == "F64Copysign"@ {
        Some((FloatTy::F64, FloatOp::Copysign))
    } else if w == "F64Eq"@ {
        Some((FloatTy::F64, FloatOp::Eq))
    } else if w == "F64Ne"@ {
        Some((FloatTy::F64, FloatOp::Ne))
    } else if w == "F64Lt"@ {
        Some((FloatTy::F64, FloatOp::Lt))
    } else if w == "F64Gt"@ {
        Some((FloatTy::F64, FloatOp::Gt))
    } else if w == "F64Le"@ {
        Some((FloatTy::F64, FloatOp::Le))
    } else if w == "F64Ge"@ {
        Some((FloatTy::F64, FloatOp::Ge))
    } else {
        None
    }
}

/// The floating-point operator with this name.
pub fn read_float(w: &str) -> (r: Option<(FloatTy, FloatOp)>)
    ensures
        r == float_named(w@),
{
    if same(w, "F32Abs") {
        Some((FloatTy::F32, FloatOp::Abs))
    } else if same(w, "F32Neg") {
        Some((FloatTy::F32, FloatOp::Neg))
    } else if same(w, "F32Ceil") {
        Some((FloatTy::F32, FloatOp::Ceil))
    } else if same(w, "F32Floor") {
        Some((FloatTy::F32, FloatOp::Floor))
    } else if same(w, "F32Trunc") {
        Some((FloatTy::F32, FloatOp::Trunc))
    } else if same(w, "F32Nearest") {
        Some((FloatTy::F32, FloatOp::Nearest))
    } else if same(w, "F32Sqrt") {
        Some((FloatTy::F32, FloatOp::Sqrt))
    } else if same(w, "F32Add") {
        Some((FloatTy::F32, FloatOp::Add))
    } else if same(w, "F32Sub") {
        Some((FloatTy::F32, FloatOp::Sub))
    } else if same(w, "F32Mul") {
        Some((FloatTy::F32, FloatOp::Mul))
    } else if same(w, "F32Div") {
        Some((FloatTy::F32, FloatOp::Div))
    } else if same(w, "F32Min") {
        Some((FloatTy::F32, FloatOp::Min))
    } else if same(w, "F32Max") {
        Some((FloatTy::F32, FloatOp::Max))
    } else if same(w, "F32Copysign") {
        Some((FloatTy::F32, FloatOp::Copysign))
    } else if same(w, "F32Eq") {
        Some((FloatTy::F32, FloatOp::Eq))
    } else if same(w, "F32Ne") {
        Some((FloatTy::F32, FloatOp::Ne))
    } else if same(w, "F32Lt") {
        Some((FloatTy::F32, FloatOp::Lt))
    } else if same(w, "F32Gt") {
        Some((FloatTy::F32, FloatOp::Gt))
    } else if same(w, "F32Le") {
        Some((FloatTy::F32, FloatOp::Le))
    } else if same(w, "F32Ge") {
        Some((FloatTy::F32, FloatOp::Ge))
    } else if same(w, "F64Abs") {
        Some((FloatTy::F64, FloatOp::Abs))
    } else if same(w, "F64Neg") {
        Some((FloatTy::F64, FloatOp::Neg))
    } else if same(w, "F64Ceil") {
        Some((FloatTy::F64, FloatOp::Ceil))
    } else if same(w, "F64Floor") {
        Some((FloatTy::F64, FloatOp::Floor))
    } else if same(w, "F64Trunc") {
        Some((FloatTy::F64, FloatOp::Trunc))
    } else if same(w, "F64Nearest") {
        Some((FloatTy::F64, FloatOp::Nearest))
    } else if same(w, "F64Sqrt") {
        Some((FloatTy::F64, FloatOp::Sqrt))
    } else if same(w, "F64Add") {
        Some((FloatTy::F64, FloatOp::Add))
    } else if same(w, "F64Sub") {
        Some((FloatTy::F64, FloatOp::Sub))
    } else if same(w, "F64Mul") {
        Some((FloatTy::F64, FloatOp::Mul))
    } else if same(w, "F64Div") {
        Some((FloatTy::F64, FloatOp::Div))
    } else if same(w, "F64Min") {
        Some((FloatTy::F64, FloatOp::Min))
    } else if same(w, "F64Max") {
        Some((FloatTy::F64, FloatOp::Max))
    } else if same(w, "F64Copysign") {
        Some((FloatTy::F64, FloatOp::Copysign))
    } else if same(w, "F64Eq") {
        Some((FloatTy::F64, FloatOp::Eq))
    } else if same(w, "F64Ne") {
        Some((FloatTy::F64, FloatOp::Ne))
    } else if same(w, "F64Lt") {
        Some((FloatTy::F64, FloatOp::Lt))
    } else if same(w, "F64Gt") {
        Some((FloatTy::F64, FloatOp::Gt))
    } else if same(w, "F64Le") {
        Some((FloatTy::F64, FloatOp::Le))
    } else if same(w, "F64Ge") {
        Some((FloatTy::F64, FloatOp::Ge))
    } else {
        None
    }
}

/// The conversion with this name.
pub open spec fn convert_named(w: Seq<char>) -> Option<ConvertOp> {
    if w == "I32WrapI64"@ {
        Some(ConvertOp::I32WrapI64)
    } else if w == "I64ExtendI32S"@ {
        Some(ConvertOp::I64ExtendI32S)
    } else if w == "I64ExtendI32U"@ {
        Some(ConvertOp::I64ExtendI32U)
    } else if w == "I32Extend8S"@ {
        Some(ConvertOp::I32Extend8S)
    } else if w == "I32Extend16S"@ {
        Some(ConvertOp::I32Extend16S)
    } else if w == "I64Extend8S"@ {
        Some(ConvertOp::I64Extend8S)
    } else if w == "I64Extend16S"@ {
        Some(ConvertOp::I64Extend16S)
    } else if w == "I64Extend32S"@ {
        Some(ConvertOp::I64Extend32S)
    } else if w == "F32ConvertI32S"@ {
        Some(ConvertOp::F32ConvertI32S)
    } else if w == "F32ConvertI64S"@ {
        Some(ConvertOp::F32ConvertI64S)
    } else if w == "F64ConvertI32S"@ {
        Some(ConvertOp::F64ConvertI32S)
    } else if w == "F64ConvertI64S"@ {
        Some(ConvertOp::F64ConvertI64S)
    } else if w == "F32ConvertI32U"@ {
        Some(ConvertOp::F32ConvertI32U)
    } else if w == "F32ConvertI64U"@ {
        Some(ConvertOp::F32ConvertI64U)
    } else if w == "F64ConvertI32U"@ {
        Some(ConvertOp::F64ConvertI32U)
    } else if w == "F64ConvertI64U"@ {
        Some(ConvertOp::F64ConvertI64U)
    } else if w == "F32DemoteF64"@ {
        Some(ConvertOp::F32DemoteF64)
    } else if w == "F64PromoteF32"@ {
        Some(ConvertOp::F64PromoteF32)
    } else if w == "I32ReinterpretF32"@ {
        Some(ConvertOp::I32ReinterpretF32)
    } else if w == "I64ReinterpretF64"@ {
        Some(ConvertOp::I64ReinterpretF64)
    } else if w == "F32ReinterpretI32"@ {
        Some(ConvertOp::F32ReinterpretI32)
    } else if w == "F64ReinterpretI64"@ {
        Some(ConvertOp::F64ReinterpretI64)
    } else if w == "I32TruncF32S"@ {
        Some(ConvertOp::I32TruncF32S)
    } else if w == "I32TruncF32U"@ {
        Some(ConvertOp::I32TruncF32U)
    } else if w == "I32TruncF64S"@ {
        Some(ConvertOp::I32TruncF64S)
    } else if w == "I32TruncF64U"@ {
        Some(ConvertOp::I32TruncF64U)
    } else if w == "I64TruncF32S"@ {
        Some(ConvertOp::I64TruncF32S)
    } else if w == "I64TruncF32U"@ {
        Some(ConvertOp::I64TruncF32U)
    } else if w == "I64TruncF64S"@ {
        Some(ConvertOp::I64TruncF64S)
    } else if w == "I64TruncF64U"@ {
        Some(ConvertOp::I64TruncF64U)
    } else if w == "I32TruncSatF32S"@ {
        Some(ConvertOp::I32TruncSatF32S)
    } else if w == "I32TruncSatF64S"@ {
        Some(ConvertOp::I32TruncSatF64S)
    } else if w == "I64TruncSatF32S"@ {
        Some(ConvertOp::I64TruncSatF32S)
    } else if w == "I64TruncSatF64S"@ {
        Some(ConvertOp::I64TruncSatF64S)
    } else if w == "I32TruncSatF32U"@ {
        Some(ConvertOp::I32TruncSatF32U)
    } else if w == "I32TruncSatF64U"@ {
        Some(ConvertOp::I32TruncSatF64U)
    } else if w == "I64TruncSatF32U"@ {
        Some(ConvertOp::I64TruncSatF32U)
    } else if w == "I64TruncSatF64U"@ {
        Some(ConvertOp::I64TruncSatF64U)
    } else {
        None
    }
}

/// The conversion with this name.
pub fn read_convert(w: &str) -> (r: Option<ConvertOp>)
    ensures
        r == convert_named(w@),
{
    if same(w, "I32WrapI64") {
        Some(ConvertOp::I32WrapI64)
    } else if same(w, "I64ExtendI32S") {
        Some(ConvertOp::I64ExtendI32S)
    } else if same(w, "I64ExtendI32U") {
        Some(ConvertOp::I64ExtendI32U)
    } else if same(w, "I32Extend8S") {
        Some(ConvertOp::I32Extend8S)
    } else if same(w, "I32Extend16S") {
        Some(ConvertOp::I32Extend16S)
    } else if same(w, "I64Extend8S") {
        Some(ConvertOp::I64Extend8S)
    } else if same(w, "I64Extend16S") {
        Some(ConvertOp::I64Extend16S)
    } else if same(w, "I64Extend32S") {
        Some(ConvertOp::I64Extend32S)
    } else if same(w, "F32ConvertI32S") {
        Some(ConvertOp::F32ConvertI32S)
    } else if same(w, "F32ConvertI64S") {
        Some(ConvertOp::F32ConvertI64S)
    } else if same(w, "F64ConvertI32S") {
        Some(ConvertOp::F64ConvertI32S)
    } else if same(w, "F64ConvertI64S") {
        Some(ConvertOp::F64ConvertI64S)
    } else if same(w, "F32ConvertI32U") {
        Some(ConvertOp::F32ConvertI32U)
    } else if same(w, "F32ConvertI64U") {
        Some(ConvertOp::F32ConvertI64U)
    } else if same(w, "F64ConvertI32U") {
        Some(ConvertOp::F64ConvertI32U)
    } else if same(w, "F64ConvertI64U") {
        Some(ConvertOp::F64ConvertI64U)
    } else if same(w, "F32DemoteF64") {
        Some(ConvertOp::F32DemoteF64)
    } else if same(w, "F64PromoteF32") {
        Some(ConvertOp::F64PromoteF32)
    } else if same(w, "I32ReinterpretF32") {
        Some(ConvertOp::I32ReinterpretF32)
    } else if same(w, "I64ReinterpretF64") {
        Some(ConvertOp::I64ReinterpretF64)
    } else if same(w, "F32ReinterpretI32") {
        Some(ConvertOp::F32ReinterpretI32)
    } else if same(w, "F64ReinterpretI64") {
        Some(ConvertOp::F64ReinterpretI64)
    } else if same(w, "I32TruncF32S") {
        Some(ConvertOp::I32TruncF32S)
    } else if same(w, "I32TruncF32U") {
        Some(ConvertOp::I32TruncF32U)
    } else if same(w, "I32TruncF64S") {
        Some(ConvertOp::I32TruncF64S)
    } else if same(w, "I32TruncF64U") {
        Some(ConvertOp::I32TruncF64U)
    } else if same(w, "I64TruncF32S") {
        Some(ConvertOp::I64TruncF32S)
    } else if same(w, "I64TruncF32U") {
        Some(ConvertOp::I64TruncF32U)
    } else if same(w, "I64TruncF64S") {
        Some(ConvertOp::I64TruncF64S)
    } else if same(w, "I64TruncF64U") {
        Some(ConvertOp::I64TruncF64U)
    } else if same(w, "I32TruncSatF32S") {
        Some(ConvertOp::I32TruncSatF32S)
    } else if same(w, "I32TruncSatF64S") {
        Some(ConvertOp::I32TruncSatF64S)
    } else if same(w, "I64TruncSatF32S") {
        Some(ConvertOp::I64TruncSatF32S)
    } else if same(w, "I64TruncSatF64S") {
        Some(ConvertOp::I64TruncSatF64S)
    } else if same(w, "I32TruncSatF32U") {
        Some(ConvertOp::I32TruncSatF32U)
    } else if same(w, "I32TruncSatF64U") {
        Some(ConvertOp::I32TruncSatF64U)
    } else if same(w, "I64TruncSatF32U") {
        Some(ConvertOp::I64TruncSatF32U)
    } else if same(w, "I64TruncSatF64U") {
        Some(ConvertOp::I64TruncSatF64U)
    } else {
        None
    }
}

/// The lane-wise operator with this name.
pub open spec fn lane_named(w: Seq<char>) -> Option<LaneOp> {
    if w == "I8x16Splat"@ {
        Some(LaneOp::I8x16Splat)
    } else if w == "I16x8Splat"@ {
        Some(LaneOp::I16x8Splat)
    } else if w == "I32x4Splat"@ {
        Some(LaneOp::I32x4Splat)
    } else if w == "I64x2Splat"@ {
        Some(LaneOp::I64x2Splat)
    } else if w == "F32x4Splat"@ {
        Some(LaneOp::F32x4Splat)
    } else if w == "F64x2Splat"@ {
        Some(LaneOp::F64x2Splat)
    } else if w == "V128And"@ {
        Some(LaneOp::V128And)
    } else if w == "V128Or"@ {
        Some(LaneOp::V128Or)
    } else if w == "V128Xor"@ {
        Some(LaneOp::V128Xor)
    } else if w == "V128Not"@ {
        Some(LaneOp::V128Not)
    } else if w == "V128AndNot"@ {
        Some(LaneOp::V128AndNot)
    } else if w == "V128Bitselect"@ {
        Some(LaneOp::V128Bitselect)
    } else if w == "V128AnyTrue"@ {
        Some(LaneOp::V128AnyTrue)
    } else if w == "I8x16Add"@ {
        Some(LaneOp::I8x16Add)
    } else if w == "I16x8Add"@ {
        Some(LaneOp::I16x8Add)
    } else if w == "I32x4Add"@ {
        Some(LaneOp::I32x4Add)
    } else if w == "I64x2Add"@ {
        Some(LaneOp::I64x2Add)
    } else if w == "I8x16Sub"@ {
        Some(LaneOp::I8x16Sub)
    } else if w == "I16x8Sub"@ {
        Some(LaneOp::I16x8Sub)
    } else if w == "I32x4Sub"@ {
        Some(LaneOp::I32x4Sub)
    } else if w == "I64x2Sub"@ {
        Some(LaneOp::I64x2Sub)
    } else if w == "I16x8Mul"@ {
        Some(LaneOp::I16x8Mul)
    } else if w == "I32x4Mul"@ {
        Some(LaneOp::I32x4Mul)
    } else if w == "I64x2Mul"@ {
        Some(LaneOp::I64x2Mul)
    } else if w == "I8x16Neg"@ {
        Some(LaneOp::I8x16Neg)
    } else if w == "I16x8Neg"@ {
        Some(LaneOp::I16x8Neg)
    } else if w == "I32x4Neg"@ {
        Some(LaneOp::I32x4Neg)
    } else if w == "I64x2Neg"@ {
        Some(LaneOp::I64x2Neg)
    } else if w == "F32x4Neg"@ {
        Some(LaneOp::F32x4Neg)
    } else if w == "F64x2Neg"@ {
        Some(LaneOp::F64x2Neg)
    } else if w == "F32x4Abs"@ {
        Some(LaneOp::F32x4Abs)
    } else if w == "F64x2Abs"@ {
        Some(LaneOp::F64x2Abs)
    } else if w == "F32x4Add"@ {
        Some(LaneOp::F32x4Add)
    } else if w == "F64x2Add"@ {
        Some(LaneOp::F64x2Add)
    } else if w == "F32x4Sub"@ {
        Some(LaneOp::F32x4Sub)
    } else if w == "F64x2Sub"@ {
        Some(LaneOp::F64x2Sub)
    } else if w == "F32x4Mul"@ {
        Some(LaneOp::F32x4Mul)
    } else if w == "F64x2Mul"@ {
        Some(LaneOp::F64x2Mul)
    } else if w == "F32x4Div"@ {
        Some(LaneOp::F32x4Div)
    } else if w == "F64x2Div"@ {
        Some(LaneOp::F64x2Div)
    } else {
        lane_named_1(w)
    }
}

/// The lane-wise operator with this name.
pub fn read_lane(w: &str) -> (r: Option<LaneOp>)
    ensures
        r == lane_named(w@),
{
    if same(w, "I8x16Splat") {
        Some(LaneOp::I8x16Splat)
    } else if same(w, "I16x8Splat") {
        Some(LaneOp::I16x8Splat)
    } else if same(w, "I32x4Splat") {
        Some(LaneOp::I32x4Splat)
    } else if same(w, "I64x2Splat") {
        Some(LaneOp::I64x2Splat)
    } else if same(w, "F32x4Splat") {
        Some(LaneOp::F32x4Splat)
    } else if same(w, "F64x2Splat") {
        Some(LaneOp::F64x2Splat)
    } else if same(w, "V128And") {
        Some(LaneOp::V128And)
    } else if same(w, "V128Or") {
        Some(LaneOp::V128Or)
    } else if same(w, "V128Xor") {
        Some(LaneOp::V128Xor)
    } else if same(w, "V128Not") {
        Some(LaneOp::V128Not)
    } else if same(w, "V128AndNot") {
        Some(LaneOp::V128AndNot)
    } else if same(w, "V128Bitselect") {
        Some(LaneOp::V128Bitselect)
    } else if same(w, "V128AnyTrue") {
        Some(LaneOp::V128AnyTrue)
    } else if same(w, "I8x16Add") {
        Some(LaneOp::I8x16Add)
    } else if same(w, "I16x8Add") {
        Some(LaneOp::I16x8Add)
    } else if same(w, "I32x4Add") {
        Some(LaneOp::I32x4Add)
    } else if same(w, "I64x2Add") {
        Some(LaneOp::I64x2Add)
    } else if same(w, "I8x16Sub") {
        Some(LaneOp::I8x16Sub)
    } else if same(w, "I16x8Sub") {
        Some(LaneOp::I16x8Sub)
    } else if same(w, "I32x4Sub") {
        Some(LaneOp::I32x4Sub)
    } else if same(w, "I64x2Sub") {
        Some(LaneOp::I64x2Sub)
    } else if same(w, "I16x8Mul") {
        Some(LaneOp::I16x8Mul)
    } else if same(w, "I32x4Mul") {
        Some(LaneOp::I32x4Mul)
    } else if same(w, "I64x2Mul") {
        Some(LaneOp::I64x2Mul)
    } else if same(w, "I8x16Neg") {
        Some(LaneOp::I8x16Neg)
    } else if same(w, "I16x8Neg") {
        Some(LaneOp::I16x8Neg)
    } else if same(w, "I32x4Neg") {
        Some(LaneOp::I32x4Neg)
    } else if same(w, "I64x2Neg") {
        Some(LaneOp::I64x2Neg)
    } else if same(w, "F32x4Neg") {
        Some(LaneOp::F32x4Neg)
    } else if same(w, "F64x2Neg") {
        Some(LaneOp::F64x2Neg)
    } else if same(w, "F32x4Abs") {
        Some(LaneOp::F32x4Abs)
    } else if same(w, "F64x2Abs") {
        Some(LaneOp::F64x2Abs)
    } else if same(w, "F32x4Add") {
        Some(LaneOp::F32x4Add)
    } else if same(w, "F64x2Add") {
        Some(LaneOp::F64x2Add)
    } else if same(w, "F32x4Sub") {
        Some(LaneOp::F32x4Sub)
    } else if same(w, "F64x2Sub") {
        Some(LaneOp::F64x2Sub)
    } else if same(w, "F32x4Mul") {
        Some(LaneOp::F32x4Mul)
    } else if same(w, "F64x2Mul") {
        Some(LaneOp::F64x2Mul)
    } else if same(w, "F32x4Div") {
        Some(LaneOp::F32x4Div)
    } else if same(w, "F64x2Div") {
        Some(LaneOp::F64x2Div)
    } else {
        read_lane_1(w)
    }
}

/// The lane-wise operator with this name.
pub open spec fn lane_named_1(w: Seq<char>) -> Option<LaneOp> {
    if w == "F32x4Min"@ {
        Some(LaneOp::F32x4Min)
    } else if w == "F64x2Min"@ {
        Some(LaneOp::F64x2Min)
    } else if w == "F32x4Max"@ {
        Some(LaneOp::F32x4Max)
    } else if w == "F64x2Max"@ {
        Some(LaneOp::F64x2Max)
    } else if w == "F32x4PMin"@ {
        Some(LaneOp::F32x4PMin)
    } else if w == "F64x2PMin"@ {
        Some(LaneOp::F64x2PMin)
    } else if w == "F32x4PMax"@ {
        Some(LaneOp::F32x4PMax)
    } else if w == "F64x2PMax"@ {
        Some(LaneOp::F64x2PMax)
    } else if w == "F32x4Sqrt"@ {
        Some(LaneOp::F32x4Sqrt)
    } else if w == "F64x2Sqrt"@ {
        Some(LaneOp::F64x2Sqrt)
    } else if w == "F32x4Ceil"@ {
        Some(LaneOp::F32x4Ceil)
    } else if w == "F64x2Ceil"@ {
        Some(LaneOp::F64x2Ceil)
    } else if w == "F32x4Floor"@ {
        Some(LaneOp::F32x4Floor)
    } else if w == "F64x2Floor"@ {
        Some(LaneOp::F64x2Floor)
    } else if w == "F32x4Trunc"@ {
        Some(LaneOp::F32x4Trunc)
    } else if w == "F64x2Trunc"@ {
        Some(LaneOp::F64x2Trunc)
    } else if w == "F32x4Nearest"@ {
        Some(LaneOp::F32x4Nearest)
    } else if w == "F64x2Nearest"@ {
        Some(LaneOp::F64x2Nearest)
    } else if w == "I8x16Eq"@ {
        Some(LaneOp::I8x16Eq)
    } else if w == "I8x16Ne"@ {
        Some(LaneOp::I8x16Ne)
    } else if w == "I8x16LtS"@ {
        Some(LaneOp::I8x16LtS)
    } else if w == "I8x16LtU"@ {
        Some(LaneOp::I8x16LtU)
    } else if w == "I8x16GtS"@ {
        Some(LaneOp::I8x16GtS)
    } else if w == "I8x16GtU"@ {
        Some(LaneOp::I8x16GtU)
    } else if w == "I8x16LeS"@ {
        Some(LaneOp::I8x16LeS)
    } else if w == "I8x16LeU"@ {
        Some(LaneOp::I8x16LeU)
    } else if w == "I8x16GeS"@ {
        Some(LaneOp::I8x16GeS)
    } else if w == "I8x16GeU"@ {
        Some(LaneOp::I8x16GeU)
    } else if w == "I16x8Eq"@ {
        Some(LaneOp::I16x8Eq)
    } else if w == "I16x8Ne"@ {
        Some(LaneOp::I16x8Ne)
    } else if w == "I16x8LtS"@ {
        Some(LaneOp::I16x8LtS)
    } else if w == "I16x8LtU"@ {
        Some(LaneOp::I16x8LtU)
    } else if w == "I16x8GtS"@ {
        Some(LaneOp::I16x8GtS)
    } else if w == "I16x8GtU"@ {
        Some(LaneOp::I16x8GtU)
    } else if w == "I16x8LeS"@ {
        Some(LaneOp::I16x8LeS)
    } else if w == "I16x8LeU"@ {
        Some(LaneOp::I16x8LeU)
    } else if w == "I16x8GeS"@ {
        Some(LaneOp::I16x8GeS)
    } else if w == "I16x8GeU"@ {
        Some(LaneOp::I16x8GeU)
    } else if w == "I32x4Eq"@ {
        Some(LaneOp::I32x4Eq)
    } else if w == "I32x4Ne"@ {
        Some(LaneOp::I32x4Ne)
    } else {
        lane_named_2(w)
    }
}

/// The lane-wise operator with this name.
fn read_lane_1(w: &str) -> (r: Option<LaneOp>)
    ensures
        r == lane_named_1(w@),
{
    if same(w, "F32x4Min") {
        Some(LaneOp::F32x4Min)
    } else if same(w, "F64x2Min") {
        Some(LaneOp::F64x2Min)
    } else if same(w, "F32x4Max") {
        Some(LaneOp::F32x4Max)
    } else if same(w, "F64x2Max") {
        Some(LaneOp::F64x2Max)
    } else if same(w, "F32x4PMin") {
        Some(LaneOp::F32x4PMin)
    } else if same(w, "F64x2PMin") {
        Some(LaneOp::F64x2PMin)
    } else if same(w, "F32x4PMax") {
        Some(LaneOp::F32x4PMax)
    } else if same(w, "F64x2PMax") {
        Some(LaneOp::F64x2PMax)
    } else if same(w, "F32x4Sqrt") {
        Some(LaneOp::F32x4Sqrt)
    } else if same(w, "F64x2Sqrt") {
        Some(LaneOp::F64x2Sqrt)
    } else if same(w, "F32x4Ceil") {
        Some(LaneOp::F32x4Ceil)
    } else if same(w, "F64x2Ceil") {
        Some(LaneOp::F64x2Ceil)
    } else if same(w, "F32x4Floor") {
        Some(LaneOp::F32x4Floor)
    } else if same(w, "F64x2Floor") {
        Some(LaneOp::F64x2Floor)
    } else if same(w, "F32x4Trunc") {
        Some(LaneOp::F32x4Trunc)
    } else if same(w, "F64x2Trunc") {
        Some(LaneOp::F64x2Trunc)
    } else if same(w, "F32x4Nearest") {
        Some(LaneOp::F32x4Nearest)
    } else if same(w, "F64x2Nearest") {
        Some(LaneOp::F64x2Nearest)
    } else if same(w, "I8x16Eq") {
        Some(LaneOp::I8x16Eq)
    } else if same(w, "I8x16Ne") {
        Some(LaneOp::I8x16Ne)
    } else if same(w, "I8x16LtS") {
        Some(LaneOp::I8x16LtS)
    } else if same(w, "I8x16LtU") {
        Some(LaneOp::I8x16LtU)
    } else if same(w, "I8x16GtS") {
        Some(LaneOp::I8x16GtS)
    } else if same(w, "I8x16GtU") {
        Some(LaneOp::I8x16GtU)
    } else if same(w, "I8x16LeS") {
        Some(LaneOp::I8x16LeS)
    } else if same(w, "I8x16LeU") {
        Some(LaneOp::I8x16LeU)
    } else if same(w, "I8x16GeS") {
        Some(LaneOp::I8x16GeS)
    } else if same(w, "I8x16GeU") {
        Some(LaneOp::I8x16GeU)
    } else if same(w, "I16x8Eq") {
        Some(LaneOp::I16x8Eq)
    } else if same(w, "I16x8Ne") {
        Some(LaneOp::I16x8Ne)
    } else if same(w, "I16x8LtS") {
        Some(LaneOp::I16x8LtS)
    } else if same(w, "I16x8LtU") {
        Some(LaneOp::I16x8LtU)
    } else if same(w, "I16x8GtS") {
        Some(LaneOp::I16x8GtS)
    } else if same(w, "I16x8GtU") {
        Some(LaneOp::I16x8GtU)
    } else if same(w, "I16x8LeS") {
        Some(LaneOp::I16x8LeS)
    } else if same(w, "I16x8LeU") {
        Some(LaneOp::I16x8LeU)
    } else if same(w, "I16x8GeS") {
        Some(LaneOp::I16x8GeS)
    } else if same(w, "I16x8GeU") {
        Some(LaneOp::I16x8GeU)
    } else if same(w, "I32x4Eq") {
        Some(LaneOp::I32x4Eq)
    } else if same(w, "I32x4Ne") {
        Some(LaneOp::I32x4Ne)
    } else {
        read_lane_2(w)
    }
}

/// The lane-wise operator with this name.
pub open spec fn lane_named_2(w: Seq<char>) -> Option<LaneOp> {
    if w == "I32x4LtS"@ {
        Some(LaneOp::I32x4LtS)
    } else if w == "I32x4LtU"@ {
        Some(LaneOp::I32x4LtU)
    } else if w == "I32x4GtS"@ {
        Some(LaneOp::I32x4GtS)
    } else if w == "I32x4GtU"@ {
        Some(LaneOp::I32x4GtU)
    } else if w == "I32x4LeS"@ {
        Some(LaneOp::I32x4LeS)
    } else if w == "I32x4LeU"@ {
        Some(LaneOp::I32x4LeU)
    } else if w == "I32x4GeS"@ {
        Some(LaneOp::I32x4GeS)
    } else if w == "I32x4GeU"@ {
        Some(LaneOp::I32x4GeU)
    } else if w == "I64x2Eq"@ {
        Some(LaneOp::I64x2Eq)
    } else if w == "I64x2Ne"@ {
        Some(LaneOp::I64x2Ne)
    } else if w == "I64x2LtS"@ {
        Some(LaneOp::I64x2LtS)
    } else if w == "I64x2GtS"@ {
        Some(LaneOp::I64x2GtS)
    } else if w == "I64x2LeS"@ {
        Some(LaneOp::I64x2LeS)
    } else if w == "I64x2GeS"@ {
        Some(LaneOp::I64x2GeS)
    } else if w == "F32x4Eq"@ {
        Some(LaneOp::F32x4Eq)
    } else if w == "F32x4Ne"@ {
        Some(LaneOp::F32x4Ne)
    } else if w == "F32x4Lt"@ {
        Some(LaneOp::F32x4Lt)
    } else if w == "F32x4Gt"@ {
        Some(LaneOp::F32x4Gt)
    } else if w == "F32x4Le"@ {
        Some(LaneOp::F32x4Le)
    } else if w == "F32x4Ge"@ {
        Some(LaneOp::F32x4Ge)
    } else if w == "F64x2Eq"@ {
        Some(LaneOp::F64x2Eq)
    } else if w == "F64x2Ne"@ {
        Some(LaneOp::F64x2Ne)
    } else if w == "F64x2Lt"@ {
        Some(LaneOp::F64x2Lt)
    } else if w == "F64x2Gt"@ {
        Some(LaneOp::F64x2Gt)
    } else if w == "F64x2Le"@ {
        Some(LaneOp::F64x2Le)
    } else if w == "F64x2Ge"@ {
        Some(LaneOp::F64x2Ge)
    } else if w == "I8x16Shl"@ {
        Some(LaneOp::I8x16Shl)
    } else if w == "I16x8Shl"@ {
        Some(LaneOp::I16x8Shl)
    } else if w == "I32x4Shl"@ {
        Some(LaneOp::I32x4Shl)
    } else if w == "I64x2Shl"@ {
        Some(LaneOp::I64x2Shl)
    } else if w == "I8x16ShrS"@ {
        Some(LaneOp::I8x16ShrS)
    } else if w == "I16x8ShrS"@ {
        Some(LaneOp::I16x8ShrS)
    } else if w == "I32x4ShrS"@ {
        Some(LaneOp::I32x4ShrS)
    } else if w == "I64x2ShrS"@ {
        Some(LaneOp::I64x2ShrS)
    } else if w == "I8x16ShrU"@ {
        Some(LaneOp::I8x16ShrU)
    } else if w == "I16x8ShrU"@ {
        Some(LaneOp::I16x8ShrU)
    } else if w == "I32x4ShrU"@ {
        Some(LaneOp::I32x4ShrU)
    } else if w == "I64x2ShrU"@ {
        Some(LaneOp::I64x2ShrU)
    } else if w == "I8x16AddSatS"@ {
        Some(LaneOp::I8x16AddSatS)
    } else if w == "I8x16AddSatU"@ {
        Some(LaneOp::I8x16AddSatU)
    } else {
        lane_named_3(w)
    }
}

/// The lane-wise operator with this name.
fn read_lane_2(w: &str) -> (r: Option<LaneOp>)
    ensures
        r == lane_named_2(w@),
{
    if same(w, "I32x4LtS") {
        Some(LaneOp::I32x4LtS)
    } else if same(w, "I32x4LtU") {
        Some(LaneOp::I32x4LtU)
    } else if same(w, "I32x4GtS") {
        Some(LaneOp::I32x4GtS)
    } else if same(w, "I32x4GtU") {
        Some(LaneOp::I32x4GtU)
    } else if same(w, "I32x4LeS") {
        Some(LaneOp::I32x4LeS)
    } else if same(w, "I32x4LeU") {
        Some(LaneOp::I32x4LeU)
    } else if same(w, "I32x4GeS") {
        Some(LaneOp::I32x4GeS)
    } else if same(w, "I32x4GeU") {
        Some(LaneOp::I32x4GeU)
    } else if same(w, "I64x2Eq") {
        Some(LaneOp::I64x2Eq)
    } else if same(w, "I64x2Ne") {
        Some(LaneOp::I64x2Ne)
    } else if same(w, "I64x2LtS") {
        Some(LaneOp::I64x2LtS)
    } else if same(w, "I64x2GtS") {
        Some(LaneOp::I64x2GtS)
    } else if same(w, "I64x2LeS") {
        Some(LaneOp::I64x2LeS)
    } else if same(w, "I64x2GeS") {
        Some(LaneOp::I64x2GeS)
    } else if same(w, "F32x4Eq") {
        Some(LaneOp::F32x4Eq)
    } else if same(w, "F32x4Ne") {
        Some(LaneOp::F32x4Ne)
    } else if same(w, "F32x4Lt") {
        Some(LaneOp::F32x4Lt)
    } else if same(w, "F32x4Gt") {
        Some(LaneOp::F32x4Gt)
    } else if same(w, "F32x4Le") {
        Some(LaneOp::F32x4Le)
    } else if same(w, "F32x4Ge") {
        Some(LaneOp::F32x4Ge)
    } else if same(w, "F64x2Eq") {
        Some(LaneOp::F64x2Eq)
    } else if same(w, "F64x2Ne") {
        Some(LaneOp::F64x2Ne)
    } else if same(w, "F64x2Lt") {
        Some(LaneOp::F64x2Lt)
    } else if same(w, "F64x2Gt") {
        Some(LaneOp::F64x2Gt)
    } else if same(w, "F64x2Le") {
        Some(LaneOp::F64x2Le)
    } else if same(w, "F64x2Ge") {
        Some(LaneOp::F64x2Ge)
    } else if same(w, "I8x16Shl") {
        Some(LaneOp::I8x16Shl)
    } else if same(w, "I16x8Shl") {
        Some(LaneOp::I16x8Shl)
    } else if same(w, "I32x4Shl") {
        Some(LaneOp::I32x4Shl)
    } else if same(w, "I64x2Shl") {
        Some(LaneOp::I64x2Shl)
    } else if same(w, "I8x16ShrS") {
        Some(LaneOp::I8x16ShrS)
    } else if same(w, "I16x8ShrS") {
        Some(LaneOp::I16x8ShrS)
    } else if same(w, "I32x4ShrS") {
        Some(LaneOp::I32x4ShrS)
    } else if same(w, "I64x2ShrS") {
        Some(LaneOp::I64x2ShrS)
    } else if same(w, "I8x16ShrU") {
        Some(LaneOp::I8x16ShrU)
    } else if same(w, "I16x8ShrU") {
        Some(LaneOp::I16x8ShrU)
    } else if same(w, "I32x4ShrU") {
        Some(LaneOp::I32x4ShrU)
    } else if same(w, "I64x2ShrU") {
        Some(LaneOp::I64x2ShrU)
    } else if same(w, "I8x16AddSatS") {
        Some(LaneOp::I8x16AddSatS)
    } else if same(w, "I8x16AddSatU") {
        Some(LaneOp::I8x16AddSatU)
    } else {
        read_lane_3(w)
    }
}

/// The lane-wise operator with this name.
pub open spec fn lane_named_3(w: Seq<char>) -> Option<LaneOp> {
    if w == "I16x8AddSatS"@ {
        Some(LaneOp::I16x8AddSatS)
    } else if w == "I16x8AddSatU"@ {
        Some(LaneOp::I16x8AddSatU)
    } else if w == "I8x16SubSatS"@ {
        Some(LaneOp::I8x16SubSatS)
    } else if w == "I8x16SubSatU"@ {
        Some(LaneOp::I8x16SubSatU)
    } else if w == "I16x8SubSatS"@ {
        Some(LaneOp::I16x8SubSatS)
    } else if w == "I16x8SubSatU"@ {
        Some(LaneOp::I16x8SubSatU)
    } else if w == "I16x8ExtendLowI8x16S"@ {
        Some(LaneOp::I16x8ExtendLowI8x16S)
    } else if w == "I16x8ExtendHighI8x16S"@ {
        Some(LaneOp::I16x8ExtendHighI8x16S)
    } else if w == "I16x8ExtendLowI8x16U"@ {
        Some(LaneOp::I16x8ExtendLowI8x16U)
    } else if w == "I16x8ExtendHighI8x16U"@ {
        Some(LaneOp::I16x8ExtendHighI8x16U)
    } else if w == "I32x4ExtendLowI16x8S"@ {
        Some(LaneOp::I32x4ExtendLowI16x8S)
    } else if w == "I32x4ExtendHighI16x8S"@ {
        Some(LaneOp::I32x4ExtendHighI16x8S)
    } else if w == "I32x4ExtendLowI16x8U"@ {
        Some(LaneOp::I32x4ExtendLowI16x8U)
    } else if w == "I32x4ExtendHighI16x8U"@ {
        Some(LaneOp::I32x4ExtendHighI16x8U)
    } else if w == "I64x2ExtendLowI32x4S"@ {
        Some(LaneOp::I64x2ExtendLowI32x4S)
    } else if w == "I64x2ExtendHighI32x4S"@ {
        Some(LaneOp::I64x2ExtendHighI32x4S)
    } else if w == "I64x2ExtendLowI32x4U"@ {
        Some(LaneOp::I64x2ExtendLowI32x4U)
    } else if w == "I64x2ExtendHighI32x4U"@ {
        Some(LaneOp::I64x2ExtendHighI32x4U)
    } else if w == "I8x16NarrowI16x8S"@ {
        Some(LaneOp::I8x16NarrowI16x8S)
    } else if w == "I8x16NarrowI16x8U"@ {
        Some(LaneOp::I8x16NarrowI16x8U)
    } else if w == "I16x8NarrowI32x4S"@ {
        Some(LaneOp::I16x8NarrowI32x4S)
    } else if w == "I16x8NarrowI32x4U"@ {
        Some(LaneOp::I16x8NarrowI32x4U)
    } else if w == "I16x8ExtMulLowI8x16S"@ {
        Some(LaneOp::I16x8ExtMulLowI8x16S)
    } else if w == "I16x8ExtMulHighI8x16S"@ {
        Some(LaneOp::I16x8ExtMulHighI8x16S)
    } else if w == "I16x8ExtMulLowI8x16U"@ {
        Some(LaneOp::I16x8ExtMulLowI8x16U)
    } else if w == "I16x8ExtMulHighI8x16U"@ {
        Some(LaneOp::I16x8ExtMulHighI8x16U)
    } else if w == "I32x4ExtMulLowI16x8S"@ {
        Some(LaneOp::I32x4ExtMulLowI16x8S)
    } else if w == "I32x4ExtMulHighI16x8S"@ {
        Some(LaneOp::I32x4ExtMulHighI16x8S)
    } else if w == "I32x4ExtMulLowI16x8U"@ {
        Some(LaneOp::I32x4ExtMulLowI16x8U)
    } else if w == "I32x4ExtMulHighI16x8U"@ {
        Some(LaneOp::I32x4ExtMulHighI16x8U)
    } else if w == "I64x2ExtMulLowI32x4S"@ {
        Some(LaneOp::I64x2ExtMulLowI32x4S)
    } else if w == "I64x2ExtMulHighI32x4S"@ {
        Some(LaneOp::I64x2ExtMulHighI32x4S)
    } else if w == "I64x2ExtMulLowI32x4U"@ {
        Some(LaneOp::I64x2ExtMulLowI32x4U)
    } else if w == "I64x2ExtMulHighI32x4U"@ {
        Some(LaneOp::I64x2ExtMulHighI32x4U)
    } else if w == "I16x8ExtAddPairwiseI8x16S"@ {
        Some(LaneOp::I16x8ExtAddPairwiseI8x16S)
    } else if w == "I16x8ExtAddPairwiseI8x16U"@ {
        Some(LaneOp::I16x8ExtAddPairwiseI8x16U)
    } else if w == "I32x4ExtAddPairwiseI16x8S"@ {
        Some(LaneOp::I32x4ExtAddPairwiseI16x8S)
    } else if w == "I32x4ExtAddPairwiseI16x8U"@ {
        Some(LaneOp::I32x4ExtAddPairwiseI16x8U)
    } else if w == "I32x4DotI16x8S"@ {
        Some(LaneOp::I32x4DotI16x8S)
    } else if w == "I16x8Q15MulrSatS"@ {
        Some(LaneOp::I16x8Q15MulrSatS)
    } else {
        lane_named_4(w)
    }
}

/// The lane-wise operator with this name.
fn read_lane_3(w: &str) -> (r: Option<LaneOp>)
    ensures
        r == lane_named_3(w@),
{
    if same(w, "I16x8AddSatS") {
        Some(LaneOp::I16x8AddSatS)
    } else if same(w, "I16x8AddSatU") {
        Some(LaneOp::I16x8AddSatU)
    } else if same(w, "I8x16SubSatS") {
        Some(LaneOp::I8x16SubSatS)
    } else if same(w, "I8x16SubSatU") {
        Some(LaneOp::I8x16SubSatU)
    } else if same(w, "I16x8SubSatS") {
        Some(LaneOp::I16x8SubSatS)
    } else if same(w, "I16x8SubSatU") {
        Some(LaneOp::I16x8SubSatU)
    } else if same(w, "I16x8ExtendLowI8x16S") {
        Some(LaneOp::I16x8ExtendLowI8x16S)
    } else if same(w, "I16x8ExtendHighI8x16S") {
        Some(LaneOp::I16x8ExtendHighI8x16S)
    } else if same(w, "I16x8ExtendLowI8x16U") {
        Some(LaneOp::I16x8ExtendLowI8x16U)
    } else if same(w, "I16x8ExtendHighI8x16U") {
        Some(LaneOp::I16x8ExtendHighI8x16U)
    } else if same(w, "I32x4ExtendLowI16x8S") {
        Some(LaneOp::I32x4ExtendLowI16x8S)
    } else if same(w, "I32x4ExtendHighI16x8S") {
        Some(LaneOp::I32x4ExtendHighI16x8S)
    } else if same(w, "I32x4ExtendLowI16x8U") {
        Some(LaneOp::I32x4ExtendLowI16x8U)
    } else if same(w, "I32x4ExtendHighI16x8U") {
        Some(LaneOp::I32x4ExtendHighI16x8U)
    } else if same(w, "I64x2ExtendLowI32x4S") {
        Some(LaneOp::I64x2ExtendLowI32x4S)
    } else if same(w, "I64x2ExtendHighI32x4S") {
        Some(LaneOp::I64x2ExtendHighI32x4S)
    } else if same(w, "I64x2ExtendLowI32x4U") {
        Some(LaneOp::I64x2ExtendLowI32x4U)
    } else if same(w, "I64x2ExtendHighI32x4U") {
        Some(LaneOp::I64x2ExtendHighI32x4U)
    } else if same(w, "I8x16NarrowI16x8S") {
        Some(LaneOp::I8x16NarrowI16x8S)
    } else if same(w, "I8x16NarrowI16x8U") {
        Some(LaneOp::I8x16NarrowI16x8U)
    } else if same(w, "I16x8NarrowI32x4S") {
        Some(LaneOp::I16x8NarrowI32x4S)
    } else if same(w, "I16x8NarrowI32x4U") {
        Some(LaneOp::I16x8NarrowI32x4U)
    } else if same(w, "I16x8ExtMulLowI8x16S") {
        Some(LaneOp::I16x8ExtMulLowI8x16S)
    } else if same(w, "I16x8ExtMulHighI8x16S") {
        Some(LaneOp::I16x8ExtMulHighI8x16S)
    } else if same(w, "I16x8ExtMulLowI8x16U") {
        Some(LaneOp::I16x8ExtMulLowI8x16U)
    } else if same(w, "I16x8ExtMulHighI8x16U") {
        Some(LaneOp::I16x8ExtMulHighI8x16U)
    } else if same(w, "I32x4ExtMulLowI16x8S") {
        Some(LaneOp::I32x4ExtMulLowI16x8S)
    } else if same(w, "I32x4ExtMulHighI16x8S") {
        Some(LaneOp::I32x4ExtMulHighI16x8S)
    } else if same(w, "I32x4ExtMulLowI16x8U") {
        Some(LaneOp::I32x4ExtMulLowI16x8U)
    } else if same(w, "I32x4ExtMulHighI16x8U") {
        Some(LaneOp::I32x4ExtMulHighI16x8U)
    } else if same(w, "I64x2ExtMulLowI32x4S") {
        Some(LaneOp::I64x2ExtMulLowI32x4S)
    } else if same(w, "I64x2ExtMulHighI32x4S") {
        Some(LaneOp::I64x2ExtMulHighI32x4S)
    } else if same(w, "I64x2ExtMulLowI32x4U") {
        Some(LaneOp::I64x2ExtMulLowI32x4U)
    } else if same(w, "I64x2ExtMulHighI32x4U") {
        Some(LaneOp::I64x2ExtMulHighI32x4U)
    } else if same(w, "I16x8ExtAddPairwiseI8x16S") {
        Some(LaneOp::I16x8ExtAddPairwiseI8x16S)
    } else if same(w, "I16x8ExtAddPairwiseI8x16U") {
        Some(LaneOp::I16x8ExtAddPairwiseI8x16U)
    } else if same(w, "I32x4ExtAddPairwiseI16x8S") {
        Some(LaneOp::I32x4ExtAddPairwiseI16x8S)
    } else if same(w, "I32x4ExtAddPairwiseI16x8U") {
        Some(LaneOp::I32x4ExtAddPairwiseI16x8U)
    } else if same(w, "I32x4DotI16x8S") {
        Some(LaneOp::I32x4DotI16x8S)
    } else if same(w, "I16x8Q15MulrSatS") {
        Some(LaneOp::I16x8Q15MulrSatS)
    } else {
        read_lane_4(w)
    }
}

/// The lane-wise operator with this name.
pub open spec fn lane_named_4(w: Seq<char>) -> Option<LaneOp> {
    if w == "I32x4TruncSatF32x4S"@ {
        Some(LaneOp::I32x4TruncSatF32x4S)
    } else if w == "I32x4TruncSatF32x4U"@ {
        Some(LaneOp::I32x4TruncSatF32x4U)
    } else if w == "I32x4TruncSatF64x2SZero"@ {
        Some(LaneOp::I32x4TruncSatF64x2SZero)
    } else if w == "I32x4TruncSatF64x2UZero"@ {
        Some(LaneOp::I32x4TruncSatF64x2UZero)
    } else if w == "F32x4ConvertI32x4S"@ {
        Some(LaneOp::F32x4ConvertI32x4S)
    } else if w == "F32x4ConvertI32x4U"@ {
        Some(LaneOp::F32x4ConvertI32x4U)
    } else if w == "F64x2ConvertLowI32x4S"@ {
        Some(LaneOp::F64x2ConvertLowI32x4S)
    } else if w == "F64x2ConvertLowI32x4U"@ {
        Some(LaneOp::F64x2ConvertLowI32x4U)
    } else if w == "F32x4DemoteF64x2Zero"@ {
        Some(LaneOp::F32x4DemoteF64x2Zero)
    } else if w == "F64x2PromoteLowF32x4"@ {
        Some(LaneOp::F64x2PromoteLowF32x4)
    } else if w == "I8x16Abs"@ {
        Some(LaneOp::I8x16Abs)
    } else if w == "I16x8Abs"@ {
        Some(LaneOp::I16x8Abs)
    } else if w == "I32x4Abs"@ {
        Some(LaneOp::I32x4Abs)
    } else if w == "I64x2Abs"@ {
        Some(LaneOp::I64x2Abs)
    } else if w == "I8x16AvgrU"@ {
        Some(LaneOp::I8x16AvgrU)
    } else if w == "I16x8AvgrU"@ {
        Some(LaneOp::I16x8AvgrU)
    } else if w == "I8x16Popcnt"@ {
        Some(LaneOp::I8x16Popcnt)
    } else if w == "I8x16AllTrue"@ {
        Some(LaneOp::I8x16AllTrue)
    } else if w == "I16x8AllTrue"@ {
        Some(LaneOp::I16x8AllTrue)
    } else if w == "I32x4AllTrue"@ {
        Some(LaneOp::I32x4AllTrue)
    } else if w == "I64x2AllTrue"@ {
        Some(LaneOp::I64x2AllTrue)
    } else if w == "I8x16Bitmask"@ {
        Some(LaneOp::I8x16Bitmask)
    } else if w == "I16x8Bitmask"@ {
        Some(LaneOp::I16x8Bitmask)
    } else if w == "I32x4Bitmask"@ {
        Some(LaneOp::I32x4Bitmask)
    } else if w == "I64x2Bitmask"@ {
        Some(LaneOp::I64x2Bitmask)
    } else if w == "I8x16Swizzle"@ {
        Some(LaneOp::I8x16Swizzle)
    } else if w == "I8x16RelaxedSwizzle"@ {
        Some(LaneOp::I8x16RelaxedSwizzle)
    } else if w == "I32x4RelaxedTruncF32x4S"@ {
        Some(LaneOp::I32x4RelaxedTruncF32x4S)
    } else if w == "I32x4RelaxedTruncF32x4U"@ {
        Some(LaneOp::I32x4RelaxedTruncF32x4U)
    } else if w == "I32x4RelaxedTruncF64x2SZero"@ {
        Some(LaneOp::I32x4RelaxedTruncF64x2SZero)
    } else if w == "I32x4RelaxedTruncF64x2UZero"@ {
        Some(LaneOp::I32x4RelaxedTruncF64x2UZero)
    } else if w == "F32x4RelaxedMin"@ {
        Some(LaneOp::F32x4RelaxedMin)
    } else if w == "F32x4RelaxedMax"@ {
        Some(LaneOp::F32x4RelaxedMax)
    } else if w == "F64x2RelaxedMin"@ {
        Some(LaneOp::F64x2RelaxedMin)
    } else if w == "F64x2RelaxedMax"@ {
        Some(LaneOp::F64x2RelaxedMax)
    } else if w == "I16x8RelaxedQ15mulrS"@ {
        Some(LaneOp::I16x8RelaxedQ15mulrS)
    } else if w == "I8x16RelaxedLaneselect"@ {
        Some(LaneOp::I8x16RelaxedLaneselect)
    } else if w == "I16x8RelaxedLaneselect"@ {
        Some(LaneOp::I16x8RelaxedLaneselect)
    } else if w == "I32x4RelaxedLaneselect"@ {
        Some(LaneOp::I32x4RelaxedLaneselect)
    } else if w == "I64x2RelaxedLaneselect"@ {
        Some(LaneOp::I64x2RelaxedLaneselect)
    } else {
        lane_named_5(w)
    }
}

/// The lane-wise operator with this name.
fn read_lane_4(w: &str) -> (r: Option<LaneOp>)
    ensures
        r == lane_named_4(w@),
{
    if same(w, "I32x4TruncSatF32x4S") {
        Some(LaneOp::I32x4TruncSatF32x4S)
    } else if same(w, "I32x4TruncSatF32x4U") {
        Some(LaneOp::I32x4TruncSatF32x4U)
    } else if same(w, "I32x4TruncSatF64x2SZero") {
        Some(LaneOp::I32x4TruncSatF64x2SZero)
    } else if same(w, "I32x4TruncSatF64x2UZero") {
        Some(LaneOp::I32x4TruncSatF64x2UZero)
    } else if same(w, "F32x4ConvertI32x4S") {
        Some(LaneOp::F32x4ConvertI32x4S)
    } else if same(w, "F32x4ConvertI32x4U") {
        Some(LaneOp::F32x4ConvertI32x4U)
    } else if same(w, "F64x2ConvertLowI32x4S") {
        Some(LaneOp::F64x2ConvertLowI32x4S)
    } else if same(w, "F64x2ConvertLowI32x4U") {
        Some(LaneOp::F64x2ConvertLowI32x4U)
    } else if same(w, "F32x4DemoteF64x2Zero") {
        Some(LaneOp::F32x4DemoteF64x2Zero)
    } else if same(w, "F64x2PromoteLowF32x4") {
        Some(LaneOp::F64x2PromoteLowF32x4)
    } else if same(w, "I8x16Abs") {
        Some(LaneOp::I8x16Abs)
    } else if same(w, "I16x8Abs") {
        Some(LaneOp::I16x8Abs)
    } else if same(w, "I32x4Abs") {
        Some(LaneOp::I32x4Abs)
    } else if same(w, "I64x2Abs") {
        Some(LaneOp::I64x2Abs)
    } else if same(w, "I8x16AvgrU") {
        Some(LaneOp::I8x16AvgrU)
    } else if same(w, "I16x8AvgrU") {
        Some(LaneOp::I16x8AvgrU)
    } else if same(w, "I8x16Popcnt") {
        Some(LaneOp::I8x16Popcnt)
    } else if same(w, "I8x16AllTrue") {
        Some(LaneOp::I8x16AllTrue)
    } else if same(w, "I16x8AllTrue") {
        Some(LaneOp::I16x8AllTrue)
    } else if same(w, "I32x4AllTrue") {
        Some(LaneOp::I32x4AllTrue)
    } else if same(w, "I64x2AllTrue") {
        Some(LaneOp::I64x2AllTrue)
    } else if same(w, "I8x16Bitmask") {
        Some(LaneOp::I8x16Bitmask)
    } else if same(w, "I16x8Bitmask") {
        Some(LaneOp::I16x8Bitmask)
    } else if same(w, "I32x4Bitmask") {
        Some(LaneOp::I32x4Bitmask)
    } else if same(w, "I64x2Bitmask") {
        Some(LaneOp::I64x2Bitmask)
    } else if same(w, "I8x16Swizzle") {
        Some(LaneOp::I8x16Swizzle)
    } else if same(w, "I8x16RelaxedSwizzle") {
        Some(LaneOp::I8x16RelaxedSwizzle)
    } else if same(w, "I32x4RelaxedTruncF32x4S") {
        Some(LaneOp::I32x4RelaxedTruncF32x4S)
    } else if same(w, "I32x4RelaxedTruncF32x4U") {
        Some(LaneOp::I32x4RelaxedTruncF32x4U)
    } else if same(w, "I32x4RelaxedTruncF64x2SZero") {
        Some(LaneOp::I32x4RelaxedTruncF64x2SZero)
    } else if same(w, "I32x4RelaxedTruncF64x2UZero") {
        Some(LaneOp::I32x4RelaxedTruncF64x2UZero)
    } else if same(w, "F32x4RelaxedMin") {
        Some(LaneOp::F32x4RelaxedMin)
    } else if same(w, "F32x4RelaxedMax") {
        Some(LaneOp::F32x4RelaxedMax)
    } else if same(w, "F64x2RelaxedMin") {
        Some(LaneOp::F64x2RelaxedMin)
    } else if same(w, "F64x2RelaxedMax") {
        Some(LaneOp::F64x2RelaxedMax)
    } else if same(w, "I16x8RelaxedQ15mulrS") {
        Some(LaneOp::I16x8RelaxedQ15mulrS)
    } else if same(w, "I8x16RelaxedLaneselect") {
        Some(LaneOp::I8x16RelaxedLaneselect)
    } else if same(w, "I16x8RelaxedLaneselect") {
        Some(LaneOp::I16x8RelaxedLaneselect)
    } else if same(w, "I32x4RelaxedLaneselect") {
        Some(LaneOp::I32x4RelaxedLaneselect)
    } else if same(w, "I64x2RelaxedLaneselect") {
        Some(LaneOp::I64x2RelaxedLaneselect)
    } else {
        read_lane_5(w)
    }
}

/// The lane-wise operator with this name.
pub open spec fn lane_named_5(w: Seq<char>) -> Option<LaneOp> {
    if w == "F32x4RelaxedMadd"@ {
        Some(LaneOp::F32x4RelaxedMadd)
    } else if w == "F32x4RelaxedNmadd"@ {
        Some(LaneOp::F32x4RelaxedNmadd)
    } else if w == "F64x2RelaxedMadd"@ {
        Some(LaneOp::F64x2RelaxedMadd)
    } else if w == "F64x2RelaxedNmadd"@ {
        Some(LaneOp::F64x2RelaxedNmadd)
    } else if w == "I16x8RelaxedDotI8x16I7x16S"@ {
        Some(LaneOp::I16x8RelaxedDotI8x16I7x16S)
    } else if w == "I32x4RelaxedDotI8x16I7x16AddS"@ {
        Some(LaneOp::I32x4RelaxedDotI8x16I7x16AddS)
    } else {
        None
    }
}

/// The lane-wise operator with this name.
fn read_lane_5(w: &str) -> (r: Option<LaneOp>)
    ensures
        r == lane_named_5(w@),
{
    if same(w, "F32x4RelaxedMadd") {
        Some(LaneOp::F32x4RelaxedMadd)
    } else if same(w, "F32x4RelaxedNmadd") {
        Some(LaneOp::F32x4RelaxedNmadd)
    } else if same(w, "F64x2RelaxedMadd") {
        Some(LaneOp::F64x2RelaxedMadd)
    } else if same(w, "F64x2RelaxedNmadd") {
        Some(LaneOp::F64x2RelaxedNmadd)
    } else if same(w, "I16x8RelaxedDotI8x16I7x16S") {
        Some(LaneOp::I16x8RelaxedDotI8x16I7x16S)
    } else if same(w, "I32x4RelaxedDotI8x16I7x16AddS") {
        Some(LaneOp::I32x4RelaxedDotI8x16I7x16AddS)
    } else {
        None
    }
}

/// The load with this name.
pub open spec fn load_named(w: Seq<char>) -> Option<LoadOp> {
    if w == "I32Load"@ {
        Some(LoadOp::I32Load)
    } else if w == "I32Load8U"@ {
        Some(LoadOp::I32Load8U)
    } else if w == "I32Load8S"@ {
        Some(LoadOp::I32Load8S)
    } else if w == "I32Load16U"@ {
        Some(LoadOp::I32Load16U)
    } else if w == "I32Load16S"@ {
        Some(LoadOp::I32Load16S)
    } else if w == "I64Load"@ {
        Some(LoadOp::I64Load)
    } else if w == "F32Load"@ {
        Some(LoadOp::F32Load)
    } else if w == "F64Load"@ {
        Some(LoadOp::F64Load)
    } else if w == "I64Load8U"@ {
        Some(LoadOp::I64Load8U)
    } else if w == "I64Load8S"@ {
        Some(LoadOp::I64Load8S)
    } else if w == "I64Load16U"@ {
        Some(LoadOp::I64Load16U)
    } else if w == "I64Load16S"@ {
        Some(LoadOp::I64Load16S)
    } else if w == "I64Load32U"@ {
        Some(LoadOp::I64Load32U)
    } else if w == "I64Load32S"@ {
        Some(LoadOp::I64Load32S)
    } else if w == "I32AtomicLoad"@ {
        Some(LoadOp::I32AtomicLoad)
    } else if w == "I32AtomicLoad8U"@ {
        Some(LoadOp::I32AtomicLoad8U)
    } else if w == "I32AtomicLoad16U"@ {
        Some(LoadOp::I32AtomicLoad16U)
    } else if w == "I64AtomicLoad"@ {
        Some(LoadOp::I64AtomicLoad)
    } else if w == "I64AtomicLoad8U"@ {
        Some(LoadOp::I64AtomicLoad8U)
    } else if w == "I64AtomicLoad16U"@ {
        Some(LoadOp::I64AtomicLoad16U)
    } else if w == "I64AtomicLoad32U"@ {
        Some(LoadOp::I64AtomicLoad32U)
    } else if w == "V128Load"@ {
        Some(LoadOp::V128Load)
    } else if w == "V128Load8Splat"@ {
        Some(LoadOp::V128Load8Splat)
    } else if w == "V128Load16Splat"@ {
        Some(LoadOp::V128Load16Splat)
    } else if w == "V128Load32Splat"@ {
        Some(LoadOp::V128Load32Splat)
    } else if w == "V128Load64Splat"@ {
        Some(LoadOp::V128Load64Splat)
    } else if w == "V128Load32Zero"@ {
        Some(LoadOp::V128Load32Zero)
    } else if w == "V128Load64Zero"@ {
        Some(LoadOp::V128Load64Zero)
    } else if w == "V128Load8x8S"@ {
        Some(LoadOp::V128Load8x8S)
    } else if w == "V128Load8x8U"@ {
        Some(LoadOp::V128Load8x8U)
    } else if w == "V128Load16x4S"@ {
        Some(LoadOp::V128Load16x4S)
    } else if w == "V128Load16x4U"@ {
        Some(LoadOp::V128Load16x4U)
    } else if w == "V128Load32x2S"@ {
        Some(LoadOp::V128Load32x2S)
    } else if w == "V128Load32x2U"@ {
        Some(LoadOp::V128Load32x2U)
    } else {
        None
    }
}

/// The load with this name.
pub fn read_load(w: &str) -> (r: Option<LoadOp>)
    ensures
        r == load_named(w@),
{
    if same(w, "I32Load") {
        Some(LoadOp::I32Load)
    } else if same(w, "I32Load8U") {
        Some(LoadOp::I32Load8U)
    } else if same(w, "I32Load8S") {
        Some(LoadOp::I32Load8S)
    } else if same(w, "I32Load16U") {
        Some(LoadOp::I32Load16U)
    } else if same(w, "I32Load16S") {
        Some(LoadOp::I32Load16S)
    } else if same(w, "I64Load") {
        Some(LoadOp::I64Load)
    } else if same(w, "F32Load") {
        Some(LoadOp::F32Load)
    } else if same(w, "F64Load") {
        Some(LoadOp::F64Load)
    } else if same(w, "I64Load8U") {
        Some(LoadOp::I64Load8U)
    } else if same(w, "I64Load8S") {
        Some(LoadOp::I64Load8S)
    } else if same(w, "I64Load16U") {
        Some(LoadOp::I64Load16U)
    } else if same(w, "I64Load16S") {
        Some(LoadOp::I64Load16S)
    } else if same(w, "I64Load32U") {
        Some(LoadOp::I64Load32U)
    } else if same(w, "I64Load32S") {
        Some(LoadOp::I64Load32S)
    } else if same(w, "I32AtomicLoad") {
        Some(LoadOp::I32AtomicLoad)
    } else if same(w, "I32AtomicLoad8U") {
        Some(LoadOp::I32AtomicLoad8U)
    } else if same(w, "I32AtomicLoad16U") {
        Some(LoadOp::I32AtomicLoad16U)
    } else if same(w, "I64AtomicLoad") {
        Some(LoadOp::I64AtomicLoad)
    } else if same(w, "I64AtomicLoad8U") {
        Some(LoadOp::I64AtomicLoad8U)
    } else if same(w, "I64AtomicLoad16U") {
        Some(LoadOp::I64AtomicLoad16U)
    } else if same(w, "I64AtomicLoad32U") {
        Some(LoadOp::I64AtomicLoad32U)
    } else if same(w, "V128Load") {
        Some(LoadOp::V128Load)
    } else if same(w, "V128Load8Splat") {
        Some(LoadOp::V128Load8Splat)
    } else if same(w, "V128Load16Splat") {
        Some(LoadOp::V128Load16Splat)
    } else if same(w, "V128Load32Splat") {
        Some(LoadOp::V128Load32Splat)
    } else if same(w, "V128Load64Splat") {
        Some(LoadOp::V128Load64Splat)
    } else if same(w, "V128Load32Zero") {
        Some(LoadOp::V128Load32Zero)
    } else if same(w, "V128Load64Zero") {
        Some(LoadOp::V128Load64Zero)
    } else if same(w, "V128Load8x8S") {
        Some(LoadOp::V128Load8x8S)
    } else if same(w, "V128Load8x8U") {
        Some(LoadOp::V128Load8x8U)
    } else if same(w, "V128Load16x4S") {
        Some(LoadOp::V128Load16x4S)
    } else if same(w, "V128Load16x4U") {
        Some(LoadOp::V128Load16x4U)
    } else if same(w, "V128Load32x2S") {
        Some(LoadOp::V128Load32x2S)
    } else if same(w, "V128Load32x2U") {
        Some(LoadOp::V128Load32x2U)
    } else {
        None
    }
}

/// The store with this name.
pub open spec fn store_named(w: Seq<char>) -> Option<StoreOp> {
    if w == "I32Store"@ {
        Some(StoreOp::I32Store)
    } else if w == "I32Store8"@ {
        Some(StoreOp::I32Store8)
    } else if w == "I32Store16"@ {
        Some(StoreOp::I32Store16)
    } else if w == "I64Store"@ {
        Some(StoreOp::I64Store)
    } else if w == "F32Store"@ {
        Some(StoreOp::F32Store)
    } else if w == "F64Store"@ {
        Some(StoreOp::F64Store)
    } else if w == "I64Store8"@ {
        Some(StoreOp::I64Store8)
    } else if w == "I64Store16"@ {
        Some(StoreOp::I64Store16)
    } else if w == "I64Store32"@ {
        Some(StoreOp::I64Store32)
    } else if w == "I32AtomicStore"@ {
        Some(StoreOp::I32AtomicStore)
    } else if w == "I32AtomicStore8"@ {
        Some(StoreOp::I32AtomicStore8)
    } else if w == "I32AtomicStore16"@ {
        Some(StoreOp::I32AtomicStore16)
    } else if w == "I64AtomicStore"@ {
        Some(StoreOp::I64AtomicStore)
    } else if w == "I64AtomicStore8"@ {
        Some(StoreOp::I64AtomicStore8)
    } else if w == "I64AtomicStore16"@ {
        Some(StoreOp::I64AtomicStore16)
    } else if w == "I64AtomicStore32"@ {
        Some(StoreOp::I64AtomicStore32)
    } else if w == "V128Store"@ {
        Some(StoreOp::V128Store)
    } else {
        None
    }
}

/// The store with this name.
pub fn read_store(w: &str) -> (r: Option<StoreOp>)
    ensures
        r == store_named(w@),
{
    if same(w, "I32Store") {
        Some(StoreOp::I32Store)
    } else if same(w, "I32Store8") {
        Some(StoreOp::I32Store8)
    } else if same(w, "I32Store16") {
        Some(StoreOp::I32Store16)
    } else if same(w, "I64Store") {
        Some(StoreOp::I64Store)
    } else if same(w, "F32Store") {
        Some(StoreOp::F32Store)
    } else if same(w, "F64Store") {
        Some(StoreOp::F64Store)
    } else if same(w, "I64Store8") {
        Some(StoreOp::I64Store8)
    } else if same(w, "I64Store16") {
        Some(StoreOp::I64Store16)
    } else if same(w, "I64Store32") {
        Some(StoreOp::I64Store32)
    } else if same(w, "I32AtomicStore") {
        Some(StoreOp::I32AtomicStore)
    } else if same(w, "I32AtomicStore8") {
        Some(StoreOp::I32AtomicStore8)
    } else if same(w, "I32AtomicStore16") {
        Some(StoreOp::I32AtomicStore16)
    } else if same(w, "I64AtomicStore") {
        Some(StoreOp::I64AtomicStore)
    } else if same(w, "I64AtomicStore8") {
        Some(StoreOp::I64AtomicStore8)
    } else if same(w, "I64AtomicStore16") {
        Some(StoreOp::I64AtomicStore16)
    } else if same(w, "I64AtomicStore32") {
        Some(StoreOp::I64AtomicStore32)
    } else if same(w, "V128Store") {
        Some(StoreOp::V128Store)
    } else {
        None
    }
}

/// The lane load with this name.
pub open spec fn load_lane_named(w: Seq<char>) -> Option<LoadLaneOp> {
    if w == "V128Load8Lane"@ {
        Some(LoadLaneOp::V128Load8Lane)
    } else if w == "V128Load16Lane"@ {
        Some(LoadLaneOp::V128Load16Lane)
    } else if w == "V128Load32Lane"@ {
        Some(LoadLaneOp::V128Load32Lane)
    } else if w == "V128Load64Lane"@ {
        Some(LoadLaneOp::V128Load64Lane)
    } else {
        None
    }
}

/// The lane load with this name.
pub fn read_load_lane(w: &str) -> (r: Option<LoadLaneOp>)
    ensures
        r == load_lane_named(w@),
{
    if same(w, "V128Load8Lane") {
        Some(LoadLaneOp::V128Load8Lane)
    } else if same(w, "V128Load16Lane") {
        Some(LoadLaneOp::V128Load16Lane)
    } else if same(w, "V128Load32Lane") {
        Some(LoadLaneOp::V128Load32Lane)
    } else if same(w, "V128Load64Lane") {
        Some(LoadLaneOp::V128Load64Lane)
    } else {
        None
    }
}

/// The lane store with this name.
pub open spec fn store_lane_named(w: Seq<char>) -> Option<StoreLaneOp> {
    if w == "V128Store8Lane"@ {
        Some(StoreLaneOp::V128Store8Lane)
    } else if w == "V128Store16Lane"@ {
        Some(StoreLaneOp::V128Store16Lane)
    } else if w == "V128Store32Lane"@ {
        Some(StoreLaneOp::V128Store32Lane)
    } else if w == "V128Store64Lane"@ {
        Some(StoreLaneOp::V128Store64Lane)
    } else {
        None
    }
}

/// The lane store with this name.
pub fn read_store_lane(w: &str) -> (r: Option<StoreLaneOp>)
    ensures
        r == store_lane_named(w@),
{
    if same(w, "V128Store8Lane") {
        Some(StoreLaneOp::V128Store8Lane)
    } else if same(w, "V128Store16Lane") {
        Some(StoreLaneOp::V128Store16Lane)
    } else if same(w, "V128Store32Lane") {
        Some(StoreLaneOp::V128Store32Lane)
    } else if same(w, "V128Store64Lane") {
        Some(StoreLaneOp::V128Store64Lane)
    } else {
        None
    }
}

/// The lane extraction with this name.
pub open spec fn extract_named(w: Seq<char>) -> Option<ExtractOp> {
    if w == "I8x16ExtractLaneS"@ {
        Some(ExtractOp::I8x16ExtractLaneS)
    } else if w == "I8x16ExtractLaneU"@ {
        Some(ExtractOp::I8x16ExtractLaneU)
    } else if w == "I16x8ExtractLaneS"@ {
        Some(ExtractOp::I16x8ExtractLaneS)
    } else if w == "I16x8ExtractLaneU"@ {
        Some(ExtractOp::I16x8ExtractLaneU)
    } else if w == "I32x4ExtractLane"@ {
        Some(ExtractOp::I32x4ExtractLane)
    } else if w == "I64x2ExtractLane"@ {
        Some(ExtractOp::I64x2ExtractLane)
    } else if w == "F32x4ExtractLane"@ {
        Some(ExtractOp::F32x4ExtractLane)
    } else if w == "F64x2ExtractLane"@ {
        Some(ExtractOp::F64x2ExtractLane)
    } else {
        None
    }
}

/// The lane extraction with this name.
pub fn read_extract(w: &str) -> (r: Option<ExtractOp>)
    ensures
        r == extract_named(w@),
{
    if same(w, "I8x16ExtractLaneS") {
        Some(ExtractOp::I8x16ExtractLaneS)
    } else if same(w, "I8x16ExtractLaneU") {
        Some(ExtractOp::I8x16ExtractLaneU)
    } else if same(w, "I16x8ExtractLaneS") {
        Some(ExtractOp::I16x8ExtractLaneS)
    } else if same(w, "I16x8ExtractLaneU") {
        Some(ExtractOp::I16x8ExtractLaneU)
    } else if same(w, "I32x4ExtractLane") {
        Some(ExtractOp::I32x4ExtractLane)
    } else if same(w, "I64x2ExtractLane") {
        Some(ExtractOp::I64x2ExtractLane)
    } else if same(w, "F32x4ExtractLane") {
        Some(ExtractOp::F32x4ExtractLane)
    } else if same(w, "F64x2ExtractLane") {
        Some(ExtractOp::F64x2ExtractLane)
    } else {
        None
    }
}

/// The lane replacement with this name.
pub open spec fn replace_named(w: Seq<char>) -> Option<ReplaceOp> {
    if w == "I8x16ReplaceLane"@ {
        Some(ReplaceOp::I8x16ReplaceLane)
    } else if w == "I16x8ReplaceLane"@ {
        Some(ReplaceOp::I16x8ReplaceLane)
    } else if w == "I32x4ReplaceLane"@ {
        Some(ReplaceOp::I32x4ReplaceLane)
    } else if w == "I64x2ReplaceLane"@ {
        Some(ReplaceOp::I64x2ReplaceLane)
    } else if w == "F32x4ReplaceLane"@ {
        Some(ReplaceOp::F32x4ReplaceLane)
    } else if w == "F64x2ReplaceLane"@ {
        Some(ReplaceOp::F64x2ReplaceLane)
    } else {
        None
    }
}

/// The lane replacement with this name.
pub fn read_replace(w: &str) -> (r: Option<ReplaceOp>)
    ensures
        r == replace_named(w@),
{
    if same(w, "I8x16ReplaceLane") {
        Some(ReplaceOp::I8x16ReplaceLane)
    } else if same(w, "I16x8ReplaceLane") {
        Some(ReplaceOp::I16x8ReplaceLane)
    } else if same(w, "I32x4ReplaceLane") {
        Some(ReplaceOp::I32x4ReplaceLane)
    } else if same(w, "I64x2ReplaceLane") {
        Some(ReplaceOp::I64x2ReplaceLane)
    } else if same(w, "F32x4ReplaceLane") {
        Some(ReplaceOp::F32x4ReplaceLane)
    } else if same(w, "F64x2ReplaceLane") {
        Some(ReplaceOp::F64x2ReplaceLane)
    } else {
        None
    }
}

/// The atomic read-modify-write with this name.
pub open spec fn rmw_named(w: Seq<char>) -> Option<(AtomicWidth, RmwOp)> {
    if w == "I32AtomicRmwAdd"@ {
        Some((AtomicWidth::I32, RmwOp::Add))
    } else if w == "I32AtomicRmwSub"@ {
        Some((AtomicWidth::I32, RmwOp::Sub))
    } else if w == "I32AtomicRmwAnd"@ {
        Some((AtomicWidth::I32, RmwOp::And))
    } else if w == "I32AtomicRmwOr"@ {
        Some((AtomicWidth::I32, RmwOp::Or))
    } else if w == "I32AtomicRmwXor"@ {
        Some((AtomicWidth::I32, RmwOp::Xor))
    } else if w == "I32AtomicRmwXchg"@ {
        Some((AtomicWidth::I32, RmwOp::Xchg))
    } else if w == "I32AtomicRmw8AddU"@ {
        Some((AtomicWidth::I32As8, RmwOp::Add))
    } else if w == "I32AtomicRmw8SubU"@ {
        Some((AtomicWidth::I32As8, RmwOp::Sub))
    } else if w == "I32AtomicRmw8AndU"@ {
        Some((AtomicWidth::I32As8, RmwOp::And))
    } else if w == "I32AtomicRmw8OrU"@ {
        Some((AtomicWidth::I32As8, RmwOp::Or))
    } else if w == "I32AtomicRmw8XorU"@ {
        Some((AtomicWidth::I32As8, RmwOp::Xor))
    } else if w == "I32AtomicRmw8XchgU"@ {
        Some((AtomicWidth::I32As8, RmwOp::Xchg))
    } else if w == "I32AtomicRmw16AddU"@ {
        Some((AtomicWidth::I32As16, RmwOp::Add))
    } else if w == "I32AtomicRmw16SubU"@ {
        Some((AtomicWidth::I32As16, RmwOp::Sub))
    } else if w == "I32AtomicRmw16AndU"@ {
        Some((AtomicWidth::I32As16, RmwOp::And))
    } else if w == "I32AtomicRmw16OrU"@ {
        Some((AtomicWidth::I32As16, RmwOp::Or))
    } else if w == "I32AtomicRmw16XorU"@ {
        Some((AtomicWidth::I32As16, RmwOp::Xor))
    } else if w == "I32AtomicRmw16XchgU"@ {
        Some((AtomicWidth::I32As16, RmwOp::Xchg))
    } else if w == "I64AtomicRmwAdd"@ {
        Some((AtomicWidth::I64, RmwOp::Add))
    } else if w == "I64AtomicRmwSub"@ {
        Some((AtomicWidth::I64, RmwOp::Sub))
    } else if w == "I64AtomicRmwAnd"@ {
        Some((AtomicWidth::I64, RmwOp::And))
    } else if w == "I64AtomicRmwOr"@ {
        Some((AtomicWidth::I64, RmwOp::Or))
    } else if w == "I64AtomicRmwXor"@ {
        Some((AtomicWidth::I64, RmwOp::Xor))
    } else if w == "I64AtomicRmwXchg"@ {
        Some((AtomicWidth::I64, RmwOp::Xchg))
    } else if w == "I64AtomicRmw8AddU"@ {
        Some((AtomicWidth::I64As8, RmwOp::Add))
    } else if w == "I64AtomicRmw8SubU"@ {
        Some((AtomicWidth::I64As8, RmwOp::Sub))
    } else if w == "I64AtomicRmw8AndU"@ {
        Some((AtomicWidth::I64As8, RmwOp::And))
    } else if w == "I64AtomicRmw8OrU"@ {
        Some((AtomicWidth::I64As8, RmwOp::Or))
    } else if w == "I64AtomicRmw8XorU"@ {
        Some((AtomicWidth::I64As8, RmwOp::Xor))
    } else if w == "I64AtomicRmw8XchgU"@ {
        Some((AtomicWidth::I64As8, RmwOp::Xchg))
    } else if w == "I64AtomicRmw16AddU"@ {
        Some((AtomicWidth::I64As16, RmwOp::Add))
    } else if w == "I64AtomicRmw16SubU"@ {
        Some((AtomicWidth::I64As16, RmwOp::Sub))
    } else if w == "I64AtomicRmw16AndU"@ {
        Some((AtomicWidth::I64As16, RmwOp::And))
    } else if w == "I64AtomicRmw16OrU"@ {
        Some((AtomicWidth::I64As16, RmwOp::Or))
    } else if w == "I64AtomicRmw16XorU"@ {
        Some((AtomicWidth::I64As16, RmwOp::Xor))
    } else if w == "I64AtomicRmw16XchgU"@ {
        Some((AtomicWidth::I64As16, RmwOp::Xchg))
    } else if w == "I64AtomicRmw32AddU"@ {
        Some((AtomicWidth::I64As32, RmwOp::Add))
    } else if w == "I64AtomicRmw32SubU"@ {
        Some((AtomicWidth::I64As32, RmwOp::Sub))
    } else if w == "I64AtomicRmw32AndU"@ {
        Some((AtomicWidth::I64As32, RmwOp::And))
    } else if w == "I64AtomicRmw32OrU"@ {
        Some((AtomicWidth::I64As32, RmwOp::Or))
    } else {
        rmw_named_1(w)
    }
}

/// The atomic read-modify-write with this name.
pub fn read_rmw(w: &str) -> (r: Option<(AtomicWidth, RmwOp)>)
    ensures
        r == rmw_named(w@),
{
    if same(w, "I32AtomicRmwAdd") {
        Some((AtomicWidth::I32, RmwOp::Add))
    } else if same(w, "I32AtomicRmwSub") {
        Some((AtomicWidth::I32, RmwOp::Sub))
    } else if same(w, "I32AtomicRmwAnd") {
        Some((AtomicWidth::I32, RmwOp::And))
    } else if same(w, "I32AtomicRmwOr") {
        Some((AtomicWidth::I32, RmwOp::Or))
    } else if same(w, "I32AtomicRmwXor") {
        Some((AtomicWidth::I32, RmwOp::Xor))
    } else if same(w, "I32AtomicRmwXchg") {
        Some((AtomicWidth::I32, RmwOp::Xchg))
    } else if same(w, "I32AtomicRmw8AddU") {
        Some((AtomicWidth::I32As8, RmwOp::Add))
    } else if same(w, "I32AtomicRmw8SubU") {
        Some((AtomicWidth::I32As8, RmwOp::Sub))
    } else if same(w, "I32AtomicRmw8AndU") {
        Some((AtomicWidth::I32As8, RmwOp::And))
    } else if same(w, "I32AtomicRmw8OrU") {
        Some((AtomicWidth::I32As8, RmwOp::Or))
    } else if same(w, "I32AtomicRmw8XorU") {
        Some((AtomicWidth::I32As8, RmwOp::Xor))
    } else if same(w, "I32AtomicRmw8XchgU") {
        Some((AtomicWidth::I32As8, RmwOp::Xchg))
    } else if same(w, "I32AtomicRmw16AddU") {
        Some((AtomicWidth::I32As16, RmwOp::Add))
    } else if same(w, "I32AtomicRmw16SubU") {
        Some((AtomicWidth::I32As16, RmwOp::Sub))
    } else if same(w, "I32AtomicRmw16AndU") {
        Some((AtomicWidth::I32As16, RmwOp::And))
    } else if same(w, "I32AtomicRmw16OrU") {
        Some((AtomicWidth::I32As16, RmwOp::Or))
    } else if same(w, "I32AtomicRmw16XorU") {
        Some((AtomicWidth::I32As16, RmwOp::Xor))
    } else if same(w, "I32AtomicRmw16XchgU") {
        Some((AtomicWidth::I32As16, RmwOp::Xchg))
    } else if same(w, "I64AtomicRmwAdd") {
        Some((AtomicWidth::I64, RmwOp::Add))
    } else if same(w, "I64AtomicRmwSub") {
        Some((AtomicWidth::I64, RmwOp::Sub))
    } else if same(w, "I64AtomicRmwAnd") {
        Some((AtomicWidth::I64, RmwOp::And))
    } else if same(w, "I64AtomicRmwOr") {
        Some((AtomicWidth::I64, RmwOp::Or))
    } else if same(w, "I64AtomicRmwXor") {
        Some((AtomicWidth::I64, RmwOp::Xor))
    } else if same(w, "I64AtomicRmwXchg") {
        Some((AtomicWidth::I64, RmwOp::Xchg))
    } else if same(w, "I64AtomicRmw8AddU") {
        Some((AtomicWidth::I64As8, RmwOp::Add))
    } else if same(w, "I64AtomicRmw8SubU") {
        Some((AtomicWidth::I64As8, RmwOp::Sub))
    } else if same(w, "I64AtomicRmw8AndU") {
        Some((AtomicWidth::I64As8, RmwOp::And))
    } else if same(w, "I64AtomicRmw8OrU") {
        Some((AtomicWidth::I64As8, RmwOp::Or))
    } else if same(w, "I64AtomicRmw8XorU") {
        Some((AtomicWidth::I64As8, RmwOp::Xor))
    } else if same(w, "I64AtomicRmw8XchgU") {
        Some((AtomicWidth::I64As8, RmwOp::Xchg))
    } else if same(w, "I64AtomicRmw16AddU") {
        Some((AtomicWidth::I64As16, RmwOp::Add))
    } else if same(w, "I64AtomicRmw16SubU") {
        Some((AtomicWidth::I64As16, RmwOp::Sub))
    } else if same(w, "I64AtomicRmw16AndU") {
        Some((AtomicWidth::I64As16, RmwOp::And))
    } else if same(w, "I64AtomicRmw16OrU") {
        Some((AtomicWidth::I64As16, RmwOp::Or))
    } else if same(w, "I64AtomicRmw16XorU") {
        Some((AtomicWidth::I64As16, RmwOp::Xor))
    } else if same(w, "I64AtomicRmw16XchgU") {
        Some((AtomicWidth::I64As16, RmwOp::Xchg))
    } else if same(w, "I64AtomicRmw32AddU") {
        Some((AtomicWidth::I64As32, RmwOp::Add))
    } else if same(w, "I64AtomicRmw32SubU") {
        Some((AtomicWidth::I64As32, RmwOp::Sub))
    } else if same(w, "I64AtomicRmw32AndU") {
        Some((AtomicWidth::I64As32, RmwOp::And))
    } else if same(w, "I64AtomicRmw32OrU") {
        Some((AtomicWidth::I64As32, RmwOp::Or))
    } else {
        read_rmw_1(w)
    }
}

/// The atomic read-modify-write with this name.
pub open spec fn rmw_named_1(w: Seq<char>) -> Option<(AtomicWidth, RmwOp)> {
    if w == "I64AtomicRmw32XorU"@ {
        Some((AtomicWidth::I64As32, RmwOp::Xor))
    } else if w == "I64AtomicRmw32XchgU"@ {
        Some((AtomicWidth::I64As32, RmwOp::Xchg))
    } else {
        None
    }
}

/// The atomic read-modify-write with this name.
fn read_rmw_1(w: &str) -> (r: Option<(AtomicWidth, RmwOp)>)
    ensures
        r == rmw_named_1(w@),
{
    if same(w, "I64AtomicRmw32XorU") {
        Some((AtomicWidth::I64As32, RmwOp::Xor))
    } else if same(w, "I64AtomicRmw32XchgU") {
        Some((AtomicWidth::I64As32, RmwOp::Xchg))
    } else {
        None
    }
}

/// The atomic compare-and-exchange with this name.
pub open spec fn exchange_named(w: Seq<char>) -> Option<AtomicWidth> {
    if w == "I32AtomicRmwCmpxchg"@ {
        Some(AtomicWidth::I32)
    } else if w == "I32AtomicRmw8CmpxchgU"@ {
        Some(AtomicWidth::I32As8)
    } else if w == "I32AtomicRmw16CmpxchgU"@ {
        Some(AtomicWidth::I32As16)
    } else if w == "I64AtomicRmwCmpxchg"@ {
        Some(AtomicWidth::I64)
    } else if w == "I64AtomicRmw8CmpxchgU"@ {
        Some(AtomicWidth::I64As8)
    } else if w == "I64AtomicRmw16CmpxchgU"@ {
        Some(AtomicWidth::I64As16)
    } else if w == "I64AtomicRmw32CmpxchgU"@ {
        Some(AtomicWidth::I64As32)
    } else {
        None
    }
}

/// The atomic compare-and-exchange with this name.
pub fn read_exchange(w: &str) -> (r: Option<AtomicWidth>)
    ensures
        r == exchange_named(w@),
{
    if same(w, "I32AtomicRmwCmpxchg") {
        Some(AtomicWidth::I32)
    } else if same(w, "I32AtomicRmw8CmpxchgU") {
        Some(AtomicWidth::I32As8)
    } else if same(w, "I32AtomicRmw16CmpxchgU") {
        Some(AtomicWidth::I32As16)
    } else if same(w, "I64AtomicRmwCmpxchg") {
        Some(AtomicWidth::I64)
    } else if same(w, "I64AtomicRmw8CmpxchgU") {
        Some(AtomicWidth::I64As8)
    } else if same(w, "I64AtomicRmw16CmpxchgU") {
        Some(AtomicWidth::I64As16)
    } else if same(w, "I64AtomicRmw32CmpxchgU") {
        Some(AtomicWidth::I64As32)
    } else {
        None
    }
}

} // verus!
