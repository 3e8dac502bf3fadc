//! The WebAssembly instructions.

use vstd::prelude::*;

use crate::wasm::{BlockType, HeapType, MemArg, RefType, ValType};

verus! {

/// The integer types.
#[derive(Clone, Copy, PartialEq, Eq, Structural, Debug)]
pub enum IntTy {
    I32,
    I64,
}

/// The floating-point types.
#[derive(Clone, Copy, PartialEq, Eq, Structural, Debug)]
pub enum FloatTy {
    F32,
    F64,
}

/// The integer operators without immediates, in either width.
#[derive(Clone, Copy, PartialEq, Eq, Structural, Debug)]
pub enum IntOp {
    Clz,
    Ctz,
    Popcnt,
    Add,
    Sub,
    Mul,
    DivS,
    DivU,
    RemS,
    RemU,
    And,
    Or,
    Xor,
    Shl,
    ShrS,
    ShrU,
    Rotl,
    Rotr,
    Eqz,
    Eq,
    Ne,
    LtS,
    LtU,
    GtS,
    GtU,
    LeS,
    LeU,
    GeS,
    GeU,
}

/// The floating-point operators without immediates, in either width.
#[derive(Clone, Copy, PartialEq, Eq, Structural, Debug)]
pub enum FloatOp {
    Abs,
    Neg,
    Ceil,
    Floor,
    Trunc,
    Nearest,
    Sqrt,
    Add,
    Sub,
    Mul,
    Div,
    Min,
    Max,
    Copysign,
    Eq,
    Ne,
    Lt,
    Gt,
    Le,
    Ge,
}

/// The numeric conversions.
#[derive(Clone, Copy, PartialEq, Eq, Structural, Debug)]
pub enum ConvertOp {
    I32WrapI64,
    I64ExtendI32S,
    I64ExtendI32U,
    I32Extend8S,
    I32Extend16S,
    I64Extend8S,
    I64Extend16S,
    I64Extend32S,
    F32ConvertI32S,
    F32ConvertI64S,
    F64ConvertI32S,
    F64ConvertI64S,
    F32ConvertI32U,
    F32ConvertI64U,
    F64ConvertI32U,
    F64ConvertI64U,
    F32DemoteF64,
    F64PromoteF32,
    I32ReinterpretF32,
    I64ReinterpretF64,
    F32ReinterpretI32,
    F64ReinterpretI64,
    I32TruncF32S,
    I32TruncF32U,
    I32TruncF64S,
    I32TruncF64U,
    I64TruncF32S,
    I64TruncF32U,
    I64TruncF64S,
    I64TruncF64U,
    I32TruncSatF32S,
    I32TruncSatF64S,
    I64TruncSatF32S,
    I64TruncSatF64S,
    I32TruncSatF32U,
    I32TruncSatF64U,
    I64TruncSatF32U,
    I64TruncSatF64U,
}

/// The vector operators without immediates.
#[derive(Clone, Copy, PartialEq, Eq, Structural, Debug)]
pub enum LaneOp {
    I8x16Splat,
    I16x8Splat,
    I32x4Splat,
    I64x2Splat,
    F32x4Splat,
    F64x2Splat,
    V128And,
    V128Or,
    V128Xor,
    V128Not,
    V128AndNot,
    V128Bitselect,
    V128AnyTrue,
    I8x16Add,
    I16x8Add,
    I32x4Add,
    I64x2Add,
    I8x16Sub,
    I16x8Sub,
    I32x4Sub,
    I64x2Sub,
    I16x8Mul,
    I32x4Mul,
    I64x2Mul,
    I8x16Neg,
    I16x8Neg,
    I32x4Neg,
    I64x2Neg,
    F32x4Neg,
    F64x2Neg,
    F32x4Abs,
    F64x2Abs,
    F32x4Add,
    F64x2Add,
    F32x4Sub,
    F64x2Sub,
    F32x4Mul,
    F64x2Mul,
    F32x4Div,
    F64x2Div,
    F32x4Min,
    F64x2Min,
    F32x4Max,
    F64x2Max,
    F32x4PMin,
    F64x2PMin,
    F32x4PMax,
    F64x2PMax,
    F32x4Sqrt,
    F64x2Sqrt,
    F32x4Ceil,
    F64x2Ceil,
    F32x4Floor,
    F64x2Floor,
    F32x4Trunc,
    F64x2Trunc,
    F32x4Nearest,
    F64x2Nearest,
    I8x16Eq,
    I8x16Ne,
    I8x16LtS,
    I8x16LtU,
    I8x16GtS,
    I8x16GtU,
    I8x16LeS,
    I8x16LeU,
    I8x16GeS,
    I8x16GeU,
    I16x8Eq,
    I16x8Ne,
    I16x8LtS,
    I16x8LtU,
    I16x8GtS,
    I16x8GtU,
    I16x8LeS,
    I16x8LeU,
    I16x8GeS,
    I16x8GeU,
    I32x4Eq,
    I32x4Ne,
    I32x4LtS,
    I32x4LtU,
    I32x4GtS,
    I32x4GtU,
    I32x4LeS,
    I32x4LeU,
    I32x4GeS,
    I32x4GeU,
    I64x2Eq,
    I64x2Ne,
    I64x2LtS,
    I64x2GtS,
    I64x2LeS,
    I64x2GeS,
    F32x4Eq,
    F32x4Ne,
    F32x4Lt,
    F32x4Gt,
    F32x4Le,
    F32x4Ge,
    F64x2Eq,
    F64x2Ne,
    F64x2Lt,
    F64x2Gt,
    F64x2Le,
    F64x2Ge,
    I8x16Shl,
    I16x8Shl,
    I32x4Shl,
    I64x2Shl,
    I8x16ShrS,
    I16x8ShrS,
    I32x4ShrS,
    I64x2ShrS,
    I8x16ShrU,
    I16x8ShrU,
    I32x4ShrU,
    I64x2ShrU,
    I8x16AddSatS,
    I8x16AddSatU,
    I16x8AddSatS,
    I16x8AddSatU,
    I8x16SubSatS,
    I8x16SubSatU,
    I16x8SubSatS,
    I16x8SubSatU,
    I16x8ExtendLowI8x16S,
    I16x8ExtendHighI8x16S,
    I16x8ExtendLowI8x16U,
    I16x8ExtendHighI8x16U,
    I32x4ExtendLowI16x8S,
    I32x4ExtendHighI16x8S,
    I32x4ExtendLowI16x8U,
    I32x4ExtendHighI16x8U,
    I64x2ExtendLowI32x4S,
    I64x2ExtendHighI32x4S,
    I64x2ExtendLowI32x4U,
    I64x2ExtendHighI32x4U,
    I8x16NarrowI16x8S,
    I8x16NarrowI16x8U,
    I16x8NarrowI32x4S,
    I16x8NarrowI32x4U,
    I16x8ExtMulLowI8x16S,
    I16x8ExtMulHighI8x16S,
    I16x8ExtMulLowI8x16U,
    I16x8ExtMulHighI8x16U,
    I32x4ExtMulLowI16x8S,
    I32x4ExtMulHighI16x8S,
    I32x4ExtMulLowI16x8U,
    I32x4ExtMulHighI16x8U,
    I64x2ExtMulLowI32x4S,
    I64x2ExtMulHighI32x4S,
    I64x2ExtMulLowI32x4U,
    I64x2ExtMulHighI32x4U,
    I16x8ExtAddPairwiseI8x16S,
    I16x8ExtAddPairwiseI8x16U,
    I32x4ExtAddPairwiseI16x8S,
    I32x4ExtAddPairwiseI16x8U,
    I32x4DotI16x8S,
    I16x8Q15MulrSatS,
    I32x4TruncSatF32x4S,
    I32x4TruncSatF32x4U,
    I32x4TruncSatF64x2SZero,
    I32x4TruncSatF64x2UZero,
    F32x4ConvertI32x4S,
    F32x4ConvertI32x4U,
    F64x2ConvertLowI32x4S,
    F64x2ConvertLowI32x4U,
    F32x4DemoteF64x2Zero,
    F64x2PromoteLowF32x4,
    I8x16Abs,
    I16x8Abs,
    I32x4Abs,
    I64x2Abs,
    I8x16AvgrU,
    I16x8AvgrU,
    I8x16Popcnt,
    I8x16AllTrue,
    I16x8AllTrue,
    I32x4AllTrue,
    I64x2AllTrue,
    I8x16Bitmask,
    I16x8Bitmask,
    I32x4Bitmask,
    I64x2Bitmask,
    I8x16Swizzle,
    I8x16RelaxedSwizzle,
    I32x4RelaxedTruncF32x4S,
    I32x4RelaxedTruncF32x4U,
    I32x4RelaxedTruncF64x2SZero,
    I32x4RelaxedTruncF64x2UZero,
    F32x4RelaxedMin,
    F32x4RelaxedMax,
    F64x2RelaxedMin,
    F64x2RelaxedMax,
    I16x8RelaxedQ15mulrS,
    I8x16RelaxedLaneselect,
    I16x8RelaxedLaneselect,
    I32x4RelaxedLaneselect,
    I64x2RelaxedLaneselect,
    F32x4RelaxedMadd,
    F32x4RelaxedNmadd,
    F64x2RelaxedMadd,
    F64x2RelaxedNmadd,
    I16x8RelaxedDotI8x16I7x16S,
    I32x4RelaxedDotI8x16I7x16AddS,
}

/// The loads, plain and atomic.
#[derive(Clone, Copy, PartialEq, Eq, Structural, Debug)]
pub enum LoadOp {
    I32Load,
    I32Load8U,
    I32Load8S,
    I32Load16U,
    I32Load16S,
    I64Load,
    F32Load,
    F64Load,
    I64Load8U,
    I64Load8S,
    I64Load16U,
    I64Load16S,
    I64Load32U,
    I64Load32S,
    I32AtomicLoad,
    I32AtomicLoad8U,
    I32AtomicLoad16U,
    I64AtomicLoad,
    I64AtomicLoad8U,
    I64AtomicLoad16U,
    I64AtomicLoad32U,
    V128Load,
    V128Load8Splat,
    V128Load16Splat,
    V128Load32Splat,
    V128Load64Splat,
    V128Load32Zero,
    V128Load64Zero,
    V128Load8x8S,
    V128Load8x8U,
    V128Load16x4S,
    V128Load16x4U,
    V128Load32x2S,
    V128Load32x2U,
}

/// The stores, plain and atomic.
#[derive(Clone, Copy, PartialEq, Eq, Structural, Debug)]
pub enum StoreOp {
    I32Store,
    I32Store8,
    I32Store16,
    I64Store,
    F32Store,
    F64Store,
    I64Store8,
    I64Store16,
    I64Store32,
    I32AtomicStore,
    I32AtomicStore8,
    I32AtomicStore16,
    I64AtomicStore,
    I64AtomicStore8,
    I64AtomicStore16,
    I64AtomicStore32,
    V128Store,
}

/// The loads of a single lane.
#[derive(Clone, Copy, PartialEq, Eq, Structural, Debug)]
pub enum LoadLaneOp {
    V128Load8Lane,
    V128Load16Lane,
    V128Load32Lane,
    V128Load64Lane,
}

/// The stores of a single lane.
#[derive(Clone, Copy, PartialEq, Eq, Structural, Debug)]
pub enum StoreLaneOp {
    V128Store8Lane,
    V128Store16Lane,
    V128Store32Lane,
    V128Store64Lane,
}

/// The operators that read a lane as a scalar.
#[derive(Clone, Copy, PartialEq, Eq, Structural, Debug)]
pub enum ExtractOp {
    I8x16ExtractLaneS,
    I8x16ExtractLaneU,
    I16x8ExtractLaneS,
    I16x8ExtractLaneU,
    I32x4ExtractLane,
    I64x2ExtractLane,
    F32x4ExtractLane,
    F64x2ExtractLane,
}

/// The operators that replace a lane by a scalar.
#[derive(Clone, Copy, PartialEq, Eq, Structural, Debug)]
pub enum ReplaceOp {
    I8x16ReplaceLane,
    I16x8ReplaceLane,
    I32x4ReplaceLane,
    I64x2ReplaceLane,
    F32x4ReplaceLane,
    F64x2ReplaceLane,
}

/// The binary operation of an atomic read-modify-write. Since the instance owns
/// its memory exclusively, an RMW lowers to a plain load / combine / store; each
/// variant supplies the "combine" expression over the old value and the operand
/// (`Xchg` just writes the operand). Narrow accesses combine at the full operand
/// width and rely on the store helper to truncate, matching wasm's wrap-on-store.
#[derive(Clone, Copy, PartialEq, Eq, Structural, Debug)]
pub enum RmwOp {
    Add,
    Sub,
    And,
    Or,
    Xor,
    Xchg,
}

/// The value type and access width of an atomic RMW/cmpxchg, the single choice
/// that fixes its load helper, store helper, result type, and (for a narrow
/// access) the low-bit mask used to compare at the access width. `I32As8` means
/// an i32-typed op over an 8-bit cell, etc.
#[derive(Clone, Copy, PartialEq, Eq, Structural, Debug)]
pub enum AtomicWidth {
    I32,
    I32As8,
    I32As16,
    I64,
    I64As8,
    I64As16,
    I64As32,
}

/// One clause of a resume table.
#[derive(Clone, Copy, PartialEq, Eq, Structural, Debug)]
pub enum Handle {
    /// `(on $tag $label)`
    OnLabel { tag: u32, label: u32 },
    /// `(on $tag switch)`
    OnSwitch { tag: u32 },
}

/// One instruction.
#[allow(inconsistent_fields)]
pub enum Operator {
    Nop,
    Unreachable,
    Block { blockty: BlockType },
    Loop { blockty: BlockType },
    If { blockty: BlockType },
    Else,
    End,
    Br { relative_depth: u32 },
    BrIf { relative_depth: u32 },
    BrTable { targets: Vec<u32>, default: u32 },
    Return,
    Call { function_index: u32 },
    CallIndirect { type_index: u32, table_index: u32 },
    ReturnCall { function_index: u32 },
    ReturnCallIndirect { type_index: u32, table_index: u32 },
    CallRef { type_index: u32 },
    ReturnCallRef { type_index: u32 },
    Drop,
    Select,
    TypedSelect { ty: ValType },
    Try { blockty: BlockType },
    Catch { tag_index: u32 },
    CatchAll,
    Throw { tag_index: u32 },
    Rethrow { relative_depth: u32 },
    TryTable,
    LocalGet { local_index: u32 },
    LocalSet { local_index: u32 },
    LocalTee { local_index: u32 },
    GlobalGet { global_index: u32 },
    GlobalSet { global_index: u32 },
    I32Const { value: i32 },
    I64Const { value: i64 },
    /// A constant by its bit pattern.
    F32Const { bits: u32 },
    /// A constant by its bit pattern.
    F64Const { bits: u64 },
    /// A constant by its bytes, the lowest first.
    V128Const { bytes: [u8; 16] },
    Int { ty: IntTy, op: IntOp },
    Float { ty: FloatTy, op: FloatOp },
    Convert { op: ConvertOp },
    Lane { op: LaneOp },
    ExtractLane { op: ExtractOp, lane: u8 },
    ReplaceLane { op: ReplaceOp, lane: u8 },
    I8x16Shuffle { lanes: [u8; 16] },
    Load { op: LoadOp, memarg: MemArg },
    Store { op: StoreOp, memarg: MemArg },
    LoadLane { op: LoadLaneOp, memarg: MemArg, lane: u8 },
    StoreLane { op: StoreLaneOp, memarg: MemArg, lane: u8 },
    AtomicRmw { width: AtomicWidth, op: RmwOp, memarg: MemArg },
    AtomicCompareExchange { width: AtomicWidth, memarg: MemArg },
    AtomicFence,
    MemoryAtomicNotify { memarg: MemArg },
    MemoryAtomicWait32 { memarg: MemArg },
    MemoryAtomicWait64 { memarg: MemArg },
    MemorySize { mem: u32 },
    MemoryGrow { mem: u32 },
    MemoryFill { mem: u32 },
    MemoryCopy { dst_mem: u32, src_mem: u32 },
    MemoryInit { data_index: u32, mem: u32 },
    DataDrop { data_index: u32 },
    TableCopy { dst_table: u32, src_table: u32 },
    TableInit { elem_index: u32, table: u32 },
    ElemDrop { elem_index: u32 },
    TableGet { table: u32 },
    TableSet { table: u32 },
    TableSize { table: u32 },
    TableGrow { table: u32 },
    TableFill { table: u32 },
    RefNull { hty: HeapType },
    RefFunc { function_index: u32 },
    RefIsNull,
    StructNew { struct_type_index: u32 },
    StructGet { struct_type_index: u32, field_index: u32 },
    StructGetS { struct_type_index: u32, field_index: u32 },
    StructGetU { struct_type_index: u32, field_index: u32 },
    StructSet { struct_type_index: u32, field_index: u32 },
    ArrayNew { array_type_index: u32 },
    ArrayGet { array_type_index: u32 },
    ArrayGetS { array_type_index: u32 },
    ArrayGetU { array_type_index: u32 },
    ArraySet { array_type_index: u32 },
    ArrayLen,
    ArrayNewData,
    ArrayNewElem,
    ArrayInitData,
    ArrayInitElem,
    RefI31,
    AnyConvertExtern,
    ExternConvertAny,
    RefTestNonNull { hty: HeapType },
    RefTestNullable { hty: HeapType },
    RefCastNonNull { hty: HeapType },
    RefCastNullable { hty: HeapType },
    BrOnCast { relative_depth: u32, from_ref_type: RefType, to_ref_type: RefType },
    BrOnCastFail { relative_depth: u32, from_ref_type: RefType, to_ref_type: RefType },
    ContNew { cont_type_index: u32 },
    Suspend { tag_index: u32 },
    Switch { cont_type_index: u32, tag_index: u32 },
    Resume { cont_type_index: u32, handlers: Vec<Handle> },
    ResumeThrow { cont_type_index: u32, tag_index: u32, handlers: Vec<Handle> },
    /// An instruction that the generator knows nothing about.
    Other,
}

/// An instruction with its spelling in messages.
pub struct Instr {
    pub op: Operator,
    pub text: String,
}

} // verus!
