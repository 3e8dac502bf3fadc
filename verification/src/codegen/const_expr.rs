//! Constant expressions: the offsets of segments and the initial values of
//! globals.

use vstd::prelude::*;

use crate::codegen::analysis::{abstract_gc, abstract_is_gc, concrete_gc, concrete_is_gc};
use crate::codegen::common::{i32_literal, i32_text, i64_literal, i64_text};
use crate::codegen::info::{kinds_view, CompositeKind, KindV};
use crate::decode::reader::{const_spellings, decode_const, ops_read};
use crate::error::{no_support, same_result, text_result, unsupported, FailV, TranspileError};
use crate::ops::{Instr, Operator};
use crate::text::{dec, lit, Buf};

verus! {

/// The offset that the instructions yield so far.
pub open spec fn offset_so_far(ops: Seq<Instr>) -> Result<Option<u32>, FailV>
    decreases ops.len(),
{
    if ops.len() == 0 {
        Ok(None)
    } else {
        match offset_so_far(ops.drop_last()) {
            Err(e) => Err(e),
            Ok(before) => match ops.last().op {
                Operator::I32Const { value } => if value < 0 {
                    Err(unsupported("negative table offset"@))
                } else {
                    Ok(Some(value as u32))
                },
                Operator::End => Ok(before),
                _ => Err(unsupported(("element offset: "@ + ops.last().text@))),
            },
        }
    }
}

/// The offset that a constant expression yields. `broken` says whether it cannot be
/// read on behind `ops`.
pub open spec fn offset_value(ops: Seq<Instr>, broken: bool) -> Result<u32, FailV> {
    match offset_so_far(ops) {
        Err(e) => Err(e),
        Ok(_) if broken => Err(FailV::Malformed),
        Ok(Some(v)) => Ok(v),
        Ok(None) => Err(unsupported("empty element offset"@)),
    }
}

/// The initial value that the instructions yield so far.
pub open spec fn init_so_far(ops: Seq<Instr>, kinds: Seq<KindV>) -> Result<Option<Seq<char>>, FailV>
    decreases ops.len(),
{
    if ops.len() == 0 {
        Ok(None)
    } else {
        match init_so_far(ops.drop_last(), kinds) {
            Err(e) => Err(e),
            Ok(before) => match ops.last().op {
                Operator::I32Const { value } => Ok(Some(i32_text(value))),
                Operator::I64Const { value } => Ok(Some(i64_text(value))),
                Operator::F32Const { bits } => Ok(Some(("f32::from_bits("@ + dec(bits as nat)
                    + "u32)"@))),
                Operator::F64Const { bits } => Ok(Some(("f64::from_bits("@ + dec(bits as nat)
                    + "u64)"@))),
                Operator::RefNull { hty } => Ok(
                    Some(
                        if abstract_gc(hty) || concrete_gc(hty, kinds) {
                            "GcRef::Null"@
                        } else {
                            "u32::MAX"@
                        },
                    ),
                ),
                Operator::RefFunc { function_index } => Ok(Some((dec(function_index as nat)
                    + "u32"@))),
                Operator::End => Ok(before),
                _ => Err(unsupported(("global initializer: "@ + ops.last().text@))),
            },
        }
    }
}

/// The initial value that a constant expression yields, as a Rust expression.
/// `broken` says whether it cannot be read on behind `ops`.
pub open spec fn init_value(ops: Seq<Instr>, broken: bool, kinds: Seq<KindV>) -> Result<
    Seq<char>,
    FailV,
> {
    match init_so_far(ops, kinds) {
        Err(e) => Err(e),
        Ok(_) if broken => Err(FailV::Malformed),
        Ok(Some(v)) => Ok(v),
        Ok(None) => Err(unsupported("empty global initializer"@)),
    }
}

proof fn lemma_offset_fails(ops: Seq<Instr>, k: int)
    requires
        0 <= k <= ops.len(),
        offset_so_far(ops.take(k)) is Err,
    ensures
        offset_so_far(ops) == offset_so_far(ops.take(k)),
    decreases ops.len() - k,
{
    if k < ops.len() {
        assert(ops.take(k + 1).drop_last() =~= ops.take(k));
        lemma_offset_fails(ops, k + 1);
    } else {
        assert(ops.take(k) =~= ops);
    }
}

proof fn lemma_init_fails(ops: Seq<Instr>, kinds: Seq<KindV>, k: int)
    requires
        0 <= k <= ops.len(),
        init_so_far(ops.take(k), kinds) is Err,
    ensures
        init_so_far(ops, kinds) == init_so_far(ops.take(k), kinds),
    decreases ops.len() - k,
{
    if k < ops.len() {
        assert(ops.take(k + 1).drop_last() =~= ops.take(k));
        lemma_init_fails(ops, kinds, k + 1);
    } else {
        assert(ops.take(k) =~= ops);
    }
}

/// Evaluate a constant offset expression (a single `i32.const`) to a `u32`, as
/// used for an active element segment's table offset. Where the expression cannot be
/// read on behind `ops` (`broken`), that is said only if nothing before it is at
/// fault.
pub fn const_ops_u32(ops: &Vec<Instr>, broken: bool) -> (r: Result<u32, TranspileError>)
    ensures
        same_result(r, offset_value(ops@, broken)),
{
    let mut value: Option<u32> = None;
    let mut i: usize = 0;
    while i < ops.len()
        invariant
            i <= ops@.len(),
            offset_so_far(ops@.take(i as int)) == Ok::<Option<u32>, FailV>(value),
        decreases ops@.len() - i,
    {
        assert(ops@.take(i + 1).drop_last() =~= ops@.take(i as int));
        match &ops[i].op {
            Operator::I32Const { value: v } => {
                if *v < 0 {
                    proof {
                        lemma_offset_fails(ops@, i + 1);
                    }
                    return Err(no_support("negative table offset"));
                }
                value = Some(*v as u32);
            },
            Operator::End => {},
            _ => {
                proof {
                    lemma_offset_fails(ops@, i + 1);
                }
                return Err(TranspileError::Unsupported(Buf::lit("element offset: ").s(&ops[i].text)
                    .end()));
            },
        }
        i += 1;
    }
    assert(ops@.take(ops@.len() as int) =~= ops@);
    if broken {
        return Err(TranspileError::Malformed);
    }
    match value {
        Some(v) => Ok(v),
        None => Err(no_support("empty element offset")),
    }
}

/// Translate a global's constant initializer expression to a Rust expression.
/// `type_kinds` classifies concrete heap types so a `ref.null` picks the null value
/// matching the reference's lowering: a managed GC reference
/// (`struct`/`array`/abstract GC) is `GcRef::Null`, while a
/// `funcref`/`externref`/`contref` handle is the `u32::MAX` sentinel. `ref.func f`
/// is the function's index. Where the expression cannot be read on behind `ops`
/// (`broken`), that is said only if nothing before it is at fault.
pub fn const_ops_to_rust(
    ops: &Vec<Instr>,
    broken: bool,
    type_kinds: &Vec<CompositeKind>,
) -> (r: Result<String, TranspileError>)
    ensures
        text_result(r, init_value(ops@, broken, kinds_view(type_kinds@))),
{
    let ghost kinds = kinds_view(type_kinds@);
    let mut value: Option<String> = None;
    let mut i: usize = 0;
    while i < ops.len()
        invariant
            i <= ops@.len(),
            kinds == kinds_view(type_kinds@),
            init_so_far(ops@.take(i as int), kinds) == Ok::<Option<Seq<char>>, FailV>(
                crate::text::opt_text(value),
            ),
        decreases ops@.len() - i,
    {
        assert(ops@.take(i + 1).drop_last() =~= ops@.take(i as int));
        match &ops[i].op {
            Operator::I32Const { value: v } => {
                value = Some(i32_literal(*v));
            },
            Operator::I64Const { value: v } => {
                value = Some(i64_literal(*v));
            },
            Operator::F32Const { bits } => {
                value = Some(Buf::lit("f32::from_bits(").n(*bits as u64).s("u32)").end());
            },
            Operator::F64Const { bits } => {
                value = Some(Buf::lit("f64::from_bits(").n(*bits as u64).s("u64)").end());
            },
            Operator::RefNull { hty } => {
                value = if abstract_is_gc(*hty) || concrete_is_gc(*hty, type_kinds) {
                    Some(lit("GcRef::Null"))
                } else {
                    Some(lit("u32::MAX"))
                };
            },
            Operator::RefFunc { function_index } => {
                value = Some(Buf::num(*function_index as u64).s("u32").end());
            },
            Operator::End => {},
            _ => {
                proof {
                    lemma_init_fails(ops@, kinds, i + 1);
                }
                return Err(TranspileError::Unsupported(Buf::lit("global initializer: ")
                    .s(&ops[i].text).end()));
            },
        }
        i += 1;
    }
    assert(ops@.take(ops@.len() as int) =~= ops@);
    if broken {
        return Err(TranspileError::Malformed);
    }
    match value {
        Some(v) => Ok(v),
        None => Err(no_support("empty global initializer")),
    }
}

/// The offset of an active element segment, out of the bytes of its constant
/// expression.
pub fn const_expr_u32(bytes: &Vec<u8>) -> (r: Result<u32, TranspileError>)
    ensures
        exists|ops: Seq<Instr>, broken: bool| #[trigger]
            ops_read(const_spellings(bytes@), ops, broken) && same_result(
                r,
                offset_value(ops, broken),
            ),
{
    let (ops, broken) = decode_const(bytes);
    const_ops_u32(&ops, broken)
}

/// The initial value of a global as a Rust expression, out of the bytes of its
/// constant expression.
pub fn const_expr_to_rust(bytes: &Vec<u8>, type_kinds: &Vec<CompositeKind>) -> (r: Result<
    String,
    TranspileError,
>)
    ensures
        exists|ops: Seq<Instr>, broken: bool| #[trigger]
            ops_read(const_spellings(bytes@), ops, broken) && text_result(
                r,
                init_value(ops, broken, kinds_view(type_kinds@)),
            ),
{
    let (ops, broken) = decode_const(bytes);
    const_ops_to_rust(&ops, broken, type_kinds)
}

} // verus!
