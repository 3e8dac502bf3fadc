//! Literals and fixed pieces of text that all parts of the generator share.

use vstd::prelude::*;

use crate::error::{no_support, same_result, text_result, unsupported, FailV, TranspileError};
use crate::text::{dec, lit, push_dec, signed, signed_dec, texts, Buf, Lines};
use crate::wasm::{MemArg, ValType};

verus! {

/// The lint-suppression attribute prefixed to generated functions/impls.
pub const ALLOW: &'static str = "#[allow(dead_code, unused_variables, unused_assignments, unused_mut, unused_parens)]";

/// The module-scope type name carrying a thrown wasm exception's tag and its
/// (bit-encoded) payload values.
pub const EXC_TYPE: &'static str = "Wasm2RsException";

/// The module-scope definition of [`EXC_TYPE`], emitted once when any function
/// uses exception handling. A thrown exception is `panic_any`-ed as this type;
/// each payload value is bit-encoded into a `u64` so one field carries any mix
/// of numeric types.
pub const EXC_DEF: &'static str = "#[allow(dead_code)]
struct Wasm2RsException {
    tag: u32,
    values: Vec<u64>,
}";

/// The managed value model for heap-allocated `struct`/`array` objects. Every
/// managed object — struct or array alike — is an `Rc<RefCell<Vec<GcSlot>>>`: a
/// struct's slots are its fields in declaration order, an array's slots are its
/// elements. `GcRef::Null` is the null reference. Reference cycles leak, since
/// there is no tracing collector. Emitted at module scope only when the module
/// needs it.
pub const GCREF_DEF: &'static str = "#[derive(Clone)]
#[allow(dead_code)]
pub enum GcRef {
    Null,
    I31(i32),
    Obj { ty: u32, slots: std::rc::Rc<std::cell::RefCell<Vec<GcSlot>>> },
}

#[derive(Clone)]
#[allow(dead_code)]
pub enum GcSlot {
    I32(i32),
    I64(i64),
    F32(f32),
    F64(f64),
    V128(u128),
    Ref(GcRef),
    Func(u32),
}

#[allow(dead_code)]
impl GcRef {
    fn obj(&self) -> std::rc::Rc<std::cell::RefCell<Vec<GcSlot>>> {
        match self {
            GcRef::Obj { slots, .. } => slots.clone(),
            GcRef::Null | GcRef::I31(_) => panic!(\"null reference\"),
        }
    }
}";

/// An exception payload of type `ty`, spelled by `expr`, as the `u64` that the
/// exception carries.
pub open spec fn encoded_exc(ty: ValType, expr: Seq<char>) -> Result<Seq<char>, FailV> {
    match ty {
        ValType::I32 => Ok(("("@ + expr + ") as u32 as u64"@)),
        ValType::I64 => Ok(("("@ + expr + ") as u64"@)),
        ValType::F32 => Ok(("("@ + expr + ").to_bits() as u64"@)),
        ValType::F64 => Ok(("("@ + expr + ").to_bits()"@)),
        ValType::Ref(_) => Err(unsupported("exception payload with a reference type"@)),
        ValType::V128 => Err(unsupported("exception payload with a v128 value"@)),
    }
}

/// The operand of type `ty` out of the `u64` that an exception carries.
pub open spec fn decoded_exc(ty: ValType, expr: Seq<char>) -> Result<Seq<char>, FailV> {
    match ty {
        ValType::I32 => Ok((expr + " as u32 as i32"@)),
        ValType::I64 => Ok((expr + " as i64"@)),
        ValType::F32 => Ok(("f32::from_bits("@ + expr + " as u32)"@)),
        ValType::F64 => Ok(("f64::from_bits("@ + expr + ")"@)),
        ValType::Ref(_) => Err(unsupported("exception payload with a reference type"@)),
        ValType::V128 => Err(unsupported("exception payload with a v128 value"@)),
    }
}

/// The Rust expression bit-encoding a payload operand of type `ty` (given as the
/// expression `expr`) into the `u64` stored in an exception's `values`.
pub fn encode_exc_value(ty: ValType, expr: &str) -> (r: Result<String, TranspileError>)
    ensures
        text_result(r, encoded_exc(ty, expr@)),
{
    match ty {
        ValType::I32 => Ok(Buf::lit("(").s(expr).s(") as u32 as u64").end()),
        ValType::I64 => Ok(Buf::lit("(").s(expr).s(") as u64").end()),
        ValType::F32 => Ok(Buf::lit("(").s(expr).s(").to_bits() as u64").end()),
        ValType::F64 => Ok(Buf::lit("(").s(expr).s(").to_bits()").end()),
        ValType::Ref(_) => Err(no_support("exception payload with a reference type")),
        ValType::V128 => Err(no_support("exception payload with a v128 value")),
    }
}

/// The Rust expression decoding a `u64` (given as `expr`) from an exception's
/// `values` back into an operand of type `ty`, inverting [`encode_exc_value`].
pub fn decode_exc_value(ty: ValType, expr: &str) -> (r: Result<String, TranspileError>)
    ensures
        text_result(r, decoded_exc(ty, expr@)),
{
    match ty {
        ValType::I32 => Ok(Buf::lit(expr).s(" as u32 as i32").end()),
        ValType::I64 => Ok(Buf::lit(expr).s(" as i64").end()),
        ValType::F32 => Ok(Buf::lit("f32::from_bits(").s(expr).s(" as u32)").end()),
        ValType::F64 => Ok(Buf::lit("f64::from_bits(").s(expr).s(")").end()),
        ValType::Ref(_) => Err(no_support("exception payload with a reference type")),
        ValType::V128 => Err(no_support("exception payload with a v128 value")),
    }
}

/// The two directions of the exception encoding agree on what they support: a
/// payload can be decoded exactly when it can be encoded.
pub proof fn law_exc_values_round(ty: ValType, a: Seq<char>, b: Seq<char>)
    ensures
        encoded_exc(ty, a) is Ok <==> decoded_exc(ty, b) is Ok,
        encoded_exc(ty, a) is Err ==> encoded_exc(ty, a)->Err_0 == decoded_exc(ty, b)->Err_0,
{
}

/// The offset of a memory access, when it fits 32-bit memory.
pub open spec fn offset_of(memarg: MemArg) -> Result<u32, FailV> {
    if memarg.offset <= u32::MAX {
        Ok(memarg.offset as u32)
    } else {
        Err(unsupported("memory offset too large"@))
    }
}

/// The offset field of a memory access, as a `u32` (32-bit memory only).
pub fn memarg_offset(memarg: MemArg) -> (r: Result<u32, TranspileError>)
    ensures
        same_result(r, offset_of(memarg)),
{
    if memarg.offset <= u32::MAX as u64 {
        Ok(memarg.offset as u32)
    } else {
        Err(no_support("memory offset too large"))
    }
}

/// `i` as a 32-bit index.
pub open spec fn index32(i: int) -> Result<u32, FailV> {
    if 0 <= i <= u32::MAX {
        Ok(i as u32)
    } else {
        Err(unsupported("index too large"@))
    }
}

/// A position as a `u32` index.
pub fn index_u32(i: usize) -> (r: Result<u32, TranspileError>)
    ensures
        same_result(r, index32(i as int)),
{
    if i <= u32::MAX as usize {
        Ok(i as u32)
    } else {
        Err(no_support("index too large"))
    }
}

/// An `i32` constant as a Rust expression.
pub open spec fn i32_text(value: i32) -> Seq<char> {
    if value == i32::MIN {
        "i32::MIN"@
    } else {
        (signed_dec(value as int) + "i32"@)
    }
}

/// An `i64` constant as a Rust expression.
pub open spec fn i64_text(value: i64) -> Seq<char> {
    if value == i64::MIN {
        "i64::MIN"@
    } else {
        (signed_dec(value as int) + "i64"@)
    }
}

/// Render an `i32` constant as a valid Rust expression. `i32::MIN` cannot be
/// written as the literal `-2147483648i32` (Rust parses that as negation of the
/// out-of-range literal `2147483648i32`), so it uses the associated constant.
pub fn i32_literal(value: i32) -> (r: String)
    ensures
        r@ == i32_text(value),
{
    if value == i32::MIN {
        lit("i32::MIN")
    } else {
        Buf::lit(&signed(value as i64)).s("i32").end()
    }
}

/// Render an `i64` constant as a valid Rust expression.
pub fn i64_literal(value: i64) -> (r: String)
    ensures
        r@ == i64_text(value),
{
    if value == i64::MIN {
        lit("i64::MIN")
    } else {
        Buf::lit(&signed(value)).s("i64").end()
    }
}

/// Bytes as the body of a Rust array, a line break before every 32nd byte and a
/// space before the others.
pub open spec fn bytes_text(bytes: Seq<u8>) -> Seq<char>
    decreases bytes.len(),
{
    if bytes.len() == 0 {
        Seq::empty()
    } else {
        bytes_text(bytes.drop_last()) + (if (bytes.len() - 1) % 32 == 0 {
            "\n"@
        } else {
            " "@
        }) + dec(bytes.last() as nat) + "u8,"@
    }
}

/// Render bytes as a comma-separated list of `u8` literals (a Rust array body).
///
/// The list is broken onto a new line every 32 bytes: a large data segment would
/// otherwise render as one multi-megabyte line that overflows rustc's parser. The
/// embedded newlines sit inside the `[ ... ]` wrapper at the call site, producing
/// an ordinary multi-line array literal.
pub fn byte_array_literal(bytes: &Vec<u8>) -> (r: String)
    ensures
        r@ == bytes_text(bytes@),
{
    let mut out = String::new();
    let mut i: usize = 0;
    while i < bytes.len()
        invariant
            i <= bytes@.len(),
            out@ == bytes_text(bytes@.take(i as int)),
        decreases bytes@.len() - i,
    {
        assert(bytes@.take(i + 1).drop_last() =~= bytes@.take(i as int));
        out.append(
            if i % 32 == 0 {
                "\n"
            } else {
                " "
            },
        );
        push_dec(&mut out, bytes[i] as u128);
        out.append("u8,");
        i += 1;
    }
    assert(bytes@.take(bytes@.len() as int) =~= bytes@);
    out
}

/// A line indented by four spaces; an empty line stays empty.
pub open spec fn indented_line(line: Seq<char>) -> Seq<char> {
    if line.len() == 0 {
        line
    } else {
        "    "@ + line
    }
}

/// Lines indented by four spaces.
pub open spec fn indented(lines: Seq<Seq<char>>) -> Seq<Seq<char>> {
    lines.map_values(|l: Seq<char>| indented_line(l))
}

/// Indent each non-empty line by four spaces.
pub fn indent(lines: &Vec<String>) -> (r: Vec<String>)
    ensures
        texts(r@) == indented(texts(lines@)),
{
    let ghost all = texts(lines@);
    let mut out = Lines::new();
    let mut i: usize = 0;
    while i < lines.len()
        invariant
            i <= lines@.len(),
            all == texts(lines@),
            out@ =~= indented(all).take(i as int),
        decreases lines@.len() - i,
    {
        if lines[i].as_str().is_empty() {
            out.add(lines[i].clone());
        } else {
            out.add(Buf::lit("    ").s(&lines[i]).end());
        }
        i += 1;
    }
    assert(out@ =~= indented(all));
    out.v
}

} // verus!
