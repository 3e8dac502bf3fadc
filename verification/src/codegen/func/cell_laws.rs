//! Loads and stores touch the bytes that they are meant for.

use vstd::prelude::*;

use crate::codegen::func::lowering::{load_rule, store_rule};
use crate::codegen::helpers::{base_lines, Helper};
use crate::ops::{LoadOp, StoreOp};
use crate::text::dec;

verus! {

/// A cell of memory as Rust sees it: the type of what its bytes hold, how many there
/// are, and the type of the operand.
pub struct CellV {
    pub holds: Seq<char>,
    pub bytes: nat,
    pub operand: Seq<char>,
}

/// A cell whose bytes hold the operand.
pub open spec fn full(ty: Seq<char>, bytes: nat) -> CellV {
    CellV { holds: ty, bytes, operand: ty }
}

/// A cell that is narrower than the operand.
pub open spec fn narrow(holds: Seq<char>, bytes: nat, operand: Seq<char>) -> CellV {
    CellV { holds, bytes, operand }
}

/// The cell that a scalar load of WebAssembly reads: the type says whether the bytes
/// are extended by their sign.
pub open spec fn loaded_cell(op: LoadOp) -> Option<CellV> {
    match op {
        LoadOp::I32Load | LoadOp::I32AtomicLoad => Some(full("i32"@, 4)),
        LoadOp::I32Load8U | LoadOp::I32AtomicLoad8U => Some(narrow("u8"@, 1, "i32"@)),
        LoadOp::I32Load8S => Some(narrow("i8"@, 1, "i32"@)),
        LoadOp::I32Load16U | LoadOp::I32AtomicLoad16U => Some(narrow("u16"@, 2, "i32"@)),
        LoadOp::I32Load16S => Some(narrow("i16"@, 2, "i32"@)),
        LoadOp::I64Load | LoadOp::I64AtomicLoad => Some(full("i64"@, 8)),
        LoadOp::F32Load => Some(full("f32"@, 4)),
        LoadOp::F64Load => Some(full("f64"@, 8)),
        LoadOp::I64Load8U | LoadOp::I64AtomicLoad8U => Some(narrow("u8"@, 1, "i64"@)),
        LoadOp::I64Load8S => Some(narrow("i8"@, 1, "i64"@)),
        LoadOp::I64Load16U | LoadOp::I64AtomicLoad16U => Some(narrow("u16"@, 2, "i64"@)),
        LoadOp::I64Load16S => Some(narrow("i16"@, 2, "i64"@)),
        LoadOp::I64Load32U | LoadOp::I64AtomicLoad32U => Some(narrow("u32"@, 4, "i64"@)),
        LoadOp::I64Load32S => Some(narrow("i32"@, 4, "i64"@)),
        _ => None,
    }
}

/// The cell that a scalar store of WebAssembly writes: the low bytes of the operand.
pub open spec fn stored_cell(op: StoreOp) -> Option<CellV> {
    match op {
        StoreOp::I32Store | StoreOp::I32AtomicStore => Some(full("i32"@, 4)),
        StoreOp::I32Store8 | StoreOp::I32AtomicStore8 => Some(narrow("u8"@, 1, "i32"@)),
        StoreOp::I32Store16 | StoreOp::I32AtomicStore16 => Some(narrow("u16"@, 2, "i32"@)),
        StoreOp::I64Store | StoreOp::I64AtomicStore => Some(full("i64"@, 8)),
        StoreOp::F32Store => Some(full("f32"@, 4)),
        StoreOp::F64Store => Some(full("f64"@, 8)),
        StoreOp::I64Store8 | StoreOp::I64AtomicStore8 => Some(narrow("u8"@, 1, "i64"@)),
        StoreOp::I64Store16 | StoreOp::I64AtomicStore16 => Some(narrow("u16"@, 2, "i64"@)),
        StoreOp::I64Store32 | StoreOp::I64AtomicStore32 => Some(narrow("u32"@, 4, "i64"@)),
        StoreOp::V128Store => None,
    }
}

/// Where the bytes of a cell are: at `a`, or from `a` on.
pub open spec fn place(c: CellV) -> Seq<char> {
    if c.bytes == 1 {
        "[a]"@
    } else {
        "[a..a + "@ + dec(c.bytes) + "]"@
    }
}

/// What a cast from one type to another looks like.
pub open spec fn cast(from: Seq<char>, to: Seq<char>) -> Seq<char> {
    if from == to {
        Seq::empty()
    } else {
        " as "@ + to
    }
}

/// The line that makes the address of the operand and the static offset, both unsigned.
pub open spec fn address_line() -> Seq<char> {
    "    let a = addr as u32 as usize + offset as usize;"@
}

/// The line that reads a cell.
pub open spec fn reading_line(c: CellV) -> Seq<char> {
    if c.bytes == 1 {
        "    self.mem()"@ + place(c) + cast("u8"@, c.holds) + cast(c.holds, c.operand)
    } else {
        "    "@ + c.holds + "::from_le_bytes(self.mem()"@ + place(c) + ".try_into().unwrap())"@
            + cast(c.holds, c.operand)
    }
}

/// The line that writes a cell.
pub open spec fn writing_line(c: CellV) -> Seq<char> {
    if c.bytes == 1 {
        "    self.mem_mut()"@ + place(c) + " = value"@ + cast(c.operand, c.holds) + ";"@
    } else if c.holds == c.operand {
        "    self.mem_mut()"@ + place(c) + ".copy_from_slice(&value.to_le_bytes());"@
    } else {
        "    self.mem_mut()"@ + place(c) + ".copy_from_slice(&(value"@ + cast(c.operand, c.holds)
            + ").to_le_bytes());"@
    }
}

/// Whether the lines of a method compute the address and do nothing but `line`.
pub open spec fn does_only(lines: Seq<Seq<char>>, line: Seq<char>) -> bool {
    &&& lines.len() == 4
    &&& lines[1] == address_line()
    &&& lines[2] == line
    &&& lines[3] == "}"@
}

proof fn lemma_digits()
    ensures
        dec(2) == "2"@,
        dec(4) == "4"@,
        dec(8) == "8"@,
{
    reveal_strlit("2");
    reveal_strlit("4");
    reveal_strlit("8");
    assert(dec(2) =~= "2"@);
    assert(dec(4) =~= "4"@);
    assert(dec(8) =~= "8"@);
}

proof fn lemma_types()
    ensures
        "u8"@ != "i8"@,
        "u8"@ != "i32"@ && "u8"@ != "i64"@,
        "i8"@ != "i32"@ && "i8"@ != "i64"@,
        "u16"@ != "i32"@ && "u16"@ != "i64"@,
        "i16"@ != "i32"@ && "i16"@ != "i64"@,
        "u32"@ != "i64"@ && "i32"@ != "i64"@ && "u32"@ != "i32"@,
{
    reveal_strlit("u8");
    reveal_strlit("i8");
    reveal_strlit("u16");
    reveal_strlit("i16");
    reveal_strlit("u32");
    reveal_strlit("i32");
    reveal_strlit("i64");
    assert("u8"@[0] == 'u' && "i8"@[0] == 'i' && "u8"@.len() == 2 && "i8"@.len() == 2);
    assert("u16"@[0] == 'u' && "u32"@[0] == 'u' && "i16"@[1] == '1' && "i32"@[1] == '3');
    assert("i64"@[1] == '6' && "i32"@.len() == 3 && "i64"@.len() == 3 && "i32"@[0] == 'i');
    assert("i64"@[0] == 'i');
}

proof fn lemma_load_i32()
    ensures
        does_only(base_lines(Helper::LoadI32), reading_line(full("i32"@, 4))),
{
    lemma_digits();
    lemma_types();
    reveal_strlit("    i32::from_le_bytes(self.mem()[a..a + 4].try_into().unwrap())");
    reveal_strlit("i32");
    reveal_strlit(" as ");
    reveal_strlit("    ");
    reveal_strlit("[a..a + ");
    reveal_strlit("]");
    reveal_strlit("::from_le_bytes(self.mem()");
    reveal_strlit(".try_into().unwrap())");
    reveal_strlit("u8");
    reveal_strlit("4");
    let lines = base_lines(Helper::LoadI32);
    assert(lines[2] == "    i32::from_le_bytes(self.mem()[a..a + 4].try_into().unwrap())"@);
    assert(lines[2] =~= reading_line(full("i32"@, 4)));
}

proof fn lemma_load8_u()
    ensures
        does_only(base_lines(Helper::Load8U), reading_line(narrow("u8"@, 1, "i32"@))),
{
    lemma_digits();
    lemma_types();
    reveal_strlit("    self.mem()[a] as i32");
    reveal_strlit("u8");
    reveal_strlit("i32");
    reveal_strlit(" as ");
    reveal_strlit("[a]");
    reveal_strlit("    self.mem()");
    let lines = base_lines(Helper::Load8U);
    assert(lines[2] == "    self.mem()[a] as i32"@);
    assert(lines[2] =~= reading_line(narrow("u8"@, 1, "i32"@)));
}

proof fn lemma_load8_s()
    ensures
        does_only(base_lines(Helper::Load8S), reading_line(narrow("i8"@, 1, "i32"@))),
{
    lemma_digits();
    lemma_types();
    reveal_strlit("    self.mem()[a] as i8 as i32");
    reveal_strlit("i8");
    reveal_strlit("i32");
    reveal_strlit(" as ");
    reveal_strlit("[a]");
    reveal_strlit("    self.mem()");
    reveal_strlit("u8");
    let lines = base_lines(Helper::Load8S);
    assert(lines[2] == "    self.mem()[a] as i8 as i32"@);
    assert(lines[2] =~= reading_line(narrow("i8"@, 1, "i32"@)));
}

proof fn lemma_load16_u()
    ensures
        does_only(base_lines(Helper::Load16U), reading_line(narrow("u16"@, 2, "i32"@))),
{
    lemma_digits();
    lemma_types();
    reveal_strlit("    u16::from_le_bytes(self.mem()[a..a + 2].try_into().unwrap()) as i32");
    reveal_strlit("u16");
    reveal_strlit("i32");
    reveal_strlit(" as ");
    reveal_strlit("    ");
    reveal_strlit("[a..a + ");
    reveal_strlit("]");
    reveal_strlit("::from_le_bytes(self.mem()");
    reveal_strlit(".try_into().unwrap())");
    reveal_strlit("u8");
    reveal_strlit("2");
    let lines = base_lines(Helper::Load16U);
    assert(lines[2] == "    u16::from_le_bytes(self.mem()[a..a + 2].try_into().unwrap()) as i32"@);
    assert(lines[2] =~= reading_line(narrow("u16"@, 2, "i32"@)));
}

proof fn lemma_load16_s()
    ensures
        does_only(base_lines(Helper::Load16S), reading_line(narrow("i16"@, 2, "i32"@))),
{
    lemma_digits();
    lemma_types();
    reveal_strlit("    i16::from_le_bytes(self.mem()[a..a + 2].try_into().unwrap()) as i32");
    reveal_strlit("i16");
    reveal_strlit("i32");
    reveal_strlit(" as ");
    reveal_strlit("    ");
    reveal_strlit("[a..a + ");
    reveal_strlit("]");
    reveal_strlit("::from_le_bytes(self.mem()");
    reveal_strlit(".try_into().unwrap())");
    reveal_strlit("u8");
    reveal_strlit("2");
    let lines = base_lines(Helper::Load16S);
    assert(lines[2] == "    i16::from_le_bytes(self.mem()[a..a + 2].try_into().unwrap()) as i32"@);
    assert(lines[2] =~= reading_line(narrow("i16"@, 2, "i32"@)));
}

proof fn lemma_load_i64()
    ensures
        does_only(base_lines(Helper::LoadI64), reading_line(full("i64"@, 8))),
{
    lemma_digits();
    lemma_types();
    reveal_strlit("    i64::from_le_bytes(self.mem()[a..a + 8].try_into().unwrap())");
    reveal_strlit("i64");
    reveal_strlit(" as ");
    reveal_strlit("    ");
    reveal_strlit("[a..a + ");
    reveal_strlit("]");
    reveal_strlit("::from_le_bytes(self.mem()");
    reveal_strlit(".try_into().unwrap())");
    reveal_strlit("u8");
    reveal_strlit("8");
    let lines = base_lines(Helper::LoadI64);
    assert(lines[2] == "    i64::from_le_bytes(self.mem()[a..a + 8].try_into().unwrap())"@);
    assert(lines[2] =~= reading_line(full("i64"@, 8)));
}

proof fn lemma_load_f32()
    ensures
        does_only(base_lines(Helper::LoadF32), reading_line(full("f32"@, 4))),
{
    lemma_digits();
    lemma_types();
    reveal_strlit("    f32::from_le_bytes(self.mem()[a..a + 4].try_into().unwrap())");
    reveal_strlit("f32");
    reveal_strlit(" as ");
    reveal_strlit("    ");
    reveal_strlit("[a..a + ");
    reveal_strlit("]");
    reveal_strlit("::from_le_bytes(self.mem()");
    reveal_strlit(".try_into().unwrap())");
    reveal_strlit("u8");
    reveal_strlit("4");
    let lines = base_lines(Helper::LoadF32);
    assert(lines[2] == "    f32::from_le_bytes(self.mem()[a..a + 4].try_into().unwrap())"@);
    assert(lines[2] =~= reading_line(full("f32"@, 4)));
}

proof fn lemma_load_f64()
    ensures
        does_only(base_lines(Helper::LoadF64), reading_line(full("f64"@, 8))),
{
    lemma_digits();
    lemma_types();
    reveal_strlit("    f64::from_le_bytes(self.mem()[a..a + 8].try_into().unwrap())");
    reveal_strlit("f64");
    reveal_strlit(" as ");
    reveal_strlit("    ");
    reveal_strlit("[a..a + ");
    reveal_strlit("]");
    reveal_strlit("::from_le_bytes(self.mem()");
    reveal_strlit(".try_into().unwrap())");
    reveal_strlit("u8");
    reveal_strlit("8");
    let lines = base_lines(Helper::LoadF64);
    assert(lines[2] == "    f64::from_le_bytes(self.mem()[a..a + 8].try_into().unwrap())"@);
    assert(lines[2] =~= reading_line(full("f64"@, 8)));
}

proof fn lemma_load8_ui64()
    ensures
        does_only(base_lines(Helper::Load8UI64), reading_line(narrow("u8"@, 1, "i64"@))),
{
    lemma_digits();
    lemma_types();
    reveal_strlit("    self.mem()[a] as i64");
    reveal_strlit("u8");
    reveal_strlit("i64");
    reveal_strlit(" as ");
    reveal_strlit("[a]");
    reveal_strlit("    self.mem()");
    let lines = base_lines(Helper::Load8UI64);
    assert(lines[2] == "    self.mem()[a] as i64"@);
    assert(lines[2] =~= reading_line(narrow("u8"@, 1, "i64"@)));
}

proof fn lemma_load8_si64()
    ensures
        does_only(base_lines(Helper::Load8SI64), reading_line(narrow("i8"@, 1, "i64"@))),
{
    lemma_digits();
    lemma_types();
    reveal_strlit("    self.mem()[a] as i8 as i64");
    reveal_strlit("i8");
    reveal_strlit("i64");
    reveal_strlit(" as ");
    reveal_strlit("[a]");
    reveal_strlit("    self.mem()");
    reveal_strlit("u8");
    let lines = base_lines(Helper::Load8SI64);
    assert(lines[2] == "    self.mem()[a] as i8 as i64"@);
    assert(lines[2] =~= reading_line(narrow("i8"@, 1, "i64"@)));
}

proof fn lemma_load16_ui64()
    ensures
        does_only(base_lines(Helper::Load16UI64), reading_line(narrow("u16"@, 2, "i64"@))),
{
    lemma_digits();
    lemma_types();
    reveal_strlit("    u16::from_le_bytes(self.mem()[a..a + 2].try_into().unwrap()) as i64");
    reveal_strlit("u16");
    reveal_strlit("i64");
    reveal_strlit(" as ");
    reveal_strlit("    ");
    reveal_strlit("[a..a + ");
    reveal_strlit("]");
    reveal_strlit("::from_le_bytes(self.mem()");
    reveal_strlit(".try_into().unwrap())");
    reveal_strlit("u8");
    reveal_strlit("2");
    let lines = base_lines(Helper::Load16UI64);
    assert(lines[2] == "    u16::from_le_bytes(self.mem()[a..a + 2].try_into().unwrap()) as i64"@);
    assert(lines[2] =~= reading_line(narrow("u16"@, 2, "i64"@)));
}

proof fn lemma_load16_si64()
    ensures
        does_only(base_lines(Helper::Load16SI64), reading_line(narrow("i16"@, 2, "i64"@))),
{
    lemma_digits();
    lemma_types();
    reveal_strlit("    i16::from_le_bytes(self.mem()[a..a + 2].try_into().unwrap()) as i64");
    reveal_strlit("i16");
    reveal_strlit("i64");
    reveal_strlit(" as ");
    reveal_strlit("    ");
    reveal_strlit("[a..a + ");
    reveal_strlit("]");
    reveal_strlit("::from_le_bytes(self.mem()");
    reveal_strlit(".try_into().unwrap())");
    reveal_strlit("u8");
    reveal_strlit("2");
    let lines = base_lines(Helper::Load16SI64);
    assert(lines[2] == "    i16::from_le_bytes(self.mem()[a..a + 2].try_into().unwrap()) as i64"@);
    assert(lines[2] =~= reading_line(narrow("i16"@, 2, "i64"@)));
}

proof fn lemma_load32_ui64()
    ensures
        does_only(base_lines(Helper::Load32UI64), reading_line(narrow("u32"@, 4, "i64"@))),
{
    lemma_digits();
    lemma_types();
    reveal_strlit("    u32::from_le_bytes(self.mem()[a..a + 4].try_into().unwrap()) as i64");
    reveal_strlit("u32");
    reveal_strlit("i64");
    reveal_strlit(" as ");
    reveal_strlit("    ");
    reveal_strlit("[a..a + ");
    reveal_strlit("]");
    reveal_strlit("::from_le_bytes(self.mem()");
    reveal_strlit(".try_into().unwrap())");
    reveal_strlit("u8");
    reveal_strlit("4");
    let lines = base_lines(Helper::Load32UI64);
    assert(lines[2] == "    u32::from_le_bytes(self.mem()[a..a + 4].try_into().unwrap()) as i64"@);
    assert(lines[2] =~= reading_line(narrow("u32"@, 4, "i64"@)));
}

proof fn lemma_load32_si64()
    ensures
        does_only(base_lines(Helper::Load32SI64), reading_line(narrow("i32"@, 4, "i64"@))),
{
    lemma_digits();
    lemma_types();
    reveal_strlit("    i32::from_le_bytes(self.mem()[a..a + 4].try_into().unwrap()) as i64");
    reveal_strlit("i32");
    reveal_strlit("i64");
    reveal_strlit(" as ");
    reveal_strlit("    ");
    reveal_strlit("[a..a + ");
    reveal_strlit("]");
    reveal_strlit("::from_le_bytes(self.mem()");
    reveal_strlit(".try_into().unwrap())");
    reveal_strlit("u8");
    reveal_strlit("4");
    let lines = base_lines(Helper::Load32SI64);
    assert(lines[2] == "    i32::from_le_bytes(self.mem()[a..a + 4].try_into().unwrap()) as i64"@);
    assert(lines[2] =~= reading_line(narrow("i32"@, 4, "i64"@)));
}

proof fn lemma_store_i32()
    ensures
        does_only(base_lines(Helper::StoreI32), writing_line(full("i32"@, 4))),
{
    lemma_digits();
    lemma_types();
    reveal_strlit("    self.mem_mut()[a..a + 4].copy_from_slice(&value.to_le_bytes());");
    reveal_strlit("i32");
    reveal_strlit(" as ");
    reveal_strlit("[a..a + ");
    reveal_strlit("]");
    reveal_strlit("    self.mem_mut()");
    reveal_strlit(".copy_from_slice(&value.to_le_bytes());");
    reveal_strlit("4");
    let lines = base_lines(Helper::StoreI32);
    assert(lines[2] == "    self.mem_mut()[a..a + 4].copy_from_slice(&value.to_le_bytes());"@);
    assert(lines[2] =~= writing_line(full("i32"@, 4)));
}

proof fn lemma_store8()
    ensures
        does_only(base_lines(Helper::Store8), writing_line(narrow("u8"@, 1, "i32"@))),
{
    lemma_digits();
    lemma_types();
    reveal_strlit("    self.mem_mut()[a] = value as u8;");
    reveal_strlit("u8");
    reveal_strlit("i32");
    reveal_strlit(" as ");
    reveal_strlit("[a]");
    reveal_strlit("    self.mem_mut()");
    reveal_strlit(" = value");
    reveal_strlit(";");
    let lines = base_lines(Helper::Store8);
    assert(lines[2] == "    self.mem_mut()[a] = value as u8;"@);
    assert(lines[2] =~= writing_line(narrow("u8"@, 1, "i32"@)));
}

proof fn lemma_store16()
    ensures
        does_only(base_lines(Helper::Store16), writing_line(narrow("u16"@, 2, "i32"@))),
{
    lemma_digits();
    lemma_types();
    reveal_strlit("    self.mem_mut()[a..a + 2].copy_from_slice(&(value as u16).to_le_bytes());");
    reveal_strlit("u16");
    reveal_strlit("i32");
    reveal_strlit(" as ");
    reveal_strlit("[a..a + ");
    reveal_strlit("]");
    reveal_strlit("    self.mem_mut()");
    reveal_strlit(".copy_from_slice(&(value");
    reveal_strlit(").to_le_bytes());");
    reveal_strlit("2");
    let lines = base_lines(Helper::Store16);
    assert(lines[2] == "    self.mem_mut()[a..a + 2].copy_from_slice(&(value as u16).to_le_bytes());"@);
    assert(lines[2] =~= writing_line(narrow("u16"@, 2, "i32"@)));
}

proof fn lemma_store_i64()
    ensures
        does_only(base_lines(Helper::StoreI64), writing_line(full("i64"@, 8))),
{
    lemma_digits();
    lemma_types();
    reveal_strlit("    self.mem_mut()[a..a + 8].copy_from_slice(&value.to_le_bytes());");
    reveal_strlit("i64");
    reveal_strlit(" as ");
    reveal_strlit("[a..a + ");
    reveal_strlit("]");
    reveal_strlit("    self.mem_mut()");
    reveal_strlit(".copy_from_slice(&value.to_le_bytes());");
    reveal_strlit("8");
    let lines = base_lines(Helper::StoreI64);
    assert(lines[2] == "    self.mem_mut()[a..a + 8].copy_from_slice(&value.to_le_bytes());"@);
    assert(lines[2] =~= writing_line(full("i64"@, 8)));
}

proof fn lemma_store_f32()
    ensures
        does_only(base_lines(Helper::StoreF32), writing_line(full("f32"@, 4))),
{
    lemma_digits();
    lemma_types();
    reveal_strlit("    self.mem_mut()[a..a + 4].copy_from_slice(&value.to_le_bytes());");
    reveal_strlit("f32");
    reveal_strlit(" as ");
    reveal_strlit("[a..a + ");
    reveal_strlit("]");
    reveal_strlit("    self.mem_mut()");
    reveal_strlit(".copy_from_slice(&value.to_le_bytes());");
    reveal_strlit("4");
    let lines = base_lines(Helper::StoreF32);
    assert(lines[2] == "    self.mem_mut()[a..a + 4].copy_from_slice(&value.to_le_bytes());"@);
    assert(lines[2] =~= writing_line(full("f32"@, 4)));
}

proof fn lemma_store_f64()
    ensures
        does_only(base_lines(Helper::StoreF64), writing_line(full("f64"@, 8))),
{
    lemma_digits();
    lemma_types();
    reveal_strlit("    self.mem_mut()[a..a + 8].copy_from_slice(&value.to_le_bytes());");
    reveal_strlit("f64");
    reveal_strlit(" as ");
    reveal_strlit("[a..a + ");
    reveal_strlit("]");
    reveal_strlit("    self.mem_mut()");
    reveal_strlit(".copy_from_slice(&value.to_le_bytes());");
    reveal_strlit("8");
    let lines = base_lines(Helper::StoreF64);
    assert(lines[2] == "    self.mem_mut()[a..a + 8].copy_from_slice(&value.to_le_bytes());"@);
    assert(lines[2] =~= writing_line(full("f64"@, 8)));
}

proof fn lemma_store8_i64()
    ensures
        does_only(base_lines(Helper::Store8I64), writing_line(narrow("u8"@, 1, "i64"@))),
{
    lemma_digits();
    lemma_types();
    reveal_strlit("    self.mem_mut()[a] = value as u8;");
    reveal_strlit("u8");
    reveal_strlit("i64");
    reveal_strlit(" as ");
    reveal_strlit("[a]");
    reveal_strlit("    self.mem_mut()");
    reveal_strlit(" = value");
    reveal_strlit(";");
    let lines = base_lines(Helper::Store8I64);
    assert(lines[2] == "    self.mem_mut()[a] = value as u8;"@);
    assert(lines[2] =~= writing_line(narrow("u8"@, 1, "i64"@)));
}

proof fn lemma_store16_i64()
    ensures
        does_only(base_lines(Helper::Store16I64), writing_line(narrow("u16"@, 2, "i64"@))),
{
    lemma_digits();
    lemma_types();
    reveal_strlit("    self.mem_mut()[a..a + 2].copy_from_slice(&(value as u16).to_le_bytes());");
    reveal_strlit("u16");
    reveal_strlit("i64");
    reveal_strlit(" as ");
    reveal_strlit("[a..a + ");
    reveal_strlit("]");
    reveal_strlit("    self.mem_mut()");
    reveal_strlit(".copy_from_slice(&(value");
    reveal_strlit(").to_le_bytes());");
    reveal_strlit("2");
    let lines = base_lines(Helper::Store16I64);
    assert(lines[2] == "    self.mem_mut()[a..a + 2].copy_from_slice(&(value as u16).to_le_bytes());"@);
    assert(lines[2] =~= writing_line(narrow("u16"@, 2, "i64"@)));
}

proof fn lemma_store32_i64()
    ensures
        does_only(base_lines(Helper::Store32I64), writing_line(narrow("u32"@, 4, "i64"@))),
{
    lemma_digits();
    lemma_types();
    reveal_strlit("    self.mem_mut()[a..a + 4].copy_from_slice(&(value as u32).to_le_bytes());");
    reveal_strlit("u32");
    reveal_strlit("i64");
    reveal_strlit(" as ");
    reveal_strlit("[a..a + ");
    reveal_strlit("]");
    reveal_strlit("    self.mem_mut()");
    reveal_strlit(".copy_from_slice(&(value");
    reveal_strlit(").to_le_bytes());");
    reveal_strlit("4");
    let lines = base_lines(Helper::Store32I64);
    assert(lines[2] == "    self.mem_mut()[a..a + 4].copy_from_slice(&(value as u32).to_le_bytes());"@);
    assert(lines[2] =~= writing_line(narrow("u32"@, 4, "i64"@)));
}

/// A scalar load reads the bytes of its cell, from the address on and the lowest first,
/// as a number of the cell's type, which it extends to the operand's; and nothing else.
pub proof fn law_scalar_loads_read_their_cell(op: LoadOp, c: CellV)
    requires
        loaded_cell(op) == Some(c),
    ensures
        does_only(base_lines(load_rule(op).0), reading_line(c)),
{
    match load_rule(op).0 {
        Helper::LoadI32 => lemma_load_i32(),
        Helper::Load8U => lemma_load8_u(),
        Helper::Load8S => lemma_load8_s(),
        Helper::Load16U => lemma_load16_u(),
        Helper::Load16S => lemma_load16_s(),
        Helper::LoadI64 => lemma_load_i64(),
        Helper::LoadF32 => lemma_load_f32(),
        Helper::LoadF64 => lemma_load_f64(),
        Helper::Load8UI64 => lemma_load8_ui64(),
        Helper::Load8SI64 => lemma_load8_si64(),
        Helper::Load16UI64 => lemma_load16_ui64(),
        Helper::Load16SI64 => lemma_load16_si64(),
        Helper::Load32UI64 => lemma_load32_ui64(),
        Helper::Load32SI64 => lemma_load32_si64(),
        _ => {},
    }
}

/// A scalar store writes the low bytes of its operand to its cell, from the address on
/// and the lowest first; and nothing else.
pub proof fn law_scalar_stores_write_their_cell(op: StoreOp, c: CellV)
    requires
        stored_cell(op) == Some(c),
    ensures
        does_only(base_lines(store_rule(op)), writing_line(c)),
{
    match store_rule(op) {
        Helper::StoreI32 => lemma_store_i32(),
        Helper::Store8 => lemma_store8(),
        Helper::Store16 => lemma_store16(),
        Helper::StoreI64 => lemma_store_i64(),
        Helper::StoreF32 => lemma_store_f32(),
        Helper::StoreF64 => lemma_store_f64(),
        Helper::Store8I64 => lemma_store8_i64(),
        Helper::Store16I64 => lemma_store16_i64(),
        Helper::Store32I64 => lemma_store32_i64(),
        _ => {},
    }
}

} // verus!
