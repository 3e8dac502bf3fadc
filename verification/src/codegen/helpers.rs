//! The memory-access helper methods that generated code calls.

use vstd::prelude::*;

use crate::codegen::scan::{
    has_text, holds_text, replace_all, replace_first, replaced_all, replaced_first,
};
use crate::text::{dec, lemma_push_to_set, lit, texts, Buf, Lines};

verus! {

/// A memory-access helper method emitted on the instance `impl` on demand.
#[derive(Clone, Copy, PartialEq, Eq, Structural, Debug)]
pub enum Helper {
    LoadI32,
    Load8U,
    Load8S,
    Load16U,
    Load16S,
    LoadI64,
    LoadF32,
    LoadF64,
    Load8UI64,
    Load8SI64,
    Load16UI64,
    Load16SI64,
    Load32UI64,
    Load32SI64,
    StoreI32,
    Store8,
    Store16,
    StoreI64,
    StoreF32,
    StoreF64,
    Store8I64,
    Store16I64,
    Store32I64,
    LoadV128,
    StoreV128,
    Load8Splat,
    Load16Splat,
    Load32Splat,
    Load64Splat,
    Load32Zero,
    Load64Zero,
    Load8x8S,
    Load8x8U,
    Load16x4S,
    Load16x4U,
    Load32x2S,
    Load32x2U,
    Load8Lane,
    Load16Lane,
    Load32Lane,
    Load64Lane,
    Store8Lane,
    Store16Lane,
    Store32Lane,
    Store64Lane,
    Grow,
    MemoryFill,
    MemoryCopy,
    TableCopy,
    TableFill,
}

/// The name of a helper for memory 0. The scalar load/store helpers are the
/// hottest methods in generated code, so their names are terse: `r*` reads
/// (loads), `w*` writes (stores). The prefix cannot collide with locals (`l`),
/// temporaries (`v`), globals (`g`), or functions (`func`).
pub open spec fn helper_text(helper: Helper) -> Seq<char> {
    match helper {
        Helper::LoadI32 => "r32"@,
        Helper::Load8U => "r8u"@,
        Helper::Load8S => "r8s"@,
        Helper::Load16U => "r16u"@,
        Helper::Load16S => "r16s"@,
        Helper::LoadI64 => "r64"@,
        Helper::LoadF32 => "rf32"@,
        Helper::LoadF64 => "rf64"@,
        Helper::Load8UI64 => "r8u64"@,
        Helper::Load8SI64 => "r8s64"@,
        Helper::Load16UI64 => "r16u64"@,
        Helper::Load16SI64 => "r16s64"@,
        Helper::Load32UI64 => "r32u64"@,
        Helper::Load32SI64 => "r32s64"@,
        Helper::StoreI32 => "w32"@,
        Helper::Store8 => "w8"@,
        Helper::Store16 => "w16"@,
        Helper::StoreI64 => "w64"@,
        Helper::StoreF32 => "wf32"@,
        Helper::StoreF64 => "wf64"@,
        Helper::Store8I64 => "w8_64"@,
        Helper::Store16I64 => "w16_64"@,
        Helper::Store32I64 => "w32_64"@,
        Helper::LoadV128 => "rv128"@,
        Helper::StoreV128 => "wv128"@,
        Helper::Load8Splat => "load8_splat"@,
        Helper::Load16Splat => "load16_splat"@,
        Helper::Load32Splat => "load32_splat"@,
        Helper::Load64Splat => "load64_splat"@,
        Helper::Load32Zero => "load32_zero"@,
        Helper::Load64Zero => "load64_zero"@,
        Helper::Load8x8S => "load8x8_s"@,
        Helper::Load8x8U => "load8x8_u"@,
        Helper::Load16x4S => "load16x4_s"@,
        Helper::Load16x4U => "load16x4_u"@,
        Helper::Load32x2S => "load32x2_s"@,
        Helper::Load32x2U => "load32x2_u"@,
        Helper::Load8Lane => "load8_lane"@,
        Helper::Load16Lane => "load16_lane"@,
        Helper::Load32Lane => "load32_lane"@,
        Helper::Load64Lane => "load64_lane"@,
        Helper::Store8Lane => "store8_lane"@,
        Helper::Store16Lane => "store16_lane"@,
        Helper::Store32Lane => "store32_lane"@,
        Helper::Store64Lane => "store64_lane"@,
        Helper::Grow => "memory_grow"@,
        Helper::MemoryFill => "memory_fill"@,
        Helper::MemoryCopy => "memory_copy"@,
        Helper::TableCopy => "table_copy"@,
        Helper::TableFill => "table_fill"@,
    }
}

/// The instance method name of `helper` for memory 0.
pub fn helper_name(helper: Helper) -> (r: &'static str)
    ensures
        r@ == helper_text(helper),
{
    match helper {
        Helper::LoadI32 => "r32",
        Helper::Load8U => "r8u",
        Helper::Load8S => "r8s",
        Helper::Load16U => "r16u",
        Helper::Load16S => "r16s",
        Helper::LoadI64 => "r64",
        Helper::LoadF32 => "rf32",
        Helper::LoadF64 => "rf64",
        Helper::Load8UI64 => "r8u64",
        Helper::Load8SI64 => "r8s64",
        Helper::Load16UI64 => "r16u64",
        Helper::Load16SI64 => "r16s64",
        Helper::Load32UI64 => "r32u64",
        Helper::Load32SI64 => "r32s64",
        Helper::StoreI32 => "w32",
        Helper::Store8 => "w8",
        Helper::Store16 => "w16",
        Helper::StoreI64 => "w64",
        Helper::StoreF32 => "wf32",
        Helper::StoreF64 => "wf64",
        Helper::Store8I64 => "w8_64",
        Helper::Store16I64 => "w16_64",
        Helper::Store32I64 => "w32_64",
        Helper::LoadV128 => "rv128",
        Helper::StoreV128 => "wv128",
        Helper::Load8Splat => "load8_splat",
        Helper::Load16Splat => "load16_splat",
        Helper::Load32Splat => "load32_splat",
        Helper::Load64Splat => "load64_splat",
        Helper::Load32Zero => "load32_zero",
        Helper::Load64Zero => "load64_zero",
        Helper::Load8x8S => "load8x8_s",
        Helper::Load8x8U => "load8x8_u",
        Helper::Load16x4S => "load16x4_s",
        Helper::Load16x4U => "load16x4_u",
        Helper::Load32x2S => "load32x2_s",
        Helper::Load32x2U => "load32x2_u",
        Helper::Load8Lane => "load8_lane",
        Helper::Load16Lane => "load16_lane",
        Helper::Load32Lane => "load32_lane",
        Helper::Load64Lane => "load64_lane",
        Helper::Store8Lane => "store8_lane",
        Helper::Store16Lane => "store16_lane",
        Helper::Store32Lane => "store32_lane",
        Helper::Store64Lane => "store64_lane",
        Helper::Grow => "memory_grow",
        Helper::MemoryFill => "memory_fill",
        Helper::MemoryCopy => "memory_copy",
        Helper::TableCopy => "table_copy",
        Helper::TableFill => "table_fill",
    }
}

/// No lines.
pub open spec fn no_lines() -> Seq<Seq<char>> {
    Seq::empty()
}

/// The memory-0 template of one helper method. A v128 load/store moves 16 bytes
/// to/from memory as a little-endian `u128`; `load*_splat` reads one element and
/// broadcasts it to every lane; `load*_zero` reads one into the low lane and
/// zeroes the rest; `load{8x8,16x4,32x2}_{s,u}` read eight bytes and widen each
/// source lane; `load*_lane`/`store*_lane` move one lane. Every access is
/// bounds-checked, so an out-of-range access panics (a wasm trap). Memory growth
/// past the wasm32 limit of 65536 pages fails, returning -1.
pub open spec fn base_lines(helper: Helper) -> Seq<Seq<char>> {
    match helper {
        Helper::LoadI32 => no_lines().push(
            "fn r32(&self, addr: i32, offset: u32) -> i32 {"@,
        ).push(
            "    let a = addr as u32 as usize + offset as usize;"@,
        ).push(
            "    i32::from_le_bytes(self.mem()[a..a + 4].try_into().unwrap())"@,
        ).push(
            "}"@,
        ),
        Helper::Load8U => no_lines().push(
            "fn r8u(&self, addr: i32, offset: u32) -> i32 {"@,
        ).push(
            "    let a = addr as u32 as usize + offset as usize;"@,
        ).push(
            "    self.mem()[a] as i32"@,
        ).push(
            "}"@,
        ),
        Helper::Load8S => no_lines().push(
            "fn r8s(&self, addr: i32, offset: u32) -> i32 {"@,
        ).push(
            "    let a = addr as u32 as usize + offset as usize;"@,
        ).push(
            "    self.mem()[a] as i8 as i32"@,
        ).push(
            "}"@,
        ),
        Helper::Load16U => no_lines().push(
            "fn r16u(&self, addr: i32, offset: u32) -> i32 {"@,
        ).push(
            "    let a = addr as u32 as usize + offset as usize;"@,
        ).push(
            "    u16::from_le_bytes(self.mem()[a..a + 2].try_into().unwrap()) as i32"@,
        ).push(
            "}"@,
        ),
        Helper::Load16S => no_lines().push(
            "fn r16s(&self, addr: i32, offset: u32) -> i32 {"@,
        ).push(
            "    let a = addr as u32 as usize + offset as usize;"@,
        ).push(
            "    i16::from_le_bytes(self.mem()[a..a + 2].try_into().unwrap()) as i32"@,
        ).push(
            "}"@,
        ),
        Helper::StoreI32 => no_lines().push(
            "fn w32(&mut self, addr: i32, offset: u32, value: i32) {"@,
        ).push(
            "    let a = addr as u32 as usize + offset as usize;"@,
        ).push(
            "    self.mem_mut()[a..a + 4].copy_from_slice(&value.to_le_bytes());"@,
        ).push(
            "}"@,
        ),
        Helper::Store8 => no_lines().push(
            "fn w8(&mut self, addr: i32, offset: u32, value: i32) {"@,
        ).push(
            "    let a = addr as u32 as usize + offset as usize;"@,
        ).push(
            "    self.mem_mut()[a] = value as u8;"@,
        ).push(
            "}"@,
        ),
        Helper::Store16 => no_lines().push(
            "fn w16(&mut self, addr: i32, offset: u32, value: i32) {"@,
        ).push(
            "    let a = addr as u32 as usize + offset as usize;"@,
        ).push(
            "    self.mem_mut()[a..a + 2].copy_from_slice(&(value as u16).to_le_bytes());"@,
        ).push(
            "}"@,
        ),
        Helper::LoadI64 => no_lines().push(
            "fn r64(&self, addr: i32, offset: u32) -> i64 {"@,
        ).push(
            "    let a = addr as u32 as usize + offset as usize;"@,
        ).push(
            "    i64::from_le_bytes(self.mem()[a..a + 8].try_into().unwrap())"@,
        ).push(
            "}"@,
        ),
        Helper::LoadF32 => no_lines().push(
            "fn rf32(&self, addr: i32, offset: u32) -> f32 {"@,
        ).push(
            "    let a = addr as u32 as usize + offset as usize;"@,
        ).push(
            "    f32::from_le_bytes(self.mem()[a..a + 4].try_into().unwrap())"@,
        ).push(
            "}"@,
        ),
        Helper::LoadF64 => no_lines().push(
            "fn rf64(&self, addr: i32, offset: u32) -> f64 {"@,
        ).push(
            "    let a = addr as u32 as usize + offset as usize;"@,
        ).push(
            "    f64::from_le_bytes(self.mem()[a..a + 8].try_into().unwrap())"@,
        ).push(
            "}"@,
        ),
        Helper::Load8UI64 => no_lines().push(
            "fn r8u64(&self, addr: i32, offset: u32) -> i64 {"@,
        ).push(
            "    let a = addr as u32 as usize + offset as usize;"@,
        ).push(
            "    self.mem()[a] as i64"@,
        ).push(
            "}"@,
        ),
        Helper::Load8SI64 => no_lines().push(
            "fn r8s64(&self, addr: i32, offset: u32) -> i64 {"@,
        ).push(
            "    let a = addr as u32 as usize + offset as usize;"@,
        ).push(
            "    self.mem()[a] as i8 as i64"@,
        ).push(
            "}"@,
        ),
        Helper::Load16UI64 => no_lines().push(
            "fn r16u64(&self, addr: i32, offset: u32) -> i64 {"@,
        ).push(
            "    let a = addr as u32 as usize + offset as usize;"@,
        ).push(
            "    u16::from_le_bytes(self.mem()[a..a + 2].try_into().unwrap()) as i64"@,
        ).push(
            "}"@,
        ),
        Helper::Load16SI64 => no_lines().push(
            "fn r16s64(&self, addr: i32, offset: u32) -> i64 {"@,
        ).push(
            "    let a = addr as u32 as usize + offset as usize;"@,
        ).push(
            "    i16::from_le_bytes(self.mem()[a..a + 2].try_into().unwrap()) as i64"@,
        ).push(
            "}"@,
        ),
        Helper::Load32UI64 => no_lines().push(
            "fn r32u64(&self, addr: i32, offset: u32) -> i64 {"@,
        ).push(
            "    let a = addr as u32 as usize + offset as usize;"@,
        ).push(
            "    u32::from_le_bytes(self.mem()[a..a + 4].try_into().unwrap()) as i64"@,
        ).push(
            "}"@,
        ),
        Helper::Load32SI64 => no_lines().push(
            "fn r32s64(&self, addr: i32, offset: u32) -> i64 {"@,
        ).push(
            "    let a = addr as u32 as usize + offset as usize;"@,
        ).push(
            "    i32::from_le_bytes(self.mem()[a..a + 4].try_into().unwrap()) as i64"@,
        ).push(
            "}"@,
        ),
        Helper::StoreI64 => no_lines().push(
            "fn w64(&mut self, addr: i32, offset: u32, value: i64) {"@,
        ).push(
            "    let a = addr as u32 as usize + offset as usize;"@,
        ).push(
            "    self.mem_mut()[a..a + 8].copy_from_slice(&value.to_le_bytes());"@,
        ).push(
            "}"@,
        ),
        Helper::StoreF32 => no_lines().push(
            "fn wf32(&mut self, addr: i32, offset: u32, value: f32) {"@,
        ).push(
            "    let a = addr as u32 as usize + offset as usize;"@,
        ).push(
            "    self.mem_mut()[a..a + 4].copy_from_slice(&value.to_le_bytes());"@,
        ).push(
            "}"@,
        ),
        Helper::StoreF64 => no_lines().push(
            "fn wf64(&mut self, addr: i32, offset: u32, value: f64) {"@,
        ).push(
            "    let a = addr as u32 as usize + offset as usize;"@,
        ).push(
            "    self.mem_mut()[a..a + 8].copy_from_slice(&value.to_le_bytes());"@,
        ).push(
            "}"@,
        ),
        Helper::Store8I64 => no_lines().push(
            "fn w8_64(&mut self, addr: i32, offset: u32, value: i64) {"@,
        ).push(
            "    let a = addr as u32 as usize + offset as usize;"@,
        ).push(
            "    self.mem_mut()[a] = value as u8;"@,
        ).push(
            "}"@,
        ),
        Helper::Store16I64 => no_lines().push(
            "fn w16_64(&mut self, addr: i32, offset: u32, value: i64) {"@,
        ).push(
            "    let a = addr as u32 as usize + offset as usize;"@,
        ).push(
            "    self.mem_mut()[a..a + 2].copy_from_slice(&(value as u16).to_le_bytes());"@,
        ).push(
            "}"@,
        ),
        Helper::Store32I64 => no_lines().push(
            "fn w32_64(&mut self, addr: i32, offset: u32, value: i64) {"@,
        ).push(
            "    let a = addr as u32 as usize + offset as usize;"@,
        ).push(
            "    self.mem_mut()[a..a + 4].copy_from_slice(&(value as u32).to_le_bytes());"@,
        ).push(
            "}"@,
        ),
        Helper::LoadV128 => no_lines().push(
            "fn rv128(&self, addr: i32, offset: u32) -> u128 {"@,
        ).push(
            "    let a = addr as u32 as usize + offset as usize;"@,
        ).push(
            "    let mut b = [0u8; 16];"@,
        ).push(
            "    b.copy_from_slice(&self.mem()[a..a + 16]);"@,
        ).push(
            "    u128::from_le_bytes(b)"@,
        ).push(
            "}"@,
        ),
        Helper::StoreV128 => no_lines().push(
            "fn wv128(&mut self, addr: i32, offset: u32, value: u128) {"@,
        ).push(
            "    let a = addr as u32 as usize + offset as usize;"@,
        ).push(
            "    self.mem_mut()[a..a + 16].copy_from_slice(&value.to_le_bytes());"@,
        ).push(
            "}"@,
        ),
        Helper::Load8Splat => no_lines().push(
            "fn load8_splat(&self, addr: i32, offset: u32) -> u128 {"@,
        ).push(
            "    let a = addr as u32 as usize + offset as usize;"@,
        ).push(
            "    u128::from_le_bytes([self.mem()[a]; 16])"@,
        ).push(
            "}"@,
        ),
        Helper::Load16Splat => no_lines().push(
            "fn load16_splat(&self, addr: i32, offset: u32) -> u128 {"@,
        ).push(
            "    let a = addr as u32 as usize + offset as usize;"@,
        ).push(
            "    let lane = [self.mem()[a], self.mem()[a + 1]];"@,
        ).push(
            "    let mut b = [0u8; 16];"@,
        ).push(
            "    let mut i = 0;"@,
        ).push(
            "    while i < 16 {"@,
        ).push(
            "        b[i..i + 2].copy_from_slice(&lane);"@,
        ).push(
            "        i += 2;"@,
        ).push(
            "    }"@,
        ).push(
            "    u128::from_le_bytes(b)"@,
        ).push(
            "}"@,
        ),
        Helper::Load32Splat => no_lines().push(
            "fn load32_splat(&self, addr: i32, offset: u32) -> u128 {"@,
        ).push(
            "    let a = addr as u32 as usize + offset as usize;"@,
        ).push(
            "    let lane = [self.mem()[a], self.mem()[a + 1], self.mem()[a + 2], self.mem()[a + 3]];"@,
        ).push(
            "    let mut b = [0u8; 16];"@,
        ).push(
            "    let mut i = 0;"@,
        ).push(
            "    while i < 16 {"@,
        ).push(
            "        b[i..i + 4].copy_from_slice(&lane);"@,
        ).push(
            "        i += 4;"@,
        ).push(
            "    }"@,
        ).push(
            "    u128::from_le_bytes(b)"@,
        ).push(
            "}"@,
        ),
        Helper::Load64Splat => no_lines().push(
            "fn load64_splat(&self, addr: i32, offset: u32) -> u128 {"@,
        ).push(
            "    let a = addr as u32 as usize + offset as usize;"@,
        ).push(
            "    let mut b = [0u8; 16];"@,
        ).push(
            "    b[0..8].copy_from_slice(&self.mem()[a..a + 8]);"@,
        ).push(
            "    b.copy_within(0..8, 8);"@,
        ).push(
            "    u128::from_le_bytes(b)"@,
        ).push(
            "}"@,
        ),
        Helper::Load32Zero => no_lines().push(
            "fn load32_zero(&self, addr: i32, offset: u32) -> u128 {"@,
        ).push(
            "    let a = addr as u32 as usize + offset as usize;"@,
        ).push(
            "    let mut b = [0u8; 16];"@,
        ).push(
            "    b[0..4].copy_from_slice(&self.mem()[a..a + 4]);"@,
        ).push(
            "    u128::from_le_bytes(b)"@,
        ).push(
            "}"@,
        ),
        Helper::Load64Zero => no_lines().push(
            "fn load64_zero(&self, addr: i32, offset: u32) -> u128 {"@,
        ).push(
            "    let a = addr as u32 as usize + offset as usize;"@,
        ).push(
            "    let mut b = [0u8; 16];"@,
        ).push(
            "    b[0..8].copy_from_slice(&self.mem()[a..a + 8]);"@,
        ).push(
            "    u128::from_le_bytes(b)"@,
        ).push(
            "}"@,
        ),
        Helper::Load8x8S => no_lines().push(
            "fn load8x8_s(&self, addr: i32, offset: u32) -> u128 {"@,
        ).push(
            "    let a = addr as u32 as usize + offset as usize;"@,
        ).push(
            "    let mut r = [0u8; 16];"@,
        ).push(
            "    let mut i = 0;"@,
        ).push(
            "    while i < 8 {"@,
        ).push(
            "        let x = self.mem()[a + i] as i8 as i16;"@,
        ).push(
            "        r[i * 2..i * 2 + 2].copy_from_slice(&x.to_le_bytes());"@,
        ).push(
            "        i += 1;"@,
        ).push(
            "    }"@,
        ).push(
            "    u128::from_le_bytes(r)"@,
        ).push(
            "}"@,
        ),
        Helper::Load8x8U => no_lines().push(
            "fn load8x8_u(&self, addr: i32, offset: u32) -> u128 {"@,
        ).push(
            "    let a = addr as u32 as usize + offset as usize;"@,
        ).push(
            "    let mut r = [0u8; 16];"@,
        ).push(
            "    let mut i = 0;"@,
        ).push(
            "    while i < 8 {"@,
        ).push(
            "        let x = self.mem()[a + i] as u16;"@,
        ).push(
            "        r[i * 2..i * 2 + 2].copy_from_slice(&x.to_le_bytes());"@,
        ).push(
            "        i += 1;"@,
        ).push(
            "    }"@,
        ).push(
            "    u128::from_le_bytes(r)"@,
        ).push(
            "}"@,
        ),
        Helper::Load16x4S => no_lines().push(
            "fn load16x4_s(&self, addr: i32, offset: u32) -> u128 {"@,
        ).push(
            "    let a = addr as u32 as usize + offset as usize;"@,
        ).push(
            "    let mut r = [0u8; 16];"@,
        ).push(
            "    let mut i = 0;"@,
        ).push(
            "    while i < 4 {"@,
        ).push(
            "        let s = a + i * 2;"@,
        ).push(
            "        let x = i16::from_le_bytes([self.mem()[s], self.mem()[s + 1]]) as i32;"@,
        ).push(
            "        r[i * 4..i * 4 + 4].copy_from_slice(&x.to_le_bytes());"@,
        ).push(
            "        i += 1;"@,
        ).push(
            "    }"@,
        ).push(
            "    u128::from_le_bytes(r)"@,
        ).push(
            "}"@,
        ),
        Helper::Load16x4U => no_lines().push(
            "fn load16x4_u(&self, addr: i32, offset: u32) -> u128 {"@,
        ).push(
            "    let a = addr as u32 as usize + offset as usize;"@,
        ).push(
            "    let mut r = [0u8; 16];"@,
        ).push(
            "    let mut i = 0;"@,
        ).push(
            "    while i < 4 {"@,
        ).push(
            "        let s = a + i * 2;"@,
        ).push(
            "        let x = u16::from_le_bytes([self.mem()[s], self.mem()[s + 1]]) as u32;"@,
        ).push(
            "        r[i * 4..i * 4 + 4].copy_from_slice(&x.to_le_bytes());"@,
        ).push(
            "        i += 1;"@,
        ).push(
            "    }"@,
        ).push(
            "    u128::from_le_bytes(r)"@,
        ).push(
            "}"@,
        ),
        Helper::Load32x2S => no_lines().push(
            "fn load32x2_s(&self, addr: i32, offset: u32) -> u128 {"@,
        ).push(
            "    let a = addr as u32 as usize + offset as usize;"@,
        ).push(
            "    let mut r = [0u8; 16];"@,
        ).push(
            "    let mut i = 0;"@,
        ).push(
            "    while i < 2 {"@,
        ).push(
            "        let s = a + i * 4;"@,
        ).push(
            "        let x = i32::from_le_bytes([self.mem()[s], self.mem()[s + 1], self.mem()[s + 2], self.mem()[s + 3]]) as i64;"@,
        ).push(
            "        r[i * 8..i * 8 + 8].copy_from_slice(&x.to_le_bytes());"@,
        ).push(
            "        i += 1;"@,
        ).push(
            "    }"@,
        ).push(
            "    u128::from_le_bytes(r)"@,
        ).push(
            "}"@,
        ),
        Helper::Load32x2U => no_lines().push(
            "fn load32x2_u(&self, addr: i32, offset: u32) -> u128 {"@,
        ).push(
            "    let a = addr as u32 as usize + offset as usize;"@,
        ).push(
            "    let mut r = [0u8; 16];"@,
        ).push(
            "    let mut i = 0;"@,
        ).push(
            "    while i < 2 {"@,
        ).push(
            "        let s = a + i * 4;"@,
        ).push(
            "        let x = u32::from_le_bytes([self.mem()[s], self.mem()[s + 1], self.mem()[s + 2], self.mem()[s + 3]]) as u64;"@,
        ).push(
            "        r[i * 8..i * 8 + 8].copy_from_slice(&x.to_le_bytes());"@,
        ).push(
            "        i += 1;"@,
        ).push(
            "    }"@,
        ).push(
            "    u128::from_le_bytes(r)"@,
        ).push(
            "}"@,
        ),
        Helper::Load8Lane => no_lines().push(
            "fn load8_lane(&self, addr: i32, offset: u32, value: u128, lane: usize) -> u128 {"@,
        ).push(
            "    let a = addr as u32 as usize + offset as usize;"@,
        ).push(
            "    let mut b = value.to_le_bytes();"@,
        ).push(
            "    b[lane] = self.mem()[a];"@,
        ).push(
            "    u128::from_le_bytes(b)"@,
        ).push(
            "}"@,
        ),
        Helper::Load16Lane => no_lines().push(
            "fn load16_lane(&self, addr: i32, offset: u32, value: u128, lane: usize) -> u128 {"@,
        ).push(
            "    let a = addr as u32 as usize + offset as usize;"@,
        ).push(
            "    let o = lane * 2;"@,
        ).push(
            "    let mut b = value.to_le_bytes();"@,
        ).push(
            "    b[o..o + 2].copy_from_slice(&self.mem()[a..a + 2]);"@,
        ).push(
            "    u128::from_le_bytes(b)"@,
        ).push(
            "}"@,
        ),
        Helper::Load32Lane => no_lines().push(
            "fn load32_lane(&self, addr: i32, offset: u32, value: u128, lane: usize) -> u128 {"@,
        ).push(
            "    let a = addr as u32 as usize + offset as usize;"@,
        ).push(
            "    let o = lane * 4;"@,
        ).push(
            "    let mut b = value.to_le_bytes();"@,
        ).push(
            "    b[o..o + 4].copy_from_slice(&self.mem()[a..a + 4]);"@,
        ).push(
            "    u128::from_le_bytes(b)"@,
        ).push(
            "}"@,
        ),
        Helper::Load64Lane => no_lines().push(
            "fn load64_lane(&self, addr: i32, offset: u32, value: u128, lane: usize) -> u128 {"@,
        ).push(
            "    let a = addr as u32 as usize + offset as usize;"@,
        ).push(
            "    let o = lane * 8;"@,
        ).push(
            "    let mut b = value.to_le_bytes();"@,
        ).push(
            "    b[o..o + 8].copy_from_slice(&self.mem()[a..a + 8]);"@,
        ).push(
            "    u128::from_le_bytes(b)"@,
        ).push(
            "}"@,
        ),
        Helper::Store8Lane => no_lines().push(
            "fn store8_lane(&mut self, addr: i32, offset: u32, value: u128, lane: usize) {"@,
        ).push(
            "    let a = addr as u32 as usize + offset as usize;"@,
        ).push(
            "    self.mem_mut()[a] = value.to_le_bytes()[lane];"@,
        ).push(
            "}"@,
        ),
        Helper::Store16Lane => no_lines().push(
            "fn store16_lane(&mut self, addr: i32, offset: u32, value: u128, lane: usize) {"@,
        ).push(
            "    let a = addr as u32 as usize + offset as usize;"@,
        ).push(
            "    let o = lane * 2;"@,
        ).push(
            "    self.mem_mut()[a..a + 2].copy_from_slice(&value.to_le_bytes()[o..o + 2]);"@,
        ).push(
            "}"@,
        ),
        Helper::Store32Lane => no_lines().push(
            "fn store32_lane(&mut self, addr: i32, offset: u32, value: u128, lane: usize) {"@,
        ).push(
            "    let a = addr as u32 as usize + offset as usize;"@,
        ).push(
            "    let o = lane * 4;"@,
        ).push(
            "    self.mem_mut()[a..a + 4].copy_from_slice(&value.to_le_bytes()[o..o + 4]);"@,
        ).push(
            "}"@,
        ),
        Helper::Store64Lane => no_lines().push(
            "fn store64_lane(&mut self, addr: i32, offset: u32, value: u128, lane: usize) {"@,
        ).push(
            "    let a = addr as u32 as usize + offset as usize;"@,
        ).push(
            "    let o = lane * 8;"@,
        ).push(
            "    self.mem_mut()[a..a + 8].copy_from_slice(&value.to_le_bytes()[o..o + 8]);"@,
        ).push(
            "}"@,
        ),
        Helper::Grow => no_lines().push(
            "fn memory_grow(&mut self, delta: i32) -> i32 {"@,
        ).push(
            "    let old_pages = (self.mem().len() / 65536) as u64;"@,
        ).push(
            "    let new_pages = old_pages + (delta as u32 as u64);"@,
        ).push(
            "    if new_pages > 65536 {"@,
        ).push(
            "        return -1;"@,
        ).push(
            "    }"@,
        ).push(
            "    self.mem_mut().resize((new_pages as usize) * 65536, 0);"@,
        ).push(
            "    old_pages as i32"@,
        ).push(
            "}"@,
        ),
        Helper::MemoryFill => no_lines().push(
            "fn memory_fill(&mut self, dest: u32, val: i32, len: u32) {"@,
        ).push(
            "    let d = dest as usize;"@,
        ).push(
            "    self.mem_mut()[d..d + len as usize].fill(val as u8);"@,
        ).push(
            "}"@,
        ),
        Helper::MemoryCopy => no_lines().push(
            "fn memory_copy(&mut self, dest: u32, src: u32, len: u32) {"@,
        ).push(
            "    let s = src as usize;"@,
        ).push(
            "    let d = dest as usize;"@,
        ).push(
            "    self.mem_mut().copy_within(s..s + len as usize, d);"@,
        ).push(
            "}"@,
        ),
        Helper::TableCopy => no_lines().push(
            "fn table_copy(&mut self, dest: u32, src: u32, len: u32) {"@,
        ).push(
            "    let s = src as usize;"@,
        ).push(
            "    let d = dest as usize;"@,
        ).push(
            "    self.table_mut().copy_within(s..s + len as usize, d);"@,
        ).push(
            "}"@,
        ),
        Helper::TableFill => no_lines().push(
            "fn table_fill(&mut self, dest: u32, val: u32, len: u32) {"@,
        ).push(
            "    let d = dest as usize;"@,
        ).push(
            "    self.table_mut()[d..d + len as usize].fill(val);"@,
        ).push(
            "}"@,
        ),
    }
}

/// The memory-0 template lines of one memory helper method.
pub fn base_helper_lines(helper: Helper) -> (r: Vec<String>)
    ensures
        texts(r@) == base_lines(helper),
{
    let mut out = Lines::new();
    match helper {
        Helper::LoadI32 => {
            out.lit("fn r32(&self, addr: i32, offset: u32) -> i32 {");
            out.lit("    let a = addr as u32 as usize + offset as usize;");
            out.lit("    i32::from_le_bytes(self.mem()[a..a + 4].try_into().unwrap())");
            out.lit("}");
        },
        Helper::Load8U => {
            out.lit("fn r8u(&self, addr: i32, offset: u32) -> i32 {");
            out.lit("    let a = addr as u32 as usize + offset as usize;");
            out.lit("    self.mem()[a] as i32");
            out.lit("}");
        },
        Helper::Load8S => {
            out.lit("fn r8s(&self, addr: i32, offset: u32) -> i32 {");
            out.lit("    let a = addr as u32 as usize + offset as usize;");
            out.lit("    self.mem()[a] as i8 as i32");
            out.lit("}");
        },
        Helper::Load16U => {
            out.lit("fn r16u(&self, addr: i32, offset: u32) -> i32 {");
            out.lit("    let a = addr as u32 as usize + offset as usize;");
            out.lit("    u16::from_le_bytes(self.mem()[a..a + 2].try_into().unwrap()) as i32");
            out.lit("}");
        },
        Helper::Load16S => {
            out.lit("fn r16s(&self, addr: i32, offset: u32) -> i32 {");
            out.lit("    let a = addr as u32 as usize + offset as usize;");
            out.lit("    i16::from_le_bytes(self.mem()[a..a + 2].try_into().unwrap()) as i32");
            out.lit("}");
        },
        Helper::StoreI32 => {
            out.lit("fn w32(&mut self, addr: i32, offset: u32, value: i32) {");
            out.lit("    let a = addr as u32 as usize + offset as usize;");
            out.lit("    self.mem_mut()[a..a + 4].copy_from_slice(&value.to_le_bytes());");
            out.lit("}");
        },
        Helper::Store8 => {
            out.lit("fn w8(&mut self, addr: i32, offset: u32, value: i32) {");
            out.lit("    let a = addr as u32 as usize + offset as usize;");
            out.lit("    self.mem_mut()[a] = value as u8;");
            out.lit("}");
        },
        Helper::Store16 => {
            out.lit("fn w16(&mut self, addr: i32, offset: u32, value: i32) {");
            out.lit("    let a = addr as u32 as usize + offset as usize;");
            out.lit("    self.mem_mut()[a..a + 2].copy_from_slice(&(value as u16).to_le_bytes());");
            out.lit("}");
        },
        Helper::LoadI64 => {
            out.lit("fn r64(&self, addr: i32, offset: u32) -> i64 {");
            out.lit("    let a = addr as u32 as usize + offset as usize;");
            out.lit("    i64::from_le_bytes(self.mem()[a..a + 8].try_into().unwrap())");
            out.lit("}");
        },
        Helper::LoadF32 => {
            out.lit("fn rf32(&self, addr: i32, offset: u32) -> f32 {");
            out.lit("    let a = addr as u32 as usize + offset as usize;");
            out.lit("    f32::from_le_bytes(self.mem()[a..a + 4].try_into().unwrap())");
            out.lit("}");
        },
        Helper::LoadF64 => {
            out.lit("fn rf64(&self, addr: i32, offset: u32) -> f64 {");
            out.lit("    let a = addr as u32 as usize + offset as usize;");
            out.lit("    f64::from_le_bytes(self.mem()[a..a + 8].try_into().unwrap())");
            out.lit("}");
        },
        Helper::Load8UI64 => {
            out.lit("fn r8u64(&self, addr: i32, offset: u32) -> i64 {");
            out.lit("    let a = addr as u32 as usize + offset as usize;");
            out.lit("    self.mem()[a] as i64");
            out.lit("}");
        },
        Helper::Load8SI64 => {
            out.lit("fn r8s64(&self, addr: i32, offset: u32) -> i64 {");
            out.lit("    let a = addr as u32 as usize + offset as usize;");
            out.lit("    self.mem()[a] as i8 as i64");
            out.lit("}");
        },
        Helper::Load16UI64 => {
            out.lit("fn r16u64(&self, addr: i32, offset: u32) -> i64 {");
            out.lit("    let a = addr as u32 as usize + offset as usize;");
            out.lit("    u16::from_le_bytes(self.mem()[a..a + 2].try_into().unwrap()) as i64");
            out.lit("}");
        },
        Helper::Load16SI64 => {
            out.lit("fn r16s64(&self, addr: i32, offset: u32) -> i64 {");
            out.lit("    let a = addr as u32 as usize + offset as usize;");
            out.lit("    i16::from_le_bytes(self.mem()[a..a + 2].try_into().unwrap()) as i64");
            out.lit("}");
        },
        Helper::Load32UI64 => {
            out.lit("fn r32u64(&self, addr: i32, offset: u32) -> i64 {");
            out.lit("    let a = addr as u32 as usize + offset as usize;");
            out.lit("    u32::from_le_bytes(self.mem()[a..a + 4].try_into().unwrap()) as i64");
            out.lit("}");
        },
        Helper::Load32SI64 => {
            out.lit("fn r32s64(&self, addr: i32, offset: u32) -> i64 {");
            out.lit("    let a = addr as u32 as usize + offset as usize;");
            out.lit("    i32::from_le_bytes(self.mem()[a..a + 4].try_into().unwrap()) as i64");
            out.lit("}");
        },
        Helper::StoreI64 => {
            out.lit("fn w64(&mut self, addr: i32, offset: u32, value: i64) {");
            out.lit("    let a = addr as u32 as usize + offset as usize;");
            out.lit("    self.mem_mut()[a..a + 8].copy_from_slice(&value.to_le_bytes());");
            out.lit("}");
        },
        Helper::StoreF32 => {
            out.lit("fn wf32(&mut self, addr: i32, offset: u32, value: f32) {");
            out.lit("    let a = addr as u32 as usize + offset as usize;");
            out.lit("    self.mem_mut()[a..a + 4].copy_from_slice(&value.to_le_bytes());");
            out.lit("}");
        },
        Helper::StoreF64 => {
            out.lit("fn wf64(&mut self, addr: i32, offset: u32, value: f64) {");
            out.lit("    let a = addr as u32 as usize + offset as usize;");
            out.lit("    self.mem_mut()[a..a + 8].copy_from_slice(&value.to_le_bytes());");
            out.lit("}");
        },
        Helper::Store8I64 => {
            out.lit("fn w8_64(&mut self, addr: i32, offset: u32, value: i64) {");
            out.lit("    let a = addr as u32 as usize + offset as usize;");
            out.lit("    self.mem_mut()[a] = value as u8;");
            out.lit("}");
        },
        Helper::Store16I64 => {
            out.lit("fn w16_64(&mut self, addr: i32, offset: u32, value: i64) {");
            out.lit("    let a = addr as u32 as usize + offset as usize;");
            out.lit("    self.mem_mut()[a..a + 2].copy_from_slice(&(value as u16).to_le_bytes());");
            out.lit("}");
        },
        Helper::Store32I64 => {
            out.lit("fn w32_64(&mut self, addr: i32, offset: u32, value: i64) {");
            out.lit("    let a = addr as u32 as usize + offset as usize;");
            out.lit("    self.mem_mut()[a..a + 4].copy_from_slice(&(value as u32).to_le_bytes());");
            out.lit("}");
        },
        // A v128 load/store moves 16 bytes to/from memory as a little-endian
        // `u128`; the slice access is bounds-checked, so an out-of-range access
        // panics (a wasm trap).
        Helper::LoadV128 => {
            out.lit("fn rv128(&self, addr: i32, offset: u32) -> u128 {");
            out.lit("    let a = addr as u32 as usize + offset as usize;");
            out.lit("    let mut b = [0u8; 16];");
            out.lit("    b.copy_from_slice(&self.mem()[a..a + 16]);");
            out.lit("    u128::from_le_bytes(b)");
            out.lit("}");
        },
        Helper::StoreV128 => {
            out.lit("fn wv128(&mut self, addr: i32, offset: u32, value: u128) {");
            out.lit("    let a = addr as u32 as usize + offset as usize;");
            out.lit("    self.mem_mut()[a..a + 16].copy_from_slice(&value.to_le_bytes());");
            out.lit("}");
        },
        // `load*_splat` reads one element and broadcasts it to every lane;
        // `load*_zero` reads one into the low lane and zeroes the rest. Each
        // access is bounds-checked, so an out-of-range read traps.
        Helper::Load8Splat => {
            out.lit("fn load8_splat(&self, addr: i32, offset: u32) -> u128 {");
            out.lit("    let a = addr as u32 as usize + offset as usize;");
            out.lit("    u128::from_le_bytes([self.mem()[a]; 16])");
            out.lit("}");
        },
        Helper::Load16Splat => {
            out.lit("fn load16_splat(&self, addr: i32, offset: u32) -> u128 {");
            out.lit("    let a = addr as u32 as usize + offset as usize;");
            out.lit("    let lane = [self.mem()[a], self.mem()[a + 1]];");
            out.lit("    let mut b = [0u8; 16];");
            out.lit("    let mut i = 0;");
            out.lit("    while i < 16 {");
            out.lit("        b[i..i + 2].copy_from_slice(&lane);");
            out.lit("        i += 2;");
            out.lit("    }");
            out.lit("    u128::from_le_bytes(b)");
            out.lit("}");
        },
        Helper::Load32Splat => {
            out.lit("fn load32_splat(&self, addr: i32, offset: u32) -> u128 {");
            out.lit("    let a = addr as u32 as usize + offset as usize;");
            out.lit("    let lane = [self.mem()[a], self.mem()[a + 1], self.mem()[a + 2], self.mem()[a + 3]];");
            out.lit("    let mut b = [0u8; 16];");
            out.lit("    let mut i = 0;");
            out.lit("    while i < 16 {");
            out.lit("        b[i..i + 4].copy_from_slice(&lane);");
            out.lit("        i += 4;");
            out.lit("    }");
            out.lit("    u128::from_le_bytes(b)");
            out.lit("}");
        },
        Helper::Load64Splat => {
            out.lit("fn load64_splat(&self, addr: i32, offset: u32) -> u128 {");
            out.lit("    let a = addr as u32 as usize + offset as usize;");
            out.lit("    let mut b = [0u8; 16];");
            out.lit("    b[0..8].copy_from_slice(&self.mem()[a..a + 8]);");
            out.lit("    b.copy_within(0..8, 8);");
            out.lit("    u128::from_le_bytes(b)");
            out.lit("}");
        },
        Helper::Load32Zero => {
            out.lit("fn load32_zero(&self, addr: i32, offset: u32) -> u128 {");
            out.lit("    let a = addr as u32 as usize + offset as usize;");
            out.lit("    let mut b = [0u8; 16];");
            out.lit("    b[0..4].copy_from_slice(&self.mem()[a..a + 4]);");
            out.lit("    u128::from_le_bytes(b)");
            out.lit("}");
        },
        Helper::Load64Zero => {
            out.lit("fn load64_zero(&self, addr: i32, offset: u32) -> u128 {");
            out.lit("    let a = addr as u32 as usize + offset as usize;");
            out.lit("    let mut b = [0u8; 16];");
            out.lit("    b[0..8].copy_from_slice(&self.mem()[a..a + 8]);");
            out.lit("    u128::from_le_bytes(b)");
            out.lit("}");
        },
        // `load{8x8,16x4,32x2}_{s,u}` read eight bytes and widen each source lane
        // to a double-width lane: `_s` sign-extends, `_u` zero-extends. The eight
        // bytes are bounds-checked, so an out-of-range read traps.
        Helper::Load8x8S => {
            out.lit("fn load8x8_s(&self, addr: i32, offset: u32) -> u128 {");
            out.lit("    let a = addr as u32 as usize + offset as usize;");
            out.lit("    let mut r = [0u8; 16];");
            out.lit("    let mut i = 0;");
            out.lit("    while i < 8 {");
            out.lit("        let x = self.mem()[a + i] as i8 as i16;");
            out.lit("        r[i * 2..i * 2 + 2].copy_from_slice(&x.to_le_bytes());");
            out.lit("        i += 1;");
            out.lit("    }");
            out.lit("    u128::from_le_bytes(r)");
            out.lit("}");
        },
        Helper::Load8x8U => {
            out.lit("fn load8x8_u(&self, addr: i32, offset: u32) -> u128 {");
            out.lit("    let a = addr as u32 as usize + offset as usize;");
            out.lit("    let mut r = [0u8; 16];");
            out.lit("    let mut i = 0;");
            out.lit("    while i < 8 {");
            out.lit("        let x = self.mem()[a + i] as u16;");
            out.lit("        r[i * 2..i * 2 + 2].copy_from_slice(&x.to_le_bytes());");
            out.lit("        i += 1;");
            out.lit("    }");
            out.lit("    u128::from_le_bytes(r)");
            out.lit("}");
        },
        Helper::Load16x4S => {
            out.lit("fn load16x4_s(&self, addr: i32, offset: u32) -> u128 {");
            out.lit("    let a = addr as u32 as usize + offset as usize;");
            out.lit("    let mut r = [0u8; 16];");
            out.lit("    let mut i = 0;");
            out.lit("    while i < 4 {");
            out.lit("        let s = a + i * 2;");
            out.lit("        let x = i16::from_le_bytes([self.mem()[s], self.mem()[s + 1]]) as i32;");
            out.lit("        r[i * 4..i * 4 + 4].copy_from_slice(&x.to_le_bytes());");
            out.lit("        i += 1;");
            out.lit("    }");
            out.lit("    u128::from_le_bytes(r)");
            out.lit("}");
        },
        Helper::Load16x4U => {
            out.lit("fn load16x4_u(&self, addr: i32, offset: u32) -> u128 {");
            out.lit("    let a = addr as u32 as usize + offset as usize;");
            out.lit("    let mut r = [0u8; 16];");
            out.lit("    let mut i = 0;");
            out.lit("    while i < 4 {");
            out.lit("        let s = a + i * 2;");
            out.lit("        let x = u16::from_le_bytes([self.mem()[s], self.mem()[s + 1]]) as u32;");
            out.lit("        r[i * 4..i * 4 + 4].copy_from_slice(&x.to_le_bytes());");
            out.lit("        i += 1;");
            out.lit("    }");
            out.lit("    u128::from_le_bytes(r)");
            out.lit("}");
        },
        Helper::Load32x2S => {
            out.lit("fn load32x2_s(&self, addr: i32, offset: u32) -> u128 {");
            out.lit("    let a = addr as u32 as usize + offset as usize;");
            out.lit("    let mut r = [0u8; 16];");
            out.lit("    let mut i = 0;");
            out.lit("    while i < 2 {");
            out.lit("        let s = a + i * 4;");
            out.lit("        let x = i32::from_le_bytes([self.mem()[s], self.mem()[s + 1], self.mem()[s + 2], self.mem()[s + 3]]) as i64;");
            out.lit("        r[i * 8..i * 8 + 8].copy_from_slice(&x.to_le_bytes());");
            out.lit("        i += 1;");
            out.lit("    }");
            out.lit("    u128::from_le_bytes(r)");
            out.lit("}");
        },
        Helper::Load32x2U => {
            out.lit("fn load32x2_u(&self, addr: i32, offset: u32) -> u128 {");
            out.lit("    let a = addr as u32 as usize + offset as usize;");
            out.lit("    let mut r = [0u8; 16];");
            out.lit("    let mut i = 0;");
            out.lit("    while i < 2 {");
            out.lit("        let s = a + i * 4;");
            out.lit("        let x = u32::from_le_bytes([self.mem()[s], self.mem()[s + 1], self.mem()[s + 2], self.mem()[s + 3]]) as u64;");
            out.lit("        r[i * 8..i * 8 + 8].copy_from_slice(&x.to_le_bytes());");
            out.lit("        i += 1;");
            out.lit("    }");
            out.lit("    u128::from_le_bytes(r)");
            out.lit("}");
        },
        // `load*_lane` replaces one lane of `value` with an element read from
        // memory; `store*_lane` writes one lane of `value` back to memory. `lane`
        // is a validated lane index, so the byte range is always in bounds.
        Helper::Load8Lane => {
            out.lit("fn load8_lane(&self, addr: i32, offset: u32, value: u128, lane: usize) -> u128 {");
            out.lit("    let a = addr as u32 as usize + offset as usize;");
            out.lit("    let mut b = value.to_le_bytes();");
            out.lit("    b[lane] = self.mem()[a];");
            out.lit("    u128::from_le_bytes(b)");
            out.lit("}");
        },
        Helper::Load16Lane => {
            out.lit("fn load16_lane(&self, addr: i32, offset: u32, value: u128, lane: usize) -> u128 {");
            out.lit("    let a = addr as u32 as usize + offset as usize;");
            out.lit("    let o = lane * 2;");
            out.lit("    let mut b = value.to_le_bytes();");
            out.lit("    b[o..o + 2].copy_from_slice(&self.mem()[a..a + 2]);");
            out.lit("    u128::from_le_bytes(b)");
            out.lit("}");
        },
        Helper::Load32Lane => {
            out.lit("fn load32_lane(&self, addr: i32, offset: u32, value: u128, lane: usize) -> u128 {");
            out.lit("    let a = addr as u32 as usize + offset as usize;");
            out.lit("    let o = lane * 4;");
            out.lit("    let mut b = value.to_le_bytes();");
            out.lit("    b[o..o + 4].copy_from_slice(&self.mem()[a..a + 4]);");
            out.lit("    u128::from_le_bytes(b)");
            out.lit("}");
        },
        Helper::Load64Lane => {
            out.lit("fn load64_lane(&self, addr: i32, offset: u32, value: u128, lane: usize) -> u128 {");
            out.lit("    let a = addr as u32 as usize + offset as usize;");
            out.lit("    let o = lane * 8;");
            out.lit("    let mut b = value.to_le_bytes();");
            out.lit("    b[o..o + 8].copy_from_slice(&self.mem()[a..a + 8]);");
            out.lit("    u128::from_le_bytes(b)");
            out.lit("}");
        },
        Helper::Store8Lane => {
            out.lit("fn store8_lane(&mut self, addr: i32, offset: u32, value: u128, lane: usize) {");
            out.lit("    let a = addr as u32 as usize + offset as usize;");
            out.lit("    self.mem_mut()[a] = value.to_le_bytes()[lane];");
            out.lit("}");
        },
        Helper::Store16Lane => {
            out.lit("fn store16_lane(&mut self, addr: i32, offset: u32, value: u128, lane: usize) {");
            out.lit("    let a = addr as u32 as usize + offset as usize;");
            out.lit("    let o = lane * 2;");
            out.lit("    self.mem_mut()[a..a + 2].copy_from_slice(&value.to_le_bytes()[o..o + 2]);");
            out.lit("}");
        },
        Helper::Store32Lane => {
            out.lit("fn store32_lane(&mut self, addr: i32, offset: u32, value: u128, lane: usize) {");
            out.lit("    let a = addr as u32 as usize + offset as usize;");
            out.lit("    let o = lane * 4;");
            out.lit("    self.mem_mut()[a..a + 4].copy_from_slice(&value.to_le_bytes()[o..o + 4]);");
            out.lit("}");
        },
        Helper::Store64Lane => {
            out.lit("fn store64_lane(&mut self, addr: i32, offset: u32, value: u128, lane: usize) {");
            out.lit("    let a = addr as u32 as usize + offset as usize;");
            out.lit("    let o = lane * 8;");
            out.lit("    self.mem_mut()[a..a + 8].copy_from_slice(&value.to_le_bytes()[o..o + 8]);");
            out.lit("}");
        },
        // `delta` is an unsigned page count. Growth past the wasm32 limit of
        // 65536 pages (4 GiB) fails, returning -1 as the wasm spec requires;
        // the declared maximum is not tracked, so only that hard cap applies.
        Helper::Grow => {
            out.lit("fn memory_grow(&mut self, delta: i32) -> i32 {");
            out.lit("    let old_pages = (self.mem().len() / 65536) as u64;");
            out.lit("    let new_pages = old_pages + (delta as u32 as u64);");
            out.lit("    if new_pages > 65536 {");
            out.lit("        return -1;");
            out.lit("    }");
            out.lit("    self.mem_mut().resize((new_pages as usize) * 65536, 0);");
            out.lit("    old_pages as i32");
            out.lit("}");
        },
        // Bulk operations. An out-of-bounds range panics on the slice access or
        // `copy_within` (a wasm trap); `copy_within` is memmove, so overlapping
        // source and destination copy correctly.
        Helper::MemoryFill => {
            out.lit("fn memory_fill(&mut self, dest: u32, val: i32, len: u32) {");
            out.lit("    let d = dest as usize;");
            out.lit("    self.mem_mut()[d..d + len as usize].fill(val as u8);");
            out.lit("}");
        },
        Helper::MemoryCopy => {
            out.lit("fn memory_copy(&mut self, dest: u32, src: u32, len: u32) {");
            out.lit("    let s = src as usize;");
            out.lit("    let d = dest as usize;");
            out.lit("    self.mem_mut().copy_within(s..s + len as usize, d);");
            out.lit("}");
        },
        Helper::TableCopy => {
            out.lit("fn table_copy(&mut self, dest: u32, src: u32, len: u32) {");
            out.lit("    let s = src as usize;");
            out.lit("    let d = dest as usize;");
            out.lit("    self.table_mut().copy_within(s..s + len as usize, d);");
            out.lit("}");
        },
        Helper::TableFill => {
            out.lit("fn table_fill(&mut self, dest: u32, val: u32, len: u32) {");
            out.lit("    let d = dest as usize;");
            out.lit("    self.table_mut()[d..d + len as usize].fill(val);");
            out.lit("}");
        },
    }
    out.v
}

/// All memory helpers, in a deterministic emission order.
pub open spec fn helper_list() -> Seq<Helper> {
    Seq::empty().push(Helper::LoadI32).push(Helper::Load8U).push(Helper::Load8S).push(Helper::Load16U).push(Helper::Load16S).push(Helper::LoadI64).push(Helper::LoadF32).push(Helper::LoadF64).push(Helper::Load8UI64).push(Helper::Load8SI64).push(Helper::Load16UI64).push(Helper::Load16SI64).push(Helper::Load32UI64).push(Helper::Load32SI64).push(Helper::StoreI32).push(Helper::Store8).push(Helper::Store16).push(Helper::StoreI64).push(Helper::StoreF32).push(Helper::StoreF64).push(Helper::Store8I64).push(Helper::Store16I64).push(Helper::Store32I64).push(Helper::LoadV128).push(Helper::StoreV128).push(Helper::Load8Splat).push(Helper::Load16Splat).push(Helper::Load32Splat).push(Helper::Load64Splat).push(Helper::Load32Zero).push(Helper::Load64Zero).push(Helper::Load8x8S).push(Helper::Load8x8U).push(Helper::Load16x4S).push(Helper::Load16x4U).push(Helper::Load32x2S).push(Helper::Load32x2U).push(Helper::Load8Lane).push(Helper::Load16Lane).push(Helper::Load32Lane).push(Helper::Load64Lane).push(Helper::Store8Lane).push(Helper::Store16Lane).push(Helper::Store32Lane).push(Helper::Store64Lane).push(Helper::Grow).push(Helper::MemoryFill).push(Helper::MemoryCopy).push(Helper::TableCopy).push(Helper::TableFill)
}

/// All memory helpers, in a deterministic emission order.
pub fn helper_order() -> (r: Vec<Helper>)
    ensures
        r@ == helper_list(),
{
    let mut out: Vec<Helper> = Vec::new();
    out.push(Helper::LoadI32);
    out.push(Helper::Load8U);
    out.push(Helper::Load8S);
    out.push(Helper::Load16U);
    out.push(Helper::Load16S);
    out.push(Helper::LoadI64);
    out.push(Helper::LoadF32);
    out.push(Helper::LoadF64);
    out.push(Helper::Load8UI64);
    out.push(Helper::Load8SI64);
    out.push(Helper::Load16UI64);
    out.push(Helper::Load16SI64);
    out.push(Helper::Load32UI64);
    out.push(Helper::Load32SI64);
    out.push(Helper::StoreI32);
    out.push(Helper::Store8);
    out.push(Helper::Store16);
    out.push(Helper::StoreI64);
    out.push(Helper::StoreF32);
    out.push(Helper::StoreF64);
    out.push(Helper::Store8I64);
    out.push(Helper::Store16I64);
    out.push(Helper::Store32I64);
    out.push(Helper::LoadV128);
    out.push(Helper::StoreV128);
    out.push(Helper::Load8Splat);
    out.push(Helper::Load16Splat);
    out.push(Helper::Load32Splat);
    out.push(Helper::Load64Splat);
    out.push(Helper::Load32Zero);
    out.push(Helper::Load64Zero);
    out.push(Helper::Load8x8S);
    out.push(Helper::Load8x8U);
    out.push(Helper::Load16x4S);
    out.push(Helper::Load16x4U);
    out.push(Helper::Load32x2S);
    out.push(Helper::Load32x2U);
    out.push(Helper::Load8Lane);
    out.push(Helper::Load16Lane);
    out.push(Helper::Load32Lane);
    out.push(Helper::Load64Lane);
    out.push(Helper::Store8Lane);
    out.push(Helper::Store16Lane);
    out.push(Helper::Store32Lane);
    out.push(Helper::Store64Lane);
    out.push(Helper::Grow);
    out.push(Helper::MemoryFill);
    out.push(Helper::MemoryCopy);
    out.push(Helper::TableCopy);
    out.push(Helper::TableFill);
    out
}

/// The position of a helper in the emission order.
pub open spec fn helper_rank(helper: Helper) -> int {
    match helper {
        Helper::LoadI32 => 0,
        Helper::Load8U => 1,
        Helper::Load8S => 2,
        Helper::Load16U => 3,
        Helper::Load16S => 4,
        Helper::LoadI64 => 5,
        Helper::LoadF32 => 6,
        Helper::LoadF64 => 7,
        Helper::Load8UI64 => 8,
        Helper::Load8SI64 => 9,
        Helper::Load16UI64 => 10,
        Helper::Load16SI64 => 11,
        Helper::Load32UI64 => 12,
        Helper::Load32SI64 => 13,
        Helper::StoreI32 => 14,
        Helper::Store8 => 15,
        Helper::Store16 => 16,
        Helper::StoreI64 => 17,
        Helper::StoreF32 => 18,
        Helper::StoreF64 => 19,
        Helper::Store8I64 => 20,
        Helper::Store16I64 => 21,
        Helper::Store32I64 => 22,
        Helper::LoadV128 => 23,
        Helper::StoreV128 => 24,
        Helper::Load8Splat => 25,
        Helper::Load16Splat => 26,
        Helper::Load32Splat => 27,
        Helper::Load64Splat => 28,
        Helper::Load32Zero => 29,
        Helper::Load64Zero => 30,
        Helper::Load8x8S => 31,
        Helper::Load8x8U => 32,
        Helper::Load16x4S => 33,
        Helper::Load16x4U => 34,
        Helper::Load32x2S => 35,
        Helper::Load32x2U => 36,
        Helper::Load8Lane => 37,
        Helper::Load16Lane => 38,
        Helper::Load32Lane => 39,
        Helper::Load64Lane => 40,
        Helper::Store8Lane => 41,
        Helper::Store16Lane => 42,
        Helper::Store32Lane => 43,
        Helper::Store64Lane => 44,
        Helper::Grow => 45,
        Helper::MemoryFill => 46,
        Helper::MemoryCopy => 47,
        Helper::TableCopy => 48,
        Helper::TableFill => 49,
    }
}

/// The accessor names of linear memory `mem`: the shared and the mutable one.
pub open spec fn accessor_texts(mem: u32) -> (Seq<char>, Seq<char>) {
    if mem == 0 {
        ("mem"@, "mem_mut"@)
    } else {
        (("mem"@ + dec(mem as nat)), ("mem"@ + dec(mem as nat) + "_mut"@))
    }
}

/// The method name of `helper` for linear memory `mem`.
pub open spec fn helper_method_text(helper: Helper, mem: u32) -> Seq<char> {
    if mem == 0 {
        helper_text(helper)
    } else {
        (helper_text(helper) + "_m"@ + dec(mem as nat))
    }
}

/// A line of a memory-0 template retargeted to memory `mem`.
pub open spec fn specialised_line(helper: Helper, mem: u32, line: Seq<char>) -> Seq<char> {
    let name = helper_text(helper);
    let (get, get_mut) = accessor_texts(mem);
    replaced_all(
        replaced_all(
            replaced_first(line, ("fn "@ + name + "("@), ("fn "@ + name + "_m"@ + dec(mem as nat)
                + "("@)),
            "self.mem_mut()"@,
            ("self."@ + get_mut + "()"@),
        ),
        "self.mem()"@,
        ("self."@ + get + "()"@),
    )
}

/// The source of one helper method for linear memory `mem`.
pub open spec fn helper_source(helper: Helper, mem: u32) -> Seq<Seq<char>> {
    if mem == 0 {
        base_lines(helper)
    } else {
        base_lines(helper).map_values(|l: Seq<char>| specialised_line(helper, mem, l))
    }
}

/// A line of a memory-0 template that goes through a lock guard.
pub open spec fn guarded_line(line: Seq<char>) -> Seq<char> {
    replaced_all(replaced_all(line, "self.mem_mut()"@, "__m"@), "self.mem()"@, "__m"@)
}

/// Whether some line writes to the memory.
pub open spec fn writes_memory(lines: Seq<Seq<char>>) -> bool {
    exists|i: int| 0 <= i < lines.len() && holds_text(#[trigger] lines[i], "self.mem_mut()"@)
}

pub open spec fn guard_text(writes: bool) -> Seq<char> {
    if writes {
        "    let mut __m = self.memory.bytes();"@
    } else {
        "    let __m = self.memory.bytes();"@
    }
}

/// Template lines that lock the shared bytes once, just behind the signature.
pub open spec fn guarded_lines(lines: Seq<Seq<char>>, guard: Seq<char>) -> Seq<Seq<char>>
    decreases lines.len(),
{
    if lines.len() == 0 {
        Seq::empty()
    } else {
        let more = guarded_lines(lines.drop_last(), guard).push(guarded_line(lines.last()));
        if lines.len() == 1 {
            more.push(guard)
        } else {
            more
        }
    }
}

/// The source of one helper method of a module with a shared memory.
pub open spec fn shared_source(helper: Helper) -> Seq<Seq<char>> {
    if helper == Helper::TableCopy || helper == Helper::TableFill {
        base_lines(helper)
    } else {
        guarded_lines(base_lines(helper), guard_text(writes_memory(base_lines(helper))))
    }
}

/// The accessor pair `(mem(), mem_mut())` naming linear memory `mem`: memory 0
/// keeps the plain `mem`/`mem_mut` names, while memory `i > 0` uses
/// `mem{i}`/`mem{i}_mut`.
pub fn mem_accessor(mem: u32) -> (r: (String, String))
    ensures
        r.0@ == accessor_texts(mem).0,
        r.1@ == accessor_texts(mem).1,
{
    if mem == 0 {
        (lit("mem"), lit("mem_mut"))
    } else {
        (Buf::lit("mem").n(mem as u64).end(), Buf::lit("mem").n(mem as u64).s("_mut").end())
    }
}

/// The instance method name of `helper` for linear memory `mem`: memory 0 keeps
/// the plain name (`r32`, `memory_grow`, …); memory `i > 0` appends `_m{i}` so
/// each memory owns a distinct set of helper methods (`r32_m1`, …).
pub fn helper_method_name(helper: Helper, mem: u32) -> (r: String)
    ensures
        r@ == helper_method_text(helper, mem),
{
    let base = helper_name(helper);
    if mem == 0 {
        lit(base)
    } else {
        Buf::lit(base).s("_m").n(mem as u64).end()
    }
}

/// Specialise the memory-0 template to memory `i > 0`: rename the method (the
/// helper name appears once, right after `fn `, in the signature line) and
/// retarget every `self.mem()`/`self.mem_mut()` to the `mem{i}` accessors.
/// `table_*` helpers touch no memory, so they are never emitted for `i > 0`.
pub fn specialise_helper_lines(helper: Helper, mem: u32, base: &Vec<String>) -> (r: Vec<String>)
    ensures
        texts(r@) == texts(base@).map_values(|l: Seq<char>| specialised_line(helper, mem, l)),
{
    let name = helper_name(helper);
    let (get, get_mut) = mem_accessor(mem);
    let from = Buf::lit("fn ").s(name).s("(").end();
    let to = Buf::lit("fn ").s(name).s("_m").n(mem as u64).s("(").end();
    let accessor = Buf::lit("self.").s(&get).s("()").end();
    let accessor_mut = Buf::lit("self.").s(&get_mut).s("()").end();
    proof {
        reveal_strlit("fn ");
        reveal_strlit("self.mem()");
        reveal_strlit("self.mem_mut()");
    }
    let ghost all = texts(base@);
    let mut out = Lines::new();
    let mut i: usize = 0;
    while i < base.len()
        invariant
            i <= base@.len(),
            all == texts(base@),
            from@ == ("fn "@ + helper_text(helper) + "("@),
            to@ == ("fn "@ + helper_text(helper) + "_m"@ + dec(mem as nat) + "("@),
            accessor@ == ("self."@ + accessor_texts(mem).0 + "()"@),
            accessor_mut@ == ("self."@ + accessor_texts(mem).1 + "()"@),
            from@.len() > 0,
            "self.mem_mut()"@.len() > 0,
            "self.mem()"@.len() > 0,
            out@ =~= all.map_values(|l: Seq<char>| specialised_line(helper, mem, l)).take(i as int),
        decreases base@.len() - i,
    {
        let line = replace_first(base[i].as_str(), from.as_str(), to.as_str());
        let line = replace_all(line.as_str(), "self.mem_mut()", accessor_mut.as_str());
        out.add(replace_all(line.as_str(), "self.mem()", accessor.as_str()));
        i += 1;
    }
    assert(out@ =~= all.map_values(|l: Seq<char>| specialised_line(helper, mem, l)));
    out.v
}

/// The source lines of one memory helper method for linear memory `mem`
/// (bounds-checked via indexing, so an out-of-range access panics — mirroring a
/// wasm trap).
///
/// For memory 0 the emitted text is the template itself. For memory `i > 0` the
/// method name gains an `_m{i}` suffix and the body borrows
/// `self.mem{i}()`/`self.mem{i}_mut()`, so each memory owns an independent helper
/// set.
pub fn helper_lines(helper: Helper, mem: u32) -> (r: Vec<String>)
    ensures
        texts(r@) == helper_source(helper, mem),
{
    let base = base_helper_lines(helper);
    if mem == 0 {
        return base;
    }
    specialise_helper_lines(helper, mem, &base)
}

/// The lines of one memory helper method for a `shared` module (single defined
/// memory 0 backed by a `SharedMemory`). The template references `self.mem()` /
/// `self.mem_mut()`; here the whole body must lock the shared bytes exactly once
/// (a per-access re-lock would deadlock the non-reentrant `Mutex`), so one guard
/// is bound right after the signature and replaces every `self.mem()` /
/// `self.mem_mut()`. A body that writes (`mem_mut()` appears) binds a `mut` guard;
/// a read-only body binds an immutable one. `table_*` helpers touch no memory, so
/// they are emitted verbatim.
pub fn shared_helper_lines(helper: Helper) -> (r: Vec<String>)
    ensures
        texts(r@) == shared_source(helper),
{
    let base = base_helper_lines(helper);
    if helper == Helper::TableCopy || helper == Helper::TableFill {
        return base;
    }
    let ghost all = texts(base@);
    proof {
        reveal_strlit("self.mem()");
        reveal_strlit("self.mem_mut()");
    }
    let mut writes = false;
    let mut i: usize = 0;
    while i < base.len()
        invariant
            i <= base@.len(),
            all == texts(base@),
            writes <==> exists|k: int|
                0 <= k < i && holds_text(#[trigger] all[k], "self.mem_mut()"@),
        decreases base@.len() - i,
    {
        if has_text(base[i].as_str(), "self.mem_mut()") {
            writes = true;
            assert(holds_text(all[i as int], "self.mem_mut()"@));
        }
        i += 1;
    }
    assert(writes == writes_memory(all));
    let guard = if writes {
        "    let mut __m = self.memory.bytes();"
    } else {
        "    let __m = self.memory.bytes();"
    };
    let mut out = Lines::new();
    let mut i: usize = 0;
    while i < base.len()
        invariant
            i <= base@.len(),
            all == texts(base@),
            "self.mem_mut()"@.len() > 0,
            "self.mem()"@.len() > 0,
            out@ == guarded_lines(all.take(i as int), guard@),
        decreases base@.len() - i,
    {
        assert(all.take(i + 1).drop_last() =~= all.take(i as int));
        let line = replace_all(base[i].as_str(), "self.mem_mut()", "__m");
        out.add(replace_all(line.as_str(), "self.mem()", "__m"));
        // The signature line is first; the guard is bound immediately after it,
        // before any memory access, so the lock is held for the whole body.
        if i == 0 {
            out.lit(guard);
        }
        i += 1;
    }
    assert(all.take(all.len() as int) =~= all);
    out.v
}

/// The helper methods that a module uses, each with the memory it acts on.
pub struct HelperSet {
    pub v: Vec<(Helper, u32)>,
}

impl View for HelperSet {
    type V = Set<(Helper, u32)>;

    open spec fn view(&self) -> Set<(Helper, u32)> {
        self.v@.to_set()
    }
}

impl HelperSet {
    /// No helpers.
    pub fn new() -> (r: HelperSet)
        ensures
            r@ == Set::<(Helper, u32)>::empty(),
    {
        let r = HelperSet { v: Vec::new() };
        assert(r@ =~= Set::<(Helper, u32)>::empty());
        r
    }

    /// Whether `helper` is used on memory `mem`.
    pub fn contains(&self, helper: Helper, mem: u32) -> (r: bool)
        ensures
            r == self@.contains((helper, mem)),
    {
        let mut i: usize = 0;
        while i < self.v.len()
            invariant
                i <= self.v@.len(),
                forall|k: int| 0 <= k < i ==> self.v@[k] != (helper, mem),
            decreases self.v@.len() - i,
        {
            if self.v[i].0 == helper && self.v[i].1 == mem {
                assert(self.v@[i as int] == (helper, mem));
                assert(self.v@.contains((helper, mem)));
                return true;
            }
            i += 1;
        }
        false
    }

    /// Notes that `helper` is used on memory `mem`.
    pub fn insert(&mut self, helper: Helper, mem: u32)
        ensures
            final(self)@ == old(self)@.insert((helper, mem)),
    {
        if self.contains(helper, mem) {
            assert(self@.insert((helper, mem)) =~= self@);
            return;
        }
        let ghost before = self.v@;
        self.v.push((helper, mem));
        proof {
            lemma_push_to_set(before, (helper, mem));
        }
    }

    /// Notes everything that `other` holds.
    pub fn extend(&mut self, other: &HelperSet)
        ensures
            final(self)@ == old(self)@.union(other@),
    {
        let ghost start = self@;
        let mut i: usize = 0;
        assert(self@ =~= start.union(other.v@.take(0).to_set()));
        while i < other.v.len()
            invariant
                i <= other.v@.len(),
                self@ == start.union(other.v@.take(i as int).to_set()),
            decreases other.v@.len() - i,
        {
            let (helper, mem) = other.v[i];
            self.insert(helper, mem);
            proof {
                let now = other.v@.take(i + 1);
                assert(now =~= other.v@.take(i as int).push((helper, mem)));
                lemma_push_to_set(other.v@.take(i as int), (helper, mem));
                assert(self@ =~= start.union(now.to_set()));
            }
            i += 1;
        }
        assert(other.v@.take(other.v@.len() as int) =~= other.v@);
    }
}

} // verus!
