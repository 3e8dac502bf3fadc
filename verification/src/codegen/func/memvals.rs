//! Locals, globals and linear memory.

use vstd::prelude::*;

use crate::codegen::common::{memarg_offset, offset_of};
use crate::codegen::func::numeric::lemma_drop_twice;
use crate::codegen::func::state::{gen_result, FuncGen, GenR, GenV};
use crate::codegen::helpers::{
    accessor_texts, helper_method_name, helper_method_text, mem_accessor, Helper,
};
use crate::codegen::ir::Val;
use crate::error::{no_support, same_result, unsupported, FailV, TranspileError};
use crate::ops::{AtomicWidth, RmwOp};
use crate::text::{dec, dec32, lit, Buf};
use crate::wasm::{MemArg, ValType};

verus! {

/// The new value of an atomic read-modify-write.
pub open spec fn rmw_text(op: RmwOp, old: Seq<char>, value: Seq<char>) -> Seq<char> {
    match op {
        RmwOp::Add => (old + ".wrapping_add("@ + value + ")"@),
        RmwOp::Sub => (old + ".wrapping_sub("@ + value + ")"@),
        RmwOp::And => ("("@ + old + " & "@ + value + ")"@),
        RmwOp::Or => ("("@ + old + " | "@ + value + ")"@),
        RmwOp::Xor => ("("@ + old + " ^ "@ + value + ")"@),
        RmwOp::Xchg => value,
    }
}

/// The number by which the shared memory knows a read-modify-write.
pub open spec fn rmw_code(op: RmwOp) -> nat {
    match op {
        RmwOp::Add => 0,
        RmwOp::Sub => 1,
        RmwOp::And => 2,
        RmwOp::Or => 3,
        RmwOp::Xor => 4,
        RmwOp::Xchg => 5,
    }
}

impl RmwOp {
    /// The expression for the new value, from the old one and the operand.
    pub fn combine(self, prev: &str, value: &str) -> (r: String)
        ensures
            r@ == rmw_text(self, prev@, value@),
    {
        match self {
            RmwOp::Add => Buf::lit(prev).s(".wrapping_add(").s(value).s(")").end(),
            RmwOp::Sub => Buf::lit(prev).s(".wrapping_sub(").s(value).s(")").end(),
            RmwOp::And => Buf::lit("(").s(prev).s(" & ").s(value).s(")").end(),
            RmwOp::Or => Buf::lit("(").s(prev).s(" | ").s(value).s(")").end(),
            RmwOp::Xor => Buf::lit("(").s(prev).s(" ^ ").s(value).s(")").end(),
            RmwOp::Xchg => lit(value),
        }
    }

    /// The number by which the shared memory knows this operation.
    pub fn op_code(self) -> (r: u32)
        ensures
            r as nat == rmw_code(self),
    {
        match self {
            RmwOp::Add => 0,
            RmwOp::Sub => 1,
            RmwOp::And => 2,
            RmwOp::Or => 3,
            RmwOp::Xor => 4,
            RmwOp::Xchg => 5,
        }
    }
}

impl AtomicWidth {
    /// The helper that loads the cell.
    pub open spec fn load(self) -> Helper {
        match self {
            AtomicWidth::I32 => Helper::LoadI32,
            AtomicWidth::I32As8 => Helper::Load8U,
            AtomicWidth::I32As16 => Helper::Load16U,
            AtomicWidth::I64 => Helper::LoadI64,
            AtomicWidth::I64As8 => Helper::Load8UI64,
            AtomicWidth::I64As16 => Helper::Load16UI64,
            AtomicWidth::I64As32 => Helper::Load32UI64,
        }
    }

    /// The helper that stores the cell.
    pub open spec fn store(self) -> Helper {
        match self {
            AtomicWidth::I32 => Helper::StoreI32,
            AtomicWidth::I32As8 => Helper::Store8,
            AtomicWidth::I32As16 => Helper::Store16,
            AtomicWidth::I64 => Helper::StoreI64,
            AtomicWidth::I64As8 => Helper::Store8I64,
            AtomicWidth::I64As16 => Helper::Store16I64,
            AtomicWidth::I64As32 => Helper::Store32I64,
        }
    }

    /// The type of the value.
    pub open spec fn ty(self) -> ValType {
        match self {
            AtomicWidth::I32 => ValType::I32,
            AtomicWidth::I32As8 => ValType::I32,
            AtomicWidth::I32As16 => ValType::I32,
            _ => ValType::I64,
        }
    }

    /// The low bits of a narrow cell.
    pub open spec fn mask(self) -> Option<Seq<char>> {
        match self {
            AtomicWidth::I32 => None,
            AtomicWidth::I32As8 => Some("0xFF"@),
            AtomicWidth::I32As16 => Some("0xFFFF"@),
            AtomicWidth::I64 => None,
            AtomicWidth::I64As8 => Some("0xFF"@),
            AtomicWidth::I64As16 => Some("0xFFFF"@),
            AtomicWidth::I64As32 => Some("0xFFFF_FFFF"@),
        }
    }

    /// The number of bytes in the cell.
    pub open spec fn bytes(self) -> u32 {
        match self {
            AtomicWidth::I32 => 4,
            AtomicWidth::I32As8 => 1,
            AtomicWidth::I32As16 => 2,
            AtomicWidth::I64 => 8,
            AtomicWidth::I64As8 => 1,
            AtomicWidth::I64As16 => 2,
            AtomicWidth::I64As32 => 4,
        }
    }

    /// `(load helper, store helper, result type, narrow mask)`. The mask is
    /// `None` for a full-width access (compare directly) and the width's low-bit
    /// mask for a narrow one.
    pub fn parts(self) -> (r: (Helper, Helper, ValType, Option<&'static str>))
        ensures
            r.0 == self.load(),
            r.1 == self.store(),
            r.2 == self.ty(),
            match self.mask() {
                Some(m) => r.3 is Some && r.3->0@ == m,
                None => r.3 is None,
            },
    {
        match self {
            AtomicWidth::I32 => (Helper::LoadI32, Helper::StoreI32, ValType::I32, None),
            AtomicWidth::I32As8 => (Helper::Load8U, Helper::Store8, ValType::I32, Some("0xFF")),
            AtomicWidth::I32As16 => (
                Helper::Load16U,
                Helper::Store16,
                ValType::I32,
                Some("0xFFFF"),
            ),
            AtomicWidth::I64 => (Helper::LoadI64, Helper::StoreI64, ValType::I64, None),
            AtomicWidth::I64As8 => (
                Helper::Load8UI64,
                Helper::Store8I64,
                ValType::I64,
                Some("0xFF"),
            ),
            AtomicWidth::I64As16 => (
                Helper::Load16UI64,
                Helper::Store16I64,
                ValType::I64,
                Some("0xFFFF"),
            ),
            AtomicWidth::I64As32 => (
                Helper::Load32UI64,
                Helper::Store32I64,
                ValType::I64,
                Some("0xFFFF_FFFF"),
            ),
        }
    }

    /// The number of bytes in the cell.
    pub fn byte_width(self) -> (r: u32)
        ensures
            r == self.bytes(),
    {
        match self {
            AtomicWidth::I32 => 4,
            AtomicWidth::I32As8 => 1,
            AtomicWidth::I32As16 => 2,
            AtomicWidth::I64 => 8,
            AtomicWidth::I64As8 => 1,
            AtomicWidth::I64As16 => 2,
            AtomicWidth::I64As32 => 4,
        }
    }
}

/// The Rust integer type an atomic RMW/cmpxchg result is cast to on the shared
/// path.
pub open spec fn shared_result_text(ty: ValType) -> Seq<char> {
    match ty {
        ValType::I32 => "i32"@,
        _ => "i64"@,
    }
}

/// The Rust integer type an atomic RMW/cmpxchg result is cast to on the shared
/// path. An atomic access is always over an i32- or i64-typed cell; any other
/// type is unreachable here (validation rejects it), so it falls back to `i64`.
pub fn shared_result_ty(ty: ValType) -> (r: &'static str)
    ensures
        r@ == shared_result_text(ty),
{
    match ty {
        ValType::I32 => "i32",
        _ => "i64",
    }
}

impl GenV {
    pub open spec fn local_store(self, local_index: u32, keep: bool) -> GenR {
        if keep {
            match self.spilled() {
                Err(e) => Err(e),
                Ok(s) => if !s.has(1) {
                    Err(FailV::StackUnderflow)
                } else {
                    Ok(s.line(("l"@ + dec(local_index as nat) + " = "@ + s.top().code + ";"@)))
                },
            }
        } else {
            match self.survivors_frozen(1) {
                Err(e) => Err(e),
                Ok(s) => if !s.has(1) {
                    Err(FailV::StackUnderflow)
                } else {
                    Ok(s.drop(1).line(("l"@ + dec(local_index as nat) + " = "@ + s.top().code
                        + ";"@)))
                },
            }
        }
    }

    /// The type of a local.
    pub open spec fn local_ty(self, local_index: u32) -> Result<ValType, FailV> {
        if local_index < self.local_types.len() {
            Ok(self.local_types[local_index as int])
        } else {
            Err(unsupported("local index out of range"@))
        }
    }

    pub open spec fn local_get(self, local_index: u32) -> GenR {
        match self.local_ty(local_index) {
            Err(e) => Err(e),
            Ok(ty) => Ok(
                self.push(("l"@
                    + dec(local_index as nat)), ty, !self.mutable_locals.contains(local_index)),
            ),
        }
    }

    /// A global's type, whether it is mutable, and whether the host owns it.
    pub open spec fn global(self, global_index: u32) -> Result<(ValType, bool, bool), FailV> {
        let n = self.ctx.imported_globals.len();
        if global_index < n {
            let g = self.ctx.imported_globals[global_index as int];
            Ok((g.0, g.1, true))
        } else if global_index - n < self.ctx.globals.len() {
            let g = self.ctx.globals[global_index - n];
            Ok((g.0, g.1, false))
        } else {
            Err(unsupported("global index out of range"@))
        }
    }

    pub open spec fn global_get(self, global_index: u32) -> GenR {
        match self.global(global_index) {
            Err(e) => Err(e),
            Ok((ty, mutable, imported)) => Ok(
                if imported {
                    self.push(("self.imports.get_global"@ + dec(global_index as nat)
                        + "()"@), ty, false)
                } else {
                    self.push(("self.g"@ + dec(global_index as nat)), ty, !mutable)
                },
            ),
        }
    }

    pub open spec fn global_set(self, global_index: u32) -> GenR {
        match self.global(global_index) {
            Err(e) => Err(e),
            Ok((_, mutable, imported)) => if !mutable {
                Err(unsupported("set of immutable global"@))
            } else {
                match self.survivors_frozen(1) {
                    Err(e) => Err(e),
                    Ok(s) => if !s.has(1) {
                        Err(FailV::StackUnderflow)
                    } else {
                        Ok(
                            s.drop(1).line(
                                if imported {
                                    ("self.imports.set_global"@ + dec(global_index as nat) + "("@
                                        + s.top().code + ");"@)
                                } else {
                                    ("self.g"@ + dec(global_index as nat) + " = "@ + s.top().code
                                        + ";"@)
                                },
                            ),
                        )
                    },
                }
            },
        }
    }

    /// Whether memory `mem` can be accessed.
    pub open spec fn memory_fault(self, mem: u32) -> Option<FailV> {
        if !self.ctx.has_memory {
            Some(unsupported("memory instruction without a memory section"@))
        } else if mem >= self.ctx.n_memories {
            Some(unsupported("memory instruction with an out-of-range memory index"@))
        } else {
            None
        }
    }

    /// The offset of a memory access that can be made.
    pub open spec fn access(self, memarg: MemArg) -> Result<u32, FailV> {
        match self.memory_fault(memarg.memory) {
            Some(e) => Err(e),
            None => offset_of(memarg),
        }
    }

    pub open spec fn load(self, helper: Helper, ty: ValType, memarg: MemArg) -> GenR {
        match self.access(memarg) {
            Err(e) => Err(e),
            Ok(offset) => if !self.has(1) {
                Err(FailV::StackUnderflow)
            } else {
                self.drop(1).using_helper(helper, memarg.memory).combined(
                    ("self."@ + helper_method_text(helper, memarg.memory) + "("@ + self.top().code
                        + ", "@ + dec(offset as nat) + "u32)"@),
                    ty,
                    false,
                )
            },
        }
    }

    pub open spec fn store(self, helper: Helper, memarg: MemArg) -> GenR {
        match self.access(memarg) {
            Err(e) => Err(e),
            Ok(offset) => match self.survivors_frozen(2) {
                Err(e) => Err(e),
                Ok(s) => if !s.has(2) {
                    Err(FailV::StackUnderflow)
                } else {
                    Ok(
                        s.drop(2).using_helper(helper, memarg.memory).line(
                            ("self."@ + helper_method_text(helper, memarg.memory) + "("@
                                + s.below(1).code + ", "@ + dec(offset as nat) + "u32, "@
                                + s.top().code + ");"@),
                        ),
                    )
                },
            },
        }
    }

    pub open spec fn load_lane(self, helper: Helper, memarg: MemArg, lane: u8) -> GenR {
        match self.access(memarg) {
            Err(e) => Err(e),
            Ok(offset) => if !self.has(2) {
                Err(FailV::StackUnderflow)
            } else {
                self.drop(2).using_helper(helper, memarg.memory).combined(
                    ("self."@ + helper_method_text(helper, memarg.memory) + "("@
                        + self.below(1).code + ", "@ + dec(offset as nat) + "u32, "@
                        + self.top().code + ", "@ + dec(lane as nat) + ")"@),
                    ValType::V128,
                    false,
                )
            },
        }
    }

    pub open spec fn store_lane(self, helper: Helper, memarg: MemArg, lane: u8) -> GenR {
        match self.access(memarg) {
            Err(e) => Err(e),
            Ok(offset) => match self.survivors_frozen(2) {
                Err(e) => Err(e),
                Ok(s) => if !s.has(2) {
                    Err(FailV::StackUnderflow)
                } else {
                    Ok(
                        s.drop(2).using_helper(helper, memarg.memory).line(
                            ("self."@ + helper_method_text(helper, memarg.memory) + "("@
                                + s.below(1).code + ", "@ + dec(offset as nat) + "u32, "@
                                + s.top().code + ", "@ + dec(lane as nat) + ");"@),
                        ),
                    )
                },
            },
        }
    }

    /// A statement that binds the next temporary, which is then pushed.
    pub open spec fn bound(self, before: Seq<char>, ty: ValType) -> GenV {
        self.temp_taken().line(before).push(self.temp(), ty, true)
    }

    /// The address of an atomic access and the old value bound to temporaries; the
    /// state before the new value is stored.
    pub open spec fn atomic_loaded(
        self,
        width: AtomicWidth,
        mem: u32,
        offset: u32,
        addr: Seq<char>,
    ) -> GenV {
        let s1 = self.using_helper(width.load(), mem).using_helper(width.store(), mem);
        let s2 = s1.temp_taken().line(("let "@ + s1.temp() + ": i32 = "@ + addr + ";"@));
        s2.temp_taken().line(
            ("let "@ + s2.temp() + " = self."@ + helper_method_text(width.load(), mem) + "("@
                + s1.temp() + ", "@ + dec(offset as nat) + "u32);"@),
        )
    }

    pub open spec fn atomic_rmw(self, width: AtomicWidth, op: RmwOp, memarg: MemArg) -> GenR {
        match self.access(memarg) {
            Err(e) => Err(e),
            Ok(offset) => match self.spilled() {
                Err(e) => Err(e),
                Ok(t) => if !t.has(2) {
                    Err(FailV::StackUnderflow)
                } else {
                    let value = t.top().code;
                    let addr = t.below(1).code;
                    let s = t.drop(2);
                    if s.ctx.memory_shared {
                        Ok(
                            s.bound(
                                ("let "@ + s.temp() + " = self.memory.atomic_rmw(("@ + addr
                                    + ") as u32 as usize + "@ + dec(offset as nat) + "usize, "@
                                    + dec(width.bytes() as nat) + ", "@ + dec(rmw_code(op) as nat)
                                    + ", ("@ + value + ") as u64) as "@
                                    + shared_result_text(width.ty()) + ";"@),
                                width.ty(),
                            ),
                        )
                    } else {
                        let at = s.temp();
                        let old_var = s.temp_taken().temp();
                        Ok(
                            s.atomic_loaded(width, memarg.memory, offset, addr).line(
                                ("self."@ + helper_method_text(width.store(), memarg.memory) + "("@
                                    + at + ", "@ + dec(offset as nat) + "u32, "@
                                    + rmw_text(op, old_var, value) + ");"@),
                            ).push(old_var, width.ty(), true),
                        )
                    }
                },
            },
        }
    }

    pub open spec fn atomic_cmpxchg(self, width: AtomicWidth, memarg: MemArg) -> GenR {
        match self.access(memarg) {
            Err(e) => Err(e),
            Ok(offset) => match self.spilled() {
                Err(e) => Err(e),
                Ok(t) => if !t.has(3) {
                    Err(FailV::StackUnderflow)
                } else {
                    let replacement = t.top().code;
                    let expected = t.below(1).code;
                    let addr = t.below(2).code;
                    let s = t.drop(3);
                    if s.ctx.memory_shared {
                        Ok(
                            s.bound(
                                ("let "@ + s.temp() + " = self.memory.atomic_cmpxchg(("@ + addr
                                    + ") as u32 as usize + "@ + dec32(offset) + "usize, "@
                                    + dec32(width.bytes()) + ", ("@ + expected + ") as u64, ("@
                                    + replacement + ") as u64) as "@
                                    + shared_result_text(width.ty()) + ";"@),
                                width.ty(),
                            ),
                        )
                    } else {
                        let at = s.temp();
                        let old_var = s.temp_taken().temp();
                        let test = match width.mask() {
                            Some(mask) => (old_var + " == (("@ + expected + ") & "@ + mask + ")"@),
                            None => (old_var + " == ("@ + expected + ")"@),
                        };
                        Ok(
                            s.atomic_loaded(width, memarg.memory, offset, addr).line(
                                ("if "@ + test + " { self."@
                                    + helper_method_text(width.store(), memarg.memory) + "("@ + at
                                    + ", "@ + dec32(offset) + "u32, "@ + replacement + "); }"@),
                            ).push(old_var, width.ty(), true),
                        )
                    }
                },
            },
        }
    }

    pub open spec fn atomic_notify(self, memarg: MemArg) -> GenR {
        match self.access(memarg) {
            Err(e) => Err(e),
            Ok(offset) => if self.ctx.memory_shared {
                match self.spilled() {
                    Err(e) => Err(e),
                    Ok(t) => if !t.has(2) {
                        Err(FailV::StackUnderflow)
                    } else {
                        let s = t.drop(2);
                        Ok(
                            s.bound(
                                ("let "@ + s.temp() + ": i32 = self.memory.notify(("@
                                    + t.below(1).code + ") as u32 + "@ + dec(offset as nat)
                                    + "u32, ("@ + t.top().code + ") as u32) as i32;"@),
                                ValType::I32,
                            ),
                        )
                    },
                }
            } else if !self.has(2) {
                Err(FailV::StackUnderflow)
            } else {
                Ok(self.drop(2).push("0i32"@, ValType::I32, true))
            },
        }
    }

    /// `byte` is the width of the cell that is waited on.
    pub open spec fn atomic_wait(self, load: Helper, memarg: MemArg) -> GenR {
        match self.access(memarg) {
            Err(e) => Err(e),
            Ok(offset) => if self.ctx.memory_shared {
                let byte: nat = if load == Helper::LoadI64 {
                    8
                } else {
                    4
                };
                match self.spilled() {
                    Err(e) => Err(e),
                    Ok(t) => if !t.has(3) {
                        Err(FailV::StackUnderflow)
                    } else {
                        let s = t.drop(3);
                        Ok(
                            s.bound(
                                ("let "@ + s.temp() + ": i32 = self.memory.wait(("@
                                    + t.below(2).code + ") as u32 + "@ + dec(offset as nat)
                                    + "u32, ("@ + t.below(1).code + ") as u64, "@
                                    + dec(byte as nat) + ", ("@ + t.top().code + ") as i64);"@),
                                ValType::I32,
                            ),
                        )
                    },
                }
            } else if !self.has(3) {
                Err(FailV::StackUnderflow)
            } else {
                let s = self.drop(3).using_helper(load, memarg.memory);
                Ok(
                    s.bound(
                        ("let "@ + s.temp() + ": i32 = if self."@
                            + helper_method_text(load, memarg.memory) + "("@ + self.below(2).code
                            + ", "@ + dec(offset as nat) + "u32) != ("@ + self.below(1).code
                            + ") { 1 } else { panic!(\"atomic.wait on a single-threaded instance would block forever\") };"@),
                        ValType::I32,
                    ),
                )
            },
        }
    }

    pub open spec fn memory_size(self, mem: u32) -> GenR {
        match self.memory_fault(mem) {
            Some(e) => Err(e),
            None => Ok(
                self.bound(
                    if self.ctx.memory_shared {
                        ("let "@ + self.temp()
                            + ": i32 = (self.memory.bytes().len() / 65536) as i32;"@)
                    } else {
                        ("let "@ + self.temp() + ": i32 = (self."@ + accessor_texts(mem).0
                            + "().len() / 65536) as i32;"@)
                    },
                    ValType::I32,
                ),
            ),
        }
    }

    pub open spec fn memory_grow(self, mem: u32) -> GenR {
        match self.memory_fault(mem) {
            Some(e) => Err(e),
            None => match self.spilled() {
                Err(e) => Err(e),
                Ok(t) => if !t.has(1) {
                    Err(FailV::StackUnderflow)
                } else {
                    let s = t.drop(1).using_helper(Helper::Grow, mem);
                    Ok(
                        s.bound(
                            ("let "@ + s.temp() + ": i32 = self."@
                                + helper_method_text(Helper::Grow, mem) + "("@ + t.top().code
                                + ");"@),
                            ValType::I32,
                        ),
                    )
                },
            },
        }
    }

    /// The state before the three operands of a bulk operation are taken.
    pub open spec fn bulk(self) -> GenR {
        match self.spilled() {
            Err(e) => Err(e),
            Ok(s) => if !s.has(3) {
                Err(FailV::StackUnderflow)
            } else {
                Ok(s)
            },
        }
    }

    pub open spec fn memory_fill(self, mem: u32) -> GenR {
        match self.memory_fault(mem) {
            Some(e) => Err(e),
            None => match self.bulk() {
                Err(e) => Err(e),
                Ok(s) => Ok(
                    s.drop(3).using_helper(Helper::MemoryFill, mem).line(
                        ("self."@ + helper_method_text(Helper::MemoryFill, mem) + "(("@
                            + s.below(2).code + ") as u32, "@ + s.below(1).code + ", ("@
                            + s.top().code + ") as u32);"@),
                    ),
                ),
            },
        }
    }

    pub open spec fn memory_copy(self, dst_mem: u32, src_mem: u32) -> GenR {
        match self.memory_fault(dst_mem) {
            Some(e) => Err(e),
            None => match self.memory_fault(src_mem) {
                Some(e) => Err(e),
                None => match self.bulk() {
                    Err(e) => Err(e),
                    Ok(s) => if dst_mem == src_mem {
                        Ok(
                            s.drop(3).using_helper(Helper::MemoryCopy, dst_mem).line(
                                ("self."@ + helper_method_text(Helper::MemoryCopy, dst_mem) + "(("@
                                    + s.below(2).code + ") as u32, ("@ + s.below(1).code
                                    + ") as u32, ("@ + s.top().code + ") as u32);"@),
                            ),
                        )
                    } else {
                        Ok(
                            s.drop(3).line(
                                ("{ let s = ("@ + s.below(1).code + ") as usize; let d = ("@
                                    + s.below(2).code + ") as usize; let n = ("@ + s.top().code
                                    + ") as usize; let seg = self."@ + accessor_texts(src_mem).0
                                    + "()[s..s + n].to_vec(); self."@ + accessor_texts(dst_mem).1
                                    + "()[d..d + n].copy_from_slice(&seg); }"@),
                            ),
                        )
                    },
                },
            },
        }
    }
}

impl<'a> FuncGen<'a> {
    /// `local.set` (`keep` false) or `local.tee`.
    pub fn local_store(&mut self, local_index: u32, keep: bool) -> (r: Result<(), TranspileError>)
        requires
            old(self).wf(),
        ensures
            gen_result(r, final(self)@, old(self)@.local_store(local_index, keep)),
            r is Ok ==> final(self).wf(),
    {
        // Fix any operand that reads a mutable local before we overwrite it.
        // `local.set` consumes the value here, so inline it and freeze only the
        // survivors below. `local.tee` leaves the value on the stack, so it must
        // itself be frozen (a later use must not observe the overwritten local).
        if keep {
            self.spill_nonstable()?;
            let code = self.top_code()?;
            self.line(Buf::lit("l").n(local_index as u64).s(" = ").s(&code).s(";").end());
        } else {
            self.freeze_survivors(1)?;
            let value = self.pop()?;
            self.line(Buf::lit("l").n(local_index as u64).s(" = ").s(&value.code).s(";").end());
        }
        Ok(())
    }

    /// `local.get`.
    pub fn local_get(&mut self, local_index: u32) -> (r: Result<(), TranspileError>)
        requires
            old(self).wf(),
        ensures
            gen_result(r, final(self)@, old(self)@.local_get(local_index)),
            r is Ok ==> final(self).wf(),
    {
        let ty = self.local_ty(local_index)?;
        let stable = !self.is_mutable_local(local_index);
        self.push(Buf::lit("l").n(local_index as u64).end(), ty, stable);
        Ok(())
    }

    /// Resolve a global index to `(type, mutable, imported)`, spanning imported
    /// globals (the low indices) then defined globals. `imported` is true when
    /// the global is host-backed.
    pub fn global(&self, global_index: u32) -> (r: Result<(ValType, bool, bool), TranspileError>)
        ensures
            same_result(r, self@.global(global_index)),
    {
        let ctx = self.context();
        let n: usize = ctx.imported_globals.len();
        let idx: usize = global_index as usize;
        if idx < n {
            let (ty, mutable) = ctx.imported_globals[idx];
            Ok((ty, mutable, true))
        } else if idx - n < ctx.globals.len() {
            let (ty, mutable) = ctx.globals[idx - n];
            Ok((ty, mutable, false))
        } else {
            Err(no_support("global index out of range"))
        }
    }

    /// `global.get`.
    pub fn global_get(&mut self, global_index: u32) -> (r: Result<(), TranspileError>)
        requires
            old(self).wf(),
        ensures
            gen_result(r, final(self)@, old(self)@.global_get(global_index)),
            r is Ok ==> final(self).wf(),
    {
        let (ty, mutable, imported) = self.global(global_index)?;
        // An imported global is fetched from the host and is always unstable (a
        // host getter should not be re-evaluated, so it is materialised when it
        // matters); a defined one is a field, unstable only when mutable.
        if imported {
            self.push(Buf::lit("self.imports.get_global").n(global_index as u64).s("()")
                .end(), ty, false);
        } else {
            self.push(Buf::lit("self.g").n(global_index as u64).end(), ty, !mutable);
        }
        Ok(())
    }

    /// `global.set`.
    pub fn global_set(&mut self, global_index: u32) -> (r: Result<(), TranspileError>)
        requires
            old(self).wf(),
        ensures
            gen_result(r, final(self)@, old(self)@.global_set(global_index)),
            r is Ok ==> final(self).wf(),
    {
        let (_, mutable, imported) = self.global(global_index)?;
        if !mutable {
            return Err(no_support("set of immutable global"));
        }
        // The value is consumed here, so inline it; freeze only the survivors
        // below it against this store's effect on the global.
        self.freeze_survivors(1)?;
        let value = self.pop()?;
        if imported {
            self.line(Buf::lit("self.imports.set_global").n(global_index as u64).s("(")
                .s(&value.code).s(");").end());
        } else {
            self.line(Buf::lit("self.g").n(global_index as u64).s(" = ").s(&value.code).s(";")
                .end());
        }
        Ok(())
    }

    /// Require a linear memory.
    pub fn require_memory(&self) -> (r: Result<(), TranspileError>)
        ensures
            if self@.ctx.has_memory {
                r is Ok
            } else {
                r is Err && r->Err_0@ == unsupported(
                    "memory instruction without a memory section"@,
                )
            },
    {
        if self.context().has_memory {
            Ok(())
        } else {
            Err(no_support("memory instruction without a memory section"))
        }
    }

    /// Require a table.
    pub fn require_table(&self) -> (r: Result<(), TranspileError>)
        ensures
            if self@.ctx.has_table {
                r is Ok
            } else {
                r is Err && r->Err_0@ == unsupported("table instruction without a table section"@)
            },
    {
        if self.context().has_table {
            Ok(())
        } else {
            Err(no_support("table instruction without a table section"))
        }
    }

    /// Require that a bulk-table operand references table 0, the only one
    /// supported until multi-table lands. (Memory operands are validated by
    /// [`Self::require_memory_index`] instead, since multi-memory is supported.)
    pub fn require_zero_index(&self, index: u32, what: &str) -> (r: Result<(), TranspileError>)
        ensures
            if index == 0 {
                r is Ok
            } else {
                r is Err && r->Err_0@ == unsupported((what@ + " on a non-zero index"@))
            },
    {
        if index == 0 {
            Ok(())
        } else {
            Err(TranspileError::Unsupported(Buf::lit(what).s(" on a non-zero index").end()))
        }
    }

    /// Require that `mem` names a declared linear memory, returning it so a
    /// caller can select the memory-specific accessor/helper. Rejects an
    /// out-of-range index (a validation failure the emitted code cannot express).
    pub fn require_memory_index(&self, mem: u32) -> (r: Result<u32, TranspileError>)
        ensures
            if mem < self@.ctx.n_memories {
                r is Ok && r->Ok_0 == mem
            } else {
                r is Err && r->Err_0@ == unsupported(
                    "memory instruction with an out-of-range memory index"@,
                )
            },
    {
        if (mem as usize) < self.context().n_memories {
            Ok(mem)
        } else {
            Err(no_support("memory instruction with an out-of-range memory index"))
        }
    }

    /// Require that a memory access can be made; returns its offset.
    fn require_access(&self, memarg: MemArg) -> (r: Result<u32, TranspileError>)
        ensures
            same_result(r, self@.access(memarg)),
    {
        self.require_memory()?;
        let _mem: u32 = self.require_memory_index(memarg.memory)?;
        memarg_offset(memarg)
    }

    /// A load.
    pub fn load(&mut self, helper: Helper, ty: ValType, memarg: MemArg) -> (r: Result<
        (),
        TranspileError,
    >)
        requires
            old(self).wf(),
        ensures
            gen_result(r, final(self)@, old(self)@.load(helper, ty, memarg)),
            r is Ok ==> final(self).wf(),
    {
        let offset: u32 = self.require_access(memarg)?;
        let addr = self.pop()?;
        let method = helper_method_name(helper, memarg.memory);
        self.use_helper(helper, memarg.memory);
        // The result depends on memory contents, which a store can change, so
        // it is never stable.
        self.push_combined(Buf::lit("self.").s(&method).s("(").s(&addr.code).s(", ")
            .n(offset as u64).s("u32)").end(), ty, false)
    }

    /// A store.
    pub fn store(&mut self, helper: Helper, memarg: MemArg) -> (r: Result<(), TranspileError>)
        requires
            old(self).wf(),
        ensures
            gen_result(r, final(self)@, old(self)@.store(helper, memarg)),
            r is Ok ==> final(self).wf(),
    {
        let offset: u32 = self.require_access(memarg)?;
        // Memory is about to change; fix any operand that reads from it. The
        // address and value are consumed here, so inline them and freeze only
        // the survivors below.
        self.freeze_survivors(2)?;
        let (addr, value) = self.pop2()?;
        let method = helper_method_name(helper, memarg.memory);
        self.use_helper(helper, memarg.memory);
        self.line(Buf::lit("self.").s(&method).s("(").s(&addr.code).s(", ").n(offset as u64)
            .s("u32, ").s(&value.code).s(");").end());
        Ok(())
    }

    /// `v128.load*_lane`: read one element from memory into lane `lane` of the
    /// v128 on the stack, leaving the other lanes intact. Pops the vector (on
    /// top) then the address, and pushes the updated vector.
    pub fn load_lane(&mut self, helper: Helper, memarg: MemArg, lane: u8) -> (r: Result<
        (),
        TranspileError,
    >)
        requires
            old(self).wf(),
        ensures
            gen_result(r, final(self)@, old(self)@.load_lane(helper, memarg, lane)),
            r is Ok ==> final(self).wf(),
    {
        let offset: u32 = self.require_access(memarg)?;
        let (addr, value) = self.pop2()?;
        let method = helper_method_name(helper, memarg.memory);
        self.use_helper(helper, memarg.memory);
        // The result reads memory, which a store can change, so it is never stable.
        self.push_combined(
            Buf::lit("self.").s(&method).s("(").s(&addr.code).s(", ").n(offset as u64).s("u32, ")
                .s(&value.code).s(", ").n(lane as u64).s(")").end(),
            ValType::V128,
            false,
        )
    }

    /// `v128.store*_lane`: write lane `lane` of the v128 on the stack to memory.
    /// Pops the vector (on top) then the address, and pushes nothing.
    pub fn store_lane(&mut self, helper: Helper, memarg: MemArg, lane: u8) -> (r: Result<
        (),
        TranspileError,
    >)
        requires
            old(self).wf(),
        ensures
            gen_result(r, final(self)@, old(self)@.store_lane(helper, memarg, lane)),
            r is Ok ==> final(self).wf(),
    {
        let offset: u32 = self.require_access(memarg)?;
        // Memory is about to change; fix any operand that reads from it. The
        // address and value are consumed here, so inline them and freeze only
        // the survivors below.
        self.freeze_survivors(2)?;
        let (addr, value) = self.pop2()?;
        let method = helper_method_name(helper, memarg.memory);
        self.use_helper(helper, memarg.memory);
        self.line(Buf::lit("self.").s(&method).s("(").s(&addr.code).s(", ").n(offset as u64)
            .s("u32, ").s(&value.code).s(", ").n(lane as u64).s(");").end());
        Ok(())
    }

    /// Binds the address of an atomic access and loads the old value; returns the
    /// two temporaries.
    fn atomic_load(&mut self, width: AtomicWidth, mem: u32, offset: u32, addr: &str) -> (r: (
        String,
        String,
    ))
        requires
            old(self).wf(),
        ensures
            final(self)@ == old(self)@.atomic_loaded(width, mem, offset, addr@),
            r.0@ == old(self)@.temp(),
            r.1@ == old(self)@.temp_taken().temp(),
            final(self).wf(),
    {
        let (load, store, _, _) = width.parts();
        self.use_helper(load, mem);
        self.use_helper(store, mem);
        // `addr` feeds both the load and the store, so bind it once.
        let addr_tmp = self.fresh_temp();
        self.line(Buf::lit("let ").s(&addr_tmp).s(": i32 = ").s(addr).s(";").end());
        let prev = self.fresh_temp();
        let method = helper_method_name(load, mem);
        self.line(Buf::lit("let ").s(&prev).s(" = self.").s(&method).s("(").s(&addr_tmp).s(", ")
            .n(offset as u64).s("u32);").end());
        (addr_tmp, prev)
    }

    /// Lower an atomic read-modify-write. The instance owns its memory, so this
    /// is a plain load of the old value, a `combine` with the operand, and a
    /// store of the result; the (zero-extended) old value is pushed. `load` reads
    /// the access width (zero-extending for narrow widths) and `store` truncates.
    pub fn atomic_rmw(&mut self, width: AtomicWidth, op: RmwOp, memarg: MemArg) -> (r: Result<
        (),
        TranspileError,
    >)
        requires
            old(self).wf(),
        ensures
            gen_result(r, final(self)@, old(self)@.atomic_rmw(width, op, memarg)),
            r is Ok ==> final(self).wf(),
    {
        let offset: u32 = self.require_access(memarg)?;
        let (_, store, ty, _) = width.parts();
        // Memory is about to change; fix any operand that reads from it.
        self.spill_nonstable()?;
        let (addr, value) = self.pop2()?;
        if self.context().memory_shared {
            // A shared memory does the whole read-modify-write in one critical
            // section (`SharedMemory::atomic_rmw`), so it is atomic across
            // threads; the runtime masks the operand and zero-extends the old
            // value. No load/store helper is used on this path.
            let byte: u32 = width.byte_width();
            let code: u32 = op.op_code();
            let rust_ty = shared_result_ty(ty);
            let prev = self.fresh_temp();
            self.line(
                Buf::lit("let ").s(&prev).s(" = self.memory.atomic_rmw((").s(&addr.code)
                    .s(") as u32 as usize + ").n(offset as u64).s("usize, ").n(byte as u64).s(", ")
                    .n(code as u64).s(", (").s(&value.code).s(") as u64) as ").s(rust_ty).s(";")
                    .end(),
            );
            self.push(prev, ty, true);
            return Ok(());
        }
        let (addr_tmp, prev) = self.atomic_load(width, memarg.memory, offset, addr.code.as_str());
        let new = op.combine(prev.as_str(), value.code.as_str());
        let method = helper_method_name(store, memarg.memory);
        self.line(Buf::lit("self.").s(&method).s("(").s(&addr_tmp).s(", ").n(offset as u64)
            .s("u32, ").s(&new).s(");").end());
        // The old value is a snapshot, so it never changes once bound.
        self.push(prev, ty, true);
        Ok(())
    }

    /// Lower an atomic compare-exchange. Pops (addr, expected, replacement),
    /// stores `replacement` only when the loaded value equals `expected`, and
    /// pushes the (zero-extended) old value. For a narrow width, the width's
    /// low-bit mask makes the comparison ignore the operand's high bits (the spec
    /// compares at the access width); a full width compares directly.
    pub fn atomic_cmpxchg(&mut self, width: AtomicWidth, memarg: MemArg) -> (r: Result<
        (),
        TranspileError,
    >)
        requires
            old(self).wf(),
        ensures
            gen_result(r, final(self)@, old(self)@.atomic_cmpxchg(width, memarg)),
            r is Ok ==> final(self).wf(),
    {
        let offset: u32 = self.require_access(memarg)?;
        let (_, store, ty, mask) = width.parts();
        // Memory may change; fix any operand that reads from it.
        self.spill_nonstable()?;
        let ghost t = self@;
        let replacement = self.pop()?;
        let (addr, expected) = self.pop2()?;
        proof {
            lemma_drop_twice(t, 1, 2);
        }
        if self.context().memory_shared {
            // One critical section compares at the access width (the runtime
            // masks `expected`) and stores `replacement` only on a match,
            // returning the zero-extended old value either way.
            let byte: u32 = width.byte_width();
            let rust_ty = shared_result_ty(ty);
            let prev = self.fresh_temp();
            self.line(
                Buf::lit("let ").s(&prev).s(" = self.memory.atomic_cmpxchg((").s(&addr.code)
                    .s(") as u32 as usize + ").n32(offset).s("usize, ").n32(byte).s(", (")
                    .s(&expected.code).s(") as u64, (").s(&replacement.code).s(") as u64) as ")
                    .s(rust_ty).s(";").end(),
            );
            self.push(prev, ty, true);
            return Ok(());
        }
        let (addr_tmp, prev) = self.atomic_load(width, memarg.memory, offset, addr.code.as_str());
        let test = match mask {
            Some(mask) => Buf::lit(&prev).s(" == ((").s(&expected.code).s(") & ").s(mask).s(")")
                .end(),
            None => Buf::lit(&prev).s(" == (").s(&expected.code).s(")").end(),
        };
        let method = helper_method_name(store, memarg.memory);
        self.line(
            Buf::lit("if ").s(&test).s(" { self.").s(&method).s("(").s(&addr_tmp).s(", ")
                .n32(offset).s("u32, ").s(&replacement.code).s("); }").end(),
        );
        // The old value is a snapshot, so it never changes once bound.
        self.push(prev, ty, true);
        Ok(())
    }

    /// Lower `memory.atomic.notify`. It pops (addr, count) and pushes the number
    /// of woken waiters — always 0 on a single instance, which has no waiters.
    pub fn atomic_notify(&mut self, memarg: MemArg) -> (r: Result<(), TranspileError>)
        requires
            old(self).wf(),
        ensures
            gen_result(r, final(self)@, old(self)@.atomic_notify(memarg)),
            r is Ok ==> final(self).wf(),
    {
        let offset: u32 = self.require_access(memarg)?;
        if self.context().memory_shared {
            // Wake up to `count` waiters parked on the effective byte address
            // (base + static memarg offset), matching the address a waiter
            // registers under.
            self.spill_nonstable()?;
            let (addr, count) = self.pop2()?;
            let name = self.fresh_temp();
            self.line(
                Buf::lit("let ").s(&name).s(": i32 = self.memory.notify((").s(&addr.code)
                    .s(") as u32 + ").n(offset as u64).s("u32, (").s(&count.code)
                    .s(") as u32) as i32;").end(),
            );
            self.push(name, ValType::I32, true);
            return Ok(());
        }
        let (_addr, _count) = self.pop2()?;
        self.push(lit("0i32"), ValType::I32, true);
        Ok(())
    }

    /// Lower `memory.atomic.wait{32,64}`. It pops (addr, expected, timeout) and
    /// pushes an i32 result. On a single instance nobody can ever notify, so a
    /// matching wait would block forever and instead traps; a non-matching wait
    /// returns 1 ("not equal") immediately, as the spec requires.
    pub fn atomic_wait(&mut self, load: Helper, memarg: MemArg) -> (r: Result<(), TranspileError>)
        requires
            old(self).wf(),
        ensures
            gen_result(r, final(self)@, old(self)@.atomic_wait(load, memarg)),
            r is Ok ==> final(self).wf(),
    {
        let offset: u32 = self.require_access(memarg)?;
        if self.context().memory_shared {
            // A real blocking wait: park until notified or the timeout elapses.
            // `wait32` compares a 4-byte cell, `wait64` an 8-byte one. Returns 0
            // (woken), 1 (value mismatch — did not block), or 2 (timed out).
            let byte: u32 = if load == Helper::LoadI64 {
                8
            } else {
                4
            };
            self.spill_nonstable()?;
            let ghost t = self@;
            let timeout = self.pop()?;
            let (addr, expected) = self.pop2()?;
            proof {
                lemma_drop_twice(t, 1, 2);
            }
            let name = self.fresh_temp();
            self.line(
                Buf::lit("let ").s(&name).s(": i32 = self.memory.wait((").s(&addr.code)
                    .s(") as u32 + ").n(offset as u64).s("u32, (").s(&expected.code).s(") as u64, ")
                    .n(byte as u64).s(", (").s(&timeout.code).s(") as i64);").end(),
            );
            self.push(name, ValType::I32, true);
            return Ok(());
        }
        let ghost t = self@;
        let _timeout = self.pop()?;
        let (addr, expected) = self.pop2()?;
        proof {
            lemma_drop_twice(t, 1, 2);
        }
        self.use_helper(load, memarg.memory);
        let name = self.fresh_temp();
        let method = helper_method_name(load, memarg.memory);
        self.line(
            Buf::lit("let ").s(&name).s(": i32 = if self.").s(&method).s("(").s(&addr.code).s(", ")
                .n(offset as u64).s("u32) != (").s(&expected.code)
                .s(") { 1 } else { panic!(\"atomic.wait on a single-threaded instance would block forever\") };")
                .end(),
        );
        self.push(name, ValType::I32, true);
        Ok(())
    }

    /// `memory.size`.
    pub fn memory_size(&mut self, mem: u32) -> (r: Result<(), TranspileError>)
        requires
            old(self).wf(),
        ensures
            gen_result(r, final(self)@, old(self)@.memory_size(mem)),
            r is Ok ==> final(self).wf(),
    {
        self.require_memory()?;
        let mem: u32 = self.require_memory_index(mem)?;
        // Materialise into a temp: `self.mem()` borrows the instance, so leaving
        // it inline could clash with another `self.mem()`/method call in the same
        // enclosing expression (e.g. imported memory, where `mem()` routes
        // through the host).
        let name = self.fresh_temp();
        if self.context().memory_shared {
            // A shared memory has no `mem()` accessor; measure the locked bytes.
            self.line(Buf::lit("let ").s(&name)
                .s(": i32 = (self.memory.bytes().len() / 65536) as i32;").end());
        } else {
            let (get, _) = mem_accessor(mem);
            self.line(Buf::lit("let ").s(&name).s(": i32 = (self.").s(&get)
                .s("().len() / 65536) as i32;").end());
        }
        self.push(name, ValType::I32, true);
        Ok(())
    }

    /// `memory.grow`.
    pub fn memory_grow(&mut self, mem: u32) -> (r: Result<(), TranspileError>)
        requires
            old(self).wf(),
        ensures
            gen_result(r, final(self)@, old(self)@.memory_grow(mem)),
            r is Ok ==> final(self).wf(),
    {
        self.require_memory()?;
        let mem: u32 = self.require_memory_index(mem)?;
        self.spill_nonstable()?;
        let delta = self.pop()?;
        self.use_helper(Helper::Grow, mem);
        let name = self.fresh_temp();
        let method = helper_method_name(Helper::Grow, mem);
        self.line(Buf::lit("let ").s(&name).s(": i32 = self.").s(&method).s("(").s(&delta.code)
            .s(");").end());
        self.push(name, ValType::I32, true);
        Ok(())
    }

    /// Pop the three `i32` operands (dest, src/value, len) of a bulk operation,
    /// spilling first since the operation mutates memory/table. Returned in
    /// source order: `(dest, mid, len)`.
    pub fn pop_bulk_operands(&mut self) -> (r: Result<(Val, Val, Val), TranspileError>)
        requires
            old(self).wf(),
        ensures
            match old(self)@.bulk() {
                Ok(s) => r matches Ok((dest, mid, len)) && dest@ == s.below(2) && mid@ == s.below(1)
                    && len@ == s.top() && final(self)@ == s.drop(3),
                Err(e) => r is Err && r->Err_0@ == e,
            },
            r is Ok ==> final(self).wf(),
    {
        self.spill_nonstable()?;
        let ghost t = self@;
        let len = self.pop()?;
        let (dest, mid) = self.pop2()?;
        proof {
            lemma_drop_twice(t, 1, 2);
        }
        Ok((dest, mid, len))
    }

    /// `memory.fill`.
    pub fn memory_fill(&mut self, mem: u32) -> (r: Result<(), TranspileError>)
        requires
            old(self).wf(),
        ensures
            gen_result(r, final(self)@, old(self)@.memory_fill(mem)),
            r is Ok ==> final(self).wf(),
    {
        self.require_memory()?;
        let mem: u32 = self.require_memory_index(mem)?;
        let (dest, val, len) = self.pop_bulk_operands()?;
        self.use_helper(Helper::MemoryFill, mem);
        let method = helper_method_name(Helper::MemoryFill, mem);
        self.line(Buf::lit("self.").s(&method).s("((").s(&dest.code).s(") as u32, ").s(&val.code)
            .s(", (").s(&len.code).s(") as u32);").end());
        Ok(())
    }

    /// `memory.copy`.
    pub fn memory_copy(&mut self, dst_mem: u32, src_mem: u32) -> (r: Result<(), TranspileError>)
        requires
            old(self).wf(),
        ensures
            gen_result(r, final(self)@, old(self)@.memory_copy(dst_mem, src_mem)),
            r is Ok ==> final(self).wf(),
    {
        self.require_memory()?;
        let dst_mem: u32 = self.require_memory_index(dst_mem)?;
        let src_mem: u32 = self.require_memory_index(src_mem)?;
        let (dest, src, len) = self.pop_bulk_operands()?;
        if dst_mem == src_mem {
            // Same-memory copy: the `memory_copy` helper is a `copy_within`
            // memmove, so overlapping ranges copy correctly.
            self.use_helper(Helper::MemoryCopy, dst_mem);
            let method = helper_method_name(Helper::MemoryCopy, dst_mem);
            self.line(
                Buf::lit("self.").s(&method).s("((").s(&dest.code).s(") as u32, (").s(&src.code)
                    .s(") as u32, (").s(&len.code).s(") as u32);").end(),
            );
        } else {
            // Cross-memory copy: the source and destination are distinct fields,
            // so `mem_mut()` (which borrows all of `self`) cannot be held while
            // also reading `mem()`. Read the source range into a temporary
            // `Vec`, then write it into the destination; both slice accesses are
            // bounds-checked, so an out-of-range range panics (a wasm trap). The
            // destination is copied only after the read completes, so a bad
            // source range traps before any write. No helper method is needed.
            let (src_get, _) = mem_accessor(src_mem);
            let (_, dst_get_mut) = mem_accessor(dst_mem);
            self.line(
                Buf::lit("{ let s = (").s(&src.code).s(") as usize; let d = (").s(&dest.code)
                    .s(") as usize; let n = (").s(&len.code).s(") as usize; let seg = self.")
                    .s(&src_get).s("()[s..s + n].to_vec(); self.").s(&dst_get_mut)
                    .s("()[d..d + n].copy_from_slice(&seg); }").end(),
            );
        }
        Ok(())
    }
}

} // verus!
