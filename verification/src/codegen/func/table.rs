//! Tables, passive segments and references.

use vstd::prelude::*;

use crate::codegen::func::state::{gen_result, FuncGen, GenR, GenV};
use crate::codegen::helpers::{accessor_texts, mem_accessor, Helper};
use crate::codegen::ir::Val;
use crate::error::{unsupported, FailV, TranspileError};
use crate::text::{dec, lit, Buf};
use crate::wasm::{
    extern_ref, externref, func_ref, funcref, heap_type_text, show_heap_type, AbstractHeapType,
    HeapType, ValType,
};

verus! {

impl GenV {
    /// Whether table `table` can be used by the instruction `what`.
    pub open spec fn table_fault(self, table: u32, what: Seq<char>) -> Option<FailV> {
        if !self.ctx.has_table {
            Some(unsupported("table instruction without a table section"@))
        } else if table != 0 {
            Some(unsupported((what + " on a non-zero index"@)))
        } else {
            None
        }
    }

    pub open spec fn table_copy(self, dst_table: u32, src_table: u32) -> GenR {
        match self.table_fault(dst_table, "table.copy"@) {
            Some(e) => Err(e),
            None => match self.table_fault(src_table, "table.copy"@) {
                Some(e) => Err(e),
                None => match self.bulk() {
                    Err(e) => Err(e),
                    Ok(s) => Ok(
                        s.drop(3).using_helper(Helper::TableCopy, 0).line(
                            ("self.table_copy(("@ + s.below(2).code + ") as u32, ("@
                                + s.below(1).code + ") as u32, ("@ + s.top().code + ") as u32);"@),
                        ),
                    ),
                },
            },
        }
    }

    pub open spec fn table_get(self, table: u32) -> GenR {
        match self.table_fault(table, "table.get"@) {
            Some(e) => Err(e),
            None => if !self.has(1) {
                Err(FailV::StackUnderflow)
            } else {
                self.drop(1).combined(
                    ("self.table()[("@ + self.top().code + ") as u32 as usize]"@),
                    match self.ctx.table_element {
                        Some(ty) => ty,
                        None => funcref(),
                    },
                    false,
                )
            },
        }
    }

    pub open spec fn table_set(self, table: u32) -> GenR {
        match self.table_fault(table, "table.set"@) {
            Some(e) => Err(e),
            None => match self.spilled() {
                Err(e) => Err(e),
                Ok(s) => if !s.has(2) {
                    Err(FailV::StackUnderflow)
                } else {
                    Ok(
                        s.drop(2).line(
                            ("self.table_mut()[("@ + s.below(1).code + ") as u32 as usize] = ("@
                                + s.top().code + ") as u32;"@),
                        ),
                    )
                },
            },
        }
    }

    pub open spec fn table_size(self, table: u32) -> GenR {
        match self.table_fault(table, "table.size"@) {
            Some(e) => Err(e),
            None => Ok(self.push("(self.table().len() as i32)"@, ValType::I32, false)),
        }
    }

    pub open spec fn table_grow(self, table: u32) -> GenR {
        match self.table_fault(table, "table.grow"@) {
            Some(e) => Err(e),
            None => match self.spilled() {
                Err(e) => Err(e),
                Ok(t) => if !t.has(2) {
                    Err(FailV::StackUnderflow)
                } else {
                    let s = t.drop(2);
                    Ok(
                        s.bound(
                            ("let "@ + s.temp() + ": i32 = { let n = ("@ + t.top().code
                                + ") as u32 as usize; let old = self.table().len(); match old.checked_add(n) { Some(len) if len <= u32::MAX as usize => { self.table_mut().resize(len, ("@
                                + t.below(1).code + ") as u32); old as i32 } _ => -1, } };"@),
                            ValType::I32,
                        ),
                    )
                },
            },
        }
    }

    pub open spec fn table_fill(self, table: u32) -> GenR {
        match self.table_fault(table, "table.fill"@) {
            Some(e) => Err(e),
            None => match self.bulk() {
                Err(e) => Err(e),
                Ok(s) => Ok(
                    s.drop(3).using_helper(Helper::TableFill, 0).line(
                        ("self.table_fill(("@ + s.below(2).code + ") as u32, ("@ + s.below(1).code
                            + ") as u32, ("@ + s.top().code + ") as u32);"@),
                    ),
                ),
            },
        }
    }

    /// A bulk copy out of a retained passive segment; the operands are still on
    /// the stack.
    pub open spec fn bulk_init(self, dst: Seq<char>, src_seg: Seq<char>) -> GenV {
        self.drop(3).line(
            ("{ let seg = "@ + src_seg + "; let n = ("@ + self.top().code
                + ") as usize; let s = ("@ + self.below(1).code + ") as usize; let d = ("@
                + self.below(2).code + ") as usize; "@ + dst
                + "[d..d + n].copy_from_slice(&seg[s..s + n]); }"@),
        )
    }

    pub open spec fn memory_init(self, data_index: u32, mem: u32) -> GenR {
        match self.memory_fault(mem) {
            Some(e) => Err(e),
            None => match passive_fault(self.ctx.data_passive, data_index, "data"@) {
                Some(e) => Err(e),
                None => match self.bulk() {
                    Err(e) => Err(e),
                    Ok(s) => Ok(
                        s.bulk_init(
                            if s.ctx.memory_shared {
                                "self.memory.bytes()"@
                            } else {
                                ("self."@ + accessor_texts(mem).1 + "()"@)
                            },
                            ("self.data"@ + dec(data_index as nat)),
                        ),
                    ),
                },
            },
        }
    }

    pub open spec fn data_drop(self, data_index: u32) -> GenR {
        match passive_fault(self.ctx.data_passive, data_index, "data"@) {
            Some(e) => Err(e),
            None => Ok(self.line(("self.data"@ + dec(data_index as nat) + " = &[];"@))),
        }
    }

    pub open spec fn table_init(self, elem_index: u32, table: u32) -> GenR {
        match self.table_fault(table, "table.init"@) {
            Some(e) => Err(e),
            None => match passive_fault(self.ctx.elem_passive, elem_index, "elem"@) {
                Some(e) => Err(e),
                None => match self.bulk() {
                    Err(e) => Err(e),
                    Ok(s) => Ok(s.bulk_init("self.table_mut()"@, ("self.elem"@
                        + dec(elem_index as nat)))),
                },
            },
        }
    }

    pub open spec fn elem_drop(self, elem_index: u32) -> GenR {
        match passive_fault(self.ctx.elem_passive, elem_index, "elem"@) {
            Some(e) => Err(e),
            None => Ok(self.line(("self.elem"@ + dec(elem_index as nat) + " = &[];"@))),
        }
    }

    pub open spec fn ref_null(self, hty: HeapType) -> GenR {
        match hty {
            HeapType::Abstract { ty: AbstractHeapType::Func, .. } => Ok(
                self.push("u32::MAX"@, funcref(), true),
            ),
            HeapType::Abstract { ty: AbstractHeapType::Extern, .. } => Ok(
                self.push("u32::MAX"@, externref(), true),
            ),
            _ => Err(unsupported(("ref.null of unsupported type "@ + heap_type_text(hty)))),
        }
    }

    pub open spec fn ref_func(self, function_index: u32) -> GenV {
        self.push((dec(function_index as nat) + "u32"@), funcref(), true)
    }

    pub open spec fn ref_is_null(self) -> GenR {
        if !self.has(1) {
            Err(FailV::StackUnderflow)
        } else {
            self.unary(("i32::from("@ + self.top().code + " == u32::MAX)"@), ValType::I32)
        }
    }
}

/// Whether segment `index` can be used by an init or drop instruction: only a
/// passive one can.
pub open spec fn passive_fault(passive: Seq<bool>, index: u32, kind: Seq<char>) -> Option<FailV> {
    if index < passive.len() && passive[index as int] {
        None
    } else {
        Some(
            unsupported(
                (kind + " segment "@ + dec(index as nat)
                    + " is not passive (init/drop needs a passive segment)"@),
            ),
        )
    }
}

/// Require that segment `index` (named by `kind`, e.g. "data") is passive; the
/// init/drop instructions only reference passive segments here (active ones are
/// auto-copied then implicitly dropped at instantiation).
pub fn require_passive(passive: &Vec<bool>, index: u32, kind: &str) -> (r: Result<
    (),
    TranspileError,
>)
    ensures
        crate::codegen::analysis::unit_result(r, passive_fault(passive@, index, kind@)),
{
    if (index as usize) < passive.len() && passive[index as usize] {
        Ok(())
    } else {
        Err(
            TranspileError::Unsupported(
                Buf::lit(kind).s(" segment ").n(index as u64)
                    .s(" is not passive (init/drop needs a passive segment)").end(),
            ),
        )
    }
}

impl<'a> FuncGen<'a> {
    /// `table.copy`.
    pub fn table_copy(&mut self, dst_table: u32, src_table: u32) -> (r: Result<
        (),
        TranspileError,
    >)
        requires
            old(self).wf(),
        ensures
            gen_result(r, final(self)@, old(self)@.table_copy(dst_table, src_table)),
            r is Ok ==> final(self).wf(),
    {
        self.require_table()?;
        self.require_zero_index(dst_table, "table.copy")?;
        self.require_zero_index(src_table, "table.copy")?;
        let (dest, src, len) = self.pop_bulk_operands()?;
        self.use_helper(Helper::TableCopy, 0);
        self.line(
            Buf::lit("self.table_copy((").s(&dest.code).s(") as u32, (").s(&src.code)
                .s(") as u32, (").s(&len.code).s(") as u32);").end(),
        );
        Ok(())
    }

    /// `table.get`: push the funcref at the given index. An out-of-bounds index
    /// panics on the slice access (a trap). The value is non-stable because a
    /// later `table.set`/`table.grow` can change it.
    pub fn table_get(&mut self, table: u32) -> (r: Result<(), TranspileError>)
        requires
            old(self).wf(),
        ensures
            gen_result(r, final(self)@, old(self)@.table_get(table)),
            r is Ok ==> final(self).wf(),
    {
        self.require_table()?;
        self.require_zero_index(table, "table.get")?;
        let index = self.pop()?;
        let element = match self.context().table_element {
            Some(ty) => ty,
            None => func_ref(),
        };
        self.push_combined(Buf::lit("self.table()[(").s(&index.code).s(") as u32 as usize]")
            .end(), element, false)
    }

    /// `table.set`: write a funcref at the given index. Out-of-bounds panics (a
    /// trap). Spilled first since it mutates the table.
    pub fn table_set(&mut self, table: u32) -> (r: Result<(), TranspileError>)
        requires
            old(self).wf(),
        ensures
            gen_result(r, final(self)@, old(self)@.table_set(table)),
            r is Ok ==> final(self).wf(),
    {
        self.require_table()?;
        self.require_zero_index(table, "table.set")?;
        self.spill_nonstable()?;
        let (index, value) = self.pop2()?;
        self.line(
            Buf::lit("self.table_mut()[(").s(&index.code).s(") as u32 as usize] = (").s(&value.code)
                .s(") as u32;").end(),
        );
        Ok(())
    }

    /// `table.size`: push the current table length. Non-stable because
    /// `table.grow` can change it.
    pub fn table_size(&mut self, table: u32) -> (r: Result<(), TranspileError>)
        requires
            old(self).wf(),
        ensures
            gen_result(r, final(self)@, old(self)@.table_size(table)),
            r is Ok ==> final(self).wf(),
    {
        self.require_table()?;
        self.require_zero_index(table, "table.size")?;
        self.push(lit("(self.table().len() as i32)"), ValType::I32, false);
        Ok(())
    }

    /// `table.grow`: append `delta` (an unsigned count) copies of the init
    /// funcref and push the old length. A table is indexed by `u32`, so it holds
    /// at most `u32::MAX` entries; per the spec, a delta that would exceed that
    /// (e.g. a "negative" delta, i.e. a huge unsigned count) pushes -1 rather
    /// than attempting an impossible allocation. Spilled first since it mutates
    /// the table.
    pub fn table_grow(&mut self, table: u32) -> (r: Result<(), TranspileError>)
        requires
            old(self).wf(),
        ensures
            gen_result(r, final(self)@, old(self)@.table_grow(table)),
            r is Ok ==> final(self).wf(),
    {
        self.require_table()?;
        self.require_zero_index(table, "table.grow")?;
        self.spill_nonstable()?;
        let (init, delta) = self.pop2()?;
        let name = self.fresh_temp();
        self.line(
            Buf::lit("let ").s(&name).s(": i32 = { let n = (").s(&delta.code)
                .s(") as u32 as usize; let old = self.table().len(); match old.checked_add(n) { Some(len) if len <= u32::MAX as usize => { self.table_mut().resize(len, (")
                .s(&init.code).s(") as u32); old as i32 } _ => -1, } };").end(),
        );
        self.push(name, ValType::I32, true);
        Ok(())
    }

    /// `table.fill`: write the init funcref into `[dest, dest+len)`. The range is
    /// bounds-checked before any write (a trap on overflow, no partial write).
    pub fn table_fill(&mut self, table: u32) -> (r: Result<(), TranspileError>)
        requires
            old(self).wf(),
        ensures
            gen_result(r, final(self)@, old(self)@.table_fill(table)),
            r is Ok ==> final(self).wf(),
    {
        self.require_table()?;
        self.require_zero_index(table, "table.fill")?;
        let (dest, val, len) = self.pop_bulk_operands()?;
        self.use_helper(Helper::TableFill, 0);
        self.line(
            Buf::lit("self.table_fill((").s(&dest.code).s(") as u32, (").s(&val.code)
                .s(") as u32, (").s(&len.code).s(") as u32);").end(),
        );
        Ok(())
    }

    /// Emit a bulk copy of `len` elements from a retained passive segment
    /// (`src_seg`, e.g. `self.data0`) into `dst` (e.g. `self.mem_mut()`). A range
    /// exceeding either side — including a dropped, now-empty segment — panics,
    /// reproducing the wasm trap; the destination is bounds-checked first, so no
    /// partial write occurs. The segment slice is copied into a local first so
    /// that `dst` (which may borrow the whole instance, e.g. `self.mem_mut()` for
    /// imported memory) does not clash with the `&self` segment field borrow.
    pub fn emit_bulk_init(&mut self, dst: &str, src_seg: &str, dest: &Val, src: &Val, len: &Val)
        requires
            old(self).wf(),
        ensures
            final(self)@ == old(self)@.line(
                ("{ let seg = "@ + src_seg@ + "; let n = ("@ + len@.code + ") as usize; let s = ("@
                    + src@.code + ") as usize; let d = ("@ + dest@.code + ") as usize; "@ + dst@
                    + "[d..d + n].copy_from_slice(&seg[s..s + n]); }"@),
            ),
            final(self).wf(),
    {
        self.line(
            Buf::lit("{ let seg = ").s(src_seg).s("; let n = (").s(&len.code)
                .s(") as usize; let s = (").s(&src.code).s(") as usize; let d = (").s(&dest.code)
                .s(") as usize; ").s(dst).s("[d..d + n].copy_from_slice(&seg[s..s + n]); }").end(),
        );
    }

    /// `memory.init`.
    pub fn memory_init(&mut self, data_index: u32, mem: u32) -> (r: Result<(), TranspileError>)
        requires
            old(self).wf(),
        ensures
            gen_result(r, final(self)@, old(self)@.memory_init(data_index, mem)),
            r is Ok ==> final(self).wf(),
    {
        self.require_memory()?;
        let mem: u32 = self.require_memory_index(mem)?;
        let ctx = self.context();
        require_passive(&ctx.data_passive, data_index, "data")?;
        let (dest, src, len) = self.pop_bulk_operands()?;
        // `memory.init` copies into the memory named by `mem`; memory 0 keeps the
        // `mem_mut()` accessor, higher memories use their `mem{i}_mut()`. A shared
        // memory has no accessor — it locks its bytes for the whole copy instead.
        let dst = if self.context().memory_shared {
            lit("self.memory.bytes()")
        } else {
            let (_, dst_get_mut) = mem_accessor(mem);
            Buf::lit("self.").s(&dst_get_mut).s("()").end()
        };
        let seg = Buf::lit("self.data").n(data_index as u64).end();
        self.emit_bulk_init(dst.as_str(), seg.as_str(), &dest, &src, &len);
        Ok(())
    }

    /// `data.drop`.
    pub fn data_drop(&mut self, data_index: u32) -> (r: Result<(), TranspileError>)
        requires
            old(self).wf(),
        ensures
            gen_result(r, final(self)@, old(self)@.data_drop(data_index)),
            r is Ok ==> final(self).wf(),
    {
        let ctx = self.context();
        require_passive(&ctx.data_passive, data_index, "data")?;
        self.line(Buf::lit("self.data").n(data_index as u64).s(" = &[];").end());
        Ok(())
    }

    /// `table.init`.
    pub fn table_init(&mut self, elem_index: u32, table: u32) -> (r: Result<(), TranspileError>)
        requires
            old(self).wf(),
        ensures
            gen_result(r, final(self)@, old(self)@.table_init(elem_index, table)),
            r is Ok ==> final(self).wf(),
    {
        self.require_table()?;
        self.require_zero_index(table, "table.init")?;
        let ctx = self.context();
        require_passive(&ctx.elem_passive, elem_index, "elem")?;
        let (dest, src, len) = self.pop_bulk_operands()?;
        let seg = Buf::lit("self.elem").n(elem_index as u64).end();
        self.emit_bulk_init("self.table_mut()", seg.as_str(), &dest, &src, &len);
        Ok(())
    }

    /// `elem.drop`.
    pub fn elem_drop(&mut self, elem_index: u32) -> (r: Result<(), TranspileError>)
        requires
            old(self).wf(),
        ensures
            gen_result(r, final(self)@, old(self)@.elem_drop(elem_index)),
            r is Ok ==> final(self).wf(),
    {
        let ctx = self.context();
        require_passive(&ctx.elem_passive, elem_index, "elem")?;
        self.line(Buf::lit("self.elem").n(elem_index as u64).s(" = &[];").end());
        Ok(())
    }

    /// `ref.null t`: push a null reference. Both `funcref` and `externref` are
    /// represented as a `u32` (`u32::MAX` is null).
    pub fn ref_null(&mut self, hty: HeapType) -> (r: Result<(), TranspileError>)
        requires
            old(self).wf(),
        ensures
            gen_result(r, final(self)@, old(self)@.ref_null(hty)),
            r is Ok ==> final(self).wf(),
    {
        let ty = match hty {
            HeapType::Abstract { ty: AbstractHeapType::Func, .. } => func_ref(),
            HeapType::Abstract { ty: AbstractHeapType::Extern, .. } => extern_ref(),
            _ => {
                return Err(
                    TranspileError::Unsupported(
                        Buf::lit("ref.null of unsupported type ").s(&show_heap_type(hty)).end(),
                    ),
                );
            },
        };
        self.push(lit("u32::MAX"), ty, true);
        Ok(())
    }

    /// `ref.func f`: push the funcref for function `f` (its full index).
    pub fn ref_func(&mut self, function_index: u32)
        requires
            old(self).wf(),
        ensures
            final(self)@ == old(self)@.ref_func(function_index),
            final(self).wf(),
    {
        self.push(Buf::num(function_index as u64).s("u32").end(), func_ref(), true);
    }

    /// `ref.is_null`: pop a funcref and push 1 if it is null, else 0.
    pub fn ref_is_null(&mut self) -> (r: Result<(), TranspileError>)
        requires
            old(self).wf(),
        ensures
            gen_result(r, final(self)@, old(self)@.ref_is_null()),
            r is Ok ==> final(self).wf(),
    {
        let v = self.pop()?;
        self.push_combined(Buf::lit("i32::from(").s(&v.code).s(" == u32::MAX)")
            .end(), ValType::I32, v.stable)
    }
}

} // verus!
