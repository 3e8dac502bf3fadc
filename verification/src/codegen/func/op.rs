//! One instruction at a time.

use vstd::prelude::*;

use crate::codegen::common::{i32_literal, i32_text, i64_literal, i64_text};
use crate::codegen::func::lowering::{load_lane_rule, load_rule, store_lane_rule, store_rule};
use crate::codegen::func::state::{gen_result, FuncGen, GenR, GenV};
use crate::codegen::helpers::Helper;
use crate::codegen::ir::FrameKind;
use crate::error::{unsupported, FailV, TranspileError};
use crate::ops::{Instr, Operator};
use crate::text::{dec, inc, next_of, Buf};
use crate::wasm::{HeapType, ValType};

verus! {

impl GenV {
    pub open spec fn f32_const(self, bits: u32) -> GenV {
        self.push(("f32::from_bits("@ + dec(bits as nat) + "u32)"@), ValType::F32, true)
    }

    pub open spec fn f64_const(self, bits: u64) -> GenV {
        self.push(("f64::from_bits("@ + dec(bits as nat) + "u64)"@), ValType::F64, true)
    }

    /// `ref.null`: of a managed type, or of a plain reference.
    pub open spec fn null_ref(self, hty: HeapType) -> GenR {
        match self.ctx.object_type(hty) {
            Some(ti) => self.ref_null_gc(ti),
            None => self.ref_null(hty),
        }
    }

    pub open spec fn dropped(self) -> GenR {
        if !self.has(1) {
            Err(FailV::StackUnderflow)
        } else {
            Ok(self.drop(1))
        }
    }

    /// An instruction at an unreachable point: only the nesting of regions is
    /// followed, so that the region that encloses it ends where it should.
    pub open spec fn skipped(self, op: Operator) -> GenR {
        match op {
            Operator::Block { .. }
            | Operator::Loop { .. }
            | Operator::If { .. }
            | Operator::Try { .. } => Ok(
                GenV { dead_nesting: inc(self.dead_nesting), ..self },
            ),
            Operator::End => if self.dead_nesting > 0 {
                Ok(GenV { dead_nesting: (self.dead_nesting - 1) as usize, ..self })
            } else {
                self.handle_end()
            },
            Operator::Else => if self.dead_nesting == 0 {
                self.handle_else()
            } else {
                Ok(self)
            },
            Operator::Catch { tag_index } => if self.dead_nesting == 0 {
                self.handle_catch(Some(tag_index))
            } else {
                Ok(self)
            },
            Operator::CatchAll => if self.dead_nesting == 0 {
                self.handle_catch(None)
            } else {
                Ok(self)
            },
            _ => Ok(self),
        }
    }

    /// Constants, locals and globals.
    #[verifier::opaque]
    pub open spec fn lowered_basic(self, op: Operator, text: Seq<char>) -> GenR {
        match op {
            Operator::Nop => Ok(self),
            Operator::AtomicFence => Ok(self),
            Operator::Unreachable => Ok(self.emit_unreachable()),
            Operator::LocalGet { local_index } => self.local_get(local_index),
            Operator::LocalSet { local_index } => self.local_store(local_index, false),
            Operator::LocalTee { local_index } => self.local_store(local_index, true),
            Operator::GlobalGet { global_index } => self.global_get(global_index),
            Operator::GlobalSet { global_index } => self.global_set(global_index),
            Operator::I32Const { value } => Ok(self.push(i32_text(value), ValType::I32, true)),
            Operator::I64Const { value } => Ok(self.push(i64_text(value), ValType::I64, true)),
            Operator::F32Const { bits } => Ok(self.f32_const(bits)),
            Operator::F64Const { bits } => Ok(self.f64_const(bits)),
            Operator::V128Const { bytes } => Ok(self.v128_const(bytes@)),
            Operator::Drop => self.dropped(),
            Operator::Select => self.select(),
            Operator::TypedSelect { .. } => self.select(),
            _ => Err(unsupported(("operator "@ + text))),
        }
    }

    /// Operators over numbers and vectors.
    #[verifier::opaque]
    pub open spec fn lowered_numeric(self, op: Operator, text: Seq<char>) -> GenR {
        match op {
            Operator::Int { ty, op } => self.integer(ty, op),
            Operator::Float { ty, op } => self.floating(ty, op),
            Operator::Convert { op } => self.converted(op),
            Operator::Lane { op } => self.lane_wise(op),
            Operator::ExtractLane { op, lane } => self.extract_lane(op, lane),
            Operator::ReplaceLane { op, lane } => self.replace_lane(op, lane),
            Operator::I8x16Shuffle { lanes } => self.call_simd_shuffle(lanes@),
            _ => Err(unsupported(("operator "@ + text))),
        }
    }

    /// Loads, stores and atomic accesses.
    #[verifier::opaque]
    pub open spec fn lowered_access(self, op: Operator, text: Seq<char>) -> GenR {
        match op {
            Operator::Load { op, memarg } => self.load(load_rule(op).0, load_rule(op).1, memarg),
            Operator::Store { op, memarg } => self.store(store_rule(op), memarg),
            Operator::LoadLane { op, memarg, lane } => {
                self.load_lane(load_lane_rule(op), memarg, lane)
            },
            Operator::StoreLane { op, memarg, lane } => {
                self.store_lane(store_lane_rule(op), memarg, lane)
            },
            Operator::AtomicRmw { width, op, memarg } => self.atomic_rmw(width, op, memarg),
            Operator::AtomicCompareExchange { width, memarg } => self.atomic_cmpxchg(width, memarg),
            Operator::MemoryAtomicNotify { memarg } => self.atomic_notify(memarg),
            Operator::MemoryAtomicWait32 { memarg } => self.atomic_wait(Helper::LoadI32, memarg),
            Operator::MemoryAtomicWait64 { memarg } => self.atomic_wait(Helper::LoadI64, memarg),
            _ => Err(unsupported(("operator "@ + text))),
        }
    }

    /// Whole memories and data segments.
    #[verifier::opaque]
    pub open spec fn lowered_memory(self, op: Operator, text: Seq<char>) -> GenR {
        match op {
            Operator::MemorySize { mem } => self.memory_size(mem),
            Operator::MemoryGrow { mem } => self.memory_grow(mem),
            Operator::MemoryFill { mem } => self.memory_fill(mem),
            Operator::MemoryCopy { dst_mem, src_mem } => self.memory_copy(dst_mem, src_mem),
            Operator::MemoryInit { data_index, mem } => self.memory_init(data_index, mem),
            Operator::DataDrop { data_index } => self.data_drop(data_index),
            _ => Err(unsupported(("operator "@ + text))),
        }
    }

    /// Tables and plain references.
    #[verifier::opaque]
    pub open spec fn lowered_table(self, op: Operator, text: Seq<char>) -> GenR {
        match op {
            Operator::TableCopy { dst_table, src_table } => self.table_copy(dst_table, src_table),
            Operator::TableInit { elem_index, table } => self.table_init(elem_index, table),
            Operator::ElemDrop { elem_index } => self.elem_drop(elem_index),
            Operator::TableGet { table } => self.table_get(table),
            Operator::TableSet { table } => self.table_set(table),
            Operator::TableSize { table } => self.table_size(table),
            Operator::TableGrow { table } => self.table_grow(table),
            Operator::TableFill { table } => self.table_fill(table),
            Operator::RefNull { hty } => self.null_ref(hty),
            Operator::RefFunc { function_index } => Ok(self.ref_func(function_index)),
            Operator::RefIsNull => self.ref_is_null(),
            _ => Err(unsupported(("operator "@ + text))),
        }
    }

    /// Managed objects.
    #[verifier::opaque]
    pub open spec fn lowered_object(self, op: Operator, text: Seq<char>) -> GenR {
        match op {
            Operator::StructNew { struct_type_index } => self.struct_new(struct_type_index),
            Operator::StructGet { struct_type_index, field_index } => {
                self.struct_get(struct_type_index, field_index, None)
            },
            Operator::StructGetS { struct_type_index, field_index } => {
                self.struct_get(struct_type_index, field_index, Some(true))
            },
            Operator::StructGetU { struct_type_index, field_index } => {
                self.struct_get(struct_type_index, field_index, Some(false))
            },
            Operator::StructSet { struct_type_index, field_index } => {
                self.struct_set(struct_type_index, field_index)
            },
            Operator::ArrayNew { array_type_index } => self.array_new(array_type_index),
            Operator::ArrayGet { array_type_index } => self.array_get(array_type_index, None),
            Operator::ArrayGetS { array_type_index } => {
                self.array_get(array_type_index, Some(true))
            },
            Operator::ArrayGetU { array_type_index } => {
                self.array_get(array_type_index, Some(false))
            },
            Operator::ArraySet { array_type_index } => self.array_set(array_type_index),
            Operator::ArrayLen => self.array_len(),
            Operator::RefTestNonNull { hty } => self.ref_test(hty, false),
            Operator::RefTestNullable { hty } => self.ref_test(hty, true),
            Operator::RefCastNonNull { hty } => self.ref_cast(hty, false),
            Operator::RefCastNullable { hty } => self.ref_cast(hty, true),
            _ => Err(unsupported(("operator "@ + text))),
        }
    }

    /// Regions and branches.
    #[verifier::opaque]
    pub open spec fn lowered_control(self, op: Operator, text: Seq<char>) -> GenR {
        match op {
            Operator::BrOnCast { relative_depth, from_ref_type, to_ref_type } => {
                self.br_on_cast(relative_depth, from_ref_type, to_ref_type, true)
            },
            Operator::BrOnCastFail { relative_depth, from_ref_type, to_ref_type } => {
                self.br_on_cast(relative_depth, from_ref_type, to_ref_type, false)
            },
            Operator::Block { blockty } => self.push_frame(FrameKind::Block, blockty, None),
            Operator::Loop { blockty } => self.push_frame(FrameKind::Loop, blockty, None),
            Operator::If { blockty } => self.open_if(blockty),
            Operator::Else => self.handle_else(),
            Operator::End => self.handle_end(),
            Operator::Br { relative_depth } => self.branch(relative_depth, None),
            Operator::BrIf { relative_depth } => self.branch_if(relative_depth),
            Operator::BrTable { targets, default } => self.branch_table(targets@, default),
            Operator::Return => self.returned(),
            _ => Err(unsupported(("operator "@ + text))),
        }
    }

    /// Calls, exceptions and continuations.
    #[verifier::opaque]
    pub open spec fn lowered_transfer(self, op: Operator, text: Seq<char>) -> GenR {
        match op {
            Operator::Call { function_index } => self.called(function_index, false),
            Operator::CallIndirect { type_index, table_index } => {
                self.called_indirect(type_index, table_index, false)
            },
            Operator::ReturnCall { function_index } => self.tail_called(function_index),
            Operator::ReturnCallIndirect { type_index, table_index } => {
                self.called_indirect(type_index, table_index, true)
            },
            Operator::Try { blockty } => self.open_try(blockty),
            Operator::Catch { tag_index } => self.handle_catch(Some(tag_index)),
            Operator::CatchAll => self.handle_catch(None),
            Operator::Throw { tag_index } => self.emit_throw(tag_index),
            Operator::Rethrow { relative_depth } => self.emit_rethrow(relative_depth),
            Operator::Resume { cont_type_index, handlers } => {
                self.resumed(cont_type_index, handlers@)
            },
            Operator::ResumeThrow { cont_type_index, tag_index, handlers } => {
                self.resume_thrown(cont_type_index, tag_index, handlers@)
            },
            _ => Err(unsupported(("operator "@ + text))),
        }
    }

    /// An instruction at a reachable point.
    pub open spec fn lowered(self, op: Operator, text: Seq<char>) -> GenR {
        match op {
            Operator::Nop
            | Operator::AtomicFence
            | Operator::Unreachable
            | Operator::LocalGet { .. }
            | Operator::LocalSet { .. }
            | Operator::LocalTee { .. }
            | Operator::GlobalGet { .. }
            | Operator::GlobalSet { .. }
            | Operator::I32Const { .. }
            | Operator::I64Const { .. }
            | Operator::F32Const { .. }
            | Operator::F64Const { .. }
            | Operator::V128Const { .. }
            | Operator::Drop
            | Operator::Select
            | Operator::TypedSelect { .. } => self.lowered_basic(op, text),
            Operator::Int { .. }
            | Operator::Float { .. }
            | Operator::Convert { .. }
            | Operator::Lane { .. }
            | Operator::ExtractLane { .. }
            | Operator::ReplaceLane { .. }
            | Operator::I8x16Shuffle { .. } => self.lowered_numeric(op, text),
            Operator::Load { .. }
            | Operator::Store { .. }
            | Operator::LoadLane { .. }
            | Operator::StoreLane { .. }
            | Operator::AtomicRmw { .. }
            | Operator::AtomicCompareExchange { .. }
            | Operator::MemoryAtomicNotify { .. }
            | Operator::MemoryAtomicWait32 { .. }
            | Operator::MemoryAtomicWait64 { .. } => self.lowered_access(op, text),
            Operator::MemorySize { .. }
            | Operator::MemoryGrow { .. }
            | Operator::MemoryFill { .. }
            | Operator::MemoryCopy { .. }
            | Operator::MemoryInit { .. }
            | Operator::DataDrop { .. } => self.lowered_memory(op, text),
            Operator::TableCopy { .. }
            | Operator::TableInit { .. }
            | Operator::ElemDrop { .. }
            | Operator::TableGet { .. }
            | Operator::TableSet { .. }
            | Operator::TableSize { .. }
            | Operator::TableGrow { .. }
            | Operator::TableFill { .. }
            | Operator::RefNull { .. }
            | Operator::RefFunc { .. }
            | Operator::RefIsNull => self.lowered_table(op, text),
            Operator::StructNew { .. }
            | Operator::StructGet { .. }
            | Operator::StructGetS { .. }
            | Operator::StructGetU { .. }
            | Operator::StructSet { .. }
            | Operator::ArrayNew { .. }
            | Operator::ArrayGet { .. }
            | Operator::ArrayGetS { .. }
            | Operator::ArrayGetU { .. }
            | Operator::ArraySet { .. }
            | Operator::ArrayLen
            | Operator::RefTestNonNull { .. }
            | Operator::RefTestNullable { .. }
            | Operator::RefCastNonNull { .. }
            | Operator::RefCastNullable { .. } => self.lowered_object(op, text),
            Operator::BrOnCast { .. }
            | Operator::BrOnCastFail { .. }
            | Operator::Block { .. }
            | Operator::Loop { .. }
            | Operator::If { .. }
            | Operator::Else
            | Operator::End
            | Operator::Br { .. }
            | Operator::BrIf { .. }
            | Operator::BrTable { .. }
            | Operator::Return => self.lowered_control(op, text),
            Operator::Call { .. }
            | Operator::CallIndirect { .. }
            | Operator::ReturnCall { .. }
            | Operator::ReturnCallIndirect { .. }
            | Operator::Try { .. }
            | Operator::Catch { .. }
            | Operator::CatchAll
            | Operator::Throw { .. }
            | Operator::Rethrow { .. }
            | Operator::Resume { .. }
            | Operator::ResumeThrow { .. } => self.lowered_transfer(op, text),
            _ => Err(unsupported(("operator "@ + text))),
        }
    }

    /// One instruction: the state behind it, or why it is not supported.
    pub open spec fn emitted(self, op: Operator, text: Seq<char>) -> GenR {
        if self.reachable {
            self.lowered(op, text)
        } else {
            self.skipped(op)
        }
    }
}

impl<'a> FuncGen<'a> {
    /// A constant by its bit pattern, so that NaN and infinities survive.
    pub fn f32_const(&mut self, bits: u32)
        requires
            old(self).wf(),
        ensures
            final(self)@ == old(self)@.f32_const(bits),
            final(self).wf(),
    {
        self.push(Buf::lit("f32::from_bits(").n(bits as u64).s("u32)").end(), ValType::F32, true);
    }

    /// A constant by its bit pattern, so that NaN and infinities survive.
    pub fn f64_const(&mut self, bits: u64)
        requires
            old(self).wf(),
        ensures
            final(self)@ == old(self)@.f64_const(bits),
            final(self).wf(),
    {
        self.push(Buf::lit("f64::from_bits(").n(bits as u64).s("u64)").end(), ValType::F64, true);
    }

    fn null_ref(&mut self, hty: HeapType) -> (r: Result<(), TranspileError>)
        requires
            old(self).wf(),
        ensures
            gen_result(r, final(self)@, old(self)@.null_ref(hty)),
            r is Ok ==> final(self).wf(),
    {
        match self.gc_type_index(hty) {
            Some(ti) => self.ref_null_gc(ti),
            None => self.ref_null(hty),
        }
    }

    fn drop_operand(&mut self) -> (r: Result<(), TranspileError>)
        requires
            old(self).wf(),
        ensures
            gen_result(r, final(self)@, old(self)@.dropped()),
            r is Ok ==> final(self).wf(),
    {
        let dropped = self.pop()?;
        Ok(())
    }

    /// Skip an operator that appears in unreachable code, tracking region
    /// nesting so the matching `end`/`else` of the live frame is still handled.
    pub fn skip_dead(&mut self, op: &Operator) -> (r: Result<(), TranspileError>)
        requires
            old(self).wf(),
        ensures
            gen_result(r, final(self)@, old(self)@.skipped(*op)),
            r is Ok ==> final(self).wf(),
    {
        let n: usize = self.skipping();
        match op {
            Operator::Block { .. }
            | Operator::Loop { .. }
            | Operator::If { .. }
            | Operator::Try { .. } => {
                self.set_skipping(next_of(n));
            },
            Operator::End => {
                if n > 0 {
                    self.set_skipping(n - 1);
                } else {
                    self.handle_end()?;
                }
            },
            Operator::Else => {
                if n == 0 {
                    self.handle_else()?;
                }
            },
            // A `catch`/`catch_all` on the live `try` frame starts a fresh,
            // reachable handler even though the preceding arm ended dead.
            Operator::Catch { tag_index } => {
                if n == 0 {
                    self.handle_catch(Some(*tag_index))?;
                }
            },
            Operator::CatchAll => {
                if n == 0 {
                    self.handle_catch(None)?;
                }
            },
            _ => {},
        }
        Ok(())
    }

    /// Lowers one instruction.
    pub fn emit_op(&mut self, instr: &Instr) -> (r: Result<(), TranspileError>)
        requires
            old(self).wf(),
            old(self)@.in_continuation ==> !(instr.op is Try),
        ensures
            gen_result(r, final(self)@, old(self)@.emitted(instr.op, instr.text@)),
            r is Ok ==> final(self).wf(),
    {
        if self.is_reachable() {
            self.lower_op(&instr.op, instr.text.as_str())
        } else {
            self.skip_dead(&instr.op)
        }
    }

    /// Constants, locals and globals.
    fn lower_basic(&mut self, op: &Operator, text: &str) -> (r: Result<(), TranspileError>)
        requires
            old(self).wf(),
        ensures
            gen_result(r, final(self)@, old(self)@.lowered_basic(*op, text@)),
            r is Ok ==> final(self).wf(),
    {
        proof {
            reveal(GenV::lowered_basic);
        }
        match op {
            Operator::Nop | Operator::AtomicFence => Ok(()),
            // `unreachable` always traps; code after it is dead, so stop
            // emitting until the enclosing region ends (as for `return`/`br`).
            Operator::Unreachable => {
                self.emit_unreachable();
                Ok(())
            },
            Operator::LocalGet { local_index } => self.local_get(*local_index),
            Operator::LocalSet { local_index } => self.local_store(*local_index, false),
            Operator::LocalTee { local_index } => self.local_store(*local_index, true),
            Operator::GlobalGet { global_index } => self.global_get(*global_index),
            Operator::GlobalSet { global_index } => self.global_set(*global_index),
            Operator::I32Const { value } => {
                self.push(i32_literal(*value), ValType::I32, true);
                Ok(())
            },
            Operator::I64Const { value } => {
                self.push(i64_literal(*value), ValType::I64, true);
                Ok(())
            },
            Operator::F32Const { bits } => {
                self.f32_const(*bits);
                Ok(())
            },
            Operator::F64Const { bits } => {
                self.f64_const(*bits);
                Ok(())
            },
            Operator::V128Const { bytes } => {
                self.v128_const(bytes);
                Ok(())
            },
            Operator::Drop => self.drop_operand(),
            Operator::Select | Operator::TypedSelect { .. } => self.select(),
            _ => Err(TranspileError::Unsupported(Buf::lit("operator ").s(text).end())),
        }
    }

    /// Operators over numbers and vectors.
    fn lower_numeric(&mut self, op: &Operator, text: &str) -> (r: Result<(), TranspileError>)
        requires
            old(self).wf(),
        ensures
            gen_result(r, final(self)@, old(self)@.lowered_numeric(*op, text@)),
            r is Ok ==> final(self).wf(),
    {
        proof {
            reveal(GenV::lowered_numeric);
        }
        match op {
            Operator::Int { ty, op } => self.emit_int(*ty, *op),
            Operator::Float { ty, op } => self.emit_float(*ty, *op),
            Operator::Convert { op } => self.emit_convert(*op),
            Operator::Lane { op } => self.emit_lane(*op),
            Operator::ExtractLane { op, lane } => self.extract_lane(*op, *lane),
            Operator::ReplaceLane { op, lane } => self.replace_lane(*op, *lane),
            Operator::I8x16Shuffle { lanes } => self.call_simd_shuffle(lanes),
            _ => Err(TranspileError::Unsupported(Buf::lit("operator ").s(text).end())),
        }
    }

    /// Loads, stores and atomic accesses.
    fn lower_access(&mut self, op: &Operator, text: &str) -> (r: Result<(), TranspileError>)
        requires
            old(self).wf(),
        ensures
            gen_result(r, final(self)@, old(self)@.lowered_access(*op, text@)),
            r is Ok ==> final(self).wf(),
    {
        proof {
            reveal(GenV::lowered_access);
        }
        match op {
            Operator::Load { op, memarg } => self.emit_load(*op, *memarg),
            Operator::Store { op, memarg } => self.emit_store(*op, *memarg),
            Operator::LoadLane { op, memarg, lane } => self.emit_load_lane(*op, *memarg, *lane),
            Operator::StoreLane { op, memarg, lane } => self.emit_store_lane(*op, *memarg, *lane),
            // Atomic read-modify-write. Each pops (addr, operand), combines the
            // old value with the operand, stores the result, and pushes the old
            // value. The width fixes the (load, store, type) triple; narrow
            // variants zero-extend on load and truncate on store.
            Operator::AtomicRmw { width, op, memarg } => self.atomic_rmw(*width, *op, *memarg),
            Operator::AtomicCompareExchange { width, memarg } => {
                self.atomic_cmpxchg(*width, *memarg)
            },
            Operator::MemoryAtomicNotify { memarg } => self.atomic_notify(*memarg),
            Operator::MemoryAtomicWait32 { memarg } => self.atomic_wait(Helper::LoadI32, *memarg),
            Operator::MemoryAtomicWait64 { memarg } => self.atomic_wait(Helper::LoadI64, *memarg),
            _ => Err(TranspileError::Unsupported(Buf::lit("operator ").s(text).end())),
        }
    }

    /// Whole memories and data segments.
    fn lower_memory(&mut self, op: &Operator, text: &str) -> (r: Result<(), TranspileError>)
        requires
            old(self).wf(),
        ensures
            gen_result(r, final(self)@, old(self)@.lowered_memory(*op, text@)),
            r is Ok ==> final(self).wf(),
    {
        proof {
            reveal(GenV::lowered_memory);
        }
        match op {
            Operator::MemorySize { mem } => self.memory_size(*mem),
            Operator::MemoryGrow { mem } => self.memory_grow(*mem),
            Operator::MemoryFill { mem } => self.memory_fill(*mem),
            Operator::MemoryCopy { dst_mem, src_mem } => self.memory_copy(*dst_mem, *src_mem),
            Operator::MemoryInit { data_index, mem } => self.memory_init(*data_index, *mem),
            Operator::DataDrop { data_index } => self.data_drop(*data_index),
            _ => Err(TranspileError::Unsupported(Buf::lit("operator ").s(text).end())),
        }
    }

    /// Tables and plain references.
    fn lower_table(&mut self, op: &Operator, text: &str) -> (r: Result<(), TranspileError>)
        requires
            old(self).wf(),
        ensures
            gen_result(r, final(self)@, old(self)@.lowered_table(*op, text@)),
            r is Ok ==> final(self).wf(),
    {
        proof {
            reveal(GenV::lowered_table);
        }
        match op {
            Operator::TableCopy { dst_table, src_table } => {
                self.table_copy(*dst_table, *src_table)
            },
            Operator::TableInit { elem_index, table } => self.table_init(*elem_index, *table),
            Operator::ElemDrop { elem_index } => self.elem_drop(*elem_index),
            Operator::TableGet { table } => self.table_get(*table),
            Operator::TableSet { table } => self.table_set(*table),
            Operator::TableSize { table } => self.table_size(*table),
            Operator::TableGrow { table } => self.table_grow(*table),
            Operator::TableFill { table } => self.table_fill(*table),
            Operator::RefNull { hty } => self.null_ref(*hty),
            Operator::RefFunc { function_index } => {
                self.ref_func(*function_index);
                Ok(())
            },
            Operator::RefIsNull => self.ref_is_null(),
            _ => Err(TranspileError::Unsupported(Buf::lit("operator ").s(text).end())),
        }
    }

    /// Managed objects.
    fn lower_object(&mut self, op: &Operator, text: &str) -> (r: Result<(), TranspileError>)
        requires
            old(self).wf(),
        ensures
            gen_result(r, final(self)@, old(self)@.lowered_object(*op, text@)),
            r is Ok ==> final(self).wf(),
    {
        proof {
            reveal(GenV::lowered_object);
        }
        match op {
            Operator::StructNew { struct_type_index } => self.struct_new(*struct_type_index),
            Operator::StructGet { struct_type_index, field_index } => {
                self.struct_get(*struct_type_index, *field_index, None)
            },
            Operator::StructGetS { struct_type_index, field_index } => {
                self.struct_get(*struct_type_index, *field_index, Some(true))
            },
            Operator::StructGetU { struct_type_index, field_index } => {
                self.struct_get(*struct_type_index, *field_index, Some(false))
            },
            Operator::StructSet { struct_type_index, field_index } => {
                self.struct_set(*struct_type_index, *field_index)
            },
            Operator::ArrayNew { array_type_index } => self.array_new(*array_type_index),
            Operator::ArrayGet { array_type_index } => self.array_get(*array_type_index, None),
            Operator::ArrayGetS { array_type_index } => {
                self.array_get(*array_type_index, Some(true))
            },
            Operator::ArrayGetU { array_type_index } => {
                self.array_get(*array_type_index, Some(false))
            },
            Operator::ArraySet { array_type_index } => self.array_set(*array_type_index),
            Operator::ArrayLen => self.array_len(),
            Operator::RefTestNonNull { hty } => self.ref_test(*hty, false),
            Operator::RefTestNullable { hty } => self.ref_test(*hty, true),
            Operator::RefCastNonNull { hty } => self.ref_cast(*hty, false),
            Operator::RefCastNullable { hty } => self.ref_cast(*hty, true),
            _ => Err(TranspileError::Unsupported(Buf::lit("operator ").s(text).end())),
        }
    }

    /// Regions and branches.
    fn lower_control(&mut self, op: &Operator, text: &str) -> (r: Result<(), TranspileError>)
        requires
            old(self).wf(),
        ensures
            gen_result(r, final(self)@, old(self)@.lowered_control(*op, text@)),
            r is Ok ==> final(self).wf(),
    {
        proof {
            reveal(GenV::lowered_control);
        }
        match op {
            Operator::BrOnCast { relative_depth, from_ref_type, to_ref_type } => {
                self.br_on_cast(*relative_depth, *from_ref_type, *to_ref_type, true)
            },
            Operator::BrOnCastFail { relative_depth, from_ref_type, to_ref_type } => {
                self.br_on_cast(*relative_depth, *from_ref_type, *to_ref_type, false)
            },
            Operator::Block { blockty } => self.open_frame(FrameKind::Block, *blockty),
            Operator::Loop { blockty } => self.open_frame(FrameKind::Loop, *blockty),
            Operator::If { blockty } => self.open_if(*blockty),
            Operator::Else => self.handle_else(),
            Operator::End => self.handle_end(),
            Operator::Br { relative_depth } => self.branch(*relative_depth, None),
            Operator::BrIf { relative_depth } => self.branch_if(*relative_depth),
            Operator::BrTable { targets, default } => self.branch_table(targets, *default),
            Operator::Return => self.emit_return(),
            _ => Err(TranspileError::Unsupported(Buf::lit("operator ").s(text).end())),
        }
    }

    /// Calls, exceptions and continuations.
    fn lower_transfer(&mut self, op: &Operator, text: &str) -> (r: Result<(), TranspileError>)
        requires
            old(self).wf(),
            old(self)@.in_continuation ==> !(*op is Try),
        ensures
            gen_result(r, final(self)@, old(self)@.lowered_transfer(*op, text@)),
            r is Ok ==> final(self).wf(),
    {
        proof {
            reveal(GenV::lowered_transfer);
        }
        match op {
            Operator::Call { function_index } => self.call(*function_index),
            Operator::CallIndirect { type_index, table_index } => {
                self.call_indirect(*type_index, *table_index)
            },
            Operator::ReturnCall { function_index } => self.return_call(*function_index),
            Operator::ReturnCallIndirect { type_index, table_index } => {
                self.return_call_indirect(*type_index, *table_index)
            },
            Operator::Try { blockty } => self.open_try(*blockty),
            Operator::Catch { tag_index } => self.handle_catch(Some(*tag_index)),
            Operator::CatchAll => self.handle_catch(None),
            Operator::Throw { tag_index } => self.emit_throw(*tag_index),
            Operator::Rethrow { relative_depth } => self.emit_rethrow(*relative_depth),
            Operator::Resume { cont_type_index, handlers } => {
                self.resume(*cont_type_index, handlers)
            },
            Operator::ResumeThrow { cont_type_index, tag_index, handlers } => {
                self.resume_throw(*cont_type_index, *tag_index, handlers)
            },
            _ => Err(TranspileError::Unsupported(Buf::lit("operator ").s(text).end())),
        }
    }

    fn lower_op(&mut self, op: &Operator, text: &str) -> (r: Result<(), TranspileError>)
        requires
            old(self).wf(),
            old(self)@.in_continuation ==> !(*op is Try),
        ensures
            gen_result(r, final(self)@, old(self)@.lowered(*op, text@)),
            r is Ok ==> final(self).wf(),
    {
        match op {
            Operator::Nop
            | Operator::AtomicFence
            | Operator::Unreachable
            | Operator::LocalGet { .. }
            | Operator::LocalSet { .. }
            | Operator::LocalTee { .. }
            | Operator::GlobalGet { .. }
            | Operator::GlobalSet { .. }
            | Operator::I32Const { .. }
            | Operator::I64Const { .. }
            | Operator::F32Const { .. }
            | Operator::F64Const { .. }
            | Operator::V128Const { .. }
            | Operator::Drop
            | Operator::Select
            | Operator::TypedSelect { .. } => self.lower_basic(op, text),
            Operator::Int { .. }
            | Operator::Float { .. }
            | Operator::Convert { .. }
            | Operator::Lane { .. }
            | Operator::ExtractLane { .. }
            | Operator::ReplaceLane { .. }
            | Operator::I8x16Shuffle { .. } => self.lower_numeric(op, text),
            Operator::Load { .. }
            | Operator::Store { .. }
            | Operator::LoadLane { .. }
            | Operator::StoreLane { .. }
            | Operator::AtomicRmw { .. }
            | Operator::AtomicCompareExchange { .. }
            | Operator::MemoryAtomicNotify { .. }
            | Operator::MemoryAtomicWait32 { .. }
            | Operator::MemoryAtomicWait64 { .. } => self.lower_access(op, text),
            Operator::MemorySize { .. }
            | Operator::MemoryGrow { .. }
            | Operator::MemoryFill { .. }
            | Operator::MemoryCopy { .. }
            | Operator::MemoryInit { .. }
            | Operator::DataDrop { .. } => self.lower_memory(op, text),
            Operator::TableCopy { .. }
            | Operator::TableInit { .. }
            | Operator::ElemDrop { .. }
            | Operator::TableGet { .. }
            | Operator::TableSet { .. }
            | Operator::TableSize { .. }
            | Operator::TableGrow { .. }
            | Operator::TableFill { .. }
            | Operator::RefNull { .. }
            | Operator::RefFunc { .. }
            | Operator::RefIsNull => self.lower_table(op, text),
            Operator::StructNew { .. }
            | Operator::StructGet { .. }
            | Operator::StructGetS { .. }
            | Operator::StructGetU { .. }
            | Operator::StructSet { .. }
            | Operator::ArrayNew { .. }
            | Operator::ArrayGet { .. }
            | Operator::ArrayGetS { .. }
            | Operator::ArrayGetU { .. }
            | Operator::ArraySet { .. }
            | Operator::ArrayLen
            | Operator::RefTestNonNull { .. }
            | Operator::RefTestNullable { .. }
            | Operator::RefCastNonNull { .. }
            | Operator::RefCastNullable { .. } => self.lower_object(op, text),
            Operator::BrOnCast { .. }
            | Operator::BrOnCastFail { .. }
            | Operator::Block { .. }
            | Operator::Loop { .. }
            | Operator::If { .. }
            | Operator::Else
            | Operator::End
            | Operator::Br { .. }
            | Operator::BrIf { .. }
            | Operator::BrTable { .. }
            | Operator::Return => self.lower_control(op, text),
            Operator::Call { .. }
            | Operator::CallIndirect { .. }
            | Operator::ReturnCall { .. }
            | Operator::ReturnCallIndirect { .. }
            | Operator::Try { .. }
            | Operator::Catch { .. }
            | Operator::CatchAll
            | Operator::Throw { .. }
            | Operator::Rethrow { .. }
            | Operator::Resume { .. }
            | Operator::ResumeThrow { .. } => self.lower_transfer(op, text),
            _ => Err(TranspileError::Unsupported(Buf::lit("operator ").s(text).end())),
        }
    }
}

} // verus!
