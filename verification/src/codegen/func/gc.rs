//! Heap-allocated `struct` and `array` objects.
//!
//! Every managed object is a `GcRef::Obj` (see the module-scope
//! [`GCREF_DEF`](crate::codegen::common::GCREF_DEF)): a struct's slots are its
//! fields in declaration order, an array's slots are its elements.
//! `struct.new`/`array.new` allocate; the `get`/`set`/`len` operators dereference
//! (trapping on a null handle via `GcRef::obj()`), reading or writing a slot by
//! index. Packed (`i8`/`i16`) fields store their masked low bits in a
//! `GcSlot::I32` and sign/zero-extend on `*.get_s`/`*.get_u`.

use vstd::prelude::*;

use crate::codegen::context::CtxV;
use crate::codegen::func::state::{gen_result, FuncGen, GenR, GenV};
use crate::codegen::info::{CompositeKind, FieldInfo};
use crate::codegen::ir::Val;
use crate::error::{no_support, unsupported, FailV, TranspileError};
use crate::text::{dec, join, joined, lit, Buf, Lines};
use crate::wasm::{HeapType, RefType, StorageType, TypeIndex, ValType};

verus! {

/// The highest index of a type that a reference type can name.
pub const MAX_REF_INDEX: u32 = 1048575;

/// The `GcSlot` variant that holds a value of type `ty`.
pub open spec fn slot_variant(ty: ValType) -> Seq<char> {
    match ty {
        ValType::I32 => "I32"@,
        ValType::I64 => "I64"@,
        ValType::F32 => "F32"@,
        ValType::F64 => "F64"@,
        ValType::V128 => "V128"@,
        ValType::Ref(_) => "Ref"@,
    }
}

/// The `GcSlot` variant name for a full value type.
pub fn val_variant(ty: ValType) -> (r: &'static str)
    ensures
        r@ == slot_variant(ty),
{
    match ty {
        ValType::I32 => "I32",
        ValType::I64 => "I64",
        ValType::F32 => "F32",
        ValType::F64 => "F64",
        ValType::V128 => "V128",
        ValType::Ref(_) => "Ref",
    }
}

/// The slot that holds `value` in a field of the given storage.
pub open spec fn slot_wrapped(storage: StorageType, value: Seq<char>) -> Seq<char> {
    match storage {
        StorageType::I8 => ("GcSlot::I32(("@ + value + ") & 0xFF)"@),
        StorageType::I16 => ("GcSlot::I32(("@ + value + ") & 0xFFFF)"@),
        StorageType::Val(ty) => ("GcSlot::"@ + slot_variant(ty) + "("@ + value + ")"@),
    }
}

/// The Rust expression constructing the slot holding `value`.
pub fn wrap_slot(storage: StorageType, value: &str) -> (r: String)
    ensures
        r@ == slot_wrapped(storage, value@),
{
    match storage {
        StorageType::I8 => Buf::lit("GcSlot::I32((").s(value).s(") & 0xFF)").end(),
        StorageType::I16 => Buf::lit("GcSlot::I32((").s(value).s(") & 0xFFFF)").end(),
        StorageType::Val(ty) => Buf::lit("GcSlot::").s(val_variant(ty)).s("(").s(value).s(")")
            .end(),
    }
}

/// The read of a slot of the given storage, without extension.
pub open spec fn slot_read(storage: StorageType, slot: Seq<char>) -> Seq<char> {
    match storage {
        StorageType::Val(ValType::Ref(_)) => {
            ("match "@ + slot + " { GcSlot::Ref(v) => v.clone(), _ => unreachable!() }"@)
        },
        StorageType::Val(ty) => {
            ("match "@ + slot + " { GcSlot::"@ + slot_variant(ty)
                + "(v) => *v, _ => unreachable!() }"@)
        },
        _ => ("match "@ + slot + " { GcSlot::I32(v) => *v, _ => unreachable!() }"@),
    }
}

/// A `match &slot { <arm> }` reading the slot back as its unpacked value, not yet
/// sign/zero-extended for a packed field. `slot` is the borrowed slot expression.
pub fn read_slot(storage: StorageType, slot: &str) -> (r: String)
    ensures
        r@ == slot_read(storage, slot@),
{
    match storage {
        StorageType::Val(ValType::Ref(_)) => {
            Buf::lit("match ").s(slot).s(" { GcSlot::Ref(v) => v.clone(), _ => unreachable!() }")
                .end()
        },
        StorageType::Val(ty) => {
            Buf::lit("match ").s(slot).s(" { GcSlot::").s(val_variant(ty))
                .s("(v) => *v, _ => unreachable!() }").end()
        },
        _ => Buf::lit("match ").s(slot).s(" { GcSlot::I32(v) => *v, _ => unreachable!() }").end(),
    }
}

/// The type that a read of this storage yields.
pub open spec fn slot_type(storage: StorageType) -> ValType {
    match storage {
        StorageType::Val(ty) => ty,
        _ => ValType::I32,
    }
}

/// The value type a read of the slot yields.
pub fn result_ty(storage: StorageType) -> (r: ValType)
    ensures
        r == slot_type(storage),
{
    match storage {
        StorageType::Val(ty) => ty,
        _ => ValType::I32,
    }
}

/// A read extended as the operator asks: a packed field sign- or zero-extended, a
/// full-width one unchanged.
pub open spec fn packed_extended(storage: StorageType, read: Seq<char>, ext: Option<bool>) -> Seq<
    char,
> {
    match (storage, ext) {
        (StorageType::I8, Some(true)) => ("((("@ + read + ") << 24) >> 24)"@),
        (StorageType::I16, Some(true)) => ("((("@ + read + ") << 16) >> 16)"@),
        (StorageType::I8, Some(false)) => ("(("@ + read + ") & 0xFF)"@),
        (StorageType::I16, Some(false)) => ("(("@ + read + ") & 0xFFFF)"@),
        _ => read,
    }
}

/// Apply a packed field's sign/zero extension to a plain `i32` read, when the
/// operator requested it (`*.get_s`/`*.get_u`). A full-width read passes through
/// unchanged.
pub fn extend_packed(storage: StorageType, read: String, ext: Option<bool>) -> (r: String)
    ensures
        r@ == packed_extended(storage, read@, ext),
{
    match (storage, ext) {
        (StorageType::I8, Some(true)) => Buf::lit("(((").s(&read).s(") << 24) >> 24)").end(),
        (StorageType::I16, Some(true)) => Buf::lit("(((").s(&read).s(") << 16) >> 16)").end(),
        (StorageType::I8, Some(false)) => Buf::lit("((").s(&read).s(") & 0xFF)").end(),
        (StorageType::I16, Some(false)) => Buf::lit("((").s(&read).s(") & 0xFFFF)").end(),
        _ => read,
    }
}

/// The type of a non-null reference to the type at `type_index`.
pub open spec fn ref_type_of(type_index: u32) -> Result<ValType, FailV> {
    if type_index <= MAX_REF_INDEX {
        Ok(
            ValType::Ref(
                RefType {
                    nullable: false,
                    heap: HeapType::Concrete(TypeIndex::Module(type_index)),
                },
            ),
        )
    } else {
        Err(unsupported("type index too large"@))
    }
}

/// The value type of a non-null concrete reference to type index `ti`, lowering
/// to `GcRef` for a struct/array type.
pub fn concrete_ref_ty(type_index: u32) -> (r: Result<ValType, TranspileError>)
    ensures
        match ref_type_of(type_index) {
            Ok(ty) => r is Ok && r->Ok_0 == ty,
            Err(e) => r is Err && r->Err_0@ == e,
        },
{
    if type_index <= MAX_REF_INDEX {
        Ok(
            ValType::Ref(
                RefType {
                    nullable: false,
                    heap: HeapType::Concrete(TypeIndex::Module(type_index)),
                },
            ),
        )
    } else {
        Err(no_support("type index too large"))
    }
}

/// Type indices as alternatives of a pattern.
pub open spec fn type_arms(ids: Seq<u32>) -> Seq<Seq<char>> {
    Seq::new(ids.len(), |i: int| (dec(ids[i] as nat) + "u32"@))
}

impl CtxV {
    /// The fields of the struct type at `type_index`.
    pub open spec fn fields(self, type_index: u32) -> Result<Seq<FieldInfo>, FailV> {
        if type_index < self.kinds.len() && self.kinds[type_index as int] is Struct {
            Ok(self.kinds[type_index as int]->Struct_0)
        } else {
            Err(unsupported(("type "@ + dec(type_index as nat) + " is not a struct"@)))
        }
    }

    /// The storage of a field of the struct type at `type_index`.
    pub open spec fn field(self, type_index: u32, field_index: u32) -> Result<StorageType, FailV> {
        match self.fields(type_index) {
            Err(e) => Err(e),
            Ok(fields) => if field_index < fields.len() {
                Ok(fields[field_index as int].storage)
            } else {
                Err(unsupported(("struct field "@ + dec(field_index as nat) + " out of range"@)))
            },
        }
    }

    /// The storage of the elements of the array type at `type_index`.
    pub open spec fn element(self, type_index: u32) -> Result<StorageType, FailV> {
        if type_index < self.kinds.len() && self.kinds[type_index as int] is Array {
            Ok(self.kinds[type_index as int]->Array_0.storage)
        } else {
            Err(unsupported(("type "@ + dec(type_index as nat) + " is not an array"@)))
        }
    }

    /// The index of the struct or array type that `hty` names.
    pub open spec fn object_type(self, hty: HeapType) -> Option<u32> {
        match hty {
            HeapType::Concrete(TypeIndex::Module(i)) => if i < self.kinds.len()
                && self.kinds[i as int].is_object() {
                Some(i)
            } else {
                None
            },
            _ => None,
        }
    }

    /// The test whether the runtime type `ty_expr` is a subtype of `target`: a
    /// membership among all concrete subtypes.
    pub open spec fn member_test(self, ty_expr: Seq<char>, target: u32) -> Seq<char> {
        let ids = self.descendants(target, self.kinds.len());
        if ids.len() == 0 {
            "false"@
        } else {
            ("matches!("@ + ty_expr + ", "@ + joined(type_arms(ids), " | "@) + ")"@)
        }
    }

    /// The test whether the runtime type of a reference is a subtype of `target`.
    pub open spec fn cast_test(self, ref_expr: Seq<char>, target: u32, null_matches: bool) -> Seq<
        char,
    > {
        let null = if null_matches {
            "true"@
        } else {
            "false"@
        };
        ("match &("@ + ref_expr + ") { GcRef::Null => "@ + null + ", GcRef::Obj { ty, .. } => "@
            + self.member_test("*ty"@, target) + " }"@)
    }
}

impl GenV {
    pub open spec fn struct_new(self, type_index: u32) -> GenR {
        match self.ctx.fields(type_index) {
            Err(e) => Err(e),
            Ok(fields) => {
                let n = fields.len();
                match self.survivors_frozen(n) {
                    Err(e) => Err(e),
                    Ok(s) => if !s.has(n as int) {
                        Err(FailV::StackUnderflow)
                    } else {
                        let slots = Seq::new(
                            n,
                            |i: int| slot_wrapped(fields[i].storage, s.tail(n as int)[i].code),
                        );
                        match ref_type_of(type_index) {
                            Err(e) => Err(e),
                            Ok(ty) => s.drop(n as int).materialized(
                                ("GcRef::Obj { ty: "@ + dec(type_index as nat)
                                    + "u32, slots: std::rc::Rc::new(std::cell::RefCell::new(vec!["@
                                    + joined(slots, ", "@) + "])) }"@),
                                ty,
                            ),
                        }
                    },
                }
            },
        }
    }

    pub open spec fn struct_get(self, type_index: u32, field_index: u32, ext: Option<bool>) -> GenR {
        match self.ctx.field(type_index, field_index) {
            Err(e) => Err(e),
            Ok(storage) => if !self.has(1) {
                Err(FailV::StackUnderflow)
            } else {
                let read = slot_read(storage, ("&__b["@ + dec(field_index as nat) + "]"@));
                self.drop(1).materialized(
                    packed_extended(
                        storage,
                        ("{ let __o = ("@ + self.top().code + ").obj(); let __b = __o.borrow(); "@
                            + read + " }"@),
                        ext,
                    ),
                    slot_type(storage),
                )
            },
        }
    }

    pub open spec fn struct_set(self, type_index: u32, field_index: u32) -> GenR {
        match self.ctx.field(type_index, field_index) {
            Err(e) => Err(e),
            Ok(storage) => match self.survivors_frozen(2) {
                Err(e) => Err(e),
                Ok(s) => if !s.has(2) {
                    Err(FailV::StackUnderflow)
                } else {
                    Ok(
                        s.drop(2).line(
                            ("{ let __o = ("@ + s.below(1).code + ").obj(); __o.borrow_mut()["@
                                + dec(field_index as nat) + "] = "@
                                + slot_wrapped(storage, s.top().code) + "; }"@),
                        ),
                    )
                },
            },
        }
    }

    pub open spec fn array_new(self, type_index: u32) -> GenR {
        match self.ctx.element(type_index) {
            Err(e) => Err(e),
            Ok(storage) => match self.survivors_frozen(2) {
                Err(e) => Err(e),
                Ok(s) => if !s.has(2) {
                    Err(FailV::StackUnderflow)
                } else {
                    match ref_type_of(type_index) {
                        Err(e) => Err(e),
                        Ok(ty) => s.drop(2).materialized(
                            ("{ let __n = ("@ + s.top().code + ") as usize; GcRef::Obj { ty: "@
                                + dec(type_index as nat)
                                + "u32, slots: std::rc::Rc::new(std::cell::RefCell::new(vec!["@
                                + slot_wrapped(storage, s.below(1).code) + "; __n])) } }"@),
                            ty,
                        ),
                    }
                },
            },
        }
    }

    pub open spec fn array_get(self, type_index: u32, ext: Option<bool>) -> GenR {
        match self.ctx.element(type_index) {
            Err(e) => Err(e),
            Ok(storage) => match self.survivors_frozen(2) {
                Err(e) => Err(e),
                Ok(s) => if !s.has(2) {
                    Err(FailV::StackUnderflow)
                } else {
                    let read = slot_read(storage, "&__b[(__i) as usize]"@);
                    s.drop(2).materialized(
                        packed_extended(
                            storage,
                            ("{ let __o = ("@ + s.below(1).code + ").obj(); let __i = "@
                                + s.top().code + "; let __b = __o.borrow(); "@ + read + " }"@),
                            ext,
                        ),
                        slot_type(storage),
                    )
                },
            },
        }
    }

    pub open spec fn array_set(self, type_index: u32) -> GenR {
        match self.ctx.element(type_index) {
            Err(e) => Err(e),
            Ok(storage) => match self.survivors_frozen(3) {
                Err(e) => Err(e),
                Ok(s) => if !s.has(3) {
                    Err(FailV::StackUnderflow)
                } else {
                    Ok(
                        s.drop(3).line(
                            ("{ let __o = ("@ + s.below(2).code + ").obj(); __o.borrow_mut()[("@
                                + s.below(1).code + ") as usize] = "@
                                + slot_wrapped(storage, s.top().code) + "; }"@),
                        ),
                    )
                },
            },
        }
    }

    pub open spec fn array_len(self) -> GenR {
        if !self.has(1) {
            Err(FailV::StackUnderflow)
        } else {
            self.drop(1).combined(
                ("(("@ + self.top().code + ").obj().borrow().len() as i32)"@),
                ValType::I32,
                false,
            )
        }
    }

    pub open spec fn ref_test(self, hty: HeapType, null_matches: bool) -> GenR {
        match self.ctx.object_type(hty) {
            None => Err(unsupported("ref.test on a non-struct/array target"@)),
            Some(target) => if !self.has(1) {
                Err(FailV::StackUnderflow)
            } else {
                self.drop(1).materialized(
                    ("i32::from("@ + self.ctx.cast_test(self.top().code, target, null_matches)
                        + ")"@),
                    ValType::I32,
                )
            },
        }
    }

    pub open spec fn ref_cast(self, hty: HeapType, null_matches: bool) -> GenR {
        match self.ctx.object_type(hty) {
            None => Err(unsupported("ref.cast on a non-struct/array target"@)),
            Some(target) => if !self.has(1) {
                Err(FailV::StackUnderflow)
            } else {
                match ref_type_of(target) {
                    Err(e) => Err(e),
                    Ok(ty) => self.drop(1).materialized(
                        ("{ let __r = ("@ + self.top().code + "); if "@
                            + self.ctx.cast_test("__r"@, target, null_matches)
                            + " { __r } else { panic!(\"ref.cast failed\") } }"@),
                        ty,
                    ),
                }
            },
        }
    }

    pub open spec fn br_on_cast(
        self,
        depth: u32,
        from_ref_type: RefType,
        to_ref_type: RefType,
        on_success: bool,
    ) -> GenR {
        match self.ctx.object_type(to_ref_type.heap) {
            None => Err(unsupported("br_on_cast to a non-struct/array target"@)),
            Some(target) => if !self.has(1) {
                Err(FailV::StackUnderflow)
            } else {
                let s = self.drop(1);
                let test = self.ctx.cast_test(s.temp(), target, to_ref_type.nullable);
                s.temp_taken().line(("let "@ + s.temp() + ": GcRef = "@ + self.top().code
                    + ";"@)).push(
                    s.temp(),
                    ValType::Ref(
                        if on_success {
                            from_ref_type
                        } else {
                            to_ref_type
                        },
                    ),
                    true,
                ).branch(
                    depth,
                    Some(
                        if on_success {
                            ("i32::from("@ + test + ")"@)
                        } else {
                            ("i32::from(!("@ + test + "))"@)
                        },
                    ),
                )
            },
        }
    }

    /// `ref.null` of a struct/array type.
    pub open spec fn ref_null_gc(self, type_index: u32) -> GenR {
        match ref_type_of(type_index) {
            Err(e) => Err(e),
            Ok(ty) => Ok(self.push("GcRef::Null"@, ty, true)),
        }
    }
}

impl<'a> FuncGen<'a> {
    /// The storage of field `field_index` of the struct type at `type_index`.
    fn struct_field(&self, type_index: u32, field_index: u32) -> (r: Result<
        StorageType,
        TranspileError,
    >)
        ensures
            match self@.ctx.field(type_index, field_index) {
                Ok(s) => r is Ok && r->Ok_0 == s,
                Err(e) => r is Err && r->Err_0@ == e,
            },
    {
        let fields = self.struct_fields(type_index)?;
        if (field_index as usize) < fields.len() {
            Ok(fields[field_index as usize].storage)
        } else {
            Err(TranspileError::Unsupported(Buf::lit("struct field ").n(field_index as u64)
                .s(" out of range").end()))
        }
    }

    /// Resolve a struct type index to its field list, erroring if the index is
    /// not a struct type.
    fn struct_fields(&self, type_index: u32) -> (r: Result<&'a Vec<FieldInfo>, TranspileError>)
        ensures
            match self@.ctx.fields(type_index) {
                Ok(f) => r is Ok && r->Ok_0@ == f,
                Err(e) => r is Err && r->Err_0@ == e,
            },
    {
        let ctx = self.context();
        let kinds = ctx.type_kinds;
        if (type_index as usize) < kinds.len() {
            assert(self@.ctx.kinds[type_index as int] == kinds@[type_index as int]@);
            if let CompositeKind::Struct(fields) = &kinds[type_index as usize] {
                return Ok(fields);
            }
        }
        Err(TranspileError::Unsupported(Buf::lit("type ").n(type_index as u64).s(" is not a struct")
            .end()))
    }

    /// Resolve an array type index to its element storage, erroring otherwise.
    fn array_element(&self, type_index: u32) -> (r: Result<StorageType, TranspileError>)
        ensures
            match self@.ctx.element(type_index) {
                Ok(s) => r is Ok && r->Ok_0 == s,
                Err(e) => r is Err && r->Err_0@ == e,
            },
    {
        let kinds = self.context().type_kinds;
        if (type_index as usize) < kinds.len() {
            assert(self@.ctx.kinds[type_index as int] == kinds@[type_index as int]@);
            if let CompositeKind::Array(element) = &kinds[type_index as usize] {
                return Ok(element.storage);
            }
        }
        Err(TranspileError::Unsupported(Buf::lit("type ").n(type_index as u64).s(" is not an array")
            .end()))
    }

    /// The module type index of a concrete struct/array heap type, or `None` for
    /// a funcref/externref/abstract or otherwise non-managed heap type.
    pub fn gc_type_index(&self, hty: HeapType) -> (r: Option<u32>)
        ensures
            r == self@.ctx.object_type(hty),
    {
        match hty {
            HeapType::Concrete(TypeIndex::Module(i)) => {
                let kinds = self.context().type_kinds;
                if (i as usize) < kinds.len() {
                    assert(self@.ctx.kinds[i as int] == kinds@[i as int]@);
                    if kinds[i as usize].is_object() {
                        return Some(i);
                    }
                }
                None
            },
            _ => None,
        }
    }

    /// `struct.new $t`: pop the N fields (last field on top) and allocate an
    /// object whose slots hold them in declaration order.
    pub fn struct_new(&mut self, type_index: u32) -> (r: Result<(), TranspileError>)
        requires
            old(self).wf(),
        ensures
            gen_result(r, final(self)@, old(self)@.struct_new(type_index)),
            r is Ok ==> final(self).wf(),
    {
        let fields = self.struct_fields(type_index)?;
        let n: usize = fields.len();
        // Freeze anything below the fields, then pop the fields (top is last).
        self.freeze_survivors(n)?;
        let ghost s = self@;
        let values = self.pop_many(n)?;
        let ghost want = Seq::new(
            n as nat,
            |i: int| slot_wrapped(fields@[i].storage, s.tail(n as int)[i].code),
        );
        let mut slots = Lines::new();
        let mut i: usize = 0;
        while i < n
            invariant
                i <= n,
                n == fields@.len(),
                n == values@.len(),
                crate::codegen::frame::vals(values@) == s.tail(n as int),
                want == Seq::new(
                    n as nat,
                    |i: int| slot_wrapped(fields@[i].storage, s.tail(n as int)[i].code),
                ),
                slots@ =~= want.take(i as int),
            decreases n - i,
        {
            assert(s.tail(n as int)[i as int] == values@[i as int]@);
            slots.add(wrap_slot(fields[i].storage, values[i].code.as_str()));
            i += 1;
        }
        assert(slots@ =~= want);
        let all = join(&slots.v, ", ");
        // An allocation is not re-evaluatable, so bind it to a stable temp.
        let ty = concrete_ref_ty(type_index)?;
        self.materialize(
            Buf::lit("GcRef::Obj { ty: ").n(type_index as u64)
                .s("u32, slots: std::rc::Rc::new(std::cell::RefCell::new(vec![").s(&all).s("])) }")
                .end(),
            ty,
        )
    }

    /// `struct.get{,_s,_u} $t f`: pop the ref and read field `f`. `ext` selects
    /// the packed extension (`None` for a full read, `Some(true)` sign-, `Some
    /// (false)` zero-extend). A null ref traps via `GcRef::obj()`.
    pub fn struct_get(&mut self, type_index: u32, field_index: u32, ext: Option<bool>) -> (r:
        Result<(), TranspileError>)
        requires
            old(self).wf(),
        ensures
            gen_result(r, final(self)@, old(self)@.struct_get(type_index, field_index, ext)),
            r is Ok ==> final(self).wf(),
    {
        let storage = self.struct_field(type_index, field_index)?;
        let r = self.pop()?;
        let slot = Buf::lit("&__b[").n(field_index as u64).s("]").end();
        let read = read_slot(storage, slot.as_str());
        let inner = Buf::lit("{ let __o = (").s(&r.code).s(").obj(); let __b = __o.borrow(); ")
            .s(&read).s(" }").end();
        // The read dereferences a managed object; bind it to a stable temp.
        self.materialize(extend_packed(storage, inner, ext), result_ty(storage))
    }

    /// `struct.set $t f`: pop the value then the ref and store into field `f`.
    pub fn struct_set(&mut self, type_index: u32, field_index: u32) -> (r: Result<
        (),
        TranspileError,
    >)
        requires
            old(self).wf(),
        ensures
            gen_result(r, final(self)@, old(self)@.struct_set(type_index, field_index)),
            r is Ok ==> final(self).wf(),
    {
        let storage = self.struct_field(type_index, field_index)?;
        self.freeze_survivors(2)?;
        let (r, value) = self.pop2()?;
        let slot = wrap_slot(storage, value.code.as_str());
        self.line(Buf::lit("{ let __o = (").s(&r.code).s(").obj(); __o.borrow_mut()[")
            .n(field_index as u64).s("] = ").s(&slot).s("; }").end());
        Ok(())
    }

    /// `array.new $t`: pop `size` (top) then the init value and allocate an array
    /// of `size` copies of the init value.
    pub fn array_new(&mut self, type_index: u32) -> (r: Result<(), TranspileError>)
        requires
            old(self).wf(),
        ensures
            gen_result(r, final(self)@, old(self)@.array_new(type_index)),
            r is Ok ==> final(self).wf(),
    {
        let storage = self.array_element(type_index)?;
        self.freeze_survivors(2)?;
        let (init, size) = self.pop2()?;
        let slot = wrap_slot(storage, init.code.as_str());
        let ty = concrete_ref_ty(type_index)?;
        self.materialize(
            Buf::lit("{ let __n = (").s(&size.code).s(") as usize; GcRef::Obj { ty: ")
                .n(type_index as u64)
                .s("u32, slots: std::rc::Rc::new(std::cell::RefCell::new(vec![").s(&slot)
                .s("; __n])) } }").end(),
            ty,
        )
    }

    /// `array.get{,_s,_u} $t`: pop `index` (top) then the ref and read the
    /// element. A null ref or an out-of-bounds index traps.
    pub fn array_get(&mut self, type_index: u32, ext: Option<bool>) -> (r: Result<
        (),
        TranspileError,
    >)
        requires
            old(self).wf(),
        ensures
            gen_result(r, final(self)@, old(self)@.array_get(type_index, ext)),
            r is Ok ==> final(self).wf(),
    {
        let storage = self.array_element(type_index)?;
        self.freeze_survivors(2)?;
        let (r, index) = self.pop2()?;
        let read = read_slot(storage, "&__b[(__i) as usize]");
        let inner = Buf::lit("{ let __o = (").s(&r.code).s(").obj(); let __i = ").s(&index.code)
            .s("; let __b = __o.borrow(); ").s(&read).s(" }").end();
        self.materialize(extend_packed(storage, inner, ext), result_ty(storage))
    }

    /// `array.set $t`: pop `value` (top), then `index`, then the ref.
    pub fn array_set(&mut self, type_index: u32) -> (r: Result<(), TranspileError>)
        requires
            old(self).wf(),
        ensures
            gen_result(r, final(self)@, old(self)@.array_set(type_index)),
            r is Ok ==> final(self).wf(),
    {
        let storage = self.array_element(type_index)?;
        self.freeze_survivors(3)?;
        let ghost s = self@;
        let v = self.pop_many(3)?;
        proof {
            let t = s.tail(3);
            assert(crate::codegen::frame::vals(v@)[0] == t[0]);
            assert(t[0] == v@[0]@ && t[1] == v@[1]@ && t[2] == v@[2]@);
            assert(t[2] == s.top() && t[1] == s.below(1) && t[0] == s.below(2));
        }
        let slot = wrap_slot(storage, v[2].code.as_str());
        self.line(
            Buf::lit("{ let __o = (").s(&v[0].code).s(").obj(); __o.borrow_mut()[(").s(&v[1].code)
                .s(") as usize] = ").s(&slot).s("; }").end(),
        );
        Ok(())
    }

    /// `array.len`: pop the ref and push the element count as an `i32`.
    pub fn array_len(&mut self) -> (r: Result<(), TranspileError>)
        requires
            old(self).wf(),
        ensures
            gen_result(r, final(self)@, old(self)@.array_len()),
            r is Ok ==> final(self).wf(),
    {
        let r = self.pop()?;
        self.push_combined(Buf::lit("((").s(&r.code).s(").obj().borrow().len() as i32)")
            .end(), ValType::I32, false)
    }

    /// The `matches!(<ty_expr>, d0 | d1 | ...)` membership test deciding whether
    /// a runtime concrete type id (`ty_expr`) is a subtype of the static target
    /// `T` — i.e. is in `T`'s descendant set. An empty set yields `false` (no
    /// concrete type can match), avoiding an empty `matches!` pattern.
    fn subtype_member(&self, ty_expr: &str, target: u32) -> (r: String)
        ensures
            r@ == self@.ctx.member_test(ty_expr@, target),
    {
        let desc = self.context().concrete_descendants(target);
        if desc.len() == 0 {
            return lit("false");
        }
        let mut arms = Lines::new();
        let mut i: usize = 0;
        while i < desc.len()
            invariant
                i <= desc@.len(),
                arms@ =~= type_arms(desc@).take(i as int),
            decreases desc@.len() - i,
        {
            arms.add(Buf::num(desc[i] as u64).s("u32").end());
            i += 1;
        }
        assert(arms@ =~= type_arms(desc@));
        let all = join(&arms.v, " | ");
        Buf::lit("matches!(").s(ty_expr).s(", ").s(&all).s(")").end()
    }

    /// A `match &<ref_expr> { ... }` yielding a Rust `bool`: whether the ref's
    /// runtime type is a subtype of the static target `T`. `null_matches` picks
    /// how the null handle is classified (a nullable target matches null).
    fn cast_test_bool(&self, ref_expr: &str, target: u32, null_matches: bool) -> (r: String)
        ensures
            r@ == self@.ctx.cast_test(ref_expr@, target, null_matches),
    {
        let member = self.subtype_member("*ty", target);
        let null = if null_matches {
            "true"
        } else {
            "false"
        };
        Buf::lit("match &(").s(ref_expr).s(") { GcRef::Null => ").s(null)
            .s(", GcRef::Obj { ty, .. } => ").s(&member).s(" }").end()
    }

    /// `ref.test`: pop the ref and push an `i32` (`1`/`0`) reporting whether its
    /// runtime type is a subtype of the target heap type. `null_matches` is set
    /// for the nullable variant (`ref.test (ref null $t)`) and clear for the
    /// non-null variant, which the surrounding operator dispatch selects.
    pub fn ref_test(&mut self, hty: HeapType, null_matches: bool) -> (r: Result<
        (),
        TranspileError,
    >)
        requires
            old(self).wf(),
        ensures
            gen_result(r, final(self)@, old(self)@.ref_test(hty, null_matches)),
            r is Ok ==> final(self).wf(),
    {
        let target: u32 = match self.gc_type_index(hty) {
            Some(t) => t,
            None => return Err(no_support("ref.test on a non-struct/array target")),
        };
        let r = self.pop()?;
        let test = self.cast_test_bool(r.code.as_str(), target, null_matches);
        self.materialize(Buf::lit("i32::from(").s(&test).s(")").end(), ValType::I32)
    }

    /// `ref.cast`: pop the ref, trap if its runtime type is not a subtype of the
    /// target, and push the same handle typed as the target reference. The
    /// nullability of the target (`null_matches`) decides whether null passes.
    pub fn ref_cast(&mut self, hty: HeapType, null_matches: bool) -> (r: Result<
        (),
        TranspileError,
    >)
        requires
            old(self).wf(),
        ensures
            gen_result(r, final(self)@, old(self)@.ref_cast(hty, null_matches)),
            r is Ok ==> final(self).wf(),
    {
        let target: u32 = match self.gc_type_index(hty) {
            Some(t) => t,
            None => return Err(no_support("ref.cast on a non-struct/array target")),
        };
        let r = self.pop()?;
        let test = self.cast_test_bool("__r", target, null_matches);
        let ty = concrete_ref_ty(target)?;
        self.materialize(
            Buf::lit("{ let __r = (").s(&r.code).s("); if ").s(&test)
                .s(" { __r } else { panic!(\"ref.cast failed\") } }").end(),
            ty,
        )
    }

    /// `br_on_cast`/`br_on_cast_fail`: branch to `depth` on (respectively) a
    /// successful/failed downcast of the stack-top ref to `to_ref_type`, leaving
    /// it on the stack for the fall-through path. Both `from`/`to` ref types
    /// lower to `GcRef`, so only the stack `Val.ty` differs between the paths.
    pub fn br_on_cast(
        &mut self,
        depth: u32,
        from_ref_type: RefType,
        to_ref_type: RefType,
        on_success: bool,
    ) -> (r: Result<(), TranspileError>)
        requires
            old(self).wf(),
        ensures
            gen_result(r, final(self)@, old(self)@.br_on_cast(depth, from_ref_type, to_ref_type,
                on_success)),
            r is Ok ==> final(self).wf(),
    {
        let target: u32 = match self.gc_type_index(to_ref_type.heap) {
            Some(t) => t,
            None => return Err(no_support("br_on_cast to a non-struct/array target")),
        };
        // Pin the ref into a stable temp so the branch carries it on the taken
        // path and leaves the same value on the stack for fall-through, without
        // re-evaluating (and so re-allocating) the operand.
        let r = self.pop()?;
        let temp = self.fresh_temp();
        self.line(Buf::lit("let ").s(&temp).s(": GcRef = ").s(&r.code).s(";").end());
        // The condition tests the runtime type against `to_ref_type` (whose
        // nullability decides how null is treated). `br_on_cast` branches on a
        // match; `br_on_cast_fail` branches on the complement.
        let test = self.cast_test_bool(temp.as_str(), target, to_ref_type.nullable);
        let cond = if on_success {
            Buf::lit("i32::from(").s(&test).s(")").end()
        } else {
            Buf::lit("i32::from(!(").s(&test).s("))").end()
        };
        // The fall-through type is the one *not* carried on the branch.
        let fallthrough = if on_success {
            from_ref_type
        } else {
            to_ref_type
        };
        self.push(temp, ValType::Ref(fallthrough), true);
        self.branch(depth, Some(cond))
    }

    /// `ref.null` of a struct/array heap type: push the managed null handle.
    pub fn ref_null_gc(&mut self, type_index: u32) -> (r: Result<(), TranspileError>)
        requires
            old(self).wf(),
        ensures
            gen_result(r, final(self)@, old(self)@.ref_null_gc(type_index)),
            r is Ok ==> final(self).wf(),
    {
        let ty = concrete_ref_ty(type_index)?;
        self.push(lit("GcRef::Null"), ty, true);
        Ok(())
    }
}

} // verus!
