//! The WebAssembly types and instructions the generator works on.

use vstd::prelude::*;

use crate::text::{dec, lit, Buf};

verus! {

/// An abstract heap type.
#[derive(Clone, Copy, PartialEq, Eq, Structural, Debug)]
pub enum AbstractHeapType {
    Func,
    Extern,
    Any,
    NoAny,
    NoExtern,
    NoFunc,
    Eq,
    Struct,
    Array,
    I31,
    Exn,
    NoExn,
    Cont,
    NoCont,
}

/// Where a type is found.
#[derive(Clone, Copy, PartialEq, Eq, Structural, Debug)]
pub enum TypeIndex {
    /// In the module's type space.
    Module(u32),
    /// In the recursion group that mentions it.
    RecGroup(u32),
}

/// A heap type: an abstract one, or a type of the module by its index.
#[derive(Clone, Copy, PartialEq, Eq, Structural, Debug)]
pub enum HeapType {
    Abstract { shared: bool, ty: AbstractHeapType },
    /// A type and its subtypes.
    Concrete(TypeIndex),
    /// A type without its subtypes.
    Exact(TypeIndex),
}

/// A reference type.
#[derive(Clone, Copy, PartialEq, Eq, Structural, Debug)]
pub struct RefType {
    pub nullable: bool,
    pub heap: HeapType,
}

impl RefType {
    /// Whether this refers to any function.
    pub open spec fn func_ref(self) -> bool {
        match self.heap {
            HeapType::Abstract { ty, .. } => ty == AbstractHeapType::Func,
            _ => false,
        }
    }

    /// Whether this refers to any host value.
    pub open spec fn extern_ref(self) -> bool {
        match self.heap {
            HeapType::Abstract { ty, .. } => ty == AbstractHeapType::Extern,
            _ => false,
        }
    }

    /// Whether this refers to any function.
    pub fn is_func_ref(&self) -> (r: bool)
        ensures
            r == self.func_ref(),
    {
        match self.heap {
            HeapType::Abstract { ty, .. } => ty == AbstractHeapType::Func,
            _ => false,
        }
    }

    /// Whether this refers to any host value.
    pub fn is_extern_ref(&self) -> (r: bool)
        ensures
            r == self.extern_ref(),
    {
        match self.heap {
            HeapType::Abstract { ty, .. } => ty == AbstractHeapType::Extern,
            _ => false,
        }
    }
}

/// A value type.
#[derive(Clone, Copy, PartialEq, Eq, Structural, Debug)]
pub enum ValType {
    I32,
    I64,
    F32,
    F64,
    V128,
    Ref(RefType),
}

/// The storage type of a struct field or an array element.
#[derive(Clone, Copy, PartialEq, Eq, Structural, Debug)]
pub enum StorageType {
    I8,
    I16,
    Val(ValType),
}

/// The type of a block.
#[derive(Clone, Copy, PartialEq, Eq, Structural, Debug)]
pub enum BlockType {
    /// Neither parameters nor results.
    Empty,
    /// One result.
    Type(ValType),
    /// A function type of the module.
    FuncType(u32),
}

/// The immediate of a memory access.
#[derive(Clone, Copy, PartialEq, Eq, Structural, Debug)]
pub struct MemArg {
    pub offset: u64,
    pub memory: u32,
}

/// The nullable reference to any function.
pub open spec fn funcref() -> ValType {
    ValType::Ref(
        RefType {
            nullable: true,
            heap: HeapType::Abstract { shared: false, ty: AbstractHeapType::Func },
        },
    )
}

/// The nullable reference to any host value.
pub open spec fn externref() -> ValType {
    ValType::Ref(
        RefType {
            nullable: true,
            heap: HeapType::Abstract { shared: false, ty: AbstractHeapType::Extern },
        },
    )
}

/// The nullable reference to any function.
pub fn func_ref() -> (r: ValType)
    ensures
        r == funcref(),
{
    ValType::Ref(
        RefType {
            nullable: true,
            heap: HeapType::Abstract { shared: false, ty: AbstractHeapType::Func },
        },
    )
}

/// The nullable reference to any host value.
pub fn extern_ref() -> (r: ValType)
    ensures
        r == externref(),
{
    ValType::Ref(
        RefType {
            nullable: true,
            heap: HeapType::Abstract { shared: false, ty: AbstractHeapType::Extern },
        },
    )
}

// ---------------------------------------------------------------------------
// How types are spelled in messages
// ---------------------------------------------------------------------------
/// The name of an abstract heap type as part of a reference type.
pub open spec fn abstract_text(ty: AbstractHeapType, nullable: bool) -> Seq<char> {
    match ty {
        AbstractHeapType::Any => "any"@,
        AbstractHeapType::NoAny => if nullable {
            "null"@
        } else {
            "none"@
        },
        AbstractHeapType::NoExtern => if nullable {
            "nullextern"@
        } else {
            "noextern"@
        },
        AbstractHeapType::NoFunc => if nullable {
            "nullfunc"@
        } else {
            "nofunc"@
        },
        AbstractHeapType::Eq => "eq"@,
        AbstractHeapType::Struct => "struct"@,
        AbstractHeapType::Array => "array"@,
        AbstractHeapType::I31 => "i31"@,
        AbstractHeapType::Extern => "extern"@,
        AbstractHeapType::Func => "func"@,
        AbstractHeapType::Exn => "exn"@,
        AbstractHeapType::NoExn => if nullable {
            "nullexn"@
        } else {
            "noexn"@
        },
        AbstractHeapType::Cont => "cont"@,
        AbstractHeapType::NoCont => if nullable {
            "nullcont"@
        } else {
            "nocont"@
        },
    }
}

/// The spelling of a type index.
pub open spec fn index_text(index: TypeIndex) -> Seq<char> {
    match index {
        TypeIndex::Module(i) => ("(module "@ + dec(i as nat) + ")"@),
        TypeIndex::RecGroup(i) => ("(recgroup "@ + dec(i as nat) + ")"@),
    }
}

/// The spelling of a reference type.
pub open spec fn ref_text(r: RefType) -> Seq<char> {
    match r.heap {
        HeapType::Abstract { shared, ty } => {
            let name = abstract_text(ty, r.nullable);
            if r.nullable && shared {
                ("(shared "@ + name + "ref)"@)
            } else if r.nullable {
                (name + "ref"@)
            } else if shared {
                ("(ref (shared "@ + name + "))"@)
            } else {
                ("(ref "@ + name + ")"@)
            }
        },
        HeapType::Concrete(index) => if r.nullable {
            ("(ref null "@ + index_text(index) + ")"@)
        } else {
            ("(ref "@ + index_text(index) + ")"@)
        },
        HeapType::Exact(index) => ("(ref (exact "@ + index_text(index) + "))"@),
    }
}

/// The spelling of a value type.
pub open spec fn val_type_text(ty: ValType) -> Seq<char> {
    match ty {
        ValType::I32 => "I32"@,
        ValType::I64 => "I64"@,
        ValType::F32 => "F32"@,
        ValType::F64 => "F64"@,
        ValType::V128 => "V128"@,
        ValType::Ref(r) => ("Ref("@ + ref_text(r) + ")"@),
    }
}

/// The name of an abstract heap type on its own.
pub open spec fn abstract_name(ty: AbstractHeapType) -> Seq<char> {
    match ty {
        AbstractHeapType::Func => "Func"@,
        AbstractHeapType::Extern => "Extern"@,
        AbstractHeapType::Any => "Any"@,
        AbstractHeapType::NoAny => "None"@,
        AbstractHeapType::NoExtern => "NoExtern"@,
        AbstractHeapType::NoFunc => "NoFunc"@,
        AbstractHeapType::Eq => "Eq"@,
        AbstractHeapType::Struct => "Struct"@,
        AbstractHeapType::Array => "Array"@,
        AbstractHeapType::I31 => "I31"@,
        AbstractHeapType::Exn => "Exn"@,
        AbstractHeapType::NoExn => "NoExn"@,
        AbstractHeapType::Cont => "Cont"@,
        AbstractHeapType::NoCont => "NoCont"@,
    }
}

/// The spelling of a heap type.
pub open spec fn heap_type_text(h: HeapType) -> Seq<char> {
    match h {
        HeapType::Abstract { shared, ty } => if shared {
            ("Abstract { shared: true, ty: "@ + abstract_name(ty) + " }"@)
        } else {
            ("Abstract { shared: false, ty: "@ + abstract_name(ty) + " }"@)
        },
        HeapType::Concrete(TypeIndex::Module(i)) => ("Concrete(Module("@ + dec(i as nat) + "))"@),
        HeapType::Concrete(TypeIndex::RecGroup(i)) => ("Concrete(RecGroup("@ + dec(i as nat)
            + "))"@),
        HeapType::Exact(TypeIndex::Module(i)) => ("Exact(Module("@ + dec(i as nat) + "))"@),
        HeapType::Exact(TypeIndex::RecGroup(i)) => ("Exact(RecGroup("@ + dec(i as nat) + "))"@),
    }
}

fn abstract_str(ty: AbstractHeapType, nullable: bool) -> (r: &'static str)
    ensures
        r@ == abstract_text(ty, nullable),
{
    match ty {
        AbstractHeapType::Any => "any",
        AbstractHeapType::NoAny => if nullable {
            "null"
        } else {
            "none"
        },
        AbstractHeapType::NoExtern => if nullable {
            "nullextern"
        } else {
            "noextern"
        },
        AbstractHeapType::NoFunc => if nullable {
            "nullfunc"
        } else {
            "nofunc"
        },
        AbstractHeapType::Eq => "eq",
        AbstractHeapType::Struct => "struct",
        AbstractHeapType::Array => "array",
        AbstractHeapType::I31 => "i31",
        AbstractHeapType::Extern => "extern",
        AbstractHeapType::Func => "func",
        AbstractHeapType::Exn => "exn",
        AbstractHeapType::NoExn => if nullable {
            "nullexn"
        } else {
            "noexn"
        },
        AbstractHeapType::Cont => "cont",
        AbstractHeapType::NoCont => if nullable {
            "nullcont"
        } else {
            "nocont"
        },
    }
}

fn show_index(index: TypeIndex) -> (r: String)
    ensures
        r@ == index_text(index),
{
    match index {
        TypeIndex::Module(i) => Buf::lit("(module ").n(i as u64).s(")").end(),
        TypeIndex::RecGroup(i) => Buf::lit("(recgroup ").n(i as u64).s(")").end(),
    }
}

/// The spelling of a reference type.
pub fn show_ref_type(r: RefType) -> (t: String)
    ensures
        t@ == ref_text(r),
{
    match r.heap {
        HeapType::Abstract { shared, ty } => {
            let name = abstract_str(ty, r.nullable);
            if r.nullable && shared {
                Buf::lit("(shared ").s(name).s("ref)").end()
            } else if r.nullable {
                Buf::lit(name).s("ref").end()
            } else if shared {
                Buf::lit("(ref (shared ").s(name).s("))").end()
            } else {
                Buf::lit("(ref ").s(name).s(")").end()
            }
        },
        HeapType::Concrete(index) => if r.nullable {
            Buf::lit("(ref null ").s(&show_index(index)).s(")").end()
        } else {
            Buf::lit("(ref ").s(&show_index(index)).s(")").end()
        },
        HeapType::Exact(index) => Buf::lit("(ref (exact ").s(&show_index(index)).s("))").end(),
    }
}

/// The spelling of a value type.
pub fn show_val_type(ty: ValType) -> (t: String)
    ensures
        t@ == val_type_text(ty),
{
    match ty {
        ValType::I32 => lit("I32"),
        ValType::I64 => lit("I64"),
        ValType::F32 => lit("F32"),
        ValType::F64 => lit("F64"),
        ValType::V128 => lit("V128"),
        ValType::Ref(r) => Buf::lit("Ref(").s(&show_ref_type(r)).s(")").end(),
    }
}

fn abstract_name_str(ty: AbstractHeapType) -> (r: &'static str)
    ensures
        r@ == abstract_name(ty),
{
    match ty {
        AbstractHeapType::Func => "Func",
        AbstractHeapType::Extern => "Extern",
        AbstractHeapType::Any => "Any",
        AbstractHeapType::NoAny => "None",
        AbstractHeapType::NoExtern => "NoExtern",
        AbstractHeapType::NoFunc => "NoFunc",
        AbstractHeapType::Eq => "Eq",
        AbstractHeapType::Struct => "Struct",
        AbstractHeapType::Array => "Array",
        AbstractHeapType::I31 => "I31",
        AbstractHeapType::Exn => "Exn",
        AbstractHeapType::NoExn => "NoExn",
        AbstractHeapType::Cont => "Cont",
        AbstractHeapType::NoCont => "NoCont",
    }
}

/// The spelling of a heap type.
pub fn show_heap_type(h: HeapType) -> (t: String)
    ensures
        t@ == heap_type_text(h),
{
    match h {
        HeapType::Abstract { shared, ty } => if shared {
            Buf::lit("Abstract { shared: true, ty: ").s(abstract_name_str(ty)).s(" }").end()
        } else {
            Buf::lit("Abstract { shared: false, ty: ").s(abstract_name_str(ty)).s(" }").end()
        },
        HeapType::Concrete(TypeIndex::Module(i)) => Buf::lit("Concrete(Module(").n(i as u64).s("))")
            .end(),
        HeapType::Concrete(TypeIndex::RecGroup(i)) => Buf::lit("Concrete(RecGroup(").n(i as u64)
            .s("))").end(),
        HeapType::Exact(TypeIndex::Module(i)) => Buf::lit("Exact(Module(").n(i as u64).s("))")
            .end(),
        HeapType::Exact(TypeIndex::RecGroup(i)) => Buf::lit("Exact(RecGroup(").n(i as u64).s("))")
            .end(),
    }
}

} // verus!
