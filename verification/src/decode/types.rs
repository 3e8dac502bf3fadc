//! Reading types out of the spelling of an instruction.

use vstd::prelude::*;

use crate::codegen::scan::{found_at, occurs_at};
use crate::decode::spelling::{
    behind, find_behind, find_index, find_word, index_behind, number_at, read_number, read_word,
    spells, word_at, word_behind,
};
use crate::text::chars_of;
use crate::wasm::{AbstractHeapType, BlockType, HeapType, RefType, TypeIndex, ValType};

verus! {

/// The abstract heap type with this name.
pub open spec fn abstract_named(w: Seq<char>) -> Option<AbstractHeapType> {
    if w == "Func"@ {
        Some(AbstractHeapType::Func)
    } else if w == "Extern"@ {
        Some(AbstractHeapType::Extern)
    } else if w == "Any"@ {
        Some(AbstractHeapType::Any)
    } else if w == "None"@ {
        Some(AbstractHeapType::NoAny)
    } else if w == "NoExtern"@ {
        Some(AbstractHeapType::NoExtern)
    } else if w == "NoFunc"@ {
        Some(AbstractHeapType::NoFunc)
    } else if w == "Eq"@ {
        Some(AbstractHeapType::Eq)
    } else if w == "Struct"@ {
        Some(AbstractHeapType::Struct)
    } else if w == "Array"@ {
        Some(AbstractHeapType::Array)
    } else if w == "I31"@ {
        Some(AbstractHeapType::I31)
    } else if w == "Exn"@ {
        Some(AbstractHeapType::Exn)
    } else if w == "NoExn"@ {
        Some(AbstractHeapType::NoExn)
    } else if w == "Cont"@ {
        Some(AbstractHeapType::Cont)
    } else if w == "NoCont"@ {
        Some(AbstractHeapType::NoCont)
    } else {
        None
    }
}

/// The abstract heap type of a nullable reference with this short spelling.
pub open spec fn nullable_ref(w: Seq<char>) -> Option<AbstractHeapType> {
    if w == "funcref"@ {
        Some(AbstractHeapType::Func)
    } else if w == "externref"@ {
        Some(AbstractHeapType::Extern)
    } else if w == "anyref"@ {
        Some(AbstractHeapType::Any)
    } else if w == "nullref"@ {
        Some(AbstractHeapType::NoAny)
    } else if w == "nullexternref"@ {
        Some(AbstractHeapType::NoExtern)
    } else if w == "nullfuncref"@ {
        Some(AbstractHeapType::NoFunc)
    } else if w == "eqref"@ {
        Some(AbstractHeapType::Eq)
    } else if w == "structref"@ {
        Some(AbstractHeapType::Struct)
    } else if w == "arrayref"@ {
        Some(AbstractHeapType::Array)
    } else if w == "i31ref"@ {
        Some(AbstractHeapType::I31)
    } else if w == "exnref"@ {
        Some(AbstractHeapType::Exn)
    } else if w == "nullexnref"@ {
        Some(AbstractHeapType::NoExn)
    } else if w == "contref"@ {
        Some(AbstractHeapType::Cont)
    } else if w == "nullcontref"@ {
        Some(AbstractHeapType::NoCont)
    } else {
        None
    }
}

/// The abstract heap type of a reference that is never null.
pub open spec fn non_null_ref(w: Seq<char>) -> Option<AbstractHeapType> {
    if w == "func"@ {
        Some(AbstractHeapType::Func)
    } else if w == "extern"@ {
        Some(AbstractHeapType::Extern)
    } else if w == "any"@ {
        Some(AbstractHeapType::Any)
    } else if w == "none"@ {
        Some(AbstractHeapType::NoAny)
    } else if w == "noextern"@ {
        Some(AbstractHeapType::NoExtern)
    } else if w == "nofunc"@ {
        Some(AbstractHeapType::NoFunc)
    } else if w == "eq"@ {
        Some(AbstractHeapType::Eq)
    } else if w == "struct"@ {
        Some(AbstractHeapType::Struct)
    } else if w == "array"@ {
        Some(AbstractHeapType::Array)
    } else if w == "i31"@ {
        Some(AbstractHeapType::I31)
    } else if w == "exn"@ {
        Some(AbstractHeapType::Exn)
    } else if w == "noexn"@ {
        Some(AbstractHeapType::NoExn)
    } else if w == "cont"@ {
        Some(AbstractHeapType::Cont)
    } else if w == "nocont"@ {
        Some(AbstractHeapType::NoCont)
    } else {
        None
    }
}

fn read_abstract(w: &Vec<char>) -> (r: Option<AbstractHeapType>)
    ensures
        r == abstract_named(w@),
{
    if spells(w, "Func") {
        Some(AbstractHeapType::Func)
    } else if spells(w, "Extern") {
        Some(AbstractHeapType::Extern)
    } else if spells(w, "Any") {
        Some(AbstractHeapType::Any)
    } else if spells(w, "None") {
        Some(AbstractHeapType::NoAny)
    } else if spells(w, "NoExtern") {
        Some(AbstractHeapType::NoExtern)
    } else if spells(w, "NoFunc") {
        Some(AbstractHeapType::NoFunc)
    } else if spells(w, "Eq") {
        Some(AbstractHeapType::Eq)
    } else if spells(w, "Struct") {
        Some(AbstractHeapType::Struct)
    } else if spells(w, "Array") {
        Some(AbstractHeapType::Array)
    } else if spells(w, "I31") {
        Some(AbstractHeapType::I31)
    } else if spells(w, "Exn") {
        Some(AbstractHeapType::Exn)
    } else if spells(w, "NoExn") {
        Some(AbstractHeapType::NoExn)
    } else if spells(w, "Cont") {
        Some(AbstractHeapType::Cont)
    } else if spells(w, "NoCont") {
        Some(AbstractHeapType::NoCont)
    } else {
        None
    }
}

fn read_nullable(w: &Vec<char>) -> (r: Option<AbstractHeapType>)
    ensures
        r == nullable_ref(w@),
{
    if spells(w, "funcref") {
        Some(AbstractHeapType::Func)
    } else if spells(w, "externref") {
        Some(AbstractHeapType::Extern)
    } else if spells(w, "anyref") {
        Some(AbstractHeapType::Any)
    } else if spells(w, "nullref") {
        Some(AbstractHeapType::NoAny)
    } else if spells(w, "nullexternref") {
        Some(AbstractHeapType::NoExtern)
    } else if spells(w, "nullfuncref") {
        Some(AbstractHeapType::NoFunc)
    } else if spells(w, "eqref") {
        Some(AbstractHeapType::Eq)
    } else if spells(w, "structref") {
        Some(AbstractHeapType::Struct)
    } else if spells(w, "arrayref") {
        Some(AbstractHeapType::Array)
    } else if spells(w, "i31ref") {
        Some(AbstractHeapType::I31)
    } else if spells(w, "exnref") {
        Some(AbstractHeapType::Exn)
    } else if spells(w, "nullexnref") {
        Some(AbstractHeapType::NoExn)
    } else if spells(w, "contref") {
        Some(AbstractHeapType::Cont)
    } else if spells(w, "nullcontref") {
        Some(AbstractHeapType::NoCont)
    } else {
        None
    }
}

fn read_non_null(w: &Vec<char>) -> (r: Option<AbstractHeapType>)
    ensures
        r == non_null_ref(w@),
{
    if spells(w, "func") {
        Some(AbstractHeapType::Func)
    } else if spells(w, "extern") {
        Some(AbstractHeapType::Extern)
    } else if spells(w, "any") {
        Some(AbstractHeapType::Any)
    } else if spells(w, "none") {
        Some(AbstractHeapType::NoAny)
    } else if spells(w, "noextern") {
        Some(AbstractHeapType::NoExtern)
    } else if spells(w, "nofunc") {
        Some(AbstractHeapType::NoFunc)
    } else if spells(w, "eq") {
        Some(AbstractHeapType::Eq)
    } else if spells(w, "struct") {
        Some(AbstractHeapType::Struct)
    } else if spells(w, "array") {
        Some(AbstractHeapType::Array)
    } else if spells(w, "i31") {
        Some(AbstractHeapType::I31)
    } else if spells(w, "exn") {
        Some(AbstractHeapType::Exn)
    } else if spells(w, "noexn") {
        Some(AbstractHeapType::NoExn)
    } else if spells(w, "cont") {
        Some(AbstractHeapType::Cont)
    } else if spells(w, "nocont") {
        Some(AbstractHeapType::NoCont)
    } else {
        None
    }
}

/// The type index that the spelling holds.
pub open spec fn type_index_in(t: Seq<char>) -> Option<TypeIndex> {
    match index_behind(t, "Module("@) {
        Some(i) => Some(TypeIndex::Module(i)),
        None => match index_behind(t, "RecGroup("@) {
            Some(i) => Some(TypeIndex::RecGroup(i)),
            None => None,
        },
    }
}

/// The heap type that the spelling holds.
pub open spec fn heap_type_in(t: Seq<char>) -> Option<HeapType> {
    let w = word_behind(t, "hty: "@);
    if w == "Abstract"@ {
        match abstract_named(word_behind(t, " ty: "@)) {
            Some(ty) => Some(
                HeapType::Abstract { shared: word_behind(t, "shared: "@) == "true"@, ty },
            ),
            None => None,
        }
    } else if w == "Concrete"@ {
        match type_index_in(t) {
            Some(i) => Some(HeapType::Concrete(i)),
            None => None,
        }
    } else if w == "Exact"@ {
        match type_index_in(t) {
            Some(i) => Some(HeapType::Exact(i)),
            None => None,
        }
    } else {
        None
    }
}

/// A reference to the type whose index is spelled at `i`.
pub open spec fn indexed_ref(t: Seq<char>, i: int, nullable: bool, exact: bool, module: bool) -> Option<
    RefType,
> {
    match number_at(t, i, u32::MAX as nat) {
        Some(n) => {
            let index = if module {
                TypeIndex::Module(n as u32)
            } else {
                TypeIndex::RecGroup(n as u32)
            };
            Some(
                RefType {
                    nullable,
                    heap: if exact {
                        HeapType::Exact(index)
                    } else {
                        HeapType::Concrete(index)
                    },
                },
            )
        },
        None => None,
    }
}

/// A reference to an abstract heap type.
pub open spec fn abstract_ref(ty: Option<AbstractHeapType>, nullable: bool, shared: bool) -> Option<
    RefType,
> {
    match ty {
        Some(ty) => Some(RefType { nullable, heap: HeapType::Abstract { shared, ty } }),
        None => None,
    }
}

/// The reference type that is spelled at `i`.
pub open spec fn ref_type_at(t: Seq<char>, i: int) -> Option<RefType> {
    if occurs_at(t, i, "(ref null (module "@) {
        indexed_ref(t, i + "(ref null (module "@.len(), true, false, true)
    } else if occurs_at(t, i, "(ref null (recgroup "@) {
        indexed_ref(t, i + "(ref null (recgroup "@.len(), true, false, false)
    } else if occurs_at(t, i, "(ref (module "@) {
        indexed_ref(t, i + "(ref (module "@.len(), false, false, true)
    } else if occurs_at(t, i, "(ref (recgroup "@) {
        indexed_ref(t, i + "(ref (recgroup "@.len(), false, false, false)
    } else if occurs_at(t, i, "(ref (exact (module "@) {
        indexed_ref(t, i + "(ref (exact (module "@.len(), false, true, true)
    } else if occurs_at(t, i, "(ref (exact (recgroup "@) {
        indexed_ref(t, i + "(ref (exact (recgroup "@.len(), false, true, false)
    } else if occurs_at(t, i, "(ref (shared "@) {
        abstract_ref(non_null_ref(word_at(t, i + "(ref (shared "@.len())), false, true)
    } else if occurs_at(t, i, "(ref "@) {
        abstract_ref(non_null_ref(word_at(t, i + "(ref "@.len())), false, false)
    } else if occurs_at(t, i, "(shared "@) {
        abstract_ref(nullable_ref(word_at(t, i + "(shared "@.len())), true, true)
    } else {
        abstract_ref(nullable_ref(word_at(t, i)), true, false)
    }
}

/// The reference type just behind the first `key`.
pub open spec fn ref_type_behind(t: Seq<char>, key: Seq<char>) -> Option<RefType> {
    match behind(t, key) {
        Some(i) => ref_type_at(t, i),
        None => None,
    }
}

/// The value type that is spelled at `i`.
pub open spec fn val_type_at(t: Seq<char>, i: int) -> Option<ValType> {
    let w = word_at(t, i);
    if w == "I32"@ {
        Some(ValType::I32)
    } else if w == "I64"@ {
        Some(ValType::I64)
    } else if w == "F32"@ {
        Some(ValType::F32)
    } else if w == "F64"@ {
        Some(ValType::F64)
    } else if w == "V128"@ {
        Some(ValType::V128)
    } else if occurs_at(t, i, "Ref("@) {
        match ref_type_at(t, i + "Ref("@.len()) {
            Some(r) => Some(ValType::Ref(r)),
            None => None,
        }
    } else {
        None
    }
}

/// The value type just behind the first `key`.
pub open spec fn val_type_behind(t: Seq<char>, key: Seq<char>) -> Option<ValType> {
    match behind(t, key) {
        Some(i) => val_type_at(t, i),
        None => None,
    }
}

/// The block type that the spelling holds.
pub open spec fn block_type_in(t: Seq<char>) -> Option<BlockType> {
    let w = word_behind(t, "blockty: "@);
    if w == "Empty"@ {
        Some(BlockType::Empty)
    } else if w == "FuncType"@ {
        match index_behind(t, "FuncType("@) {
            Some(i) => Some(BlockType::FuncType(i)),
            None => None,
        }
    } else if w == "Type"@ {
        match val_type_behind(t, "Type("@) {
            Some(ty) => Some(BlockType::Type(ty)),
            None => None,
        }
    } else {
        None
    }
}

fn read_type_index(t: &Vec<char>) -> (r: Option<TypeIndex>)
    ensures
        r == type_index_in(t@),
{
    match find_index(t, "Module(") {
        Some(i) => Some(TypeIndex::Module(i)),
        None => match find_index(t, "RecGroup(") {
            Some(i) => Some(TypeIndex::RecGroup(i)),
            None => None,
        },
    }
}

/// The heap type that the spelling holds.
pub fn read_heap_type(t: &Vec<char>) -> (r: Option<HeapType>)
    ensures
        r == heap_type_in(t@),
{
    let w = find_word(t, "hty: ");
    if spells(&w, "Abstract") {
        let shared = spells(&find_word(t, "shared: "), "true");
        match read_abstract(&find_word(t, " ty: ")) {
            Some(ty) => Some(HeapType::Abstract { shared, ty }),
            None => None,
        }
    } else if spells(&w, "Concrete") {
        match read_type_index(t) {
            Some(i) => Some(HeapType::Concrete(i)),
            None => None,
        }
    } else if spells(&w, "Exact") {
        match read_type_index(t) {
            Some(i) => Some(HeapType::Exact(i)),
            None => None,
        }
    } else {
        None
    }
}

fn read_indexed_ref(t: &Vec<char>, i: usize, nullable: bool, exact: bool, module: bool) -> (r: Option<
    RefType,
>)
    requires
        i <= t@.len(),
    ensures
        r == indexed_ref(t@, i as int, nullable, exact, module),
{
    match read_number(t, i, u32::MAX as u64) {
        Some((n, _)) => {
            let index = if module {
                TypeIndex::Module(n as u32)
            } else {
                TypeIndex::RecGroup(n as u32)
            };
            let heap = if exact {
                HeapType::Exact(index)
            } else {
                HeapType::Concrete(index)
            };
            Some(RefType { nullable, heap })
        },
        None => None,
    }
}

fn make_abstract_ref(ty: Option<AbstractHeapType>, nullable: bool, shared: bool) -> (r: Option<
    RefType,
>)
    ensures
        r == abstract_ref(ty, nullable, shared),
{
    match ty {
        Some(ty) => Some(RefType { nullable, heap: HeapType::Abstract { shared, ty } }),
        None => None,
    }
}

/// The end of `pat` where it is found in `t` at position `i`.
pub fn skip(t: &Vec<char>, i: usize, pat: &str) -> (r: Option<usize>)
    requires
        i <= t@.len(),
    ensures
        if occurs_at(t@, i as int, pat@) {
            r is Some && r->0 == i + pat@.len() && r->0 <= t@.len()
        } else {
            r is None
        },
{
    let p = chars_of(pat);
    let n: usize = t.len();
    if found_at(t, i, &p) {
        Some(i + p.len())
    } else {
        None
    }
}

/// The reference type that is spelled at `i`.
pub fn read_ref_type(t: &Vec<char>, i: usize) -> (r: Option<RefType>)
    requires
        i <= t@.len(),
    ensures
        r == ref_type_at(t@, i as int),
{
    if let Some(k) = skip(t, i, "(ref null (module ") {
        return read_indexed_ref(t, k, true, false, true);
    }
    if let Some(k) = skip(t, i, "(ref null (recgroup ") {
        return read_indexed_ref(t, k, true, false, false);
    }
    if let Some(k) = skip(t, i, "(ref (module ") {
        return read_indexed_ref(t, k, false, false, true);
    }
    if let Some(k) = skip(t, i, "(ref (recgroup ") {
        return read_indexed_ref(t, k, false, false, false);
    }
    if let Some(k) = skip(t, i, "(ref (exact (module ") {
        return read_indexed_ref(t, k, false, true, true);
    }
    if let Some(k) = skip(t, i, "(ref (exact (recgroup ") {
        return read_indexed_ref(t, k, false, true, false);
    }
    if let Some(k) = skip(t, i, "(ref (shared ") {
        return make_abstract_ref(read_non_null(&read_word(t, k)), false, true);
    }
    if let Some(k) = skip(t, i, "(ref ") {
        return make_abstract_ref(read_non_null(&read_word(t, k)), false, false);
    }
    if let Some(k) = skip(t, i, "(shared ") {
        return make_abstract_ref(read_nullable(&read_word(t, k)), true, true);
    }
    make_abstract_ref(read_nullable(&read_word(t, i)), true, false)
}

/// The reference type just behind the first `key`.
pub fn find_ref_type(t: &Vec<char>, key: &str) -> (r: Option<RefType>)
    ensures
        r == ref_type_behind(t@, key@),
{
    match find_behind(t, key) {
        Some(i) => read_ref_type(t, i),
        None => None,
    }
}

/// The value type that is spelled at `i`.
pub fn read_val_type(t: &Vec<char>, i: usize) -> (r: Option<ValType>)
    requires
        i <= t@.len(),
    ensures
        r == val_type_at(t@, i as int),
{
    let w = read_word(t, i);
    if spells(&w, "I32") {
        return Some(ValType::I32);
    }
    if spells(&w, "I64") {
        return Some(ValType::I64);
    }
    if spells(&w, "F32") {
        return Some(ValType::F32);
    }
    if spells(&w, "F64") {
        return Some(ValType::F64);
    }
    if spells(&w, "V128") {
        return Some(ValType::V128);
    }
    match skip(t, i, "Ref(") {
        Some(k) => match read_ref_type(t, k) {
            Some(r) => Some(ValType::Ref(r)),
            None => None,
        },
        None => None,
    }
}

/// The value type just behind the first `key`.
pub fn find_val_type(t: &Vec<char>, key: &str) -> (r: Option<ValType>)
    ensures
        r == val_type_behind(t@, key@),
{
    match find_behind(t, key) {
        Some(i) => read_val_type(t, i),
        None => None,
    }
}

/// The block type that the spelling holds.
pub fn read_block_type(t: &Vec<char>) -> (r: Option<BlockType>)
    ensures
        r == block_type_in(t@),
{
    let w = find_word(t, "blockty: ");
    if spells(&w, "Empty") {
        Some(BlockType::Empty)
    } else if spells(&w, "FuncType") {
        match find_index(t, "FuncType(") {
            Some(i) => Some(BlockType::FuncType(i)),
            None => None,
        }
    } else if spells(&w, "Type") {
        match find_val_type(t, "Type(") {
            Some(ty) => Some(BlockType::Type(ty)),
            None => None,
        }
    } else {
        None
    }
}

} // verus!
