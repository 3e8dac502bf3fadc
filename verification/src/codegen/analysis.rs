//! Whole-module questions that are answered before any function is translated.

use std::collections::{HashMap, HashSet};
use vstd::prelude::*;

use crate::codegen::common::{index32, index_u32};
use crate::codegen::info::{kinds_view, CompositeKind, ElemSegment, FuncInput, KindV};
use crate::codegen::parts::{elements_view, ElemV};
use crate::error::{no_support, same_result, unsupported, FailV, TranspileError};
use crate::ops::{Instr, Operator};
use crate::text::{texts, Buf, Lines};
use crate::wasm::{show_val_type, val_type_text, AbstractHeapType, HeapType, TypeIndex, ValType};

verus! {

broadcast use vstd::std_specs::hash::group_hash_axioms;

// ---------------------------------------------------------------------------
// Types
// ---------------------------------------------------------------------------
/// Whether a heap type is one of the abstract GC heap types, which lower to the
/// managed `GcRef` value model.
pub open spec fn abstract_gc(hty: HeapType) -> bool {
    match hty {
        HeapType::Abstract { ty, .. } => {
            ||| ty == AbstractHeapType::Any
            ||| ty == AbstractHeapType::Eq
            ||| ty == AbstractHeapType::I31
            ||| ty == AbstractHeapType::Struct
            ||| ty == AbstractHeapType::Array
            ||| ty == AbstractHeapType::NoAny
        },
        _ => false,
    }
}

/// Whether a concrete heap type names a struct or array type of the module.
pub open spec fn concrete_gc(hty: HeapType, kinds: Seq<KindV>) -> bool {
    match hty {
        HeapType::Concrete(TypeIndex::Module(i)) => i < kinds.len() && kinds[i as int].is_object(),
        _ => false,
    }
}

/// The Rust type of a value. A `funcref` is a function index and an `externref`
/// an opaque host handle, both a `u32`; an abstract GC reference or one to a
/// struct or array type is a managed `GcRef` handle; any other concrete typed
/// reference is a `u32`; a v128 is held as a `u128`.
pub open spec fn rust_type_text(ty: ValType, kinds: Seq<KindV>) -> Result<Seq<char>, FailV> {
    match ty {
        ValType::I32 => Ok("i32"@),
        ValType::I64 => Ok("i64"@),
        ValType::F32 => Ok("f32"@),
        ValType::F64 => Ok("f64"@),
        ValType::V128 => Ok("u128"@),
        ValType::Ref(rt) => if rt.func_ref() || rt.extern_ref() {
            Ok("u32"@)
        } else if abstract_gc(rt.heap) {
            Ok("GcRef"@)
        } else if rt.heap is Concrete {
            if concrete_gc(rt.heap, kinds) {
                Ok("GcRef"@)
            } else {
                Ok("u32"@)
            }
        } else {
            Err(unsupported(("value type "@ + val_type_text(ty))))
        },
    }
}

/// The value that a variable of type `ty` starts with.
pub open spec fn default_value_text(ty: ValType, kinds: Seq<KindV>) -> Seq<char> {
    match ty {
        ValType::F32 => "0.0"@,
        ValType::F64 => "0.0"@,
        ValType::Ref(rt) => if concrete_gc(rt.heap, kinds) || abstract_gc(rt.heap) {
            "GcRef::Null"@
        } else if rt.func_ref() || rt.extern_ref() || rt.heap is Concrete {
            "u32::MAX"@
        } else {
            "0"@
        },
        _ => "0"@,
    }
}

/// The unsigned integer type that `ty` is reinterpreted as.
pub open spec fn unsigned_text(ty: ValType) -> Result<Seq<char>, FailV> {
    match ty {
        ValType::I32 => Ok("u32"@),
        ValType::I64 => Ok("u64"@),
        _ => Err(unsupported(("unsigned operation on "@ + val_type_text(ty)))),
    }
}

/// Whether a fixed-text result is as specified.
pub open spec fn str_result(
    r: Result<&'static str, TranspileError>,
    want: Result<Seq<char>, FailV>,
) -> bool {
    match want {
        Ok(t) => r is Ok && r->Ok_0@ == t,
        Err(e) => r is Err && r->Err_0@ == e,
    }
}

/// Whether a heap type is one of the abstract GC heap types (`any`/`eq`/`i31`/
/// `struct`/`array`/`none`), which lower to the managed `GcRef` value model. The
/// abstract function and host types are deliberately excluded (they keep the
/// `u32` lowering). `i31` is part of it: its payload rides as `GcRef::I31` so it
/// unifies with the `any`/`eq` hierarchy.
pub fn abstract_is_gc(hty: HeapType) -> (r: bool)
    ensures
        r == abstract_gc(hty),
{
    match hty {
        HeapType::Abstract { ty, .. } => ty == AbstractHeapType::Any || ty == AbstractHeapType::Eq
            || ty == AbstractHeapType::I31 || ty == AbstractHeapType::Struct || ty
            == AbstractHeapType::Array || ty == AbstractHeapType::NoAny,
        _ => false,
    }
}

/// Whether a concrete heap type names a struct or array type (a managed `GcRef`)
/// rather than a function type (a `u32` funcref). Unknown or non-module indices
/// conservatively fall back to the funcref lowering.
pub fn concrete_is_gc(hty: HeapType, kinds: &Vec<CompositeKind>) -> (r: bool)
    ensures
        r == concrete_gc(hty, kinds_view(kinds@)),
{
    match hty {
        HeapType::Concrete(TypeIndex::Module(i)) => (i as usize) < kinds.len()
            && kinds[i as usize].is_object(),
        _ => false,
    }
}

/// The Rust type of a value of type `ty`.
pub fn rust_type(ty: ValType, kinds: &Vec<CompositeKind>) -> (r: Result<
    &'static str,
    TranspileError,
>)
    ensures
        str_result(r, rust_type_text(ty, kinds_view(kinds@))),
{
    match ty {
        ValType::I32 => Ok("i32"),
        ValType::I64 => Ok("i64"),
        ValType::F32 => Ok("f32"),
        ValType::F64 => Ok("f64"),
        // A v128 is a 128-bit value; it is held as a `u128` and lane operations
        // reinterpret its bits (little-endian) into the relevant lane type.
        ValType::V128 => Ok("u128"),
        ValType::Ref(rt) => {
            // A `funcref` is a function index and an `externref` is an opaque host
            // handle; both are represented as a `u32` (`u32::MAX` is null),
            // matching the table's element representation.
            if rt.is_func_ref() || rt.is_extern_ref() {
                return Ok("u32");
            }
            // An abstract GC reference is a managed `GcRef` handle. An `i31ref`
            // rides as the `GcRef::I31` variant so it can flow through an
            // `anyref`/`eqref` alongside heap objects.
            if abstract_is_gc(rt.heap) {
                return Ok("GcRef");
            }
            // A concrete typed reference `(ref $t)` / `(ref null $t)`. A
            // funcref-typed one lowers to `u32` (a function index) like the
            // abstract `funcref`, while a struct/array-typed one is a managed
            // `GcRef` handle.
            match rt.heap {
                HeapType::Concrete(_) => if concrete_is_gc(rt.heap, kinds) {
                    Ok("GcRef")
                } else {
                    Ok("u32")
                },
                _ => Err(TranspileError::Unsupported(Buf::lit("value type ").s(&show_val_type(ty))
                    .end())),
            }
        },
    }
}

/// The Rust types of several values.
pub open spec fn rust_types_text(tys: Seq<ValType>, kinds: Seq<KindV>) -> Result<
    Seq<Seq<char>>,
    FailV,
>
    decreases tys.len(),
{
    if tys.len() == 0 {
        Ok(Seq::empty())
    } else {
        match rust_types_text(tys.drop_last(), kinds) {
            Err(e) => Err(e),
            Ok(front) => match rust_type_text(tys.last(), kinds) {
                Err(e) => Err(e),
                Ok(t) => Ok(front.push(t)),
            },
        }
    }
}

/// Whether a result of several texts is as specified.
pub open spec fn texts_result(
    r: Result<Vec<String>, TranspileError>,
    want: Result<Seq<Seq<char>>, FailV>,
) -> bool {
    match want {
        Ok(t) => r is Ok && texts(r->Ok_0@) == t,
        Err(e) => r is Err && r->Err_0@ == e,
    }
}

/// The first failing type decides.
proof fn lemma_types_fail(tys: Seq<ValType>, kinds: Seq<KindV>, k: int)
    requires
        0 <= k <= tys.len(),
        rust_types_text(tys.take(k), kinds) is Err,
    ensures
        rust_types_text(tys, kinds) == rust_types_text(tys.take(k), kinds),
    decreases tys.len() - k,
{
    if k < tys.len() {
        assert(tys.take(k + 1).drop_last() =~= tys.take(k));
        lemma_types_fail(tys, kinds, k + 1);
    } else {
        assert(tys.take(k) =~= tys);
    }
}

/// The Rust type name of each value type, in order.
pub fn rust_types(tys: &Vec<ValType>, kinds: &Vec<CompositeKind>) -> (r: Result<
    Vec<String>,
    TranspileError,
>)
    ensures
        texts_result(r, rust_types_text(tys@, kinds_view(kinds@))),
{
    let mut out = Lines::new();
    let mut i: usize = 0;
    while i < tys.len()
        invariant
            i <= tys@.len(),
            rust_types_text(tys@.take(i as int), kinds_view(kinds@)) == Ok::<Seq<Seq<char>>, FailV>(
                out@,
            ),
        decreases tys@.len() - i,
    {
        assert(tys@.take(i + 1).drop_last() =~= tys@.take(i as int));
        match rust_type(tys[i], kinds) {
            Ok(t) => out.lit(t),
            Err(e) => {
                proof {
                    lemma_types_fail(tys@, kinds_view(kinds@), i + 1);
                }
                return Err(e);
            },
        }
        i += 1;
    }
    assert(tys@.take(tys@.len() as int) =~= tys@);
    Ok(out.v)
}

/// The unsigned integer type used to reinterpret `ty` for unsigned operations.
pub fn unsigned_type(ty: ValType) -> (r: Result<&'static str, TranspileError>)
    ensures
        str_result(r, unsigned_text(ty)),
{
    match ty {
        ValType::I32 => Ok("u32"),
        ValType::I64 => Ok("u64"),
        _ => Err(TranspileError::Unsupported(Buf::lit("unsigned operation on ")
            .s(&show_val_type(ty)).end())),
    }
}

/// The value that a variable of type `ty` starts with.
pub fn default_value(ty: ValType, kinds: &Vec<CompositeKind>) -> (r: &'static str)
    ensures
        r@ == default_value_text(ty, kinds_view(kinds@)),
{
    match ty {
        ValType::F32 => "0.0",
        ValType::F64 => "0.0",
        ValType::Ref(rt) => {
            // A struct/array reference, or an abstract GC type (`any`/`eq`/`i31`/…),
            // defaults to the managed null handle.
            if concrete_is_gc(rt.heap, kinds) || abstract_is_gc(rt.heap) {
                return "GcRef::Null";
            }
            // A default `funcref`/`externref` (and any concrete typed funcref) is
            // null.
            let concrete = match rt.heap {
                HeapType::Concrete(_) => true,
                _ => false,
            };
            if rt.is_func_ref() || rt.is_extern_ref() || concrete {
                "u32::MAX"
            } else {
                "0"
            }
        },
        _ => "0",
    }
}

// ---------------------------------------------------------------------------
// Managed objects
// ---------------------------------------------------------------------------
/// Whether the module declares at least one struct or array type.
pub open spec fn declares_objects(kinds: Seq<KindV>) -> bool {
    exists|i: int| 0 <= i < kinds.len() && (#[trigger] kinds[i]).is_object()
}

/// Whether the module declares at least one struct or array type, so the managed
/// value model must be emitted at module scope.
pub fn declares_gc_types(type_kinds: &Vec<CompositeKind>) -> (r: bool)
    ensures
        r == declares_objects(kinds_view(type_kinds@)),
{
    let ghost all = kinds_view(type_kinds@);
    let mut i: usize = 0;
    while i < type_kinds.len()
        invariant
            i <= type_kinds@.len(),
            all == kinds_view(type_kinds@),
            forall|k: int| 0 <= k < i ==> !(#[trigger] all[k]).is_object(),
        decreases type_kinds@.len() - i,
    {
        assert(all[i as int] == type_kinds@[i as int]@);
        if type_kinds[i].is_object() {
            return true;
        }
        i += 1;
    }
    false
}

/// Whether an operator of `funcs` satisfies `pred`.
pub open spec fn some_op(funcs: Seq<FuncInput>, pred: spec_fn(Operator) -> bool) -> bool {
    exists|i: int, k: int|
        0 <= i < funcs.len() && 0 <= k < funcs[i].body.ops@.len() && pred(
            (#[trigger] funcs[i].body.ops@[k]).op,
        )
}

/// Whether any function body contains an operator matching `pred`,
/// short-circuiting on the first match.
pub fn any_body_op<F: Fn(&Operator) -> bool>(
    funcs: &Vec<FuncInput>,
    pred: F,
    model: Ghost<spec_fn(Operator) -> bool>,
) -> (r: bool)
    requires
        forall|op: &Operator| #[trigger] pred.requires((op,)),
        forall|op: &Operator, b: bool| #[trigger] pred.ensures((op,), b) ==> b == model@(*op),
    ensures
        r == some_op(funcs@, model@),
{
    let mut i: usize = 0;
    while i < funcs.len()
        invariant
            i <= funcs@.len(),
            forall|op: &Operator| #[trigger] pred.requires((op,)),
            forall|op: &Operator, b: bool| #[trigger] pred.ensures((op,), b) ==> b == model@(*op),
            forall|j: int, k: int|
                0 <= j < i && 0 <= k < funcs@[j].body.ops@.len() ==> !model@(
                    (#[trigger] funcs@[j].body.ops@[k]).op,
                ),
        decreases funcs@.len() - i,
    {
        let ops = &funcs[i].body.ops;
        let mut k: usize = 0;
        while k < ops.len()
            invariant
                i < funcs@.len(),
                *ops == funcs@[i as int].body.ops,
                k <= ops@.len(),
                forall|op: &Operator| #[trigger] pred.requires((op,)),
                forall|op: &Operator, b: bool| #[trigger]
                    pred.ensures((op,), b) ==> b == model@(*op),
                forall|m: int| 0 <= m < k ==> !model@((#[trigger] ops@[m]).op),
            decreases ops@.len() - k,
        {
            if pred(&ops[k].op) {
                assert(model@(funcs@[i as int].body.ops@[k as int].op));
                return true;
            }
            k += 1;
        }
        i += 1;
    }
    false
}

/// Whether an operator creates an abstract GC reference.
pub open spec fn makes_gc_ref(op: Operator) -> bool {
    match op {
        Operator::RefNull { hty } => abstract_gc(hty),
        Operator::RefI31 => true,
        Operator::AnyConvertExtern => true,
        Operator::ExternConvertAny => true,
        _ => false,
    }
}

fn op_makes_gc_ref(op: &Operator) -> (r: bool)
    ensures
        r == makes_gc_ref(*op),
{
    match op {
        Operator::RefNull { hty } => abstract_is_gc(*hty),
        Operator::RefI31 => true,
        Operator::AnyConvertExtern => true,
        Operator::ExternConvertAny => true,
        _ => false,
    }
}

/// Whether any function body creates an abstract GC reference without a concrete
/// struct/array type being declared: either `ref.null` of an abstract GC heap
/// type (`any`/`eq`/`i31`/`struct`/`array`/`none`), `ref.i31` (which produces a
/// `GcRef::I31`), or a convert op (which produces/consumes a managed `anyref`).
/// All force the managed value model to be emitted even with no struct/array
/// type declared.
pub fn uses_abstract_gc(funcs: &Vec<FuncInput>) -> (r: bool)
    ensures
        r == some_op(funcs@, |op: Operator| makes_gc_ref(op)),
{
    let pred = |op: &Operator| -> (b: bool)
        ensures
            b == makes_gc_ref(*op),
    {
        op_makes_gc_ref(op)
    };
    any_body_op(funcs, pred, Ghost(|op: Operator| makes_gc_ref(op)))
}

/// Whether the managed value model must be emitted: either the module declares a
/// struct/array type, or a body introduces an abstract GC reference (e.g.
/// `ref.null any`), which also lowers to a `GcRef` even without any concrete GC
/// type declared.
pub fn needs_gc_types(type_kinds: &Vec<CompositeKind>, funcs: &Vec<FuncInput>) -> (r: bool)
    ensures
        r == (declares_objects(kinds_view(type_kinds@)) || some_op(
            funcs@,
            |op: Operator| makes_gc_ref(op),
        )),
{
    declares_gc_types(type_kinds) || uses_abstract_gc(funcs)
}

// ---------------------------------------------------------------------------
// Sorted lists of indices
// ---------------------------------------------------------------------------
/// Whether a list is strictly increasing.
pub open spec fn increasing(s: Seq<u32>) -> bool {
    forall|i: int, j: int| 0 <= i < j < s.len() ==> s[i] < s[j]
}

/// Whether `x` is in the sorted list `v`.
pub fn sorted_contains(v: &Vec<u32>, x: u32) -> (r: bool)
    requires
        increasing(v@),
    ensures
        r == v@.contains(x),
{
    let mut lo: usize = 0;
    let mut hi: usize = v.len();
    while lo < hi
        invariant
            increasing(v@),
            lo <= hi <= v@.len(),
            forall|k: int| 0 <= k < lo ==> v@[k] < x,
            forall|k: int| hi <= k < v@.len() ==> v@[k] > x,
        decreases hi - lo,
    {
        let mid: usize = lo + (hi - lo) / 2;
        if v[mid] == x {
            return true;
        }
        if v[mid] < x {
            lo = mid + 1;
        } else {
            hi = mid;
        }
    }
    false
}

/// Puts `x` into the sorted list `v`, unless it is there; says whether it was new.
pub fn sorted_insert(v: &mut Vec<u32>, x: u32) -> (fresh: bool)
    requires
        increasing(old(v)@),
    ensures
        increasing(final(v)@),
        fresh == !old(v)@.contains(x),
        final(v)@.to_set() == old(v)@.to_set().insert(x),
        !fresh ==> final(v)@ == old(v)@,
{
    let mut k: usize = 0;
    while k < v.len() && v[k] < x
        invariant
            v@ == old(v)@,
            increasing(v@),
            k <= v@.len(),
            forall|j: int| 0 <= j < k ==> v@[j] < x,
        decreases v@.len() - k,
    {
        k += 1;
    }
    if k < v.len() && v[k] == x {
        assert(v@.contains(x));
        assert(v@.to_set().insert(x) =~= v@.to_set());
        return false;
    }
    assert(!v@.contains(x)) by {
        if v@.contains(x) {
            let j = choose|j: int| 0 <= j < v@.len() && v@[j] == x;
            assert(j >= k);
        }
    }
    let ghost before = v@;
    v.insert(k, x);
    proof {
        assert(v@ == before.insert(k as int, x));
        assert forall|y: u32| #[trigger]
            v@.to_set().contains(y) <==> before.to_set().insert(x).contains(y) by {
            if before.contains(y) {
                let j = choose|j: int| 0 <= j < before.len() && before[j] == y;
                if j < k {
                    assert(v@[j] == y);
                } else {
                    assert(v@[j + 1] == y);
                }
            }
            assert(v@[k as int] == x);
            if v@.contains(y) && y != x {
                let j = choose|j: int| 0 <= j < v@.len() && v@[j] == y;
                if j < k {
                    assert(before[j] == y);
                } else {
                    assert(before[j - 1] == y);
                }
            }
        }
        assert(v@.to_set() =~= before.to_set().insert(x));
    }
    true
}

// ---------------------------------------------------------------------------
// One pass over every body
// ---------------------------------------------------------------------------
/// Everything the module context needs from a single pass over every function
/// body.
pub struct BodyScan {
    /// Continuation bodies: the target of a `ref.func` immediately followed by
    /// `cont.new`, sorted and deduplicated.
    pub cont_bodies: Vec<u32>,
    /// Per defined function (0-based): whether its own body has a `suspend`/
    /// `switch` control transfer. Seeds the `can_suspend` fixpoint.
    pub suspends: Vec<bool>,
    /// Per defined function (0-based): the callees of its direct
    /// `call`/`return_call` edges (full index space). Shared by the `can_suspend`
    /// and `step_functions` fixpoints so neither re-scans.
    pub calls: Vec<Vec<u32>>,
    /// Any body uses `extern.convert_any`/`any.convert_extern` (bridges the two
    /// hierarchies through the per-instance `extern_box`).
    pub uses_extern_box: bool,
    /// Any body uses `call_ref`/`return_call_ref` (dispatches through a
    /// `self.call_ref_t{ti}` method).
    pub uses_call_ref: bool,
    /// Any body uses an array segment operator (`array.new_data`/`init_data`/
    /// `new_elem`/`init_elem`, which read the retained passive segments).
    pub uses_array_segment_ops: bool,
}

pub open spec fn is_extern_convert(op: Operator) -> bool {
    op is AnyConvertExtern || op is ExternConvertAny
}

pub open spec fn is_call_ref(op: Operator) -> bool {
    op is CallRef || op is ReturnCallRef
}

pub open spec fn is_array_segment_op(op: Operator) -> bool {
    op is ArrayNewData || op is ArrayInitData || op is ArrayNewElem || op is ArrayInitElem
}

pub open spec fn is_transfer(op: Operator) -> bool {
    op is Suspend || op is Switch
}

/// Whether some of the operators satisfies `pred`.
pub open spec fn ops_have(ops: Seq<Instr>, pred: spec_fn(Operator) -> bool) -> bool {
    exists|k: int| 0 <= k < ops.len() && pred((#[trigger] ops[k]).op)
}

/// Whether `f` is turned into a continuation: a `ref.func f` with a `cont.new`
/// right behind it.
pub open spec fn makes_cont(ops: Seq<Instr>, f: u32) -> bool {
    exists|k: int|
        0 <= k < ops.len() - 1 && (#[trigger] ops[k]).op == (Operator::RefFunc {
            function_index: f,
        }) && ops[k + 1].op is ContNew
}

/// The functions that the operators call directly, in order.
pub open spec fn callees(ops: Seq<Instr>) -> Seq<u32>
    decreases ops.len(),
{
    if ops.len() == 0 {
        Seq::empty()
    } else {
        let front = callees(ops.drop_last());
        match ops.last().op {
            Operator::Call { function_index } => front.push(function_index),
            Operator::ReturnCall { function_index } => front.push(function_index),
            _ => front,
        }
    }
}

pub open spec fn lists(v: Seq<Vec<u32>>) -> Seq<Seq<u32>> {
    Seq::new(v.len(), |i: int| v[i]@)
}

/// What one pass over `funcs` finds.
pub open spec fn scanned(funcs: Seq<FuncInput>, scan: BodyScan) -> bool {
    &&& increasing(scan.cont_bodies@)
    &&& forall|f: u32| #[trigger]
        scan.cont_bodies@.contains(f) <==> exists|i: int|
            0 <= i < funcs.len() && makes_cont((#[trigger] funcs[i]).body.ops@, f)
    &&& scan.suspends@ == Seq::new(
        funcs.len(),
        |i: int| ops_have(funcs[i].body.ops@, |op: Operator| is_transfer(op)),
    )
    &&& lists(scan.calls@) == Seq::new(funcs.len(), |i: int| callees(funcs[i].body.ops@))
    &&& scan.uses_extern_box == some_op(funcs, |op: Operator| is_extern_convert(op))
    &&& scan.uses_call_ref == some_op(funcs, |op: Operator| is_call_ref(op))
    &&& scan.uses_array_segment_ops == some_op(funcs, |op: Operator| is_array_segment_op(op))
}

/// What the pass has found in the operators of one body up to position `k`.
struct OpScan {
    suspends: bool,
    calls: Vec<u32>,
    conts: Vec<u32>,
    extern_box: bool,
    call_ref: bool,
    array_segment: bool,
}

spec fn op_scanned(ops: Seq<Instr>, s: OpScan) -> bool {
    &&& s.suspends == ops_have(ops, |op: Operator| is_transfer(op))
    &&& s.calls@ == callees(ops)
    &&& forall|f: u32| #[trigger] s.conts@.contains(f) <==> makes_cont(ops, f)
    &&& s.extern_box == ops_have(ops, |op: Operator| is_extern_convert(op))
    &&& s.call_ref == ops_have(ops, |op: Operator| is_call_ref(op))
    &&& s.array_segment == ops_have(ops, |op: Operator| is_array_segment_op(op))
}

proof fn lemma_ops_have_push(ops: Seq<Instr>, k: int, pred: spec_fn(Operator) -> bool)
    requires
        0 <= k < ops.len(),
    ensures
        ops_have(ops.take(k + 1), pred) == (ops_have(ops.take(k), pred) || pred(ops[k].op)),
{
    let a = ops.take(k);
    let b = ops.take(k + 1);
    if ops_have(a, pred) {
        let j = choose|j: int| 0 <= j < a.len() && pred((#[trigger] a[j]).op);
        assert(pred(b[j].op));
    }
    if pred(ops[k].op) {
        assert(pred(b[k].op));
    }
    if ops_have(b, pred) && !pred(ops[k].op) {
        let j = choose|j: int| 0 <= j < b.len() && pred((#[trigger] b[j]).op);
        assert(pred(a[j].op));
    }
}

proof fn lemma_makes_cont_push(ops: Seq<Instr>, k: int, f: u32)
    requires
        0 <= k < ops.len(),
    ensures
        makes_cont(ops.take(k + 1), f) == (makes_cont(ops.take(k), f) || (k > 0 && ops[k - 1].op
            == (Operator::RefFunc { function_index: f }) && ops[k].op is ContNew)),
{
    let a = ops.take(k);
    let b = ops.take(k + 1);
    let want = Operator::RefFunc { function_index: f };
    if makes_cont(a, f) {
        let j = choose|j: int|
            0 <= j < a.len() - 1 && (#[trigger] a[j]).op == want && a[j + 1].op is ContNew;
        assert(b[j].op == want && b[j + 1].op is ContNew);
    }
    if k > 0 && ops[k - 1].op == want && ops[k].op is ContNew {
        assert(b[k - 1].op == want && b[k - 1 + 1].op is ContNew);
    }
    if makes_cont(b, f) {
        let j = choose|j: int|
            0 <= j < b.len() - 1 && (#[trigger] b[j]).op == want && b[j + 1].op is ContNew;
        if j + 1 < k {
            assert(a[j].op == want && a[j + 1].op is ContNew);
        }
    }
}

fn scan_ops(ops: &Vec<Instr>) -> (s: OpScan)
    ensures
        op_scanned(ops@, s),
{
    let mut s = OpScan {
        suspends: false,
        calls: Vec::new(),
        conts: Vec::new(),
        extern_box: false,
        call_ref: false,
        array_segment: false,
    };
    // `ref.func` immediately followed by `cont.new` names a continuation body; any
    // other operator breaks the adjacency.
    let mut last_ref_func: Option<u32> = None;
    let mut k: usize = 0;
    while k < ops.len()
        invariant
            k <= ops@.len(),
            op_scanned(ops@.take(k as int), s),
            match last_ref_func {
                Some(f) => k > 0 && ops@[k - 1].op == (Operator::RefFunc { function_index: f }),
                None => k > 0 ==> !(ops@[k - 1].op is RefFunc),
            },
        decreases ops@.len() - k,
    {
        let ghost before = s;
        proof {
            assert(ops@.take(k + 1).drop_last() =~= ops@.take(k as int));
            lemma_ops_have_push(ops@, k as int, |op: Operator| is_transfer(op));
            lemma_ops_have_push(ops@, k as int, |op: Operator| is_extern_convert(op));
            lemma_ops_have_push(ops@, k as int, |op: Operator| is_call_ref(op));
            lemma_ops_have_push(ops@, k as int, |op: Operator| is_array_segment_op(op));
            assert forall|f: u32| #[trigger]
                makes_cont(ops@.take(k + 1), f) == (makes_cont(ops@.take(k as int), f) || (k > 0
                    && ops@[k - 1].op == (Operator::RefFunc { function_index: f })
                    && ops@[k as int].op is ContNew)) by {
                lemma_makes_cont_push(ops@, k as int, f);
            }
        }
        let mut next: Option<u32> = None;
        match &ops[k].op {
            Operator::RefFunc { function_index } => {
                next = Some(*function_index);
            },
            Operator::ContNew { .. } => {
                match last_ref_func {
                    Some(f) => {
                        s.conts.push(f);
                        proof {
                            assert forall|g: u32| #[trigger]
                                s.conts@.contains(g) <==> before.conts@.contains(g) || g == f by {
                                if before.conts@.contains(g) {
                                    let j = choose|j: int|
                                        0 <= j < before.conts@.len() && before.conts@[j] == g;
                                    assert(s.conts@[j] == g);
                                }
                                assert(s.conts@[before.conts@.len() as int] == f);
                                if s.conts@.contains(g) && g != f {
                                    let j = choose|j: int|
                                        0 <= j < s.conts@.len() && s.conts@[j] == g;
                                    assert(before.conts@[j] == g);
                                }
                            }
                        }
                    },
                    None => {},
                }
            },
            Operator::Suspend { .. } => {
                s.suspends = true;
            },
            Operator::Switch { .. } => {
                s.suspends = true;
            },
            Operator::Call { function_index } => {
                s.calls.push(*function_index);
            },
            Operator::ReturnCall { function_index } => {
                s.calls.push(*function_index);
            },
            Operator::AnyConvertExtern => {
                s.extern_box = true;
            },
            Operator::ExternConvertAny => {
                s.extern_box = true;
            },
            Operator::CallRef { .. } => {
                s.call_ref = true;
            },
            Operator::ReturnCallRef { .. } => {
                s.call_ref = true;
            },
            Operator::ArrayNewData => {
                s.array_segment = true;
            },
            Operator::ArrayInitData => {
                s.array_segment = true;
            },
            Operator::ArrayNewElem => {
                s.array_segment = true;
            },
            Operator::ArrayInitElem => {
                s.array_segment = true;
            },
            _ => {},
        }
        last_ref_func = next;
        k += 1;
    }
    assert(ops@.take(ops@.len() as int) =~= ops@);
    s
}

spec fn some_op_upto(
    funcs: Seq<FuncInput>,
    n: int,
    pred: spec_fn(Operator) -> bool,
) -> bool {
    exists|i: int| 0 <= i < n && ops_have((#[trigger] funcs[i]).body.ops@, pred)
}

proof fn lemma_some_op(funcs: Seq<FuncInput>, pred: spec_fn(Operator) -> bool)
    ensures
        some_op(funcs, pred) == some_op_upto(funcs, funcs.len() as int, pred),
{
    if some_op(funcs, pred) {
        let (i, k) = choose|i: int, k: int|
            0 <= i < funcs.len() && 0 <= k < funcs[i].body.ops@.len() && pred(
                (#[trigger] funcs[i].body.ops@[k]).op,
            );
        assert(ops_have(funcs[i].body.ops@, pred));
    }
    if some_op_upto(funcs, funcs.len() as int, pred) {
        let i = choose|i: int|
            0 <= i < funcs.len() && ops_have((#[trigger] funcs[i]).body.ops@, pred);
        let k = choose|k: int|
            0 <= k < funcs[i].body.ops@.len() && pred((#[trigger] funcs[i].body.ops@[k]).op);
        assert(pred(funcs[i].body.ops@[k].op));
    }
}

/// Whether some body cannot be read to its end.
pub open spec fn some_broken(funcs: Seq<FuncInput>) -> bool {
    exists|i: int| 0 <= i < funcs.len() && (#[trigger] funcs[i]).body.ops_broken
}

/// Scan every function body exactly once, collecting all the whole-module
/// operator facts the module context needs (see [`BodyScan`]). Each of the flagged
/// operators forces the module to be emitted as a `struct Instance` because it
/// reaches per-instance state that free functions cannot. This is the first look at
/// the bodies: one that cannot be read to its end is malformed.
pub fn scan_bodies(funcs: &Vec<FuncInput>) -> (r: Result<BodyScan, TranspileError>)
    ensures
        if some_broken(funcs@) {
            r is Err && r->Err_0@ == FailV::Malformed
        } else {
            r is Ok && scanned(funcs@, r->Ok_0)
        },
{
    let mut cont_bodies: Vec<u32> = Vec::new();
    let mut suspends: Vec<bool> = Vec::new();
    let mut calls: Vec<Vec<u32>> = Vec::new();
    let mut uses_extern_box = false;
    let mut uses_call_ref = false;
    let mut uses_array_segment_ops = false;
    let mut i: usize = 0;
    while i < funcs.len()
        invariant
            i <= funcs@.len(),
            forall|j: int| 0 <= j < i ==> !(#[trigger] funcs@[j]).body.ops_broken,
            increasing(cont_bodies@),
            forall|f: u32| #[trigger]
                cont_bodies@.contains(f) <==> exists|j: int|
                    0 <= j < i && makes_cont((#[trigger] funcs@[j]).body.ops@, f),
            suspends@ =~= Seq::new(
                i as nat,
                |j: int| ops_have(funcs@[j].body.ops@, |op: Operator| is_transfer(op)),
            ),
            lists(calls@) =~= Seq::new(i as nat, |j: int| callees(funcs@[j].body.ops@)),
            uses_extern_box == some_op_upto(
                funcs@,
                i as int,
                |op: Operator| is_extern_convert(op),
            ),
            uses_call_ref == some_op_upto(funcs@, i as int, |op: Operator| is_call_ref(op)),
            uses_array_segment_ops == some_op_upto(
                funcs@,
                i as int,
                |op: Operator| is_array_segment_op(op),
            ),
        decreases funcs@.len() - i,
    {
        if funcs[i].body.ops_broken {
            return Err(TranspileError::Malformed);
        }
        let found = scan_ops(&funcs[i].body.ops);
        let ghost ops = funcs@[i as int].body.ops@;
        let ghost conts0 = cont_bodies@;
        let mut c: usize = 0;
        while c < found.conts.len()
            invariant
                c <= found.conts@.len(),
                increasing(cont_bodies@),
                forall|f: u32| #[trigger]
                    cont_bodies@.contains(f) <==> conts0.contains(f) || found.conts@.take(
                        c as int,
                    ).contains(f),
            decreases found.conts@.len() - c,
        {
            let ghost prev = cont_bodies@;
            sorted_insert(&mut cont_bodies, found.conts[c]);
            proof {
                let now = found.conts@.take(c + 1);
                let old_part = found.conts@.take(c as int);
                let x = found.conts@[c as int];
                assert(now =~= old_part.push(x));
                crate::text::lemma_push_to_set(old_part, x);
                assert forall|f: u32| #[trigger]
                    cont_bodies@.contains(f) <==> conts0.contains(f) || now.contains(f) by {
                    assert(cont_bodies@.to_set().contains(f) == prev.to_set().insert(
                        x,
                    ).contains(f));
                    assert(now.to_set().contains(f) == old_part.to_set().insert(x).contains(f));
                    assert(prev.contains(f) <==> conts0.contains(f) || old_part.contains(f));
                }
            }
            c += 1;
        }
        proof {
            assert(found.conts@.take(found.conts@.len() as int) =~= found.conts@);
            assert forall|f: u32| #[trigger]
                cont_bodies@.contains(f) <==> exists|j: int|
                    0 <= j < i + 1 && makes_cont((#[trigger] funcs@[j]).body.ops@, f) by {
                assert(found.conts@.contains(f) <==> makes_cont(ops, f));
                if makes_cont(ops, f) {
                    assert(makes_cont(funcs@[i as int].body.ops@, f));
                }
            }
            lemma_upto(funcs@, i as int, |op: Operator| is_extern_convert(op));
            lemma_upto(funcs@, i as int, |op: Operator| is_call_ref(op));
            lemma_upto(funcs@, i as int, |op: Operator| is_array_segment_op(op));
        }
        let ghost calls0 = lists(calls@);
        suspends.push(found.suspends);
        calls.push(found.calls);
        assert(lists(calls@) =~= calls0.push(found.calls@));
        if found.extern_box {
            uses_extern_box = true;
        }
        if found.call_ref {
            uses_call_ref = true;
        }
        if found.array_segment {
            uses_array_segment_ops = true;
        }
        i += 1;
    }
    proof {
        lemma_some_op(funcs@, |op: Operator| is_extern_convert(op));
        lemma_some_op(funcs@, |op: Operator| is_call_ref(op));
        lemma_some_op(funcs@, |op: Operator| is_array_segment_op(op));
    }
    Ok(
        BodyScan {
            cont_bodies,
            suspends,
            calls,
            uses_extern_box,
            uses_call_ref,
            uses_array_segment_ops,
        },
    )
}

proof fn lemma_upto(funcs: Seq<FuncInput>, n: int, pred: spec_fn(Operator) -> bool)
    requires
        0 <= n < funcs.len(),
    ensures
        some_op_upto(funcs, n + 1, pred) == (some_op_upto(funcs, n, pred) || ops_have(
            funcs[n].body.ops@,
            pred,
        )),
{
    if some_op_upto(funcs, n + 1, pred) {
        let i = choose|i: int|
            0 <= i < n + 1 && ops_have((#[trigger] funcs[i]).body.ops@, pred);
        if i < n {
            assert(ops_have(funcs[i].body.ops@, pred));
        }
    }
    if ops_have(funcs[n].body.ops@, pred) {
        assert(0 <= n < n + 1);
    }
}

// ---------------------------------------------------------------------------
// Which functions can suspend
// ---------------------------------------------------------------------------
/// The position of function `f` among the defined functions.
pub open spec fn defined_at(n_imports: usize, f: u32) -> int {
    f - n_imports
}

/// Whether `f` reaches a control transfer through at most `k` direct calls.
pub open spec fn suspends_within(
    n_imports: usize,
    suspends: Seq<bool>,
    calls: Seq<Seq<u32>>,
    f: u32,
    k: nat,
) -> bool
    decreases k,
{
    let i = defined_at(n_imports, f);
    ||| 0 <= i < suspends.len() && suspends[i]
    ||| k > 0 && 0 <= i < calls.len() && exists|j: int|
        0 <= j < calls[i].len() && suspends_within(
            n_imports,
            suspends,
            calls,
            #[trigger] calls[i][j],
            (k - 1) as nat,
        )
}

/// Whether `f` reaches a control transfer through direct calls.
pub open spec fn can_transfer(
    n_imports: usize,
    suspends: Seq<bool>,
    calls: Seq<Seq<u32>>,
    f: u32,
) -> bool {
    exists|k: nat| #[trigger] suspends_within(n_imports, suspends, calls, f, k)
}

/// Whether the indices of the functions concerned fit in 32 bits.
pub open spec fn indices_fit(n_imports: usize, suspends: Seq<bool>, calls: Seq<Seq<u32>>) -> bool {
    &&& forall|i: int| 0 <= i < suspends.len() && #[trigger] suspends[i] ==> n_imports + i <= u32::MAX
    &&& calls.len() > 0 ==> n_imports + calls.len() - 1 <= u32::MAX
}

/// How many of the first `m` defined functions are not in `can`.
spec fn missing(n_imports: usize, can: Set<u32>, m: nat) -> nat
    decreases m,
{
    if m == 0 {
        0
    } else {
        missing(n_imports, can, (m - 1) as nat) + if can.contains((n_imports + m - 1) as u32) {
            0nat
        } else {
            1
        }
    }
}

proof fn lemma_missing(n_imports: usize, can: Set<u32>, x: u32, m: nat)
    ensures
        missing(n_imports, can.insert(x), m) <= missing(n_imports, can, m),
        !can.contains(x) && n_imports <= x < n_imports + m && n_imports + m - 1 <= u32::MAX
            ==> missing(n_imports, can.insert(x), m) < missing(n_imports, can, m),
    decreases m,
{
    if m > 0 {
        lemma_missing(n_imports, can, x, (m - 1) as nat);
    }
}

/// The full index of the defined function at `i`.
fn full_index(n_imports: usize, i: usize) -> (r: Result<u32, TranspileError>)
    ensures
        same_result(r, index32(n_imports + i)),
{
    if i > usize::MAX - n_imports {
        return Err(no_support("index too large"));
    }
    index_u32(n_imports + i)
}

fn calls_into(callees: &Vec<u32>, can: &HashSet<u32>) -> (r: bool)
    ensures
        r == exists|j: int| 0 <= j < callees@.len() && can@.contains(#[trigger] callees@[j]),
{
    let mut j: usize = 0;
    while j < callees.len()
        invariant
            j <= callees@.len(),
            forall|k: int| 0 <= k < j ==> !can@.contains(#[trigger] callees@[k]),
        decreases callees@.len() - j,
    {
        if can.contains(&callees[j]) {
            return true;
        }
        j += 1;
    }
    false
}

/// A set that holds every function with a transfer and is closed under callers
/// holds every function that reaches one.
proof fn lemma_transfer_closed(
    n_imports: usize,
    suspends: Seq<bool>,
    calls: Seq<Seq<u32>>,
    can: Set<u32>,
    f: u32,
    k: nat,
)
    requires
        forall|i: int|
            0 <= i < suspends.len() && #[trigger] suspends[i] ==> can.contains(
                (n_imports + i) as u32,
            ),
        forall|i: int, j: int|
            0 <= i < calls.len() && 0 <= j < calls[i].len() && can.contains(#[trigger] calls[i][j])
                ==> can.contains((n_imports + i) as u32),
        suspends_within(n_imports, suspends, calls, f, k),
    ensures
        can.contains(f),
    decreases k,
{
    let i = defined_at(n_imports, f);
    if 0 <= i < suspends.len() && suspends[i] {
        assert((n_imports + i) as u32 == f);
    } else {
        let j = choose|j: int|
            0 <= j < calls[i].len() && suspends_within(
                n_imports,
                suspends,
                calls,
                #[trigger] calls[i][j],
                (k - 1) as nat,
            );
        lemma_transfer_closed(n_imports, suspends, calls, can, calls[i][j], (k - 1) as nat);
        assert((n_imports + i) as u32 == f);
    }
}

/// The functions that can transitively reach a control transfer (`suspend` or
/// `switch`): either directly in their own body, or through a `call`/`return_call`
/// to another function that can. Computed as a fixpoint over the direct-call graph
/// (full index space). A caller reaching one must itself become a step function so
/// the transfer can propagate up through a cross-call checkpoint.
///
/// Indirect edges (`call_indirect`/`call_ref`) are deliberately ignored: a step
/// function may not cross them (they are rejected), and a continuation step
/// function is barred from appearing in an element segment, so no indirect edge
/// can reach one. Imported functions never transfer (they have no body).
pub fn can_suspend_functions(
    n_imports: usize,
    suspends: &Vec<bool>,
    calls: &Vec<Vec<u32>>,
) -> (r: Result<HashSet<u32>, TranspileError>)
    ensures
        if indices_fit(n_imports, suspends@, lists(calls@)) {
            r is Ok && forall|f: u32| #[trigger]
                r->Ok_0@.contains(f) <==> can_transfer(n_imports, suspends@, lists(calls@), f)
        } else {
            r is Err && r->Err_0@ == unsupported("index too large"@)
        },
{
    let ghost cs = lists(calls@);
    let mut can: HashSet<u32> = HashSet::new();
    let mut i: usize = 0;
    while i < suspends.len()
        invariant
            i <= suspends@.len(),
            forall|k: int| 0 <= k < i && #[trigger] suspends@[k] ==> n_imports + k <= u32::MAX,
            forall|k: int|
                0 <= k < i && #[trigger] suspends@[k] ==> can@.contains((n_imports + k) as u32),
            forall|f: u32| #[trigger]
                can@.contains(f) ==> can_transfer(n_imports, suspends@, cs, f),
        decreases suspends@.len() - i,
    {
        if suspends[i] {
            match full_index(n_imports, i) {
                Ok(f) => {
                    proof {
                        assert(defined_at(n_imports, f) == i);
                        assert(suspends_within(n_imports, suspends@, cs, f, 0));
                    }
                    can.insert(f);
                },
                Err(e) => {
                    return Err(e);
                },
            }
        }
        i += 1;
    }
    let mut changed = true;
    while changed
        invariant
            cs == lists(calls@),
            forall|k: int|
                0 <= k < suspends@.len() && #[trigger] suspends@[k] ==> n_imports + k <= u32::MAX,
            forall|k: int|
                0 <= k < suspends@.len() && #[trigger] suspends@[k] ==> can@.contains(
                    (n_imports + k) as u32,
                ),
            forall|f: u32| #[trigger]
                can@.contains(f) ==> can_transfer(n_imports, suspends@, cs, f),
            !changed ==> (calls@.len() > 0 ==> n_imports + calls@.len() - 1 <= u32::MAX),
            !changed ==> forall|a: int, b: int|
                0 <= a < cs.len() && 0 <= b < cs[a].len() && can@.contains(#[trigger] cs[a][b])
                    ==> can@.contains((n_imports + a) as u32),
        decreases missing(n_imports, can@, calls@.len()), (if changed {
            1int
        } else {
            0
        }),
    {
        changed = false;
        let ghost start = can@;
        let mut i: usize = 0;
        while i < calls.len()
            invariant
                i <= calls@.len(),
                cs == lists(calls@),
                i > 0 ==> n_imports + i - 1 <= u32::MAX,
                forall|k: int|
                    0 <= k < suspends@.len() && #[trigger] suspends@[k] ==> n_imports + k
                        <= u32::MAX,
                forall|k: int|
                    0 <= k < suspends@.len() && #[trigger] suspends@[k] ==> can@.contains(
                        (n_imports + k) as u32,
                    ),
                forall|f: u32| #[trigger]
                    can@.contains(f) ==> can_transfer(n_imports, suspends@, cs, f),
                missing(n_imports, can@, calls@.len()) <= missing(n_imports, start, calls@.len()),
                changed ==> n_imports + calls@.len() - 1 > u32::MAX || missing(
                    n_imports,
                    can@,
                    calls@.len(),
                ) < missing(n_imports, start, calls@.len()),
                changed ==> i > 0,
                !changed ==> can@ == start,
                !changed ==> forall|a: int, b: int|
                    0 <= a < i && 0 <= b < cs[a].len() && can@.contains(#[trigger] cs[a][b])
                        ==> can@.contains((n_imports + a) as u32),
            decreases calls@.len() - i,
        {
            let fidx: u32 = match full_index(n_imports, i) {
                Ok(f) => f,
                Err(e) => {
                    return Err(e);
                },
            };
            assert(cs[i as int] == calls@[i as int]@);
            let into = calls_into(&calls[i], &can);
            if !can.contains(&fidx) && into {
                proof {
                    let j = choose|j: int|
                        0 <= j < calls@[i as int]@.len() && can@.contains(
                            #[trigger] calls@[i as int]@[j],
                        );
                    let g = cs[i as int][j];
                    assert(can@.contains(g));
                    let k = choose|k: nat| #[trigger]
                        suspends_within(n_imports, suspends@, cs, g, k);
                    assert(defined_at(n_imports, fidx) == i);
                    assert(suspends_within(n_imports, suspends@, cs, fidx, k + 1));
                    lemma_missing(n_imports, can@, fidx, calls@.len());
                }
                can.insert(fidx);
                changed = true;
            }
            i += 1;
        }
    }
    proof {
        assert forall|f: u32| #[trigger]
            can@.contains(f) <==> can_transfer(n_imports, suspends@, cs, f) by {
            if can_transfer(n_imports, suspends@, cs, f) {
                let k = choose|k: nat| #[trigger] suspends_within(n_imports, suspends@, cs, f, k);
                lemma_transfer_closed(n_imports, suspends@, cs, can@, f, k);
            }
        }
    }
    Ok(can)
}

/// Every function with a control transfer in its own body can suspend, and so can
/// every function that calls one that can.
pub proof fn law_suspension_propagates(
    n_imports: usize,
    suspends: Seq<bool>,
    calls: Seq<Seq<u32>>,
    caller: u32,
    callee: u32,
)
    ensures
        0 <= defined_at(n_imports, caller) < suspends.len() && suspends[defined_at(
            n_imports,
            caller,
        )] ==> can_transfer(n_imports, suspends, calls, caller),
        0 <= defined_at(n_imports, caller) < calls.len() && calls[defined_at(
            n_imports,
            caller,
        )].contains(callee) && can_transfer(n_imports, suspends, calls, callee) ==> can_transfer(
            n_imports,
            suspends,
            calls,
            caller,
        ),
{
    let i = defined_at(n_imports, caller);
    if 0 <= i < suspends.len() && suspends[i] {
        assert(suspends_within(n_imports, suspends, calls, caller, 0));
    }
    if 0 <= i < calls.len() && calls[i].contains(callee) && can_transfer(
        n_imports,
        suspends,
        calls,
        callee,
    ) {
        let k = choose|k: nat| #[trigger] suspends_within(n_imports, suspends, calls, callee, k);
        let j = choose|j: int| 0 <= j < calls[i].len() && calls[i][j] == callee;
        assert(suspends_within(n_imports, suspends, calls, calls[i][j], k));
        assert(suspends_within(n_imports, suspends, calls, caller, k + 1));
    }
}

// ---------------------------------------------------------------------------
// Step functions
// ---------------------------------------------------------------------------
/// Whether function `f` calls `g` directly.
pub open spec fn calls_directly(n_imports: usize, calls: Seq<Seq<u32>>, f: u32, g: u32) -> bool {
    let i = defined_at(n_imports, f);
    0 <= i < calls.len() && calls[i].contains(g)
}

/// Whether `g` is a continuation body, or is reached from one through at most `k`
/// calls to functions that can suspend.
pub open spec fn steps_within(
    n_imports: usize,
    cont_bodies: Seq<u32>,
    can_suspend: Set<u32>,
    calls: Seq<Seq<u32>>,
    g: u32,
    k: nat,
) -> bool
    decreases k,
{
    ||| cont_bodies.contains(g)
    ||| k > 0 && can_suspend.contains(g) && exists|f: u32|
        steps_within(n_imports, cont_bodies, can_suspend, calls, f, (k - 1) as nat)
            && #[trigger] calls_directly(n_imports, calls, f, g)
}

/// Whether `g` is emitted as a step function.
pub open spec fn is_step_function(
    n_imports: usize,
    cont_bodies: Seq<u32>,
    can_suspend: Set<u32>,
    calls: Seq<Seq<u32>>,
    g: u32,
) -> bool {
    exists|k: nat| #[trigger] steps_within(n_imports, cont_bodies, can_suspend, calls, g, k)
}

/// The last of `list` that is in `step`.
pub open spec fn last_in(list: Seq<u32>, step: Seq<u32>) -> Option<u32>
    decreases list.len(),
{
    if list.len() == 0 {
        None
    } else if step.contains(list.last()) {
        Some(list.last())
    } else {
        last_in(list.drop_last(), step)
    }
}

/// The callee of a step function's cross-call checkpoint: the last step function
/// that it calls.
pub open spec fn checkpoint_at(
    n_imports: usize,
    calls: Seq<Seq<u32>>,
    step: Seq<u32>,
    f: u32,
) -> Option<u32> {
    let i = defined_at(n_imports, f);
    if step.contains(f) && 0 <= i < calls.len() {
        last_in(calls[i], step)
    } else {
        None
    }
}

/// The checkpoints of all step functions.
pub open spec fn checkpoints(n_imports: usize, calls: Seq<Seq<u32>>, step: Seq<u32>) -> Map<
    u32,
    u32,
> {
    Map::new(
        |f: u32| checkpoint_at(n_imports, calls, step, f) is Some,
        |f: u32| checkpoint_at(n_imports, calls, step, f)->0,
    )
}

/// The function `k` checkpoints below `f`.
pub open spec fn chain_after(m: Map<u32, u32>, f: u32, k: nat) -> u32
    decreases k,
{
    if k == 0 || !m.contains_key(f) {
        f
    } else {
        chain_after(m, m[f], (k - 1) as nat)
    }
}

/// Whether some chain of checkpoints is longer than the number of step functions,
/// so that it loops back.
pub open spec fn chain_loops(m: Map<u32, u32>, steps: nat) -> bool {
    exists|f: u32| #[trigger] m.contains_key(f) && m.contains_key(chain_after(m, f, steps + 1))
}

/// What is wrong with a chain of checkpoints that loops back.
pub open spec fn recursive_chain() -> FailV {
    unsupported(
        "recursive continuation call chain: a cross-call checkpoint that loops back would nest frames without bound"@,
    )
}

/// How many direct calls go to functions outside `step`.
spec fn open_calls(list: Seq<u32>, step: Set<u32>) -> nat
    decreases list.len(),
{
    if list.len() == 0 {
        0
    } else {
        open_calls(list.drop_last(), step) + if step.contains(list.last()) {
            0nat
        } else {
            1
        }
    }
}

spec fn all_open_calls(calls: Seq<Seq<u32>>, step: Set<u32>) -> nat
    decreases calls.len(),
{
    if calls.len() == 0 {
        0
    } else {
        all_open_calls(calls.drop_last(), step) + open_calls(calls.last(), step)
    }
}

proof fn lemma_open_calls(list: Seq<u32>, step: Set<u32>, g: u32)
    ensures
        open_calls(list, step.insert(g)) <= open_calls(list, step),
        list.contains(g) && !step.contains(g) ==> open_calls(list, step.insert(g)) < open_calls(
            list,
            step,
        ),
    decreases list.len(),
{
    if list.len() > 0 {
        lemma_open_calls(list.drop_last(), step, g);
        if list.contains(g) && list.last() != g {
            let j = choose|j: int| 0 <= j < list.len() && list[j] == g;
            assert(list.drop_last()[j] == g);
        }
    }
}

proof fn lemma_all_open_calls(calls: Seq<Seq<u32>>, step: Set<u32>, g: u32, i: int)
    requires
        0 <= i < calls.len(),
    ensures
        all_open_calls(calls, step.insert(g)) <= all_open_calls(calls, step),
        calls[i].contains(g) && !step.contains(g) ==> all_open_calls(calls, step.insert(g))
            < all_open_calls(calls, step),
    decreases calls.len(),
{
    lemma_open_calls(calls.last(), step, g);
    if calls.len() > 1 {
        lemma_all_open_calls(
            calls.drop_last(),
            step,
            g,
            if i < calls.len() - 1 {
                i
            } else {
                0
            },
        );
    }
    assert(calls.len() == 1 ==> all_open_calls(calls.drop_last(), step.insert(g)) == 0);
    assert(calls.len() == 1 ==> all_open_calls(calls.drop_last(), step) == 0);
    if i == calls.len() - 1 {
        assert(calls[i] == calls.last());
    }
}

/// A set that holds the continuation bodies and is closed under calls to functions
/// that can suspend holds every step function.
proof fn lemma_steps_closed(
    n_imports: usize,
    cont_bodies: Seq<u32>,
    can_suspend: Set<u32>,
    calls: Seq<Seq<u32>>,
    step: Seq<u32>,
    g: u32,
    k: nat,
)
    requires
        forall|f: u32| #[trigger] cont_bodies.contains(f) ==> step.contains(f),
        forall|f: u32, h: u32|
            step.contains(f) && #[trigger] calls_directly(n_imports, calls, f, h)
                && can_suspend.contains(h) ==> step.contains(h),
        steps_within(n_imports, cont_bodies, can_suspend, calls, g, k),
    ensures
        step.contains(g),
    decreases k,
{
    if !cont_bodies.contains(g) {
        let f = choose|f: u32|
            steps_within(n_imports, cont_bodies, can_suspend, calls, f, (k - 1) as nat)
                && #[trigger] calls_directly(n_imports, calls, f, g);
        lemma_steps_closed(
            n_imports,
            cont_bodies,
            can_suspend,
            calls,
            step,
            f,
            (k - 1) as nat,
        );
    }
}

/// The position of function `f` among the defined functions, if it has one there.
fn defined_index(n_imports: usize, f: u32, n: usize) -> (r: Option<usize>)
    ensures
        match r {
            Some(i) => i == defined_at(n_imports, f) && i < n,
            None => !(0 <= defined_at(n_imports, f) < n),
        },
{
    if (f as usize) < n_imports {
        return None;
    }
    let i: usize = f as usize - n_imports;
    if i < n {
        Some(i)
    } else {
        None
    }
}

fn last_step_call(list: &Vec<u32>, step: &Vec<u32>) -> (r: Option<u32>)
    requires
        increasing(step@),
    ensures
        r == last_in(list@, step@),
{
    let mut j: usize = list.len();
    assert(list@.take(j as int) =~= list@);
    while j > 0
        invariant
            increasing(step@),
            j <= list@.len(),
            last_in(list@, step@) == last_in(list@.take(j as int), step@),
        decreases j,
    {
        assert(list@.take(j as int).last() == list@[j - 1]);
        assert(list@.take(j as int).drop_last() =~= list@.take(j - 1));
        if sorted_contains(step, list[j - 1]) {
            return Some(list[j - 1]);
        }
        j -= 1;
    }
    None
}

/// The continuation bodies and all that they reach through calls to functions that
/// can suspend, sorted.
fn step_closure(
    n_imports: usize,
    cont_bodies: &Vec<u32>,
    can_suspend: &HashSet<u32>,
    calls: &Vec<Vec<u32>>,
) -> (step: Vec<u32>)
    ensures
        increasing(step@),
        forall|g: u32| #[trigger]
            step@.contains(g) <==> is_step_function(
                n_imports,
                cont_bodies@,
                can_suspend@,
                lists(calls@),
                g,
            ),
{
    let ghost cs = lists(calls@);
    let mut step: Vec<u32> = Vec::new();
    let mut i: usize = 0;
    while i < cont_bodies.len()
        invariant
            i <= cont_bodies@.len(),
            increasing(step@),
            forall|k: int| 0 <= k < i ==> step@.contains(#[trigger] cont_bodies@[k]),
            forall|g: u32| #[trigger]
                step@.contains(g) ==> is_step_function(
                    n_imports,
                    cont_bodies@,
                    can_suspend@,
                    cs,
                    g,
                ),
        decreases cont_bodies@.len() - i,
    {
        let ghost prev = step@;
        let f: u32 = cont_bodies[i];
        sorted_insert(&mut step, f);
        proof {
            assert(cont_bodies@.contains(f));
            assert(steps_within(n_imports, cont_bodies@, can_suspend@, cs, f, 0));
            assert forall|g: u32| #[trigger] step@.contains(g) <==> prev.contains(g) || g == f by {
                assert(step@.to_set().contains(g) == prev.to_set().insert(f).contains(g));
            }
        }
        i += 1;
    }
    assert forall|f: u32| #[trigger] cont_bodies@.contains(f) implies step@.contains(f) by {
        let k = choose|k: int| 0 <= k < cont_bodies@.len() && cont_bodies@[k] == f;
        assert(step@.contains(cont_bodies@[k]));
    }
    let mut changed = true;
    while changed
        invariant
            cs == lists(calls@),
            increasing(step@),
            forall|f: u32| #[trigger] cont_bodies@.contains(f) ==> step@.contains(f),
            forall|g: u32| #[trigger]
                step@.contains(g) ==> is_step_function(
                    n_imports,
                    cont_bodies@,
                    can_suspend@,
                    cs,
                    g,
                ),
            !changed ==> forall|f: u32, h: u32|
                step@.contains(f) && #[trigger] calls_directly(n_imports, cs, f, h)
                    && can_suspend@.contains(h) ==> step@.contains(h),
        decreases all_open_calls(cs, step@.to_set()), (if changed {
            1int
        } else {
            0
        }),
    {
        changed = false;
        let ghost start = step@;
        let snapshot = step.clone();
        assert(snapshot@ =~= start);
        let mut s: usize = 0;
        while s < snapshot.len()
            invariant
                cs == lists(calls@),
                snapshot@ == start,
                s <= snapshot@.len(),
                increasing(step@),
                forall|f: u32| #[trigger] start.contains(f) ==> step@.contains(f),
                forall|f: u32| #[trigger] cont_bodies@.contains(f) ==> step@.contains(f),
                forall|g: u32| #[trigger]
                    step@.contains(g) ==> is_step_function(
                        n_imports,
                        cont_bodies@,
                        can_suspend@,
                        cs,
                        g,
                    ),
                all_open_calls(cs, step@.to_set()) <= all_open_calls(cs, start.to_set()),
                changed ==> all_open_calls(cs, step@.to_set()) < all_open_calls(
                    cs,
                    start.to_set(),
                ),
                !changed ==> step@ == start,
                !changed ==> forall|k: int, h: u32|
                    0 <= k < s && #[trigger] calls_directly(n_imports, cs, snapshot@[k], h)
                        && can_suspend@.contains(h) ==> step@.contains(h),
            decreases snapshot@.len() - s,
        {
            let f: u32 = snapshot[s];
            assert(start.contains(f));
            match defined_index(n_imports, f, calls.len()) {
                None => {},
                Some(di) => {
                    let list = &calls[di];
                    assert(cs[di as int] == list@);
                    let mut j: usize = 0;
                    while j < list.len()
                        invariant
                            cs == lists(calls@),
                            snapshot@ == start,
                            s < snapshot@.len(),
                            f == snapshot@[s as int],
                            step@.contains(f),
                            di < calls@.len(),
                            di == defined_at(n_imports, f),
                            list@ == cs[di as int],
                            j <= list@.len(),
                            increasing(step@),
                            forall|f: u32| #[trigger] start.contains(f) ==> step@.contains(f),
                            forall|f: u32| #[trigger]
                                cont_bodies@.contains(f) ==> step@.contains(f),
                            forall|g: u32| #[trigger]
                                step@.contains(g) ==> is_step_function(
                                    n_imports,
                                    cont_bodies@,
                                    can_suspend@,
                                    cs,
                                    g,
                                ),
                            all_open_calls(cs, step@.to_set()) <= all_open_calls(
                                cs,
                                start.to_set(),
                            ),
                            changed ==> all_open_calls(cs, step@.to_set()) < all_open_calls(
                                cs,
                                start.to_set(),
                            ),
                            !changed ==> step@ == start,
                            !changed ==> forall|k: int, h: u32|
                                0 <= k < s && #[trigger] calls_directly(
                                    n_imports,
                                    cs,
                                    snapshot@[k],
                                    h,
                                ) && can_suspend@.contains(h) ==> step@.contains(h),
                            !changed ==> forall|k: int|
                                0 <= k < j && can_suspend@.contains(#[trigger] list@[k])
                                    ==> step@.contains(list@[k]),
                        decreases list@.len() - j,
                    {
                        let g: u32 = list[j];
                        if can_suspend.contains(&g) {
                            let ghost prev = step@;
                            let fresh = sorted_insert(&mut step, g);
                            proof {
                                assert(cs[di as int].contains(g));
                                lemma_all_open_calls(cs, prev.to_set(), g, di as int);
                                let k = choose|k: nat| #[trigger]
                                    steps_within(n_imports, cont_bodies@, can_suspend@, cs, f, k);
                                assert(calls_directly(n_imports, cs, f, g));
                                assert(steps_within(
                                    n_imports,
                                    cont_bodies@,
                                    can_suspend@,
                                    cs,
                                    g,
                                    k + 1,
                                ));
                                assert forall|h: u32| #[trigger]
                                    step@.contains(h) <==> prev.contains(h) || h == g by {
                                    assert(step@.to_set().contains(h) == prev.to_set().insert(
                                        g,
                                    ).contains(h));
                                }
                            }
                            if fresh {
                                changed = true;
                            }
                        }
                        j += 1;
                    }
                    proof {
                        if !changed {
                            assert forall|h: u32| #[trigger]
                                calls_directly(n_imports, cs, f, h) && can_suspend@.contains(
                                    h,
                                ) implies step@.contains(h) by {
                                let k = choose|k: int| 0 <= k < list@.len() && list@[k] == h;
                                assert(can_suspend@.contains(list@[k]));
                            }
                        }
                    }
                },
            }
            s += 1;
        }
        proof {
            if !changed {
                assert forall|f: u32, h: u32|
                    step@.contains(f) && #[trigger] calls_directly(n_imports, cs, f, h)
                        && can_suspend@.contains(h) implies step@.contains(h) by {
                    let k = choose|k: int| 0 <= k < snapshot@.len() && snapshot@[k] == f;
                    assert(calls_directly(n_imports, cs, snapshot@[k], h));
                }
            }
        }
    }
    proof {
        assert forall|g: u32| #[trigger]
            step@.contains(g) <==> is_step_function(
                n_imports,
                cont_bodies@,
                can_suspend@,
                cs,
                g,
            ) by {
            if is_step_function(n_imports, cont_bodies@, can_suspend@, cs, g) {
                let k = choose|k: nat| #[trigger]
                    steps_within(n_imports, cont_bodies@, can_suspend@, cs, g, k);
                lemma_steps_closed(n_imports, cont_bodies@, can_suspend@, cs, step@, g, k);
            }
        }
    }
    step
}

/// The functions emitted as resumable `cont_step_func{N}` state machines: every
/// continuation body, plus every function transitively reachable from one
/// through a suspend-crossing `call` (a call to a function that can suspend).
///
/// Also returns, per step function, the callee of its single tail cross-call
/// checkpoint (the last `call` to another step function; only one cross-call
/// checkpoint is allowed per body), used to nest that callee's frame inside the
/// caller's. A recursive checkpoint chain would give an
/// infinitely-nested frame, so it is rejected here.
pub fn step_functions(
    n_imports: usize,
    cont_bodies: &Vec<u32>,
    can_suspend: &HashSet<u32>,
    calls: &Vec<Vec<u32>>,
) -> (r: Result<(Vec<u32>, HashMap<u32, u32>), TranspileError>)
    ensures
        exists|step: Seq<u32>|
            {
                &&& #[trigger] increasing(step)
                &&& forall|g: u32| #[trigger]
                    step.contains(g) <==> is_step_function(
                        n_imports,
                        cont_bodies@,
                        can_suspend@,
                        lists(calls@),
                        g,
                    )
                &&& if chain_loops(checkpoints(n_imports, lists(calls@), step), step.len()) {
                    r is Err && r->Err_0@ == recursive_chain()
                } else {
                    &&& r is Ok
                    &&& r->Ok_0.0@ == step
                    &&& r->Ok_0.1@ == checkpoints(n_imports, lists(calls@), step)
                }
            },
{
    let ghost cs = lists(calls@);
    let step = step_closure(n_imports, cont_bodies, can_suspend, calls);
    let ghost want = checkpoints(n_imports, cs, step@);
    let mut checkpoint: HashMap<u32, u32> = HashMap::new();
    let mut i: usize = 0;
    while i < step.len()
        invariant
            i <= step@.len(),
            cs == lists(calls@),
            increasing(step@),
            want == checkpoints(n_imports, cs, step@),
            forall|f: u32| #[trigger]
                checkpoint@.contains_key(f) <==> want.contains_key(f) && step@.take(
                    i as int,
                ).contains(f),
            forall|f: u32| #[trigger]
                checkpoint@.contains_key(f) ==> checkpoint@[f] == want[f],
        decreases step@.len() - i,
    {
        let f: u32 = step[i];
        let ghost prev = checkpoint@;
        proof {
            let now = step@.take(i + 1);
            assert(now =~= step@.take(i as int).push(f));
            crate::text::lemma_push_to_set(step@.take(i as int), f);
            assert forall|g: u32| #[trigger]
                now.contains(g) <==> step@.take(i as int).contains(g) || g == f by {
                assert(now.to_set().contains(g) == step@.take(i as int).to_set().insert(
                    f,
                ).contains(g));
            }
            assert(step@.contains(f));
        }
        match defined_index(n_imports, f, calls.len()) {
            None => {},
            Some(di) => {
                assert(cs[di as int] == calls@[di as int]@);
                match last_step_call(&calls[di], &step) {
                    Some(g) => {
                        checkpoint.insert(f, g);
                    },
                    None => {},
                }
            },
        }
        i += 1;
    }
    proof {
        assert(step@.take(step@.len() as int) =~= step@);
        assert(checkpoint@ =~= want);
    }
    // A checkpoint chain that loops back would nest frames without bound.
    let mut i: usize = 0;
    while i < step.len()
        invariant
            i <= step@.len(),
            increasing(step@),
            cs == lists(calls@),
            forall|g: u32| #[trigger]
                step@.contains(g) <==> is_step_function(
                    n_imports,
                    cont_bodies@,
                    can_suspend@,
                    cs,
                    g,
                ),
            checkpoint@ == want,
            want == checkpoints(n_imports, cs, step@),
            forall|k: int|
                0 <= k < i && want.contains_key(#[trigger] step@[k]) ==> !want.contains_key(
                    chain_after(want, step@[k], step@.len() + 1),
                ),
        decreases step@.len() - i,
    {
        let start: u32 = step[i];
        if checkpoint.contains_key(&start) {
            let mut cur: u32 = start;
            let mut left: usize = step.len();
            let mut more = true;
            while more
                invariant
                    checkpoint@ == want,
                    more ==> chain_after(want, cur, (left + 1) as nat) == chain_after(
                        want,
                        start,
                        step@.len() + 1,
                    ),
                    !more ==> cur == chain_after(want, start, step@.len() + 1),
                decreases left, (if more {
                    1int
                } else {
                    0
                }),
            {
                proof {
                    reveal_with_fuel(chain_after, 2);
                }
                match checkpoint.get(&cur) {
                    Some(next) => {
                        cur = *next;
                    },
                    None => {},
                }
                if left == 0 {
                    more = false;
                } else {
                    left = left - 1;
                }
            }
            if checkpoint.contains_key(&cur) {
                assert(chain_loops(want, step@.len()));
                return Err(
                    no_support(
                        "recursive continuation call chain: a cross-call checkpoint that loops back would nest frames without bound",
                    ),
                );
            }
        }
        i += 1;
    }
    proof {
        assert(!chain_loops(want, step@.len())) by {
            if chain_loops(want, step@.len()) {
                let f = choose|f: u32| #[trigger]
                    want.contains_key(f) && want.contains_key(
                        chain_after(want, f, step@.len() + 1),
                    );
                assert(step@.contains(f));
                let k = choose|k: int| 0 <= k < step@.len() && step@[k] == f;
                assert(want.contains_key(step@[k]));
            }
        }
    }
    Ok((step, checkpoint))
}

/// Where no chain of checkpoints loops back, no function lies below itself: the
/// frames nest to a finite depth.
pub proof fn law_checkpoint_chains_end(m: Map<u32, u32>, steps: nat, f: u32, k: nat)
    requires
        !chain_loops(m, steps),
        m.contains_key(f),
        k > 0,
    ensures
        chain_after(m, f, k) != f,
{
    if chain_after(m, f, k) == f {
        lemma_chain_cycles(m, f, k, steps + 1);
    }
}

/// A chain that comes back to its start never ends.
proof fn lemma_chain_cycles(m: Map<u32, u32>, f: u32, k: nat, n: nat)
    requires
        m.contains_key(f),
        k > 0,
        chain_after(m, f, k) == f,
    ensures
        m.contains_key(chain_after(m, f, n)),
    decreases n,
{
    if n >= k {
        lemma_chain_adds(m, f, k, (n - k) as nat);
        lemma_chain_cycles(m, f, k, (n - k) as nat);
    } else {
        if !m.contains_key(chain_after(m, f, n)) {
            let g = chain_after(m, f, n);
            lemma_chain_adds(m, f, n, (k - n) as nat);
            assert(chain_after(m, g, (k - n) as nat) == g);
        }
    }
}

proof fn lemma_chain_adds(m: Map<u32, u32>, f: u32, a: nat, b: nat)
    ensures
        chain_after(m, f, a + b) == chain_after(m, chain_after(m, f, a), b),
    decreases a,
{
    if a > 0 {
        if m.contains_key(f) {
            lemma_chain_adds(m, m[f], (a - 1) as nat, b);
        } else {
            assert(chain_after(m, f, a + b) == f);
            assert(chain_after(m, f, b) == f);
        }
    }
}

// ---------------------------------------------------------------------------
// Locals
// ---------------------------------------------------------------------------
/// `front` with `n` values of type `ty` behind it.
pub open spec fn with_run(front: Seq<ValType>, ty: ValType, n: nat) -> Seq<ValType>
    decreases n,
{
    if n == 0 {
        front
    } else {
        with_run(front, ty, (n - 1) as nat).push(ty)
    }
}

/// The types of all locals: the parameters, then the declared runs.
pub open spec fn local_types_of(params: Seq<ValType>, runs: Seq<(u32, ValType)>) -> Seq<ValType>
    decreases runs.len(),
{
    if runs.len() == 0 {
        params
    } else {
        with_run(
            local_types_of(params, runs.drop_last()),
            runs.last().1,
            runs.last().0 as nat,
        )
    }
}

/// The types of all locals: the parameters, then the declared runs.
pub fn all_locals(params: &Vec<ValType>, runs: &Vec<(u32, ValType)>) -> (r: Vec<ValType>)
    ensures
        r@ == local_types_of(params@, runs@),
{
    let mut out: Vec<ValType> = params.clone();
    assert(out@ =~= params@);
    let mut i: usize = 0;
    assert(runs@.take(0) =~= Seq::empty());
    while i < runs.len()
        invariant
            i <= runs@.len(),
            out@ == local_types_of(params@, runs@.take(i as int)),
        decreases runs@.len() - i,
    {
        assert(runs@.take(i + 1).drop_last() =~= runs@.take(i as int));
        let (count, ty) = runs[i];
        let ghost front = out@;
        let mut k: u32 = 0;
        while k < count
            invariant
                k <= count,
                out@ == with_run(front, ty, k as nat),
            decreases count - k,
        {
            out.push(ty);
            k += 1;
        }
        i += 1;
    }
    assert(runs@.take(runs@.len() as int) =~= runs@);
    out
}

/// The locals of the step functions among `funcs`.
pub open spec fn step_locals_of(funcs: Seq<FuncInput>, n_imports: usize, step: Seq<u32>) -> Map<
    u32,
    Seq<ValType>,
> {
    Map::new(
        |f: u32| step.contains(f) && 0 <= defined_at(n_imports, f) < funcs.len(),
        |f: u32|
            {
                let input = funcs[defined_at(n_imports, f)];
                local_types_of(input.params@, input.body.locals@)
            },
    )
}

pub open spec fn local_lists(m: Map<u32, Vec<ValType>>) -> Map<u32, Seq<ValType>> {
    m.map_values(|v: Vec<ValType>| v@)
}

/// Whether the locals of some step function cannot be read to their end.
pub open spec fn some_locals_broken(
    funcs: Seq<FuncInput>,
    n_imports: usize,
    step: Seq<u32>,
) -> bool {
    exists|k: int|
        0 <= k < step.len() && 0 <= defined_at(n_imports, #[trigger] step[k]) < funcs.len()
            && funcs[defined_at(n_imports, step[k])].body.locals_broken
}

/// The local types (by index) of each step function, so that each `ContFrame` gets
/// a field per local. A function whose locals cannot be read is malformed.
pub fn step_function_locals(
    funcs: &Vec<FuncInput>,
    n_imports: usize,
    step_set: &Vec<u32>,
) -> (r: Result<HashMap<u32, Vec<ValType>>, TranspileError>)
    ensures
        if some_locals_broken(funcs@, n_imports, step_set@) {
            r is Err && r->Err_0@ == FailV::Malformed
        } else {
            r is Ok && local_lists(r->Ok_0@) == step_locals_of(funcs@, n_imports, step_set@)
        },
{
    let ghost want = step_locals_of(funcs@, n_imports, step_set@);
    let mut map: HashMap<u32, Vec<ValType>> = HashMap::new();
    let mut i: usize = 0;
    while i < step_set.len()
        invariant
            i <= step_set@.len(),
            want == step_locals_of(funcs@, n_imports, step_set@),
            forall|f: u32| #[trigger]
                map@.contains_key(f) <==> want.contains_key(f) && step_set@.take(
                    i as int,
                ).contains(f),
            forall|f: u32| #[trigger] map@.contains_key(f) ==> map@[f]@ == want[f],
            forall|k: int|
                0 <= k < i && 0 <= defined_at(n_imports, #[trigger] step_set@[k]) < funcs@.len()
                    ==> !funcs@[defined_at(n_imports, step_set@[k])].body.locals_broken,
        decreases step_set@.len() - i,
    {
        let f: u32 = step_set[i];
        proof {
            let now = step_set@.take(i + 1);
            assert(now =~= step_set@.take(i as int).push(f));
            crate::text::lemma_push_to_set(step_set@.take(i as int), f);
            assert forall|g: u32| #[trigger]
                now.contains(g) <==> step_set@.take(i as int).contains(g) || g == f by {
                assert(now.to_set().contains(g) == step_set@.take(i as int).to_set().insert(
                    f,
                ).contains(g));
            }
            assert(step_set@.contains(f));
        }
        match defined_index(n_imports, f, funcs.len()) {
            None => {},
            Some(di) => {
                if funcs[di].body.locals_broken {
                    assert(some_locals_broken(funcs@, n_imports, step_set@)) by {
                        assert(step_set@[i as int] == f);
                    }
                    return Err(TranspileError::Malformed);
                }
                let locals = all_locals(&funcs[di].params, &funcs[di].body.locals);
                map.insert(f, locals);
            },
        }
        i += 1;
    }
    assert(step_set@.take(step_set@.len() as int) =~= step_set@);
    assert(local_lists(map@) =~= want);
    Ok(map)
}

/// The locals that the operators write.
pub open spec fn mutated_locals(ops: Seq<Instr>) -> Set<u32>
    decreases ops.len(),
{
    if ops.len() == 0 {
        Set::empty()
    } else {
        let front = mutated_locals(ops.drop_last());
        match ops.last().op {
            Operator::LocalSet { local_index } => front.insert(local_index),
            Operator::LocalTee { local_index } => front.insert(local_index),
            _ => front,
        }
    }
}

/// Collect the indices of locals written by `local.set`/`local.tee`.
pub fn collect_mutated_locals(ops: &Vec<Instr>) -> (r: HashSet<u32>)
    ensures
        r@ == mutated_locals(ops@),
{
    let mut mutated: HashSet<u32> = HashSet::new();
    let mut i: usize = 0;
    while i < ops.len()
        invariant
            i <= ops@.len(),
            mutated@ == mutated_locals(ops@.take(i as int)),
        decreases ops@.len() - i,
    {
        assert(ops@.take(i + 1).drop_last() =~= ops@.take(i as int));
        match &ops[i].op {
            Operator::LocalSet { local_index } => {
                mutated.insert(*local_index);
            },
            Operator::LocalTee { local_index } => {
                mutated.insert(*local_index);
            },
            _ => {},
        }
        i += 1;
    }
    assert(ops@.take(ops@.len() as int) =~= ops@);
    mutated
}

// ---------------------------------------------------------------------------
// Misused continuations
// ---------------------------------------------------------------------------
pub open spec fn plain_funcref_use() -> FailV {
    unsupported("continuation step function used as a plain funcref"@)
}

pub open spec fn direct_call_use() -> FailV {
    unsupported("continuation step function is called directly outside a continuation"@)
}

pub open spec fn element_use() -> FailV {
    unsupported("continuation step function appears in an element segment"@)
}

/// What is wrong with the operator at `k`: a `ref.func` of a step function whose
/// next operator is no `cont.new`, or a direct call of a step function from outside
/// a step function.
pub open spec fn op_misuse(
    ops: Seq<Instr>,
    k: int,
    step: Seq<u32>,
    in_step: bool,
) -> Option<FailV> {
    if k > 0 && ops[k - 1].op is RefFunc && step.contains(
        ops[k - 1].op->RefFunc_function_index,
    ) && !(ops[k].op is ContNew) {
        Some(plain_funcref_use())
    } else {
        match ops[k].op {
            Operator::Call { function_index } => if step.contains(function_index) && !in_step {
                Some(direct_call_use())
            } else {
                None
            },
            Operator::ReturnCall { function_index } => if step.contains(function_index)
                && !in_step {
                Some(direct_call_use())
            } else {
                None
            },
            _ => None,
        }
    }
}

/// The first thing wrong among the operators from `k` on.
pub open spec fn ops_misuse(
    ops: Seq<Instr>,
    k: int,
    step: Seq<u32>,
    in_step: bool,
) -> Option<FailV>
    decreases ops.len() - k,
{
    if k < 0 || k >= ops.len() {
        None
    } else {
        match op_misuse(ops, k, step, in_step) {
            Some(e) => Some(e),
            None => ops_misuse(ops, k + 1, step, in_step),
        }
    }
}

/// The first thing wrong among the functions from `i` on.
pub open spec fn funcs_misuse(
    funcs: Seq<FuncInput>,
    i: int,
    step: Seq<u32>,
    n_imports: usize,
) -> Option<FailV>
    decreases funcs.len() - i,
{
    if i < 0 || i >= funcs.len() {
        None
    } else {
        match index32(n_imports + i) {
            Err(e) => Some(e),
            Ok(f) => match ops_misuse(funcs[i].body.ops@, 0, step, step.contains(f)) {
                Some(e) => Some(e),
                None => funcs_misuse(funcs, i + 1, step, n_imports),
            },
        }
    }
}

/// Whether a step function is listed in an element segment.
pub open spec fn in_elements(elements: Seq<ElemV>, step: Seq<u32>) -> bool {
    exists|i: int, k: int|
        0 <= i < elements.len() && 0 <= k < elements[i].funcs.len() && step.contains(
            #[trigger] elements[i].funcs[k],
        )
}

/// The first use of a step function that would need an ordinary method.
pub open spec fn continuation_misuse(
    funcs: Seq<FuncInput>,
    elements: Seq<ElemV>,
    step: Seq<u32>,
    n_imports: usize,
) -> Option<FailV> {
    if step.len() == 0 {
        None
    } else {
        match funcs_misuse(funcs, 0, step, n_imports) {
            Some(e) => Some(e),
            None => if in_elements(elements, step) {
                Some(element_use())
            } else {
                None
            },
        }
    }
}

/// Whether a result without a value is as specified.
pub open spec fn unit_result(r: Result<(), TranspileError>, want: Option<FailV>) -> bool {
    match want {
        None => r is Ok,
        Some(e) => r is Err && r->Err_0@ == e,
    }
}

fn reject_ops(ops: &Vec<Instr>, step_set: &Vec<u32>, in_step: bool) -> (r: Result<
    (),
    TranspileError,
>)
    requires
        increasing(step_set@),
    ensures
        unit_result(r, ops_misuse(ops@, 0, step_set@, in_step)),
{
    // A `ref.func` awaiting its consumer; legitimate only when the very next
    // operator is the `cont.new` that turns it into a continuation handle.
    let mut pending_ref_func: Option<u32> = None;
    let mut k: usize = 0;
    while k < ops.len()
        invariant
            increasing(step_set@),
            k <= ops@.len(),
            ops_misuse(ops@, 0, step_set@, in_step) == ops_misuse(
                ops@,
                k as int,
                step_set@,
                in_step,
            ),
            match pending_ref_func {
                Some(f) => k > 0 && ops@[k - 1].op == (Operator::RefFunc { function_index: f }),
                None => k > 0 ==> !(ops@[k - 1].op is RefFunc),
            },
        decreases ops@.len() - k,
    {
        let is_cont_new = match &ops[k].op {
            Operator::ContNew { .. } => true,
            _ => false,
        };
        match pending_ref_func {
            Some(f) => {
                if sorted_contains(step_set, f) && !is_cont_new {
                    return Err(no_support("continuation step function used as a plain funcref"));
                }
            },
            None => {},
        }
        pending_ref_func = None;
        let called: Option<u32> = match &ops[k].op {
            Operator::Call { function_index } => Some(*function_index),
            Operator::ReturnCall { function_index } => Some(*function_index),
            Operator::RefFunc { function_index } => {
                pending_ref_func = Some(*function_index);
                None
            },
            _ => None,
        };
        match called {
            Some(f) => {
                if sorted_contains(step_set, f) && !in_step {
                    return Err(
                        no_support(
                            "continuation step function is called directly outside a continuation",
                        ),
                    );
                }
            },
            None => {},
        }
        k += 1;
    }
    Ok(())
}

/// Reject uses of a continuation step function that would need an ordinary
/// `func{N}` method. A step function is emitted only as a resumable
/// `cont_step_func{N}`, so a direct `call`/`return_call` from a *non-step*
/// function, a `ref.func` used for anything but the immediately-following
/// `cont.new`, or an element-segment entry (which feeds `call_indirect`) would
/// all reference a method that is never emitted. A `call` from *within* another
/// step function is the legitimate cross-call checkpoint and is allowed.
pub fn reject_dual_use_continuations(
    funcs: &Vec<FuncInput>,
    elements: &Vec<ElemSegment>,
    step_set: &Vec<u32>,
    n_imports: usize,
) -> (r: Result<(), TranspileError>)
    requires
        increasing(step_set@),
    ensures
        unit_result(
            r,
            continuation_misuse(funcs@, elements_view(elements@), step_set@, n_imports),
        ),
{
    let ghost all = elements_view(elements@);
    if step_set.len() == 0 {
        return Ok(());
    }
    let mut i: usize = 0;
    while i < funcs.len()
        invariant
            increasing(step_set@),
            step_set@.len() > 0,
            i <= funcs@.len(),
            funcs_misuse(funcs@, 0, step_set@, n_imports) == funcs_misuse(
                funcs@,
                i as int,
                step_set@,
                n_imports,
            ),
        decreases funcs@.len() - i,
    {
        let f: u32 = match full_index(n_imports, i) {
            Ok(f) => f,
            Err(e) => {
                return Err(e);
            },
        };
        match reject_ops(&funcs[i].body.ops, step_set, sorted_contains(step_set, f)) {
            Ok(()) => {},
            Err(e) => {
                return Err(e);
            },
        }
        i += 1;
    }
    let mut i: usize = 0;
    while i < elements.len()
        invariant
            increasing(step_set@),
            step_set@.len() > 0,
            i <= elements@.len(),
            all == elements_view(elements@),
            funcs_misuse(funcs@, 0, step_set@, n_imports) is None,
            forall|j: int, k: int|
                0 <= j < i && 0 <= k < all[j].funcs.len() ==> !step_set@.contains(
                    #[trigger] all[j].funcs[k],
                ),
        decreases elements@.len() - i,
    {
        let list = &elements[i].funcs;
        let mut k: usize = 0;
        while k < list.len()
            invariant
                increasing(step_set@),
                step_set@.len() > 0,
                i < elements@.len(),
                list@ == all[i as int].funcs,
                all == elements_view(elements@),
                k <= list@.len(),
                funcs_misuse(funcs@, 0, step_set@, n_imports) is None,
                forall|m: int| 0 <= m < k ==> !step_set@.contains(#[trigger] list@[m]),
            decreases list@.len() - k,
        {
            if sorted_contains(step_set, list[k]) {
                assert(step_set@.contains(all[i as int].funcs[k as int]));
                return Err(no_support("continuation step function appears in an element segment"));
            }
            k += 1;
        }
        i += 1;
    }
    Ok(())
}

} // verus!
