//! Function bodies and constant expressions out of their bytes.
//!
//! The bytes are read by [`wasmparser`]; what it reads comes back as the spelling
//! of each instruction and each local's type.

use vstd::prelude::*;

use crate::codegen::info::Body;
use crate::decode::operator::{all_spelled, decode_all};
use crate::decode::types::{read_val_type, val_type_at};
use crate::ops::Instr;
use crate::text::{chars_of, texts};
use crate::wasm::ValType;

verus! {

/// Why `wasmparser` rejects bytes.
#[verifier::external_type_specification]
#[verifier::external_body]
pub struct ExBinaryReaderError(wasmparser::BinaryReaderError);

/// The instructions of the function body that `bytes` encode, as `wasmparser`
/// spells them, one after the other; `None` at the end where it cannot read on.
/// `None` for the whole where it does not get to the instructions.
pub uninterp spec fn operator_spellings(bytes: Seq<u8>) -> Option<Seq<Option<Seq<char>>>>;

/// The locals that the function body encoded by `bytes` declares, as runs of one
/// type, with the types as `wasmparser` spells them; `None` where it cannot read them
/// to their end.
pub uninterp spec fn local_spellings(bytes: Seq<u8>) -> Option<Seq<(u32, Seq<char>)>>;

/// The instructions of the constant expression that `bytes` encode, as `wasmparser`
/// spells them, one after the other; `None` at the end where it cannot read on.
pub uninterp spec fn const_spellings(bytes: Seq<u8>) -> Seq<Option<Seq<char>>>;

/// Spellings, each read or not.
pub open spec fn read_view(v: Seq<Result<String, wasmparser::BinaryReaderError>>) -> Seq<
    Option<Seq<char>>,
> {
    Seq::new(
        v.len(),
        |i: int|
            match v[i] {
                Ok(t) => Some(t@),
                Err(_) => None,
            },
    )
}

/// Runs of locals with the spellings of their types.
pub open spec fn runs_view(v: Seq<(u32, String)>) -> Seq<(u32, Seq<char>)> {
    Seq::new(v.len(), |i: int| (v[i].0, v[i].1@))
}

/// Reads the instructions of a function body with
/// `wasmparser::FunctionBody::get_operators_reader`, each in its `Debug` spelling or
/// as the error that ends them. The result is taken to depend on the bytes alone;
/// what the spellings are is not stated.
#[verifier::external_body]
fn read_operators(bytes: &Vec<u8>) -> (r: Result<
    Vec<Result<String, wasmparser::BinaryReaderError>>,
    wasmparser::BinaryReaderError,
>)
    ensures
        match operator_spellings(bytes@) {
            Some(t) => r is Ok && read_view(r->Ok_0@) == t,
            None => r is Err,
        },
{
    let body = wasmparser::FunctionBody::new(wasmparser::BinaryReader::new(bytes, 0));
    let reader = body.get_operators_reader()?;
    Ok(reader.into_iter().map(|op| op.map(|o| format!("{o:?}"))).collect())
}

/// Reads the declared locals of a function body with
/// `wasmparser::FunctionBody::get_locals_reader`, each with its type in the `Debug`
/// spelling. The result is taken to depend on the bytes alone; what the spellings
/// are is not stated.
#[verifier::external_body]
fn read_locals(bytes: &Vec<u8>) -> (r: Result<Vec<(u32, String)>, wasmparser::BinaryReaderError>)
    ensures
        match local_spellings(bytes@) {
            Some(t) => r is Ok && runs_view(r->Ok_0@) == t,
            None => r is Err,
        },
{
    let body = wasmparser::FunctionBody::new(wasmparser::BinaryReader::new(bytes, 0));
    let reader = body.get_locals_reader()?;
    reader.into_iter().map(|run| run.map(|(n, ty)| (n, format!("{ty:?}")))).collect()
}

/// Reads the instructions of a constant expression with
/// `wasmparser::ConstExpr::get_operators_reader`, each in its `Debug` spelling or as
/// the error that ends them. The result is taken to depend on the bytes alone; what
/// the spellings are is not stated.
#[verifier::external_body]
fn read_const_operators(bytes: &Vec<u8>) -> (r: Vec<
    Result<String, wasmparser::BinaryReaderError>,
>)
    ensures
        read_view(r@) == const_spellings(bytes@),
{
    let expr = wasmparser::ConstExpr::new(wasmparser::BinaryReader::new(bytes, 0));
    let reader = expr.get_operators_reader();
    reader.into_iter().map(|op| op.map(|o| format!("{o:?}"))).collect()
}

/// The spellings that were read, up to the first that was not, and whether there is
/// such a one.
pub open spec fn readable(items: Seq<Option<Seq<char>>>) -> (Seq<Seq<char>>, bool)
    decreases items.len(),
{
    if items.len() == 0 {
        (Seq::empty(), false)
    } else {
        let (front, broken) = readable(items.drop_last());
        match items.last() {
            Some(t) if !broken => (front.push(t), false),
            _ => (front, true),
        }
    }
}

/// The locals that are spelled; `None` where a type is none that is known.
pub open spec fn locals_spelled(runs: Seq<(u32, Seq<char>)>) -> Option<Seq<(u32, ValType)>>
    decreases runs.len(),
{
    if runs.len() == 0 {
        Some(Seq::empty())
    } else {
        match (locals_spelled(runs.drop_last()), val_type_at(runs.last().1, 0)) {
            (Some(front), Some(ty)) => Some(front.push((runs.last().0, ty))),
            _ => None,
        }
    }
}

proof fn lemma_broken(items: Seq<Option<Seq<char>>>, k: int)
    requires
        0 <= k <= items.len(),
        readable(items.take(k)).1,
    ensures
        readable(items) == readable(items.take(k)),
    decreases items.len() - k,
{
    if k < items.len() {
        assert(items.take(k + 1).drop_last() =~= items.take(k));
        lemma_broken(items, k + 1);
    } else {
        assert(items.take(k) =~= items);
    }
}

proof fn lemma_locals_fail(runs: Seq<(u32, Seq<char>)>, k: int)
    requires
        0 <= k <= runs.len(),
        locals_spelled(runs.take(k)) is None,
    ensures
        locals_spelled(runs) is None,
    decreases runs.len() - k,
{
    if k < runs.len() {
        assert(runs.take(k + 1).drop_last() =~= runs.take(k));
        lemma_locals_fail(runs, k + 1);
    } else {
        assert(runs.take(k) =~= runs);
    }
}

fn keep_readable(items: &Vec<Result<String, wasmparser::BinaryReaderError>>) -> (r: (
    Vec<String>,
    bool,
))
    ensures
        readable(read_view(items@)) == (texts(r.0@), r.1),
{
    let ghost all = read_view(items@);
    let mut out: Vec<String> = Vec::new();
    assert(texts(out@) =~= Seq::<Seq<char>>::empty());
    let mut i: usize = 0;
    while i < items.len()
        invariant
            i <= items@.len(),
            all == read_view(items@),
            readable(all.take(i as int)) == (texts(out@), false),
        decreases items@.len() - i,
    {
        assert(all.take(i + 1).drop_last() =~= all.take(i as int));
        match &items[i] {
            Ok(t) => {
                let ghost before = out@;
                out.push(t.clone());
                assert(texts(out@) =~= texts(before).push(t@));
            },
            Err(_) => {
                proof {
                    lemma_broken(all, i + 1);
                }
                return (out, true);
            },
        }
        i += 1;
    }
    assert(all.take(all.len() as int) =~= all);
    (out, false)
}

/// The locals with the given spellings; `None` where a type is none that is known.
pub fn decode_locals(runs: &Vec<(u32, String)>) -> (r: Option<Vec<(u32, ValType)>>)
    ensures
        match locals_spelled(runs_view(runs@)) {
            Some(l) => r is Some && r->0@ == l,
            None => r is None,
        },
{
    let ghost all = runs_view(runs@);
    let mut out: Vec<(u32, ValType)> = Vec::new();
    assert(out@ =~= Seq::<(u32, ValType)>::empty());
    let mut i: usize = 0;
    while i < runs.len()
        invariant
            i <= runs@.len(),
            all == runs_view(runs@),
            locals_spelled(all.take(i as int)) == Some(out@),
        decreases runs@.len() - i,
    {
        assert(all.take(i + 1).drop_last() =~= all.take(i as int));
        let t = chars_of(runs[i].1.as_str());
        match read_val_type(&t, 0) {
            Some(ty) => out.push((runs[i].0, ty)),
            None => {
                proof {
                    lemma_locals_fail(all, i + 1);
                }
                return None;
            },
        }
        i += 1;
    }
    assert(all.take(all.len() as int) =~= all);
    Some(out)
}

/// Whether `ops` are the instructions with the given spellings, as far as they were
/// read, and `broken` says whether one was not.
pub open spec fn ops_read(
    items: Seq<Option<Seq<char>>>,
    ops: Seq<Instr>,
    broken: bool,
) -> bool {
    all_spelled(readable(items).0, ops) && broken == readable(items).1
}

/// The instructions with the given spellings, as far as they were read, and whether
/// one was not.
pub fn decode_items(items: &Vec<Result<String, wasmparser::BinaryReaderError>>) -> (r: (
    Vec<Instr>,
    bool,
))
    ensures
        ops_read(read_view(items@), r.0@, r.1),
{
    let (spellings, broken) = keep_readable(items);
    (decode_all(spellings), broken)
}

/// The locals that `bytes` declare; `None` where they cannot be read.
pub open spec fn locals_of(bytes: Seq<u8>) -> Option<Seq<(u32, ValType)>> {
    match local_spellings(bytes) {
        Some(runs) => locals_spelled(runs),
        None => None,
    }
}

/// The function body that `bytes` encode, as far as it can be read. Its locals are
/// read to their end or not at all.
pub fn decode_body(bytes: &Vec<u8>) -> (r: Body)
    ensures
        match locals_of(bytes@) {
            Some(locals) => r.locals@ == locals && !r.locals_broken,
            None => r.locals@.len() == 0 && r.locals_broken,
        },
        match operator_spellings(bytes@) {
            Some(items) => ops_read(items, r.ops@, r.ops_broken),
            None => r.ops@.len() == 0 && r.ops_broken,
        },
{
    let known = match read_locals(bytes) {
        Ok(runs) => decode_locals(&runs),
        Err(_) => None,
    };
    let (locals, locals_broken) = match known {
        Some(l) => (l, false),
        None => (Vec::new(), true),
    };
    let (ops, ops_broken) = match read_operators(bytes) {
        Ok(items) => decode_items(&items),
        Err(_) => (Vec::new(), true),
    };
    Body { locals, locals_broken, ops, ops_broken }
}

/// The instructions of the constant expression that `bytes` encode, as far as they
/// can be read, and whether that is not to their end.
pub fn decode_const(bytes: &Vec<u8>) -> (r: (Vec<Instr>, bool))
    ensures
        ops_read(const_spellings(bytes@), r.0@, r.1),
{
    let items = read_const_operators(bytes);
    decode_items(&items)
}

} // verus!
