//! The data and element segments of a module, as source.

use vstd::prelude::*;

use crate::codegen::common::{byte_array_literal, bytes_text};
use crate::codegen::info::{DataSegment, ElemSegment};
use crate::codegen::parts::{data_view, elements_view, DataV, ElemV};
use crate::text::{dec, join, joined, Buf, Lines};

verus! {

/// The statics behind the first `n` data segments that are kept.
pub open spec fn data_statics(out: Seq<Seq<char>>, data: Seq<DataV>, n: nat) -> Seq<Seq<char>>
    decreases n,
{
    if n == 0 {
        out
    } else {
        let front = data_statics(out, data, (n - 1) as nat);
        let seg = data[n - 1];
        if seg.passive() {
            front.push(
                ("static DATA"@ + dec((n - 1) as nat) + ": [u8; "@ + dec(seg.bytes.len() as nat)
                    + "] = ["@ + bytes_text(seg.bytes) + "];"@),
            )
        } else {
            front
        }
    }
}

/// Function indices as literals.
pub open spec fn func_literals(funcs: Seq<u32>) -> Seq<Seq<char>> {
    Seq::new(funcs.len(), |i: int| (dec(funcs[i] as nat) + "u32"@))
}

/// The statics behind the first `n` element segments that are kept.
pub open spec fn elem_statics(out: Seq<Seq<char>>, elements: Seq<ElemV>, n: nat) -> Seq<Seq<char>>
    decreases n,
{
    if n == 0 {
        out
    } else {
        let front = elem_statics(out, elements, (n - 1) as nat);
        let seg = elements[n - 1];
        if seg.passive() {
            front.push(
                ("static ELEM"@ + dec((n - 1) as nat) + ": [u32; "@ + dec(seg.funcs.len() as nat)
                    + "] = ["@ + joined(func_literals(seg.funcs), ", "@) + "];"@),
            )
        } else {
            front
        }
    }
}

/// A line per kept data segment among the first `n`: its field, or its initial
/// value.
pub open spec fn data_lines(
    out: Seq<Seq<char>>,
    data: Seq<DataV>,
    field: bool,
    n: nat,
) -> Seq<Seq<char>>
    decreases n,
{
    if n == 0 {
        out
    } else {
        let front = data_lines(out, data, field, (n - 1) as nat);
        if !data[n - 1].passive() {
            front
        } else if field {
            front.push(("    data"@ + dec((n - 1) as nat) + ": &'static [u8],"@))
        } else {
            front.push(("        data"@ + dec((n - 1) as nat) + ": &DATA"@ + dec((n - 1) as nat)
                + ","@))
        }
    }
}

/// A line per kept element segment among the first `n`: its field, or its initial
/// value.
pub open spec fn elem_lines(
    out: Seq<Seq<char>>,
    elements: Seq<ElemV>,
    field: bool,
    n: nat,
) -> Seq<Seq<char>>
    decreases n,
{
    if n == 0 {
        out
    } else {
        let front = elem_lines(out, elements, field, (n - 1) as nat);
        if !elements[n - 1].passive() {
            front
        } else if field {
            front.push(("    elem"@ + dec((n - 1) as nat) + ": &'static [u32],"@))
        } else {
            front.push(("        elem"@ + dec((n - 1) as nat) + ": &ELEM"@ + dec((n - 1) as nat)
                + ","@))
        }
    }
}

/// The copies of those of the first `n` data segments that initialise memory
/// `mem`, into `target`.
pub open spec fn data_copies(
    out: Seq<Seq<char>>,
    data: Seq<DataV>,
    mem: u32,
    target: Seq<char>,
    ind: Seq<char>,
    n: nat,
) -> Seq<Seq<char>>
    decreases n,
{
    if n == 0 {
        out
    } else {
        let front = data_copies(out, data, mem, target, ind, (n - 1) as nat);
        let seg = data[n - 1];
        if seg.active_in(mem) {
            front.push(
                (ind + target + "["@ + dec(seg.offset->0 as nat) + ".."@ + dec((seg.offset->0
                    + seg.bytes.len()) as nat) + "].copy_from_slice(&["@ + bytes_text(seg.bytes)
                    + "]);"@),
            )
        } else {
            front
        }
    }
}

/// The first `n` entries of an element segment written from `off` on.
pub open spec fn elem_entries(
    out: Seq<Seq<char>>,
    funcs: Seq<u32>,
    off: u32,
    target: Seq<char>,
    ind: Seq<char>,
    n: nat,
) -> Seq<Seq<char>>
    decreases n,
{
    if n == 0 {
        out
    } else {
        elem_entries(out, funcs, off, target, ind, (n - 1) as nat).push(
            (ind + target + "["@ + dec((off + (n - 1)) as nat) + "] = "@ + dec(funcs[n - 1] as nat)
                + "u32;"@),
        )
    }
}

/// The entries of the active ones of the first `n` element segments.
pub open spec fn elem_copies(
    out: Seq<Seq<char>>,
    elements: Seq<ElemV>,
    target: Seq<char>,
    ind: Seq<char>,
    n: nat,
) -> Seq<Seq<char>>
    decreases n,
{
    if n == 0 {
        out
    } else {
        let front = elem_copies(out, elements, target, ind, (n - 1) as nat);
        let seg = elements[n - 1];
        match seg.offset {
            Some(off) => elem_entries(front, seg.funcs, off, target, ind, seg.funcs.len()),
            None => front,
        }
    }
}

pub fn push_data_statics(lines: &mut Lines, data: &Vec<DataSegment>)
    ensures
        final(lines)@ == data_statics(
            old(lines)@,
            data_view(data@),
            data@.len(),
        ),
{
    let ghost all = data_view(data@);
    let ghost start = lines@;
    let mut d: usize = 0;
    while d < data.len()
        invariant
            d <= data@.len(),
            all == data_view(data@),
            lines@ == data_statics(start, all, d as nat),
        decreases data@.len() - d,
    {
        let seg = &data[d];
        assert(all[d as int] == seg@);
        if seg.offset.is_none() {
            let bytes_lit = byte_array_literal(&seg.bytes);
            lines.add(Buf::lit("static DATA").n(d as u64).s(": [u8; ").n(seg.bytes.len() as u64)
                .s("] = [").s(&bytes_lit).s("];").end());
        }
        d += 1;
    }
}

pub fn push_elem_statics(lines: &mut Lines, elements: &Vec<ElemSegment>)
    ensures
        final(lines)@ == elem_statics(
            old(lines)@,
            elements_view(elements@),
            elements@.len(),
        ),
{
    let ghost all = elements_view(elements@);
    let ghost start = lines@;
    let mut e: usize = 0;
    while e < elements.len()
        invariant
            e <= elements@.len(),
            all == elements_view(elements@),
            lines@ == elem_statics(start, all, e as nat),
        decreases elements@.len() - e,
    {
        let seg = &elements[e];
        assert(all[e as int] == seg@);
        if seg.offset.is_none() && !seg.declared {
            let mut parts = Lines::new();
            let mut k: usize = 0;
            while k < seg.funcs.len()
                invariant
                    k <= seg.funcs@.len(),
                    parts@ =~= func_literals(seg.funcs@).take(k as int),
                decreases seg.funcs@.len() - k,
            {
                parts.add(Buf::num(seg.funcs[k] as u64).s("u32").end());
                k += 1;
            }
            assert(parts@ =~= func_literals(seg.funcs@));
            let funcs_lit = join(&parts.v, ", ");
            lines.add(Buf::lit("static ELEM").n(e as u64).s(": [u32; ").n(seg.funcs.len() as u64)
                .s("] = [").s(&funcs_lit).s("];").end());
        }
        e += 1;
    }
}

/// Appends a line per kept data segment: its field, or its initial value.
pub fn push_data_lines(lines: &mut Lines, data: &Vec<DataSegment>, field: bool)
    ensures
        final(lines)@ == data_lines(
            old(lines)@,
            data_view(data@),
            field,
            data@.len(),
        ),
{
    let ghost all = data_view(data@);
    let ghost start = lines@;
    let mut d: usize = 0;
    while d < data.len()
        invariant
            d <= data@.len(),
            all == data_view(data@),
            lines@ == data_lines(start, all, field, d as nat),
        decreases data@.len() - d,
    {
        assert(all[d as int] == data@[d as int]@);
        if data[d].offset.is_none() {
            if field {
                lines.add(Buf::lit("    data").n(d as u64).s(": &'static [u8],").end());
            } else {
                lines.add(Buf::lit("        data").n(d as u64).s(": &DATA").n(d as u64).s(",")
                    .end());
            }
        }
        d += 1;
    }
}

/// Appends a line per kept element segment: its field, or its initial value.
pub fn push_elem_lines(lines: &mut Lines, elements: &Vec<ElemSegment>, field: bool)
    ensures
        final(lines)@ == elem_lines(
            old(lines)@,
            elements_view(elements@),
            field,
            elements@.len(),
        ),
{
    let ghost all = elements_view(elements@);
    let ghost start = lines@;
    let mut e: usize = 0;
    while e < elements.len()
        invariant
            e <= elements@.len(),
            all == elements_view(elements@),
            lines@ == elem_lines(start, all, field, e as nat),
        decreases elements@.len() - e,
    {
        assert(all[e as int] == elements@[e as int]@);
        if elements[e].offset.is_none() && !elements[e].declared {
            if field {
                lines.add(Buf::lit("    elem").n(e as u64).s(": &'static [u32],").end());
            } else {
                lines.add(Buf::lit("        elem").n(e as u64).s(": &ELEM").n(e as u64).s(",")
                    .end());
            }
        }
        e += 1;
    }
}

/// Emit `<target>[off..end].copy_from_slice(&[bytes]);` for each active data
/// segment targeting memory `mem`; `target` is a defined buffer (`m`) or the host
/// buffer accessor (`instance.mem_mut()`), and `ind` matches the surrounding
/// block.
pub fn copy_active_data(
    lines: &mut Lines,
    data: &Vec<DataSegment>,
    mem: u32,
    target: &str,
    ind: &str,
)
    ensures
        final(lines)@ == data_copies(
            old(lines)@,
            data_view(data@),
            mem,
            target@,
            ind@,
            data@.len(),
        ),
{
    let ghost all = data_view(data@);
    let ghost start = lines@;
    let mut d: usize = 0;
    while d < data.len()
        invariant
            d <= data@.len(),
            all == data_view(data@),
            lines@ == data_copies(start, all, mem, target@, ind@, d as nat),
        decreases data@.len() - d,
    {
        let seg = &data[d];
        assert(all[d as int] == seg@);
        match seg.offset {
            Some(off) => if seg.mem_index == mem {
                let end: u128 = off as u128 + seg.bytes.len() as u128;
                let bytes_lit = byte_array_literal(&seg.bytes);
                lines.add(
                    Buf::lit(ind).s(target).s("[").n(off as u64).s("..").wide(end)
                        .s("].copy_from_slice(&[").s(&bytes_lit).s("]);").end(),
                );
            },
            None => {},
        }
        d += 1;
    }
}

/// Emit `<target>[idx] = fu32;` for each active element segment entry; `target`
/// is a defined table (`t`) or the host storage accessor
/// (`instance.table_mut()`).
pub fn copy_active_elems(lines: &mut Lines, elements: &Vec<ElemSegment>, target: &str, ind: &str)
    ensures
        final(lines)@ == elem_copies(
            old(lines)@,
            elements_view(elements@),
            target@,
            ind@,
            elements@.len(),
        ),
{
    let ghost all = elements_view(elements@);
    let ghost start = lines@;
    let mut e: usize = 0;
    while e < elements.len()
        invariant
            e <= elements@.len(),
            all == elements_view(elements@),
            lines@ == elem_copies(start, all, target@, ind@, e as nat),
        decreases elements@.len() - e,
    {
        let seg = &elements[e];
        assert(all[e as int] == seg@);
        match seg.offset {
            Some(off) => {
                let ghost front = lines@;
                let mut k: usize = 0;
                while k < seg.funcs.len()
                    invariant
                        k <= seg.funcs@.len(),
                        lines@ == elem_entries(
                            front,
                            seg.funcs@,
                            off,
                            target@,
                            ind@,
                            k as nat,
                        ),
                    decreases seg.funcs@.len() - k,
                {
                    let idx: u128 = off as u128 + k as u128;
                    lines.add(Buf::lit(ind).s(target).s("[").wide(idx).s("] = ")
                        .n(seg.funcs[k] as u64).s("u32;").end());
                    k += 1;
                }
            },
            None => {},
        }
        e += 1;
    }
}

/// Whether some data segment initialises memory `mem`.
pub open spec fn some_active_data(data: Seq<DataV>, mem: u32) -> bool {
    exists|i: int| 0 <= i < data.len() && (#[trigger] data[i]).active_in(mem)
}

/// Whether some element segment is active.
pub open spec fn some_active_elem(elements: Seq<ElemV>) -> bool {
    exists|i: int| 0 <= i < elements.len() && (#[trigger] elements[i]).offset is Some
}

pub fn has_active_data(data: &Vec<DataSegment>, mem: u32) -> (r: bool)
    ensures
        r == some_active_data(data_view(data@), mem),
{
    let ghost all = data_view(data@);
    let mut d: usize = 0;
    while d < data.len()
        invariant
            d <= data@.len(),
            all == data_view(data@),
            forall|k: int| 0 <= k < d ==> !(#[trigger] all[k]).active_in(mem),
        decreases data@.len() - d,
    {
        assert(all[d as int] == data@[d as int]@);
        if data[d].offset.is_some() && data[d].mem_index == mem {
            return true;
        }
        d += 1;
    }
    false
}

pub fn has_active_elem(elements: &Vec<ElemSegment>) -> (r: bool)
    ensures
        r == some_active_elem(elements_view(elements@)),
{
    let ghost all = elements_view(elements@);
    let mut e: usize = 0;
    while e < elements.len()
        invariant
            e <= elements@.len(),
            all == elements_view(elements@),
            forall|k: int| 0 <= k < e ==> !((#[trigger] all[k]).offset is Some),
        decreases elements@.len() - e,
    {
        assert(all[e as int] == elements@[e as int]@);
        if elements[e].offset.is_some() {
            return true;
        }
        e += 1;
    }
    false
}

} // verus!
