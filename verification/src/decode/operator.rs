//! Whole instructions out of their spellings.

use vstd::prelude::*;

use crate::codegen::scan::{digits_end, occurs_at};
use crate::decode::simple::{read_simple, simple_op};
use crate::decode::spelling::{
    behind, find_behind, find_index, find_numbers, index_behind, number_at, numbers_behind,
    read_number, read_word, word_at,
};
use crate::decode::types::skip;
use crate::ops::{Handle, Instr, Operator};
use crate::text::{chars_of, string_of, texts};

verus! {

/// The handlers from `i` on, separated by commas, behind `acc`. `None` where one
/// of them cannot be read.
pub open spec fn handlers_from(t: Seq<char>, i: int, acc: Seq<Handle>) -> Option<Seq<Handle>>
    decreases t.len() - i,
{
    if occurs_at(t, i, "OnLabel { tag: "@) {
        let j = i + "OnLabel { tag: "@.len();
        match number_at(t, j, u32::MAX as nat) {
            Some(tag) => {
                let e = digits_end(t, j);
                let k = e + ", label: "@.len();
                if !occurs_at(t, e, ", label: "@) {
                    None
                } else {
                    match number_at(t, k, u32::MAX as nat) {
                        Some(label) => {
                            let one = acc.push(
                                Handle::OnLabel { tag: tag as u32, label: label as u32 },
                            );
                            let next = digits_end(t, k) + " }, "@.len();
                            if 0 <= i < next <= t.len() && occurs_at(
                                t,
                                digits_end(t, k),
                                " }, "@,
                            ) {
                                handlers_from(t, next, one)
                            } else {
                                Some(one)
                            }
                        },
                        None => None,
                    }
                }
            },
            None => None,
        }
    } else if occurs_at(t, i, "OnSwitch { tag: "@) {
        let j = i + "OnSwitch { tag: "@.len();
        match number_at(t, j, u32::MAX as nat) {
            Some(tag) => {
                let one = acc.push(Handle::OnSwitch { tag: tag as u32 });
                let next = digits_end(t, j) + " }, "@.len();
                if 0 <= i < next <= t.len() && occurs_at(t, digits_end(t, j), " }, "@) {
                    handlers_from(t, next, one)
                } else {
                    Some(one)
                }
            },
            None => None,
        }
    } else {
        Some(acc)
    }
}

/// The handlers that the spelling holds.
pub open spec fn handlers_in(t: Seq<char>) -> Option<Seq<Handle>> {
    match behind(t, "handlers: ["@) {
        Some(i) => handlers_from(t, i, Seq::empty()),
        None => None,
    }
}

/// Numbers as bytes, where there are sixteen of them.
pub open spec fn sixteen_bytes(l: Option<Seq<u32>>) -> Option<Seq<u8>> {
    match l {
        Some(l) => if l.len() == 16 && forall|i: int| 0 <= i < 16 ==> #[trigger] l[i] <= 255 {
            Some(Seq::new(16, |i: int| l[i] as u8))
        } else {
            None
        },
        None => None,
    }
}

/// Whether `op` is the operator that is spelled `t`. What has no translation is
/// [`Operator::Other`].
pub open spec fn spelled(t: Seq<char>, op: Operator) -> bool {
    let w = word_at(t, 0);
    match simple_op(w, t) {
        Some(o) => op == o,
        None => if w == "BrTable"@ {
            match (numbers_behind(t, "targets: ["@), index_behind(t, "default: "@)) {
                (Some(l), Some(d)) => op matches Operator::BrTable { targets, default } && targets@
                    == l && default == d,
                _ => op is Other,
            }
        } else if w == "V128Const"@ {
            match sixteen_bytes(numbers_behind(t, "V128(["@)) {
                Some(b) => op matches Operator::V128Const { bytes } && bytes@ == b,
                None => op is Other,
            }
        } else if w == "I8x16Shuffle"@ {
            match sixteen_bytes(numbers_behind(t, "lanes: ["@)) {
                Some(b) => op matches Operator::I8x16Shuffle { lanes } && lanes@ == b,
                None => op is Other,
            }
        } else if w == "Resume"@ {
            match (index_behind(t, "cont_type_index: "@), handlers_in(t)) {
                (Some(c), Some(h)) => op matches Operator::Resume { cont_type_index, handlers }
                    && cont_type_index == c && handlers@ == h,
                _ => op is Other,
            }
        } else if w == "ResumeThrow"@ {
            match (
                index_behind(t, "cont_type_index: "@),
                index_behind(t, "tag_index: "@),
                handlers_in(t),
            ) {
                (Some(c), Some(g), Some(h)) => op matches Operator::ResumeThrow {
                    cont_type_index,
                    tag_index,
                    handlers,
                } && cont_type_index == c && tag_index == g && handlers@ == h,
                _ => op is Other,
            }
        } else {
            op is Other
        },
    }
}

/// The position behind the number at `i`, with the number.
fn read_index(t: &Vec<char>, i: usize) -> (r: Option<(u32, usize)>)
    requires
        i <= t@.len(),
    ensures
        match number_at(t@, i as int, u32::MAX as nat) {
            Some(n) => r matches Some((v, e)) && v as nat == n && e as int == digits_end(
                t@,
                i as int,
            ) && i < e <= t@.len(),
            None => r is None,
        },
{
    match read_number(t, i, u32::MAX as u64) {
        Some((n, e)) => Some((n as u32, e)),
        None => None,
    }
}

/// The handlers that the spelling holds.
fn read_handlers(t: &Vec<char>) -> (r: Option<Vec<Handle>>)
    ensures
        match handlers_in(t@) {
            Some(h) => r is Some && r->0@ == h,
            None => r is None,
        },
{
    let start: usize = match find_behind(t, "handlers: [") {
        Some(i) => i,
        None => return None,
    };
    let mut out: Vec<Handle> = Vec::new();
    let mut i: usize = start;
    assert(out@ =~= Seq::<Handle>::empty());
    loop
        invariant
            i <= t@.len(),
            behind(t@, "handlers: ["@) == Some(start as int),
            handlers_from(t@, start as int, Seq::empty()) == handlers_from(
                t@,
                i as int,
                out@,
            ),
        decreases t@.len() - i,
    {
        let end: usize = match skip(t, i, "OnLabel { tag: ") {
            Some(j) => {
                let (tag, e) = match read_index(t, j) {
                    Some(x) => x,
                    None => return None,
                };
                let k: usize = match skip(t, e, ", label: ") {
                    Some(k) => k,
                    None => return None,
                };
                let (label, f) = match read_index(t, k) {
                    Some(x) => x,
                    None => return None,
                };
                out.push(Handle::OnLabel { tag, label });
                f
            },
            None => match skip(t, i, "OnSwitch { tag: ") {
                Some(j) => {
                    let (tag, e) = match read_index(t, j) {
                        Some(x) => x,
                        None => return None,
                    };
                    out.push(Handle::OnSwitch { tag });
                    e
                },
                None => return Some(out),
            },
        };
        match skip(t, end, " }, ") {
            Some(next) => {
                i = next;
            },
            None => return Some(out),
        }
    }
}

/// Numbers as bytes, where there are sixteen of them.
fn to_bytes(l: &Option<Vec<u32>>) -> (r: Option<[u8; 16]>)
    ensures
        match sixteen_bytes(
            match *l {
                Some(v) => Some(v@),
                None => None,
            },
        ) {
            Some(b) => r is Some && r->0@ == b,
            None => r is None,
        },
{
    match l {
        Some(v) => {
            if v.len() != 16 {
                return None;
            }
            let mut out: [u8; 16] = [0;16];
            let mut i: usize = 0;
            while i < 16
                invariant
                    i <= 16,
                    v@.len() == 16,
                    *l == Some(*v),
                    out@.len() == 16,
                    forall|k: int| 0 <= k < i ==> #[trigger] v@[k] <= 255,
                    forall|k: int| 0 <= k < i ==> #[trigger] out@[k] == v@[k] as u8,
                decreases 16 - i,
            {
                if v[i] > 255 {
                    return None;
                }
                out[i] = v[i] as u8;
                i += 1;
            }
            assert(out@ =~= Seq::new(16, |i: int| v@[i] as u8));
            Some(out)
        },
        None => None,
    }
}

/// The operator that is spelled by the given text.
pub fn decode_operator(text: &str) -> (r: Operator)
    ensures
        spelled(text@, r),
{
    let t = chars_of(text);
    let name = string_of(&read_word(&t, 0));
    let w = name.as_str();
    if let Some(op) = read_simple(w, &t) {
        return op;
    }
    if crate::text::same(w, "BrTable") {
        return match (find_numbers(&t, "targets: ["), find_index(&t, "default: ")) {
            (Some(targets), Some(default)) => Operator::BrTable { targets, default },
            _ => Operator::Other,
        };
    }
    if crate::text::same(w, "V128Const") {
        return match to_bytes(&find_numbers(&t, "V128([")) {
            Some(bytes) => Operator::V128Const { bytes },
            None => Operator::Other,
        };
    }
    if crate::text::same(w, "I8x16Shuffle") {
        return match to_bytes(&find_numbers(&t, "lanes: [")) {
            Some(lanes) => Operator::I8x16Shuffle { lanes },
            None => Operator::Other,
        };
    }
    if crate::text::same(w, "Resume") {
        return match (find_index(&t, "cont_type_index: "), read_handlers(&t)) {
            (Some(cont_type_index), Some(handlers)) => Operator::Resume {
                cont_type_index,
                handlers,
            },
            _ => Operator::Other,
        };
    }
    if crate::text::same(w, "ResumeThrow") {
        return match (
            find_index(&t, "cont_type_index: "),
            find_index(&t, "tag_index: "),
            read_handlers(&t),
        ) {
            (Some(cont_type_index), Some(tag_index), Some(handlers)) => Operator::ResumeThrow {
                cont_type_index,
                tag_index,
                handlers,
            },
            _ => Operator::Other,
        };
    }
    Operator::Other
}

/// Whether `ops` are the instructions that are spelled by the given texts.
pub open spec fn all_spelled(t: Seq<Seq<char>>, ops: Seq<Instr>) -> bool {
    &&& ops.len() == t.len()
    &&& forall|i: int|
        0 <= i < t.len() ==> (#[trigger] ops[i]).text@ == t[i] && spelled(t[i], ops[i].op)
}

/// The instructions that are spelled by the given texts.
pub fn decode_all(spellings: Vec<String>) -> (r: Vec<Instr>)
    ensures
        all_spelled(texts(spellings@), r@),
{
    let mut out: Vec<Instr> = Vec::new();
    let mut i: usize = 0;
    while i < spellings.len()
        invariant
            i <= spellings@.len(),
            out@.len() == i,
            forall|k: int|
                0 <= k < i ==> (#[trigger] out@[k]).text@ == spellings@[k]@ && spelled(
                    spellings@[k]@,
                    out@[k].op,
                ),
        decreases spellings@.len() - i,
    {
        let op = decode_operator(spellings[i].as_str());
        out.push(Instr { op, text: spellings[i].clone() });
        i += 1;
    }
    out
}

} // verus!
