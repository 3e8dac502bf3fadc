//! The names of the helpers, and where they stand in their lines.

use vstd::prelude::*;

use crate::codegen::helpers::{
    accessor_texts, base_lines, helper_method_text, helper_source, helper_text, specialised_line,
    Helper,
};
use crate::codegen::scan::{
    holds_text, is_digit, occurs_at, replaced_all, replaced_first, replaced_from,
};
use crate::codegen::text_laws::law_numbers_read_back;
use crate::text::dec;

verus! {

// ---------------------------------------------------------------------------
// Names
// ---------------------------------------------------------------------------
/// The character at `i`, or a space behind the end.
spec fn char_at(t: Seq<char>, i: int) -> char {
    if i < t.len() {
        t[i]
    } else {
        ' '
    }
}

/// The characters of a name that tell it from the others.
spec fn mark(t: Seq<char>) -> (nat, char, char, char, char, char, char) {
    (
        t.len(),
        char_at(t, 0),
        char_at(t, 2),
        char_at(t, 3),
        char_at(t, 5),
        char_at(t, 8),
        char_at(t, 9),
    )
}

/// The helper whose name has the mark `m`.
spec fn marked(m: (nat, char, char, char, char, char, char)) -> Helper {
    if m == (3nat, 'r', '2', ' ', ' ', ' ', ' ') {
        Helper::LoadI32
    } else if m == (3nat, 'r', 'u', ' ', ' ', ' ', ' ') {
        Helper::Load8U
    } else if m == (3nat, 'r', 's', ' ', ' ', ' ', ' ') {
        Helper::Load8S
    } else if m == (4nat, 'r', '6', 'u', ' ', ' ', ' ') {
        Helper::Load16U
    } else if m == (4nat, 'r', '6', 's', ' ', ' ', ' ') {
        Helper::Load16S
    } else if m == (3nat, 'r', '4', ' ', ' ', ' ', ' ') {
        Helper::LoadI64
    } else if m == (4nat, 'r', '3', '2', ' ', ' ', ' ') {
        Helper::LoadF32
    } else if m == (4nat, 'r', '6', '4', ' ', ' ', ' ') {
        Helper::LoadF64
    } else if m == (5nat, 'r', 'u', '6', ' ', ' ', ' ') {
        Helper::Load8UI64
    } else if m == (5nat, 'r', 's', '6', ' ', ' ', ' ') {
        Helper::Load8SI64
    } else if m == (6nat, 'r', '6', 'u', '4', ' ', ' ') {
        Helper::Load16UI64
    } else if m == (6nat, 'r', '6', 's', '4', ' ', ' ') {
        Helper::Load16SI64
    } else if m == (6nat, 'r', '2', 'u', '4', ' ', ' ') {
        Helper::Load32UI64
    } else if m == (6nat, 'r', '2', 's', '4', ' ', ' ') {
        Helper::Load32SI64
    } else if m == (3nat, 'w', '2', ' ', ' ', ' ', ' ') {
        Helper::StoreI32
    } else if m == (2nat, 'w', ' ', ' ', ' ', ' ', ' ') {
        Helper::Store8
    } else if m == (3nat, 'w', '6', ' ', ' ', ' ', ' ') {
        Helper::Store16
    } else if m == (3nat, 'w', '4', ' ', ' ', ' ', ' ') {
        Helper::StoreI64
    } else if m == (4nat, 'w', '3', '2', ' ', ' ', ' ') {
        Helper::StoreF32
    } else if m == (4nat, 'w', '6', '4', ' ', ' ', ' ') {
        Helper::StoreF64
    } else if m == (5nat, 'w', '_', '6', ' ', ' ', ' ') {
        Helper::Store8I64
    } else if m == (6nat, 'w', '6', '_', '4', ' ', ' ') {
        Helper::Store16I64
    } else if m == (6nat, 'w', '2', '_', '4', ' ', ' ') {
        Helper::Store32I64
    } else if m == (5nat, 'r', '1', '2', ' ', ' ', ' ') {
        Helper::LoadV128
    } else if m == (5nat, 'w', '1', '2', ' ', ' ', ' ') {
        Helper::StoreV128
    } else if m == (11nat, 'l', 'a', 'd', '_', 'l', 'a') {
        Helper::Load8Splat
    } else if m == (12nat, 'l', 'a', 'd', '6', 'p', 'l') {
        Helper::Load16Splat
    } else if m == (12nat, 'l', 'a', 'd', '2', 'p', 'l') {
        Helper::Load32Splat
    } else if m == (12nat, 'l', 'a', 'd', '4', 'p', 'l') {
        Helper::Load64Splat
    } else if m == (11nat, 'l', 'a', 'd', '2', 'e', 'r') {
        Helper::Load32Zero
    } else if m == (11nat, 'l', 'a', 'd', '4', 'e', 'r') {
        Helper::Load64Zero
    } else if m == (9nat, 'l', 'a', 'd', 'x', 's', ' ') {
        Helper::Load8x8S
    } else if m == (9nat, 'l', 'a', 'd', 'x', 'u', ' ') {
        Helper::Load8x8U
    } else if m == (10nat, 'l', 'a', 'd', '6', '_', 's') {
        Helper::Load16x4S
    } else if m == (10nat, 'l', 'a', 'd', '6', '_', 'u') {
        Helper::Load16x4U
    } else if m == (10nat, 'l', 'a', 'd', '2', '_', 's') {
        Helper::Load32x2S
    } else if m == (10nat, 'l', 'a', 'd', '2', '_', 'u') {
        Helper::Load32x2U
    } else if m == (10nat, 'l', 'a', 'd', '_', 'n', 'e') {
        Helper::Load8Lane
    } else if m == (11nat, 'l', 'a', 'd', '6', 'a', 'n') {
        Helper::Load16Lane
    } else if m == (11nat, 'l', 'a', 'd', '2', 'a', 'n') {
        Helper::Load32Lane
    } else if m == (11nat, 'l', 'a', 'd', '4', 'a', 'n') {
        Helper::Load64Lane
    } else if m == (11nat, 's', 'o', 'r', '8', 'a', 'n') {
        Helper::Store8Lane
    } else if m == (12nat, 's', 'o', 'r', '1', 'l', 'a') {
        Helper::Store16Lane
    } else if m == (12nat, 's', 'o', 'r', '3', 'l', 'a') {
        Helper::Store32Lane
    } else if m == (12nat, 's', 'o', 'r', '6', 'l', 'a') {
        Helper::Store64Lane
    } else if m == (11nat, 'm', 'm', 'o', 'y', 'r', 'o') {
        Helper::Grow
    } else if m == (11nat, 'm', 'm', 'o', 'y', 'i', 'l') {
        Helper::MemoryFill
    } else if m == (11nat, 'm', 'm', 'o', 'y', 'o', 'p') {
        Helper::MemoryCopy
    } else if m == (10nat, 't', 'b', 'l', '_', 'p', 'y') {
        Helper::TableCopy
    } else {
        Helper::TableFill
    }
}

/// Whether no `_m` stands in `t` from `i` on.
spec fn without_suffix(t: Seq<char>, i: int) -> bool
    decreases t.len() - i,
{
    i < 0 || i >= t.len() || (!(t[i] == '_' && i + 1 < t.len() && t[i + 1] == 'm')
        && without_suffix(t, i + 1))
}

proof fn lemma_without_suffix(t: Seq<char>, i: int, k: int)
    requires
        without_suffix(t, i),
        0 <= i <= k,
        k + 1 < t.len(),
    ensures
        !(t[k] == '_' && t[k + 1] == 'm'),
    decreases k - i,
{
    if i < k {
        lemma_without_suffix(t, i + 1, k);
    }
}

proof fn lemma_name(helper: Helper)
    ensures
        marked(mark(helper_text(helper))) == helper,
        without_suffix(helper_text(helper), 0),
{
    reveal_with_fuel(without_suffix, 14);
    match helper {
        Helper::LoadI32 => {
            reveal_strlit("r32");
        },
        Helper::Load8U => {
            reveal_strlit("r8u");
        },
        Helper::Load8S => {
            reveal_strlit("r8s");
        },
        Helper::Load16U => {
            reveal_strlit("r16u");
        },
        Helper::Load16S => {
            reveal_strlit("r16s");
        },
        Helper::LoadI64 => {
            reveal_strlit("r64");
        },
        Helper::LoadF32 => {
            reveal_strlit("rf32");
        },
        Helper::LoadF64 => {
            reveal_strlit("rf64");
        },
        Helper::Load8UI64 => {
            reveal_strlit("r8u64");
        },
        Helper::Load8SI64 => {
            reveal_strlit("r8s64");
        },
        Helper::Load16UI64 => {
            reveal_strlit("r16u64");
        },
        Helper::Load16SI64 => {
            reveal_strlit("r16s64");
        },
        Helper::Load32UI64 => {
            reveal_strlit("r32u64");
        },
        Helper::Load32SI64 => {
            reveal_strlit("r32s64");
        },
        Helper::StoreI32 => {
            reveal_strlit("w32");
        },
        Helper::Store8 => {
            reveal_strlit("w8");
        },
        Helper::Store16 => {
            reveal_strlit("w16");
        },
        Helper::StoreI64 => {
            reveal_strlit("w64");
        },
        Helper::StoreF32 => {
            reveal_strlit("wf32");
        },
        Helper::StoreF64 => {
            reveal_strlit("wf64");
        },
        Helper::Store8I64 => {
            reveal_strlit("w8_64");
        },
        Helper::Store16I64 => {
            reveal_strlit("w16_64");
        },
        Helper::Store32I64 => {
            reveal_strlit("w32_64");
        },
        Helper::LoadV128 => {
            reveal_strlit("rv128");
        },
        Helper::StoreV128 => {
            reveal_strlit("wv128");
        },
        Helper::Load8Splat => {
            reveal_strlit("load8_splat");
        },
        Helper::Load16Splat => {
            reveal_strlit("load16_splat");
        },
        Helper::Load32Splat => {
            reveal_strlit("load32_splat");
        },
        Helper::Load64Splat => {
            reveal_strlit("load64_splat");
        },
        Helper::Load32Zero => {
            reveal_strlit("load32_zero");
        },
        Helper::Load64Zero => {
            reveal_strlit("load64_zero");
        },
        Helper::Load8x8S => {
            reveal_strlit("load8x8_s");
        },
        Helper::Load8x8U => {
            reveal_strlit("load8x8_u");
        },
        Helper::Load16x4S => {
            reveal_strlit("load16x4_s");
        },
        Helper::Load16x4U => {
            reveal_strlit("load16x4_u");
        },
        Helper::Load32x2S => {
            reveal_strlit("load32x2_s");
        },
        Helper::Load32x2U => {
            reveal_strlit("load32x2_u");
        },
        Helper::Load8Lane => {
            reveal_strlit("load8_lane");
        },
        Helper::Load16Lane => {
            reveal_strlit("load16_lane");
        },
        Helper::Load32Lane => {
            reveal_strlit("load32_lane");
        },
        Helper::Load64Lane => {
            reveal_strlit("load64_lane");
        },
        Helper::Store8Lane => {
            reveal_strlit("store8_lane");
        },
        Helper::Store16Lane => {
            reveal_strlit("store16_lane");
        },
        Helper::Store32Lane => {
            reveal_strlit("store32_lane");
        },
        Helper::Store64Lane => {
            reveal_strlit("store64_lane");
        },
        Helper::Grow => {
            reveal_strlit("memory_grow");
        },
        Helper::MemoryFill => {
            reveal_strlit("memory_fill");
        },
        Helper::MemoryCopy => {
            reveal_strlit("memory_copy");
        },
        Helper::TableCopy => {
            reveal_strlit("table_copy");
        },
        Helper::TableFill => {
            reveal_strlit("table_fill");
        },
    }
}

/// No two helpers have the same name.
pub proof fn law_helper_names_are_distinct(a: Helper, b: Helper)
    requires
        helper_text(a) == helper_text(b),
    ensures
        a == b,
{
    lemma_name(a);
    lemma_name(b);
}

proof fn lemma_numbers_differ(a: nat, b: nat)
    requires
        dec(a) == dec(b),
    ensures
        a == b,
{
    law_numbers_read_back(a);
    law_numbers_read_back(b);
}

/// Two texts that end in `_m` and a number have the same number.
proof fn lemma_same_suffix(x: Seq<char>, a: nat, y: Seq<char>, b: nat)
    requires
        x + "_m"@ + dec(a) == y + "_m"@ + dec(b),
        dec(a).len() <= dec(b).len(),
    ensures
        x == y,
        a == b,
{
    reveal_strlit("_m");
    law_numbers_read_back(a);
    law_numbers_read_back(b);
    let t = x + "_m"@ + dec(a);
    let n = t.len();
    let i = dec(a).len();
    let j = dec(b).len();
    if i < j {
        assert(t[n - i - 1] == 'm');
        assert(t[n - i - 1] == dec(b)[j - i - 1]);
        assert(is_digit(dec(b)[j - i - 1]));
    }
    assert(dec(a) =~= dec(b)) by {
        assert forall|k: int| 0 <= k < i implies dec(a)[k] == dec(b)[k] by {
            assert(t[n - i + k] == dec(a)[k]);
            assert((y + "_m"@ + dec(b))[n - i + k] == dec(b)[k]);
        }
    }
    lemma_numbers_differ(a, b);
    assert(x =~= y) by {
        assert forall|k: int| 0 <= k < x.len() implies x[k] == y[k] by {
            assert(t[k] == x[k]);
            assert((y + "_m"@ + dec(b))[k] == y[k]);
        }
    }
}

/// Each memory has methods of its own: the name of a method tells both the helper
/// and the memory, and for memory 0 it is that of the helper.
pub proof fn law_method_names_are_distinct(a: Helper, m: u32, b: Helper, n: u32)
    requires
        helper_method_text(a, m) == helper_method_text(b, n),
    ensures
        a == b,
        m == n,
        helper_method_text(a, 0) == helper_text(a),
{
    if m == 0 && n == 0 {
        law_helper_names_are_distinct(a, b);
    } else if m == 0 {
        lemma_plain_name(a, b, n);
    } else if n == 0 {
        lemma_plain_name(b, a, m);
    } else if dec(m as nat).len() <= dec(n as nat).len() {
        lemma_same_suffix(helper_text(a), m as nat, helper_text(b), n as nat);
        law_helper_names_are_distinct(a, b);
    } else {
        lemma_same_suffix(helper_text(b), n as nat, helper_text(a), m as nat);
        law_helper_names_are_distinct(a, b);
    }
}

proof fn lemma_plain_name(a: Helper, b: Helper, n: u32)
    requires
        n > 0,
    ensures
        helper_text(a) != helper_method_text(b, n),
{
    reveal_strlit("_m");
    let t = helper_method_text(b, n);
    let k = helper_text(b).len() as int;
    law_numbers_read_back(n as nat);
    assert(t[k] == '_' && t[k + 1] == 'm');
    if helper_text(a) == t {
        lemma_name(a);
        lemma_without_suffix(t, 0, k);
    }
}

// ---------------------------------------------------------------------------
// Signatures
// ---------------------------------------------------------------------------
/// Whether no `fn ` stands in `t` from `i` on.
spec fn without_fn(t: Seq<char>, i: int) -> bool
    decreases t.len() - i,
{
    i < 0 || i >= t.len() || (!(t[i] == 'f' && i + 2 < t.len() && t[i + 1] == 'n' && t[i + 2]
        == ' ') && without_fn(t, i + 1))
}

/// The beginning of a helper's signature.
pub open spec fn signature(helper: Helper) -> Seq<char> {
    ("fn "@ + helper_text(helper) + "("@)
}

proof fn lemma_without_fn(t: Seq<char>, i: int, helper: Helper, k: int)
    requires
        without_fn(t, i),
        0 <= i <= k,
    ensures
        !occurs_at(t, k, signature(helper)),
    decreases k - i,
{
    reveal_strlit("fn ");
    reveal_strlit("(");
    let sig = signature(helper);
    if i < k {
        if i < t.len() {
            lemma_without_fn(t, i + 1, helper, k);
        }
    } else if occurs_at(t, k, sig) {
        assert(t.subrange(k, k + sig.len())[0] == t[k]);
        assert(t.subrange(k, k + sig.len())[1] == t[k + 1]);
        assert(t.subrange(k, k + sig.len())[2] == t[k + 2]);
    }
}

/// Whether only the first of `lines` has a `fn `, at its start.
spec fn fn_leads(lines: Seq<Seq<char>>) -> bool {
    &&& lines.len() > 0
    &&& without_fn(lines[0], 1)
    &&& forall|k: int| 1 <= k < lines.len() ==> without_fn(#[trigger] lines[k], 0)
}

proof fn lemma_lines_load_i32()
    ensures
        fn_leads(base_lines(Helper::LoadI32)),
        occurs_at(base_lines(Helper::LoadI32)[0], 0, signature(Helper::LoadI32)),
{
    reveal_with_fuel(without_fn, 62);
    reveal_strlit("fn ");
    reveal_strlit("(");
    reveal_strlit("r32");
    reveal_strlit("fn r32(&self, addr: i32, offset: u32) -> i32 {");
    reveal_strlit("    let a = addr as u32 as usize + offset as usize;");
    reveal_strlit("    i32::from_le_bytes(self.mem()[a..a + 4].try_into().unwrap())");
    reveal_strlit("}");
    let lines = base_lines(Helper::LoadI32);
    assert(without_fn(lines[0], 1));
    assert(without_fn(lines[1], 0));
    assert(without_fn(lines[2], 58));
    assert(without_fn(lines[2], 0));
    assert(without_fn(lines[3], 0));
    let sig = signature(Helper::LoadI32);
    assert(lines[0].subrange(0, sig.len() as int) =~= sig);
}

proof fn lemma_lines_load8_u()
    ensures
        fn_leads(base_lines(Helper::Load8U)),
        occurs_at(base_lines(Helper::Load8U)[0], 0, signature(Helper::Load8U)),
{
    reveal_with_fuel(without_fn, 53);
    reveal_strlit("fn ");
    reveal_strlit("(");
    reveal_strlit("r8u");
    reveal_strlit("fn r8u(&self, addr: i32, offset: u32) -> i32 {");
    reveal_strlit("    let a = addr as u32 as usize + offset as usize;");
    reveal_strlit("    self.mem()[a] as i32");
    reveal_strlit("}");
    let lines = base_lines(Helper::Load8U);
    assert(without_fn(lines[0], 1));
    assert(without_fn(lines[1], 0));
    assert(without_fn(lines[2], 0));
    assert(without_fn(lines[3], 0));
    let sig = signature(Helper::Load8U);
    assert(lines[0].subrange(0, sig.len() as int) =~= sig);
}

proof fn lemma_lines_load8_s()
    ensures
        fn_leads(base_lines(Helper::Load8S)),
        occurs_at(base_lines(Helper::Load8S)[0], 0, signature(Helper::Load8S)),
{
    reveal_with_fuel(without_fn, 53);
    reveal_strlit("fn ");
    reveal_strlit("(");
    reveal_strlit("r8s");
    reveal_strlit("fn r8s(&self, addr: i32, offset: u32) -> i32 {");
    reveal_strlit("    let a = addr as u32 as usize + offset as usize;");
    reveal_strlit("    self.mem()[a] as i8 as i32");
    reveal_strlit("}");
    let lines = base_lines(Helper::Load8S);
    assert(without_fn(lines[0], 1));
    assert(without_fn(lines[1], 0));
    assert(without_fn(lines[2], 0));
    assert(without_fn(lines[3], 0));
    let sig = signature(Helper::Load8S);
    assert(lines[0].subrange(0, sig.len() as int) =~= sig);
}

proof fn lemma_lines_load16_u()
    ensures
        fn_leads(base_lines(Helper::Load16U)),
        occurs_at(base_lines(Helper::Load16U)[0], 0, signature(Helper::Load16U)),
{
    reveal_with_fuel(without_fn, 62);
    reveal_strlit("fn ");
    reveal_strlit("(");
    reveal_strlit("r16u");
    reveal_strlit("fn r16u(&self, addr: i32, offset: u32) -> i32 {");
    reveal_strlit("    let a = addr as u32 as usize + offset as usize;");
    reveal_strlit("    u16::from_le_bytes(self.mem()[a..a + 2].try_into().unwrap()) as i32");
    reveal_strlit("}");
    let lines = base_lines(Helper::Load16U);
    assert(without_fn(lines[0], 1));
    assert(without_fn(lines[1], 0));
    assert(without_fn(lines[2], 58));
    assert(without_fn(lines[2], 0));
    assert(without_fn(lines[3], 0));
    let sig = signature(Helper::Load16U);
    assert(lines[0].subrange(0, sig.len() as int) =~= sig);
}

proof fn lemma_lines_load16_s()
    ensures
        fn_leads(base_lines(Helper::Load16S)),
        occurs_at(base_lines(Helper::Load16S)[0], 0, signature(Helper::Load16S)),
{
    reveal_with_fuel(without_fn, 62);
    reveal_strlit("fn ");
    reveal_strlit("(");
    reveal_strlit("r16s");
    reveal_strlit("fn r16s(&self, addr: i32, offset: u32) -> i32 {");
    reveal_strlit("    let a = addr as u32 as usize + offset as usize;");
    reveal_strlit("    i16::from_le_bytes(self.mem()[a..a + 2].try_into().unwrap()) as i32");
    reveal_strlit("}");
    let lines = base_lines(Helper::Load16S);
    assert(without_fn(lines[0], 1));
    assert(without_fn(lines[1], 0));
    assert(without_fn(lines[2], 58));
    assert(without_fn(lines[2], 0));
    assert(without_fn(lines[3], 0));
    let sig = signature(Helper::Load16S);
    assert(lines[0].subrange(0, sig.len() as int) =~= sig);
}

proof fn lemma_lines_load_i64()
    ensures
        fn_leads(base_lines(Helper::LoadI64)),
        occurs_at(base_lines(Helper::LoadI64)[0], 0, signature(Helper::LoadI64)),
{
    reveal_with_fuel(without_fn, 62);
    reveal_strlit("fn ");
    reveal_strlit("(");
    reveal_strlit("r64");
    reveal_strlit("fn r64(&self, addr: i32, offset: u32) -> i64 {");
    reveal_strlit("    let a = addr as u32 as usize + offset as usize;");
    reveal_strlit("    i64::from_le_bytes(self.mem()[a..a + 8].try_into().unwrap())");
    reveal_strlit("}");
    let lines = base_lines(Helper::LoadI64);
    assert(without_fn(lines[0], 1));
    assert(without_fn(lines[1], 0));
    assert(without_fn(lines[2], 58));
    assert(without_fn(lines[2], 0));
    assert(without_fn(lines[3], 0));
    let sig = signature(Helper::LoadI64);
    assert(lines[0].subrange(0, sig.len() as int) =~= sig);
}

proof fn lemma_lines_load_f32()
    ensures
        fn_leads(base_lines(Helper::LoadF32)),
        occurs_at(base_lines(Helper::LoadF32)[0], 0, signature(Helper::LoadF32)),
{
    reveal_with_fuel(without_fn, 62);
    reveal_strlit("fn ");
    reveal_strlit("(");
    reveal_strlit("rf32");
    reveal_strlit("fn rf32(&self, addr: i32, offset: u32) -> f32 {");
    reveal_strlit("    let a = addr as u32 as usize + offset as usize;");
    reveal_strlit("    f32::from_le_bytes(self.mem()[a..a + 4].try_into().unwrap())");
    reveal_strlit("}");
    let lines = base_lines(Helper::LoadF32);
    assert(without_fn(lines[0], 1));
    assert(without_fn(lines[1], 0));
    assert(without_fn(lines[2], 58));
    assert(without_fn(lines[2], 0));
    assert(without_fn(lines[3], 0));
    let sig = signature(Helper::LoadF32);
    assert(lines[0].subrange(0, sig.len() as int) =~= sig);
}

proof fn lemma_lines_load_f64()
    ensures
        fn_leads(base_lines(Helper::LoadF64)),
        occurs_at(base_lines(Helper::LoadF64)[0], 0, signature(Helper::LoadF64)),
{
    reveal_with_fuel(without_fn, 62);
    reveal_strlit("fn ");
    reveal_strlit("(");
    reveal_strlit("rf64");
    reveal_strlit("fn rf64(&self, addr: i32, offset: u32) -> f64 {");
    reveal_strlit("    let a = addr as u32 as usize + offset as usize;");
    reveal_strlit("    f64::from_le_bytes(self.mem()[a..a + 8].try_into().unwrap())");
    reveal_strlit("}");
    let lines = base_lines(Helper::LoadF64);
    assert(without_fn(lines[0], 1));
    assert(without_fn(lines[1], 0));
    assert(without_fn(lines[2], 58));
    assert(without_fn(lines[2], 0));
    assert(without_fn(lines[3], 0));
    let sig = signature(Helper::LoadF64);
    assert(lines[0].subrange(0, sig.len() as int) =~= sig);
}

proof fn lemma_lines_load8_u_i64()
    ensures
        fn_leads(base_lines(Helper::Load8UI64)),
        occurs_at(base_lines(Helper::Load8UI64)[0], 0, signature(Helper::Load8UI64)),
{
    reveal_with_fuel(without_fn, 53);
    reveal_strlit("fn ");
    reveal_strlit("(");
    reveal_strlit("r8u64");
    reveal_strlit("fn r8u64(&self, addr: i32, offset: u32) -> i64 {");
    reveal_strlit("    let a = addr as u32 as usize + offset as usize;");
    reveal_strlit("    self.mem()[a] as i64");
    reveal_strlit("}");
    let lines = base_lines(Helper::Load8UI64);
    assert(without_fn(lines[0], 1));
    assert(without_fn(lines[1], 0));
    assert(without_fn(lines[2], 0));
    assert(without_fn(lines[3], 0));
    let sig = signature(Helper::Load8UI64);
    assert(lines[0].subrange(0, sig.len() as int) =~= sig);
}

proof fn lemma_lines_load8_s_i64()
    ensures
        fn_leads(base_lines(Helper::Load8SI64)),
        occurs_at(base_lines(Helper::Load8SI64)[0], 0, signature(Helper::Load8SI64)),
{
    reveal_with_fuel(without_fn, 53);
    reveal_strlit("fn ");
    reveal_strlit("(");
    reveal_strlit("r8s64");
    reveal_strlit("fn r8s64(&self, addr: i32, offset: u32) -> i64 {");
    reveal_strlit("    let a = addr as u32 as usize + offset as usize;");
    reveal_strlit("    self.mem()[a] as i8 as i64");
    reveal_strlit("}");
    let lines = base_lines(Helper::Load8SI64);
    assert(without_fn(lines[0], 1));
    assert(without_fn(lines[1], 0));
    assert(without_fn(lines[2], 0));
    assert(without_fn(lines[3], 0));
    let sig = signature(Helper::Load8SI64);
    assert(lines[0].subrange(0, sig.len() as int) =~= sig);
}

proof fn lemma_lines_load16_u_i64()
    ensures
        fn_leads(base_lines(Helper::Load16UI64)),
        occurs_at(base_lines(Helper::Load16UI64)[0], 0, signature(Helper::Load16UI64)),
{
    reveal_with_fuel(without_fn, 62);
    reveal_strlit("fn ");
    reveal_strlit("(");
    reveal_strlit("r16u64");
    reveal_strlit("fn r16u64(&self, addr: i32, offset: u32) -> i64 {");
    reveal_strlit("    let a = addr as u32 as usize + offset as usize;");
    reveal_strlit("    u16::from_le_bytes(self.mem()[a..a + 2].try_into().unwrap()) as i64");
    reveal_strlit("}");
    let lines = base_lines(Helper::Load16UI64);
    assert(without_fn(lines[0], 1));
    assert(without_fn(lines[1], 0));
    assert(without_fn(lines[2], 58));
    assert(without_fn(lines[2], 0));
    assert(without_fn(lines[3], 0));
    let sig = signature(Helper::Load16UI64);
    assert(lines[0].subrange(0, sig.len() as int) =~= sig);
}

proof fn lemma_lines_load16_s_i64()
    ensures
        fn_leads(base_lines(Helper::Load16SI64)),
        occurs_at(base_lines(Helper::Load16SI64)[0], 0, signature(Helper::Load16SI64)),
{
    reveal_with_fuel(without_fn, 62);
    reveal_strlit("fn ");
    reveal_strlit("(");
    reveal_strlit("r16s64");
    reveal_strlit("fn r16s64(&self, addr: i32, offset: u32) -> i64 {");
    reveal_strlit("    let a = addr as u32 as usize + offset as usize;");
    reveal_strlit("    i16::from_le_bytes(self.mem()[a..a + 2].try_into().unwrap()) as i64");
    reveal_strlit("}");
    let lines = base_lines(Helper::Load16SI64);
    assert(without_fn(lines[0], 1));
    assert(without_fn(lines[1], 0));
    assert(without_fn(lines[2], 58));
    assert(without_fn(lines[2], 0));
    assert(without_fn(lines[3], 0));
    let sig = signature(Helper::Load16SI64);
    assert(lines[0].subrange(0, sig.len() as int) =~= sig);
}

proof fn lemma_lines_load32_u_i64()
    ensures
        fn_leads(base_lines(Helper::Load32UI64)),
        occurs_at(base_lines(Helper::Load32UI64)[0], 0, signature(Helper::Load32UI64)),
{
    reveal_with_fuel(without_fn, 62);
    reveal_strlit("fn ");
    reveal_strlit("(");
    reveal_strlit("r32u64");
    reveal_strlit("fn r32u64(&self, addr: i32, offset: u32) -> i64 {");
    reveal_strlit("    let a = addr as u32 as usize + offset as usize;");
    reveal_strlit("    u32::from_le_bytes(self.mem()[a..a + 4].try_into().unwrap()) as i64");
    reveal_strlit("}");
    let lines = base_lines(Helper::Load32UI64);
    assert(without_fn(lines[0], 1));
    assert(without_fn(lines[1], 0));
    assert(without_fn(lines[2], 58));
    assert(without_fn(lines[2], 0));
    assert(without_fn(lines[3], 0));
    let sig = signature(Helper::Load32UI64);
    assert(lines[0].subrange(0, sig.len() as int) =~= sig);
}

proof fn lemma_lines_load32_s_i64()
    ensures
        fn_leads(base_lines(Helper::Load32SI64)),
        occurs_at(base_lines(Helper::Load32SI64)[0], 0, signature(Helper::Load32SI64)),
{
    reveal_with_fuel(without_fn, 62);
    reveal_strlit("fn ");
    reveal_strlit("(");
    reveal_strlit("r32s64");
    reveal_strlit("fn r32s64(&self, addr: i32, offset: u32) -> i64 {");
    reveal_strlit("    let a = addr as u32 as usize + offset as usize;");
    reveal_strlit("    i32::from_le_bytes(self.mem()[a..a + 4].try_into().unwrap()) as i64");
    reveal_strlit("}");
    let lines = base_lines(Helper::Load32SI64);
    assert(without_fn(lines[0], 1));
    assert(without_fn(lines[1], 0));
    assert(without_fn(lines[2], 58));
    assert(without_fn(lines[2], 0));
    assert(without_fn(lines[3], 0));
    let sig = signature(Helper::Load32SI64);
    assert(lines[0].subrange(0, sig.len() as int) =~= sig);
}

proof fn lemma_lines_store_i32()
    ensures
        fn_leads(base_lines(Helper::StoreI32)),
        occurs_at(base_lines(Helper::StoreI32)[0], 0, signature(Helper::StoreI32)),
{
    reveal_with_fuel(without_fn, 62);
    reveal_strlit("fn ");
    reveal_strlit("(");
    reveal_strlit("w32");
    reveal_strlit("fn w32(&mut self, addr: i32, offset: u32, value: i32) {");
    reveal_strlit("    let a = addr as u32 as usize + offset as usize;");
    reveal_strlit("    self.mem_mut()[a..a + 4].copy_from_slice(&value.to_le_bytes());");
    reveal_strlit("}");
    let lines = base_lines(Helper::StoreI32);
    assert(without_fn(lines[0], 1));
    assert(without_fn(lines[1], 0));
    assert(without_fn(lines[2], 58));
    assert(without_fn(lines[2], 0));
    assert(without_fn(lines[3], 0));
    let sig = signature(Helper::StoreI32);
    assert(lines[0].subrange(0, sig.len() as int) =~= sig);
}

proof fn lemma_lines_store8()
    ensures
        fn_leads(base_lines(Helper::Store8)),
        occurs_at(base_lines(Helper::Store8)[0], 0, signature(Helper::Store8)),
{
    reveal_with_fuel(without_fn, 56);
    reveal_strlit("fn ");
    reveal_strlit("(");
    reveal_strlit("w8");
    reveal_strlit("fn w8(&mut self, addr: i32, offset: u32, value: i32) {");
    reveal_strlit("    let a = addr as u32 as usize + offset as usize;");
    reveal_strlit("    self.mem_mut()[a] = value as u8;");
    reveal_strlit("}");
    let lines = base_lines(Helper::Store8);
    assert(without_fn(lines[0], 1));
    assert(without_fn(lines[1], 0));
    assert(without_fn(lines[2], 0));
    assert(without_fn(lines[3], 0));
    let sig = signature(Helper::Store8);
    assert(lines[0].subrange(0, sig.len() as int) =~= sig);
}

proof fn lemma_lines_store16()
    ensures
        fn_leads(base_lines(Helper::Store16)),
        occurs_at(base_lines(Helper::Store16)[0], 0, signature(Helper::Store16)),
{
    reveal_with_fuel(without_fn, 62);
    reveal_strlit("fn ");
    reveal_strlit("(");
    reveal_strlit("w16");
    reveal_strlit("fn w16(&mut self, addr: i32, offset: u32, value: i32) {");
    reveal_strlit("    let a = addr as u32 as usize + offset as usize;");
    reveal_strlit("    self.mem_mut()[a..a + 2].copy_from_slice(&(value as u16).to_le_bytes());");
    reveal_strlit("}");
    let lines = base_lines(Helper::Store16);
    assert(without_fn(lines[0], 1));
    assert(without_fn(lines[1], 0));
    assert(without_fn(lines[2], 58));
    assert(without_fn(lines[2], 0));
    assert(without_fn(lines[3], 0));
    let sig = signature(Helper::Store16);
    assert(lines[0].subrange(0, sig.len() as int) =~= sig);
}

proof fn lemma_lines_store_i64()
    ensures
        fn_leads(base_lines(Helper::StoreI64)),
        occurs_at(base_lines(Helper::StoreI64)[0], 0, signature(Helper::StoreI64)),
{
    reveal_with_fuel(without_fn, 62);
    reveal_strlit("fn ");
    reveal_strlit("(");
    reveal_strlit("w64");
    reveal_strlit("fn w64(&mut self, addr: i32, offset: u32, value: i64) {");
    reveal_strlit("    let a = addr as u32 as usize + offset as usize;");
    reveal_strlit("    self.mem_mut()[a..a + 8].copy_from_slice(&value.to_le_bytes());");
    reveal_strlit("}");
    let lines = base_lines(Helper::StoreI64);
    assert(without_fn(lines[0], 1));
    assert(without_fn(lines[1], 0));
    assert(without_fn(lines[2], 58));
    assert(without_fn(lines[2], 0));
    assert(without_fn(lines[3], 0));
    let sig = signature(Helper::StoreI64);
    assert(lines[0].subrange(0, sig.len() as int) =~= sig);
}

proof fn lemma_lines_store_f32()
    ensures
        fn_leads(base_lines(Helper::StoreF32)),
        occurs_at(base_lines(Helper::StoreF32)[0], 0, signature(Helper::StoreF32)),
{
    reveal_with_fuel(without_fn, 62);
    reveal_strlit("fn ");
    reveal_strlit("(");
    reveal_strlit("wf32");
    reveal_strlit("fn wf32(&mut self, addr: i32, offset: u32, value: f32) {");
    reveal_strlit("    let a = addr as u32 as usize + offset as usize;");
    reveal_strlit("    self.mem_mut()[a..a + 4].copy_from_slice(&value.to_le_bytes());");
    reveal_strlit("}");
    let lines = base_lines(Helper::StoreF32);
    assert(without_fn(lines[0], 1));
    assert(without_fn(lines[1], 0));
    assert(without_fn(lines[2], 58));
    assert(without_fn(lines[2], 0));
    assert(without_fn(lines[3], 0));
    let sig = signature(Helper::StoreF32);
    assert(lines[0].subrange(0, sig.len() as int) =~= sig);
}

proof fn lemma_lines_store_f64()
    ensures
        fn_leads(base_lines(Helper::StoreF64)),
        occurs_at(base_lines(Helper::StoreF64)[0], 0, signature(Helper::StoreF64)),
{
    reveal_with_fuel(without_fn, 62);
    reveal_strlit("fn ");
    reveal_strlit("(");
    reveal_strlit("wf64");
    reveal_strlit("fn wf64(&mut self, addr: i32, offset: u32, value: f64) {");
    reveal_strlit("    let a = addr as u32 as usize + offset as usize;");
    reveal_strlit("    self.mem_mut()[a..a + 8].copy_from_slice(&value.to_le_bytes());");
    reveal_strlit("}");
    let lines = base_lines(Helper::StoreF64);
    assert(without_fn(lines[0], 1));
    assert(without_fn(lines[1], 0));
    assert(without_fn(lines[2], 58));
    assert(without_fn(lines[2], 0));
    assert(without_fn(lines[3], 0));
    let sig = signature(Helper::StoreF64);
    assert(lines[0].subrange(0, sig.len() as int) =~= sig);
}

proof fn lemma_lines_store8_i64()
    ensures
        fn_leads(base_lines(Helper::Store8I64)),
        occurs_at(base_lines(Helper::Store8I64)[0], 0, signature(Helper::Store8I64)),
{
    reveal_with_fuel(without_fn, 59);
    reveal_strlit("fn ");
    reveal_strlit("(");
    reveal_strlit("w8_64");
    reveal_strlit("fn w8_64(&mut self, addr: i32, offset: u32, value: i64) {");
    reveal_strlit("    let a = addr as u32 as usize + offset as usize;");
    reveal_strlit("    self.mem_mut()[a] = value as u8;");
    reveal_strlit("}");
    let lines = base_lines(Helper::Store8I64);
    assert(without_fn(lines[0], 1));
    assert(without_fn(lines[1], 0));
    assert(without_fn(lines[2], 0));
    assert(without_fn(lines[3], 0));
    let sig = signature(Helper::Store8I64);
    assert(lines[0].subrange(0, sig.len() as int) =~= sig);
}

proof fn lemma_lines_store16_i64()
    ensures
        fn_leads(base_lines(Helper::Store16I64)),
        occurs_at(base_lines(Helper::Store16I64)[0], 0, signature(Helper::Store16I64)),
{
    reveal_with_fuel(without_fn, 62);
    reveal_strlit("fn ");
    reveal_strlit("(");
    reveal_strlit("w16_64");
    reveal_strlit("fn w16_64(&mut self, addr: i32, offset: u32, value: i64) {");
    reveal_strlit("    let a = addr as u32 as usize + offset as usize;");
    reveal_strlit("    self.mem_mut()[a..a + 2].copy_from_slice(&(value as u16).to_le_bytes());");
    reveal_strlit("}");
    let lines = base_lines(Helper::Store16I64);
    assert(without_fn(lines[0], 1));
    assert(without_fn(lines[1], 0));
    assert(without_fn(lines[2], 58));
    assert(without_fn(lines[2], 0));
    assert(without_fn(lines[3], 0));
    let sig = signature(Helper::Store16I64);
    assert(lines[0].subrange(0, sig.len() as int) =~= sig);
}

proof fn lemma_lines_store32_i64()
    ensures
        fn_leads(base_lines(Helper::Store32I64)),
        occurs_at(base_lines(Helper::Store32I64)[0], 0, signature(Helper::Store32I64)),
{
    reveal_with_fuel(without_fn, 62);
    reveal_strlit("fn ");
    reveal_strlit("(");
    reveal_strlit("w32_64");
    reveal_strlit("fn w32_64(&mut self, addr: i32, offset: u32, value: i64) {");
    reveal_strlit("    let a = addr as u32 as usize + offset as usize;");
    reveal_strlit("    self.mem_mut()[a..a + 4].copy_from_slice(&(value as u32).to_le_bytes());");
    reveal_strlit("}");
    let lines = base_lines(Helper::Store32I64);
    assert(without_fn(lines[0], 1));
    assert(without_fn(lines[1], 0));
    assert(without_fn(lines[2], 58));
    assert(without_fn(lines[2], 0));
    assert(without_fn(lines[3], 0));
    let sig = signature(Helper::Store32I64);
    assert(lines[0].subrange(0, sig.len() as int) =~= sig);
}

proof fn lemma_lines_load_v128()
    ensures
        fn_leads(base_lines(Helper::LoadV128)),
        occurs_at(base_lines(Helper::LoadV128)[0], 0, signature(Helper::LoadV128)),
{
    reveal_with_fuel(without_fn, 53);
    reveal_strlit("fn ");
    reveal_strlit("(");
    reveal_strlit("rv128");
    reveal_strlit("fn rv128(&self, addr: i32, offset: u32) -> u128 {");
    reveal_strlit("    let a = addr as u32 as usize + offset as usize;");
    reveal_strlit("    let mut b = [0u8; 16];");
    reveal_strlit("    b.copy_from_slice(&self.mem()[a..a + 16]);");
    reveal_strlit("    u128::from_le_bytes(b)");
    reveal_strlit("}");
    let lines = base_lines(Helper::LoadV128);
    assert(without_fn(lines[0], 1));
    assert(without_fn(lines[1], 0));
    assert(without_fn(lines[2], 0));
    assert(without_fn(lines[3], 0));
    assert(without_fn(lines[4], 0));
    assert(without_fn(lines[5], 0));
    let sig = signature(Helper::LoadV128);
    assert(lines[0].subrange(0, sig.len() as int) =~= sig);
}

proof fn lemma_lines_store_v128()
    ensures
        fn_leads(base_lines(Helper::StoreV128)),
        occurs_at(base_lines(Helper::StoreV128)[0], 0, signature(Helper::StoreV128)),
{
    reveal_with_fuel(without_fn, 62);
    reveal_strlit("fn ");
    reveal_strlit("(");
    reveal_strlit("wv128");
    reveal_strlit("fn wv128(&mut self, addr: i32, offset: u32, value: u128) {");
    reveal_strlit("    let a = addr as u32 as usize + offset as usize;");
    reveal_strlit("    self.mem_mut()[a..a + 16].copy_from_slice(&value.to_le_bytes());");
    reveal_strlit("}");
    let lines = base_lines(Helper::StoreV128);
    assert(without_fn(lines[0], 1));
    assert(without_fn(lines[1], 0));
    assert(without_fn(lines[2], 58));
    assert(without_fn(lines[2], 0));
    assert(without_fn(lines[3], 0));
    let sig = signature(Helper::StoreV128);
    assert(lines[0].subrange(0, sig.len() as int) =~= sig);
}

proof fn lemma_lines_load8_splat()
    ensures
        fn_leads(base_lines(Helper::Load8Splat)),
        occurs_at(base_lines(Helper::Load8Splat)[0], 0, signature(Helper::Load8Splat)),
{
    reveal_with_fuel(without_fn, 57);
    reveal_strlit("fn ");
    reveal_strlit("(");
    reveal_strlit("load8_splat");
    reveal_strlit("fn load8_splat(&self, addr: i32, offset: u32) -> u128 {");
    reveal_strlit("    let a = addr as u32 as usize + offset as usize;");
    reveal_strlit("    u128::from_le_bytes([self.mem()[a]; 16])");
    reveal_strlit("}");
    let lines = base_lines(Helper::Load8Splat);
    assert(without_fn(lines[0], 1));
    assert(without_fn(lines[1], 0));
    assert(without_fn(lines[2], 0));
    assert(without_fn(lines[3], 0));
    let sig = signature(Helper::Load8Splat);
    assert(lines[0].subrange(0, sig.len() as int) =~= sig);
}

proof fn lemma_lines_load16_splat()
    ensures
        fn_leads(base_lines(Helper::Load16Splat)),
        occurs_at(base_lines(Helper::Load16Splat)[0], 0, signature(Helper::Load16Splat)),
{
    reveal_with_fuel(without_fn, 58);
    reveal_strlit("fn ");
    reveal_strlit("(");
    reveal_strlit("load16_splat");
    reveal_strlit("fn load16_splat(&self, addr: i32, offset: u32) -> u128 {");
    reveal_strlit("    let a = addr as u32 as usize + offset as usize;");
    reveal_strlit("    let lane = [self.mem()[a], self.mem()[a + 1]];");
    reveal_strlit("    let mut b = [0u8; 16];");
    reveal_strlit("    let mut i = 0;");
    reveal_strlit("    while i < 16 {");
    reveal_strlit("        b[i..i + 2].copy_from_slice(&lane);");
    reveal_strlit("        i += 2;");
    reveal_strlit("    }");
    reveal_strlit("    u128::from_le_bytes(b)");
    reveal_strlit("}");
    let lines = base_lines(Helper::Load16Splat);
    assert(without_fn(lines[0], 1));
    assert(without_fn(lines[1], 0));
    assert(without_fn(lines[2], 0));
    assert(without_fn(lines[3], 0));
    assert(without_fn(lines[4], 0));
    assert(without_fn(lines[5], 0));
    assert(without_fn(lines[6], 0));
    assert(without_fn(lines[7], 0));
    assert(without_fn(lines[8], 0));
    assert(without_fn(lines[9], 0));
    assert(without_fn(lines[10], 0));
    let sig = signature(Helper::Load16Splat);
    assert(lines[0].subrange(0, sig.len() as int) =~= sig);
}

proof fn lemma_lines_load32_splat()
    ensures
        fn_leads(base_lines(Helper::Load32Splat)),
        occurs_at(base_lines(Helper::Load32Splat)[0], 0, signature(Helper::Load32Splat)),
{
    reveal_with_fuel(without_fn, 62);
    reveal_strlit("fn ");
    reveal_strlit("(");
    reveal_strlit("load32_splat");
    reveal_strlit("fn load32_splat(&self, addr: i32, offset: u32) -> u128 {");
    reveal_strlit("    let a = addr as u32 as usize + offset as usize;");
    reveal_strlit("    let lane = [self.mem()[a], self.mem()[a + 1], self.mem()[a + 2], self.mem()[a + 3]];");
    reveal_strlit("    let mut b = [0u8; 16];");
    reveal_strlit("    let mut i = 0;");
    reveal_strlit("    while i < 16 {");
    reveal_strlit("        b[i..i + 4].copy_from_slice(&lane);");
    reveal_strlit("        i += 4;");
    reveal_strlit("    }");
    reveal_strlit("    u128::from_le_bytes(b)");
    reveal_strlit("}");
    let lines = base_lines(Helper::Load32Splat);
    assert(without_fn(lines[0], 1));
    assert(without_fn(lines[1], 0));
    assert(without_fn(lines[2], 58));
    assert(without_fn(lines[2], 0));
    assert(without_fn(lines[3], 0));
    assert(without_fn(lines[4], 0));
    assert(without_fn(lines[5], 0));
    assert(without_fn(lines[6], 0));
    assert(without_fn(lines[7], 0));
    assert(without_fn(lines[8], 0));
    assert(without_fn(lines[9], 0));
    assert(without_fn(lines[10], 0));
    let sig = signature(Helper::Load32Splat);
    assert(lines[0].subrange(0, sig.len() as int) =~= sig);
}

proof fn lemma_lines_load64_splat()
    ensures
        fn_leads(base_lines(Helper::Load64Splat)),
        occurs_at(base_lines(Helper::Load64Splat)[0], 0, signature(Helper::Load64Splat)),
{
    reveal_with_fuel(without_fn, 58);
    reveal_strlit("fn ");
    reveal_strlit("(");
    reveal_strlit("load64_splat");
    reveal_strlit("fn load64_splat(&self, addr: i32, offset: u32) -> u128 {");
    reveal_strlit("    let a = addr as u32 as usize + offset as usize;");
    reveal_strlit("    let mut b = [0u8; 16];");
    reveal_strlit("    b[0..8].copy_from_slice(&self.mem()[a..a + 8]);");
    reveal_strlit("    b.copy_within(0..8, 8);");
    reveal_strlit("    u128::from_le_bytes(b)");
    reveal_strlit("}");
    let lines = base_lines(Helper::Load64Splat);
    assert(without_fn(lines[0], 1));
    assert(without_fn(lines[1], 0));
    assert(without_fn(lines[2], 0));
    assert(without_fn(lines[3], 0));
    assert(without_fn(lines[4], 0));
    assert(without_fn(lines[5], 0));
    assert(without_fn(lines[6], 0));
    let sig = signature(Helper::Load64Splat);
    assert(lines[0].subrange(0, sig.len() as int) =~= sig);
}

proof fn lemma_lines_load32_zero()
    ensures
        fn_leads(base_lines(Helper::Load32Zero)),
        occurs_at(base_lines(Helper::Load32Zero)[0], 0, signature(Helper::Load32Zero)),
{
    reveal_with_fuel(without_fn, 57);
    reveal_strlit("fn ");
    reveal_strlit("(");
    reveal_strlit("load32_zero");
    reveal_strlit("fn load32_zero(&self, addr: i32, offset: u32) -> u128 {");
    reveal_strlit("    let a = addr as u32 as usize + offset as usize;");
    reveal_strlit("    let mut b = [0u8; 16];");
    reveal_strlit("    b[0..4].copy_from_slice(&self.mem()[a..a + 4]);");
    reveal_strlit("    u128::from_le_bytes(b)");
    reveal_strlit("}");
    let lines = base_lines(Helper::Load32Zero);
    assert(without_fn(lines[0], 1));
    assert(without_fn(lines[1], 0));
    assert(without_fn(lines[2], 0));
    assert(without_fn(lines[3], 0));
    assert(without_fn(lines[4], 0));
    assert(without_fn(lines[5], 0));
    let sig = signature(Helper::Load32Zero);
    assert(lines[0].subrange(0, sig.len() as int) =~= sig);
}

proof fn lemma_lines_load64_zero()
    ensures
        fn_leads(base_lines(Helper::Load64Zero)),
        occurs_at(base_lines(Helper::Load64Zero)[0], 0, signature(Helper::Load64Zero)),
{
    reveal_with_fuel(without_fn, 57);
    reveal_strlit("fn ");
    reveal_strlit("(");
    reveal_strlit("load64_zero");
    reveal_strlit("fn load64_zero(&self, addr: i32, offset: u32) -> u128 {");
    reveal_strlit("    let a = addr as u32 as usize + offset as usize;");
    reveal_strlit("    let mut b = [0u8; 16];");
    reveal_strlit("    b[0..8].copy_from_slice(&self.mem()[a..a + 8]);");
    reveal_strlit("    u128::from_le_bytes(b)");
    reveal_strlit("}");
    let lines = base_lines(Helper::Load64Zero);
    assert(without_fn(lines[0], 1));
    assert(without_fn(lines[1], 0));
    assert(without_fn(lines[2], 0));
    assert(without_fn(lines[3], 0));
    assert(without_fn(lines[4], 0));
    assert(without_fn(lines[5], 0));
    let sig = signature(Helper::Load64Zero);
    assert(lines[0].subrange(0, sig.len() as int) =~= sig);
}

proof fn lemma_lines_load8x8_s()
    ensures
        fn_leads(base_lines(Helper::Load8x8S)),
        occurs_at(base_lines(Helper::Load8x8S)[0], 0, signature(Helper::Load8x8S)),
{
    reveal_with_fuel(without_fn, 62);
    reveal_strlit("fn ");
    reveal_strlit("(");
    reveal_strlit("load8x8_s");
    reveal_strlit("fn load8x8_s(&self, addr: i32, offset: u32) -> u128 {");
    reveal_strlit("    let a = addr as u32 as usize + offset as usize;");
    reveal_strlit("    let mut r = [0u8; 16];");
    reveal_strlit("    let mut i = 0;");
    reveal_strlit("    while i < 8 {");
    reveal_strlit("        let x = self.mem()[a + i] as i8 as i16;");
    reveal_strlit("        r[i * 2..i * 2 + 2].copy_from_slice(&x.to_le_bytes());");
    reveal_strlit("        i += 1;");
    reveal_strlit("    }");
    reveal_strlit("    u128::from_le_bytes(r)");
    reveal_strlit("}");
    let lines = base_lines(Helper::Load8x8S);
    assert(without_fn(lines[0], 1));
    assert(without_fn(lines[1], 0));
    assert(without_fn(lines[2], 0));
    assert(without_fn(lines[3], 0));
    assert(without_fn(lines[4], 0));
    assert(without_fn(lines[5], 0));
    assert(without_fn(lines[6], 58));
    assert(without_fn(lines[6], 0));
    assert(without_fn(lines[7], 0));
    assert(without_fn(lines[8], 0));
    assert(without_fn(lines[9], 0));
    assert(without_fn(lines[10], 0));
    let sig = signature(Helper::Load8x8S);
    assert(lines[0].subrange(0, sig.len() as int) =~= sig);
}

proof fn lemma_lines_load8x8_u()
    ensures
        fn_leads(base_lines(Helper::Load8x8U)),
        occurs_at(base_lines(Helper::Load8x8U)[0], 0, signature(Helper::Load8x8U)),
{
    reveal_with_fuel(without_fn, 62);
    reveal_strlit("fn ");
    reveal_strlit("(");
    reveal_strlit("load8x8_u");
    reveal_strlit("fn load8x8_u(&self, addr: i32, offset: u32) -> u128 {");
    reveal_strlit("    let a = addr as u32 as usize + offset as usize;");
    reveal_strlit("    let mut r = [0u8; 16];");
    reveal_strlit("    let mut i = 0;");
    reveal_strlit("    while i < 8 {");
    reveal_strlit("        let x = self.mem()[a + i] as u16;");
    reveal_strlit("        r[i * 2..i * 2 + 2].copy_from_slice(&x.to_le_bytes());");
    reveal_strlit("        i += 1;");
    reveal_strlit("    }");
    reveal_strlit("    u128::from_le_bytes(r)");
    reveal_strlit("}");
    let lines = base_lines(Helper::Load8x8U);
    assert(without_fn(lines[0], 1));
    assert(without_fn(lines[1], 0));
    assert(without_fn(lines[2], 0));
    assert(without_fn(lines[3], 0));
    assert(without_fn(lines[4], 0));
    assert(without_fn(lines[5], 0));
    assert(without_fn(lines[6], 58));
    assert(without_fn(lines[6], 0));
    assert(without_fn(lines[7], 0));
    assert(without_fn(lines[8], 0));
    assert(without_fn(lines[9], 0));
    assert(without_fn(lines[10], 0));
    let sig = signature(Helper::Load8x8U);
    assert(lines[0].subrange(0, sig.len() as int) =~= sig);
}

proof fn lemma_lines_load16x4_s()
    ensures
        fn_leads(base_lines(Helper::Load16x4S)),
        occurs_at(base_lines(Helper::Load16x4S)[0], 0, signature(Helper::Load16x4S)),
{
    reveal_with_fuel(without_fn, 62);
    reveal_strlit("fn ");
    reveal_strlit("(");
    reveal_strlit("load16x4_s");
    reveal_strlit("fn load16x4_s(&self, addr: i32, offset: u32) -> u128 {");
    reveal_strlit("    let a = addr as u32 as usize + offset as usize;");
    reveal_strlit("    let mut r = [0u8; 16];");
    reveal_strlit("    let mut i = 0;");
    reveal_strlit("    while i < 4 {");
    reveal_strlit("        let s = a + i * 2;");
    reveal_strlit("        let x = i16::from_le_bytes([self.mem()[s], self.mem()[s + 1]]) as i32;");
    reveal_strlit("        r[i * 4..i * 4 + 4].copy_from_slice(&x.to_le_bytes());");
    reveal_strlit("        i += 1;");
    reveal_strlit("    }");
    reveal_strlit("    u128::from_le_bytes(r)");
    reveal_strlit("}");
    let lines = base_lines(Helper::Load16x4S);
    assert(without_fn(lines[0], 1));
    assert(without_fn(lines[1], 0));
    assert(without_fn(lines[2], 0));
    assert(without_fn(lines[3], 0));
    assert(without_fn(lines[4], 0));
    assert(without_fn(lines[5], 0));
    assert(without_fn(lines[6], 58));
    assert(without_fn(lines[6], 0));
    assert(without_fn(lines[7], 58));
    assert(without_fn(lines[7], 0));
    assert(without_fn(lines[8], 0));
    assert(without_fn(lines[9], 0));
    assert(without_fn(lines[10], 0));
    assert(without_fn(lines[11], 0));
    let sig = signature(Helper::Load16x4S);
    assert(lines[0].subrange(0, sig.len() as int) =~= sig);
}

proof fn lemma_lines_load16x4_u()
    ensures
        fn_leads(base_lines(Helper::Load16x4U)),
        occurs_at(base_lines(Helper::Load16x4U)[0], 0, signature(Helper::Load16x4U)),
{
    reveal_with_fuel(without_fn, 62);
    reveal_strlit("fn ");
    reveal_strlit("(");
    reveal_strlit("load16x4_u");
    reveal_strlit("fn load16x4_u(&self, addr: i32, offset: u32) -> u128 {");
    reveal_strlit("    let a = addr as u32 as usize + offset as usize;");
    reveal_strlit("    let mut r = [0u8; 16];");
    reveal_strlit("    let mut i = 0;");
    reveal_strlit("    while i < 4 {");
    reveal_strlit("        let s = a + i * 2;");
    reveal_strlit("        let x = u16::from_le_bytes([self.mem()[s], self.mem()[s + 1]]) as u32;");
    reveal_strlit("        r[i * 4..i * 4 + 4].copy_from_slice(&x.to_le_bytes());");
    reveal_strlit("        i += 1;");
    reveal_strlit("    }");
    reveal_strlit("    u128::from_le_bytes(r)");
    reveal_strlit("}");
    let lines = base_lines(Helper::Load16x4U);
    assert(without_fn(lines[0], 1));
    assert(without_fn(lines[1], 0));
    assert(without_fn(lines[2], 0));
    assert(without_fn(lines[3], 0));
    assert(without_fn(lines[4], 0));
    assert(without_fn(lines[5], 0));
    assert(without_fn(lines[6], 58));
    assert(without_fn(lines[6], 0));
    assert(without_fn(lines[7], 58));
    assert(without_fn(lines[7], 0));
    assert(without_fn(lines[8], 0));
    assert(without_fn(lines[9], 0));
    assert(without_fn(lines[10], 0));
    assert(without_fn(lines[11], 0));
    let sig = signature(Helper::Load16x4U);
    assert(lines[0].subrange(0, sig.len() as int) =~= sig);
}

proof fn lemma_lines_load32x2_s()
    ensures
        fn_leads(base_lines(Helper::Load32x2S)),
        occurs_at(base_lines(Helper::Load32x2S)[0], 0, signature(Helper::Load32x2S)),
{
    reveal_with_fuel(without_fn, 62);
    reveal_strlit("fn ");
    reveal_strlit("(");
    reveal_strlit("load32x2_s");
    reveal_strlit("fn load32x2_s(&self, addr: i32, offset: u32) -> u128 {");
    reveal_strlit("    let a = addr as u32 as usize + offset as usize;");
    reveal_strlit("    let mut r = [0u8; 16];");
    reveal_strlit("    let mut i = 0;");
    reveal_strlit("    while i < 2 {");
    reveal_strlit("        let s = a + i * 4;");
    reveal_strlit("        let x = i32::from_le_bytes([self.mem()[s], self.mem()[s + 1], self.mem()[s + 2], self.mem()[s + 3]]) as i64;");
    reveal_strlit("        r[i * 8..i * 8 + 8].copy_from_slice(&x.to_le_bytes());");
    reveal_strlit("        i += 1;");
    reveal_strlit("    }");
    reveal_strlit("    u128::from_le_bytes(r)");
    reveal_strlit("}");
    let lines = base_lines(Helper::Load32x2S);
    assert(without_fn(lines[0], 1));
    assert(without_fn(lines[1], 0));
    assert(without_fn(lines[2], 0));
    assert(without_fn(lines[3], 0));
    assert(without_fn(lines[4], 0));
    assert(without_fn(lines[5], 0));
    assert(without_fn(lines[6], 58));
    assert(without_fn(lines[6], 0));
    assert(without_fn(lines[7], 58));
    assert(without_fn(lines[7], 0));
    assert(without_fn(lines[8], 0));
    assert(without_fn(lines[9], 0));
    assert(without_fn(lines[10], 0));
    assert(without_fn(lines[11], 0));
    let sig = signature(Helper::Load32x2S);
    assert(lines[0].subrange(0, sig.len() as int) =~= sig);
}

proof fn lemma_lines_load32x2_u()
    ensures
        fn_leads(base_lines(Helper::Load32x2U)),
        occurs_at(base_lines(Helper::Load32x2U)[0], 0, signature(Helper::Load32x2U)),
{
    reveal_with_fuel(without_fn, 62);
    reveal_strlit("fn ");
    reveal_strlit("(");
    reveal_strlit("load32x2_u");
    reveal_strlit("fn load32x2_u(&self, addr: i32, offset: u32) -> u128 {");
    reveal_strlit("    let a = addr as u32 as usize + offset as usize;");
    reveal_strlit("    let mut r = [0u8; 16];");
    reveal_strlit("    let mut i = 0;");
    reveal_strlit("    while i < 2 {");
    reveal_strlit("        let s = a + i * 4;");
    reveal_strlit("        let x = u32::from_le_bytes([self.mem()[s], self.mem()[s + 1], self.mem()[s + 2], self.mem()[s + 3]]) as u64;");
    reveal_strlit("        r[i * 8..i * 8 + 8].copy_from_slice(&x.to_le_bytes());");
    reveal_strlit("        i += 1;");
    reveal_strlit("    }");
    reveal_strlit("    u128::from_le_bytes(r)");
    reveal_strlit("}");
    let lines = base_lines(Helper::Load32x2U);
    assert(without_fn(lines[0], 1));
    assert(without_fn(lines[1], 0));
    assert(without_fn(lines[2], 0));
    assert(without_fn(lines[3], 0));
    assert(without_fn(lines[4], 0));
    assert(without_fn(lines[5], 0));
    assert(without_fn(lines[6], 58));
    assert(without_fn(lines[6], 0));
    assert(without_fn(lines[7], 58));
    assert(without_fn(lines[7], 0));
    assert(without_fn(lines[8], 0));
    assert(without_fn(lines[9], 0));
    assert(without_fn(lines[10], 0));
    assert(without_fn(lines[11], 0));
    let sig = signature(Helper::Load32x2U);
    assert(lines[0].subrange(0, sig.len() as int) =~= sig);
}

proof fn lemma_lines_load8_lane()
    ensures
        fn_leads(base_lines(Helper::Load8Lane)),
        occurs_at(base_lines(Helper::Load8Lane)[0], 0, signature(Helper::Load8Lane)),
{
    reveal_with_fuel(without_fn, 62);
    reveal_strlit("fn ");
    reveal_strlit("(");
    reveal_strlit("load8_lane");
    reveal_strlit("fn load8_lane(&self, addr: i32, offset: u32, value: u128, lane: usize) -> u128 {");
    reveal_strlit("    let a = addr as u32 as usize + offset as usize;");
    reveal_strlit("    let mut b = value.to_le_bytes();");
    reveal_strlit("    b[lane] = self.mem()[a];");
    reveal_strlit("    u128::from_le_bytes(b)");
    reveal_strlit("}");
    let lines = base_lines(Helper::Load8Lane);
    assert(without_fn(lines[0], 58));
    assert(without_fn(lines[0], 1));
    assert(without_fn(lines[1], 0));
    assert(without_fn(lines[2], 0));
    assert(without_fn(lines[3], 0));
    assert(without_fn(lines[4], 0));
    assert(without_fn(lines[5], 0));
    let sig = signature(Helper::Load8Lane);
    assert(lines[0].subrange(0, sig.len() as int) =~= sig);
}

proof fn lemma_lines_load16_lane()
    ensures
        fn_leads(base_lines(Helper::Load16Lane)),
        occurs_at(base_lines(Helper::Load16Lane)[0], 0, signature(Helper::Load16Lane)),
{
    reveal_with_fuel(without_fn, 62);
    reveal_strlit("fn ");
    reveal_strlit("(");
    reveal_strlit("load16_lane");
    reveal_strlit("fn load16_lane(&self, addr: i32, offset: u32, value: u128, lane: usize) -> u128 {");
    reveal_strlit("    let a = addr as u32 as usize + offset as usize;");
    reveal_strlit("    let o = lane * 2;");
    reveal_strlit("    let mut b = value.to_le_bytes();");
    reveal_strlit("    b[o..o + 2].copy_from_slice(&self.mem()[a..a + 2]);");
    reveal_strlit("    u128::from_le_bytes(b)");
    reveal_strlit("}");
    let lines = base_lines(Helper::Load16Lane);
    assert(without_fn(lines[0], 58));
    assert(without_fn(lines[0], 1));
    assert(without_fn(lines[1], 0));
    assert(without_fn(lines[2], 0));
    assert(without_fn(lines[3], 0));
    assert(without_fn(lines[4], 0));
    assert(without_fn(lines[5], 0));
    assert(without_fn(lines[6], 0));
    let sig = signature(Helper::Load16Lane);
    assert(lines[0].subrange(0, sig.len() as int) =~= sig);
}

proof fn lemma_lines_load32_lane()
    ensures
        fn_leads(base_lines(Helper::Load32Lane)),
        occurs_at(base_lines(Helper::Load32Lane)[0], 0, signature(Helper::Load32Lane)),
{
    reveal_with_fuel(without_fn, 62);
    reveal_strlit("fn ");
    reveal_strlit("(");
    reveal_strlit("load32_lane");
    reveal_strlit("fn load32_lane(&self, addr: i32, offset: u32, value: u128, lane: usize) -> u128 {");
    reveal_strlit("    let a = addr as u32 as usize + offset as usize;");
    reveal_strlit("    let o = lane * 4;");
    reveal_strlit("    let mut b = value.to_le_bytes();");
    reveal_strlit("    b[o..o + 4].copy_from_slice(&self.mem()[a..a + 4]);");
    reveal_strlit("    u128::from_le_bytes(b)");
    reveal_strlit("}");
    let lines = base_lines(Helper::Load32Lane);
    assert(without_fn(lines[0], 58));
    assert(without_fn(lines[0], 1));
    assert(without_fn(lines[1], 0));
    assert(without_fn(lines[2], 0));
    assert(without_fn(lines[3], 0));
    assert(without_fn(lines[4], 0));
    assert(without_fn(lines[5], 0));
    assert(without_fn(lines[6], 0));
    let sig = signature(Helper::Load32Lane);
    assert(lines[0].subrange(0, sig.len() as int) =~= sig);
}

proof fn lemma_lines_load64_lane()
    ensures
        fn_leads(base_lines(Helper::Load64Lane)),
        occurs_at(base_lines(Helper::Load64Lane)[0], 0, signature(Helper::Load64Lane)),
{
    reveal_with_fuel(without_fn, 62);
    reveal_strlit("fn ");
    reveal_strlit("(");
    reveal_strlit("load64_lane");
    reveal_strlit("fn load64_lane(&self, addr: i32, offset: u32, value: u128, lane: usize) -> u128 {");
    reveal_strlit("    let a = addr as u32 as usize + offset as usize;");
    reveal_strlit("    let o = lane * 8;");
    reveal_strlit("    let mut b = value.to_le_bytes();");
    reveal_strlit("    b[o..o + 8].copy_from_slice(&self.mem()[a..a + 8]);");
    reveal_strlit("    u128::from_le_bytes(b)");
    reveal_strlit("}");
    let lines = base_lines(Helper::Load64Lane);
    assert(without_fn(lines[0], 58));
    assert(without_fn(lines[0], 1));
    assert(without_fn(lines[1], 0));
    assert(without_fn(lines[2], 0));
    assert(without_fn(lines[3], 0));
    assert(without_fn(lines[4], 0));
    assert(without_fn(lines[5], 0));
    assert(without_fn(lines[6], 0));
    let sig = signature(Helper::Load64Lane);
    assert(lines[0].subrange(0, sig.len() as int) =~= sig);
}

proof fn lemma_lines_store8_lane()
    ensures
        fn_leads(base_lines(Helper::Store8Lane)),
        occurs_at(base_lines(Helper::Store8Lane)[0], 0, signature(Helper::Store8Lane)),
{
    reveal_with_fuel(without_fn, 62);
    reveal_strlit("fn ");
    reveal_strlit("(");
    reveal_strlit("store8_lane");
    reveal_strlit("fn store8_lane(&mut self, addr: i32, offset: u32, value: u128, lane: usize) {");
    reveal_strlit("    let a = addr as u32 as usize + offset as usize;");
    reveal_strlit("    self.mem_mut()[a] = value.to_le_bytes()[lane];");
    reveal_strlit("}");
    let lines = base_lines(Helper::Store8Lane);
    assert(without_fn(lines[0], 58));
    assert(without_fn(lines[0], 1));
    assert(without_fn(lines[1], 0));
    assert(without_fn(lines[2], 0));
    assert(without_fn(lines[3], 0));
    let sig = signature(Helper::Store8Lane);
    assert(lines[0].subrange(0, sig.len() as int) =~= sig);
}

proof fn lemma_lines_store16_lane()
    ensures
        fn_leads(base_lines(Helper::Store16Lane)),
        occurs_at(base_lines(Helper::Store16Lane)[0], 0, signature(Helper::Store16Lane)),
{
    reveal_with_fuel(without_fn, 62);
    reveal_strlit("fn ");
    reveal_strlit("(");
    reveal_strlit("store16_lane");
    reveal_strlit("fn store16_lane(&mut self, addr: i32, offset: u32, value: u128, lane: usize) {");
    reveal_strlit("    let a = addr as u32 as usize + offset as usize;");
    reveal_strlit("    let o = lane * 2;");
    reveal_strlit("    self.mem_mut()[a..a + 2].copy_from_slice(&value.to_le_bytes()[o..o + 2]);");
    reveal_strlit("}");
    let lines = base_lines(Helper::Store16Lane);
    assert(without_fn(lines[0], 58));
    assert(without_fn(lines[0], 1));
    assert(without_fn(lines[1], 0));
    assert(without_fn(lines[2], 0));
    assert(without_fn(lines[3], 58));
    assert(without_fn(lines[3], 0));
    assert(without_fn(lines[4], 0));
    let sig = signature(Helper::Store16Lane);
    assert(lines[0].subrange(0, sig.len() as int) =~= sig);
}

proof fn lemma_lines_store32_lane()
    ensures
        fn_leads(base_lines(Helper::Store32Lane)),
        occurs_at(base_lines(Helper::Store32Lane)[0], 0, signature(Helper::Store32Lane)),
{
    reveal_with_fuel(without_fn, 62);
    reveal_strlit("fn ");
    reveal_strlit("(");
    reveal_strlit("store32_lane");
    reveal_strlit("fn store32_lane(&mut self, addr: i32, offset: u32, value: u128, lane: usize) {");
    reveal_strlit("    let a = addr as u32 as usize + offset as usize;");
    reveal_strlit("    let o = lane * 4;");
    reveal_strlit("    self.mem_mut()[a..a + 4].copy_from_slice(&value.to_le_bytes()[o..o + 4]);");
    reveal_strlit("}");
    let lines = base_lines(Helper::Store32Lane);
    assert(without_fn(lines[0], 58));
    assert(without_fn(lines[0], 1));
    assert(without_fn(lines[1], 0));
    assert(without_fn(lines[2], 0));
    assert(without_fn(lines[3], 58));
    assert(without_fn(lines[3], 0));
    assert(without_fn(lines[4], 0));
    let sig = signature(Helper::Store32Lane);
    assert(lines[0].subrange(0, sig.len() as int) =~= sig);
}

proof fn lemma_lines_store64_lane()
    ensures
        fn_leads(base_lines(Helper::Store64Lane)),
        occurs_at(base_lines(Helper::Store64Lane)[0], 0, signature(Helper::Store64Lane)),
{
    reveal_with_fuel(without_fn, 62);
    reveal_strlit("fn ");
    reveal_strlit("(");
    reveal_strlit("store64_lane");
    reveal_strlit("fn store64_lane(&mut self, addr: i32, offset: u32, value: u128, lane: usize) {");
    reveal_strlit("    let a = addr as u32 as usize + offset as usize;");
    reveal_strlit("    let o = lane * 8;");
    reveal_strlit("    self.mem_mut()[a..a + 8].copy_from_slice(&value.to_le_bytes()[o..o + 8]);");
    reveal_strlit("}");
    let lines = base_lines(Helper::Store64Lane);
    assert(without_fn(lines[0], 58));
    assert(without_fn(lines[0], 1));
    assert(without_fn(lines[1], 0));
    assert(without_fn(lines[2], 0));
    assert(without_fn(lines[3], 58));
    assert(without_fn(lines[3], 0));
    assert(without_fn(lines[4], 0));
    let sig = signature(Helper::Store64Lane);
    assert(lines[0].subrange(0, sig.len() as int) =~= sig);
}

proof fn lemma_lines_grow()
    ensures
        fn_leads(base_lines(Helper::Grow)),
        occurs_at(base_lines(Helper::Grow)[0], 0, signature(Helper::Grow)),
{
    reveal_with_fuel(without_fn, 61);
    reveal_strlit("fn ");
    reveal_strlit("(");
    reveal_strlit("memory_grow");
    reveal_strlit("fn memory_grow(&mut self, delta: i32) -> i32 {");
    reveal_strlit("    let old_pages = (self.mem().len() / 65536) as u64;");
    reveal_strlit("    let new_pages = old_pages + (delta as u32 as u64);");
    reveal_strlit("    if new_pages > 65536 {");
    reveal_strlit("        return -1;");
    reveal_strlit("    }");
    reveal_strlit("    self.mem_mut().resize((new_pages as usize) * 65536, 0);");
    reveal_strlit("    old_pages as i32");
    reveal_strlit("}");
    let lines = base_lines(Helper::Grow);
    assert(without_fn(lines[0], 1));
    assert(without_fn(lines[1], 0));
    assert(without_fn(lines[2], 0));
    assert(without_fn(lines[3], 0));
    assert(without_fn(lines[4], 0));
    assert(without_fn(lines[5], 0));
    assert(without_fn(lines[6], 58));
    assert(without_fn(lines[6], 0));
    assert(without_fn(lines[7], 0));
    assert(without_fn(lines[8], 0));
    let sig = signature(Helper::Grow);
    assert(lines[0].subrange(0, sig.len() as int) =~= sig);
}

proof fn lemma_lines_memory_fill()
    ensures
        fn_leads(base_lines(Helper::MemoryFill)),
        occurs_at(base_lines(Helper::MemoryFill)[0], 0, signature(Helper::MemoryFill)),
{
    reveal_with_fuel(without_fn, 60);
    reveal_strlit("fn ");
    reveal_strlit("(");
    reveal_strlit("memory_fill");
    reveal_strlit("fn memory_fill(&mut self, dest: u32, val: i32, len: u32) {");
    reveal_strlit("    let d = dest as usize;");
    reveal_strlit("    self.mem_mut()[d..d + len as usize].fill(val as u8);");
    reveal_strlit("}");
    let lines = base_lines(Helper::MemoryFill);
    assert(without_fn(lines[0], 1));
    assert(without_fn(lines[1], 0));
    assert(without_fn(lines[2], 0));
    assert(without_fn(lines[3], 0));
    let sig = signature(Helper::MemoryFill);
    assert(lines[0].subrange(0, sig.len() as int) =~= sig);
}

proof fn lemma_lines_memory_copy()
    ensures
        fn_leads(base_lines(Helper::MemoryCopy)),
        occurs_at(base_lines(Helper::MemoryCopy)[0], 0, signature(Helper::MemoryCopy)),
{
    reveal_with_fuel(without_fn, 60);
    reveal_strlit("fn ");
    reveal_strlit("(");
    reveal_strlit("memory_copy");
    reveal_strlit("fn memory_copy(&mut self, dest: u32, src: u32, len: u32) {");
    reveal_strlit("    let s = src as usize;");
    reveal_strlit("    let d = dest as usize;");
    reveal_strlit("    self.mem_mut().copy_within(s..s + len as usize, d);");
    reveal_strlit("}");
    let lines = base_lines(Helper::MemoryCopy);
    assert(without_fn(lines[0], 1));
    assert(without_fn(lines[1], 0));
    assert(without_fn(lines[2], 0));
    assert(without_fn(lines[3], 0));
    assert(without_fn(lines[4], 0));
    let sig = signature(Helper::MemoryCopy);
    assert(lines[0].subrange(0, sig.len() as int) =~= sig);
}

proof fn lemma_lines_table_copy()
    ensures
        fn_leads(base_lines(Helper::TableCopy)),
        occurs_at(base_lines(Helper::TableCopy)[0], 0, signature(Helper::TableCopy)),
{
    reveal_with_fuel(without_fn, 59);
    reveal_strlit("fn ");
    reveal_strlit("(");
    reveal_strlit("table_copy");
    reveal_strlit("fn table_copy(&mut self, dest: u32, src: u32, len: u32) {");
    reveal_strlit("    let s = src as usize;");
    reveal_strlit("    let d = dest as usize;");
    reveal_strlit("    self.table_mut().copy_within(s..s + len as usize, d);");
    reveal_strlit("}");
    let lines = base_lines(Helper::TableCopy);
    assert(without_fn(lines[0], 1));
    assert(without_fn(lines[1], 0));
    assert(without_fn(lines[2], 0));
    assert(without_fn(lines[3], 0));
    assert(without_fn(lines[4], 0));
    let sig = signature(Helper::TableCopy);
    assert(lines[0].subrange(0, sig.len() as int) =~= sig);
}

proof fn lemma_lines_table_fill()
    ensures
        fn_leads(base_lines(Helper::TableFill)),
        occurs_at(base_lines(Helper::TableFill)[0], 0, signature(Helper::TableFill)),
{
    reveal_with_fuel(without_fn, 59);
    reveal_strlit("fn ");
    reveal_strlit("(");
    reveal_strlit("table_fill");
    reveal_strlit("fn table_fill(&mut self, dest: u32, val: u32, len: u32) {");
    reveal_strlit("    let d = dest as usize;");
    reveal_strlit("    self.table_mut()[d..d + len as usize].fill(val);");
    reveal_strlit("}");
    let lines = base_lines(Helper::TableFill);
    assert(without_fn(lines[0], 1));
    assert(without_fn(lines[1], 0));
    assert(without_fn(lines[2], 0));
    assert(without_fn(lines[3], 0));
    let sig = signature(Helper::TableFill);
    assert(lines[0].subrange(0, sig.len() as int) =~= sig);
}

/// The name of a helper stands once in its lines as `fn ` and the name: at the
/// start of the first line.
pub proof fn law_signature_stands_once(helper: Helper, k: int, i: int)
    requires
        0 <= k < base_lines(helper).len(),
    ensures
        occurs_at(base_lines(helper)[k], i, signature(helper)) == (k == 0 && i == 0),
{
    match helper {
        Helper::LoadI32 => {
            lemma_lines_load_i32();
        },
        Helper::Load8U => {
            lemma_lines_load8_u();
        },
        Helper::Load8S => {
            lemma_lines_load8_s();
        },
        Helper::Load16U => {
            lemma_lines_load16_u();
        },
        Helper::Load16S => {
            lemma_lines_load16_s();
        },
        Helper::LoadI64 => {
            lemma_lines_load_i64();
        },
        Helper::LoadF32 => {
            lemma_lines_load_f32();
        },
        Helper::LoadF64 => {
            lemma_lines_load_f64();
        },
        Helper::Load8UI64 => {
            lemma_lines_load8_u_i64();
        },
        Helper::Load8SI64 => {
            lemma_lines_load8_s_i64();
        },
        Helper::Load16UI64 => {
            lemma_lines_load16_u_i64();
        },
        Helper::Load16SI64 => {
            lemma_lines_load16_s_i64();
        },
        Helper::Load32UI64 => {
            lemma_lines_load32_u_i64();
        },
        Helper::Load32SI64 => {
            lemma_lines_load32_s_i64();
        },
        Helper::StoreI32 => {
            lemma_lines_store_i32();
        },
        Helper::Store8 => {
            lemma_lines_store8();
        },
        Helper::Store16 => {
            lemma_lines_store16();
        },
        Helper::StoreI64 => {
            lemma_lines_store_i64();
        },
        Helper::StoreF32 => {
            lemma_lines_store_f32();
        },
        Helper::StoreF64 => {
            lemma_lines_store_f64();
        },
        Helper::Store8I64 => {
            lemma_lines_store8_i64();
        },
        Helper::Store16I64 => {
            lemma_lines_store16_i64();
        },
        Helper::Store32I64 => {
            lemma_lines_store32_i64();
        },
        Helper::LoadV128 => {
            lemma_lines_load_v128();
        },
        Helper::StoreV128 => {
            lemma_lines_store_v128();
        },
        Helper::Load8Splat => {
            lemma_lines_load8_splat();
        },
        Helper::Load16Splat => {
            lemma_lines_load16_splat();
        },
        Helper::Load32Splat => {
            lemma_lines_load32_splat();
        },
        Helper::Load64Splat => {
            lemma_lines_load64_splat();
        },
        Helper::Load32Zero => {
            lemma_lines_load32_zero();
        },
        Helper::Load64Zero => {
            lemma_lines_load64_zero();
        },
        Helper::Load8x8S => {
            lemma_lines_load8x8_s();
        },
        Helper::Load8x8U => {
            lemma_lines_load8x8_u();
        },
        Helper::Load16x4S => {
            lemma_lines_load16x4_s();
        },
        Helper::Load16x4U => {
            lemma_lines_load16x4_u();
        },
        Helper::Load32x2S => {
            lemma_lines_load32x2_s();
        },
        Helper::Load32x2U => {
            lemma_lines_load32x2_u();
        },
        Helper::Load8Lane => {
            lemma_lines_load8_lane();
        },
        Helper::Load16Lane => {
            lemma_lines_load16_lane();
        },
        Helper::Load32Lane => {
            lemma_lines_load32_lane();
        },
        Helper::Load64Lane => {
            lemma_lines_load64_lane();
        },
        Helper::Store8Lane => {
            lemma_lines_store8_lane();
        },
        Helper::Store16Lane => {
            lemma_lines_store16_lane();
        },
        Helper::Store32Lane => {
            lemma_lines_store32_lane();
        },
        Helper::Store64Lane => {
            lemma_lines_store64_lane();
        },
        Helper::Grow => {
            lemma_lines_grow();
        },
        Helper::MemoryFill => {
            lemma_lines_memory_fill();
        },
        Helper::MemoryCopy => {
            lemma_lines_memory_copy();
        },
        Helper::TableCopy => {
            lemma_lines_table_copy();
        },
        Helper::TableFill => {
            lemma_lines_table_fill();
        },
    }
    let line = base_lines(helper)[k];
    if k == 0 {
        if i >= 1 {
            lemma_without_fn(line, 1, helper, i);
        }
    } else if i >= 0 {
        lemma_without_fn(line, 0, helper, i);
    }
}

// ---------------------------------------------------------------------------
// Accessors
// ---------------------------------------------------------------------------
/// Whether replacing text by `to` can make no `q`.
spec fn alien(q: Seq<char>, to: Seq<char>) -> bool {
    &&& q.len() > 0
    &&& to.len() > 0
    &&& to[0] == q[0]
    &&& forall|k: int| 1 <= k < q.len() ==> #[trigger] q[k] != q[0]
    &&& forall|k: int| 1 <= k < to.len() ==> #[trigger] to[k] != q[0]
    &&& exists|j: int| 0 <= j < q.len() && j < to.len() && #[trigger] q[j] != to[j]
}

/// What a rewritten text starts with inside `q`, the text does.
proof fn lemma_starts(
    t: Seq<char>,
    i: int,
    pat: Seq<char>,
    to: Seq<char>,
    q: Seq<char>,
    k: int,
)
    requires
        alien(q, to),
        0 <= i <= t.len(),
        1 <= k <= q.len(),
        replaced_from(t, i, pat, to).len() >= q.len() - k,
        replaced_from(t, i, pat, to).take(q.len() - k) == q.skip(k),
    ensures
        i + q.len() - k <= t.len(),
        t.subrange(i, i + q.len() - k) == q.skip(k),
    decreases q.len() - k,
{
    let u = replaced_from(t, i, pat, to);
    if k < q.len() {
        assert(u.take(q.len() - k)[0] == q[k]);
        assert(i < t.len());
        if pat.len() > 0 && occurs_at(t, i, pat) {
            assert(u[0] == to[0]);
        } else {
            let rest = replaced_from(t, i + 1, pat, to);
            assert(u[0] == t[i]);
            assert(rest =~= u.skip(1));
            assert(rest.take(q.len() - k - 1) =~= u.take(q.len() - k).skip(1));
            assert(q.skip(k + 1) =~= q.skip(k).skip(1));
            lemma_starts(t, i + 1, pat, to, q, k + 1);
            assert(t.subrange(i, i + q.len() - k) =~= seq![t[i]] + t.subrange(
                i + 1,
                i + q.len() - k,
            ));
            assert(q.skip(k) =~= seq![q[k]] + q.skip(k + 1));
        }
    } else {
        assert(t.subrange(i, i) =~= q.skip(k));
    }
}

/// Replacing makes no new `q`, and takes away those that it replaces.
proof fn lemma_absent(
    t: Seq<char>,
    i: int,
    pat: Seq<char>,
    to: Seq<char>,
    q: Seq<char>,
    p: int,
)
    requires
        alien(q, to),
        pat.len() > 0,
        0 <= i <= t.len(),
        forall|x: int| #[trigger] occurs_at(t, x, q) ==> occurs_at(t, x, pat),
    ensures
        !occurs_at(replaced_from(t, i, pat, to), p, q),
    decreases t.len() - i,
{
    let u = replaced_from(t, i, pat, to);
    if occurs_at(u, p, q) {
        let found = u.subrange(p, p + q.len());
        assert(found[0] == u[p]);
        if i < t.len() {
            if occurs_at(t, i, pat) {
                let rest = replaced_from(t, i + pat.len(), pat, to);
                if p == 0 {
                    let j = choose|j: int|
                        0 <= j < q.len() && j < to.len() && #[trigger] q[j] != to[j];
                    assert(found[j] == u[j]);
                    assert(u[j] == to[j]);
                } else if p < to.len() {
                    assert(u[p] == to[p]);
                } else {
                    let x = p - to.len();
                    assert(rest.subrange(x, x + q.len()) =~= found);
                    lemma_absent(t, i + pat.len(), pat, to, q, x);
                }
            } else {
                let rest = replaced_from(t, i + 1, pat, to);
                if p == 0 {
                    assert(rest =~= u.skip(1));
                    assert(rest.take(q.len() - 1) =~= found.skip(1));
                    lemma_starts(t, i + 1, pat, to, q, 1);
                    assert(t.subrange(i, i + q.len()) =~= seq![t[i]] + t.subrange(
                        i + 1,
                        i + q.len(),
                    ));
                    assert(q =~= seq![q[0]] + q.skip(1));
                    assert(occurs_at(t, i, q));
                } else {
                    assert(rest.subrange(p - 1, p - 1 + q.len()) =~= found);
                    lemma_absent(t, i + 1, pat, to, q, p - 1);
                }
            }
        }
    }
}

proof fn lemma_accessors(mem: u32)
    requires
        mem > 0,
    ensures
        ({
            let get = ("self."@ + accessor_texts(mem).0 + "()"@);
            let get_mut = ("self."@ + accessor_texts(mem).1 + "()"@);
            &&& alien("self.mem_mut()"@, get_mut)
            &&& alien("self.mem()"@, get)
            &&& alien("self.mem_mut()"@, get)
        }),
{
    reveal_strlit("self.mem()");
    reveal_strlit("self.mem_mut()");
    reveal_strlit("self.");
    reveal_strlit("mem");
    reveal_strlit("_mut");
    reveal_strlit("()");
    let d = dec(mem as nat);
    law_numbers_read_back(mem as nat);
    let get = ("self."@ + accessor_texts(mem).0 + "()"@);
    let get_mut = ("self."@ + accessor_texts(mem).1 + "()"@);
    let n = d.len();
    assert(is_digit(d[0]));
    assert(get[8] == d[0] && get_mut[8] == d[0]);
    assert forall|k: int| 1 <= k < get.len() implies #[trigger] get[k] != 's' by {
        if 8 <= k < 8 + n {
            assert(get[k] == d[k - 8]);
            assert(is_digit(d[k - 8]));
        }
    }
    assert forall|k: int| 1 <= k < get_mut.len() implies #[trigger] get_mut[k] != 's' by {
        if 8 <= k < 8 + n {
            assert(get_mut[k] == d[k - 8]);
            assert(is_digit(d[k - 8]));
        }
    }
    let a = "self.mem()"@;
    let b = "self.mem_mut()"@;
    assert(a[8] != get[8]);
    assert(b[8] != get[8] && b[8] != get_mut[8]);
}

/// The lines of a helper for a further memory are those for memory 0, one by one,
/// with the name in the signature and the accessors replaced, and nothing of them
/// speaks of memory 0.
pub proof fn law_helpers_keep_to_their_memory(helper: Helper, mem: u32, k: int)
    requires
        mem > 0,
        0 <= k < base_lines(helper).len(),
    ensures
        helper_source(helper, 0) == base_lines(helper),
        helper_source(helper, mem).len() == base_lines(helper).len(),
        helper_source(helper, mem)[k] == replaced_all(
            replaced_all(
                replaced_first(
                    base_lines(helper)[k],
                    signature(helper),
                    ("fn "@ + helper_method_text(helper, mem) + "("@),
                ),
                "self.mem_mut()"@,
                ("self.mem"@ + dec(mem as nat) + "_mut()"@),
            ),
            "self.mem()"@,
            ("self.mem"@ + dec(mem as nat) + "()"@),
        ),
        !holds_text(helper_source(helper, mem)[k], "self.mem()"@),
        !holds_text(helper_source(helper, mem)[k], "self.mem_mut()"@),
{
    reveal_strlit("self.mem()");
    reveal_strlit("self.mem_mut()");
    reveal_strlit("self.mem");
    reveal_strlit("self.");
    reveal_strlit("mem");
    reveal_strlit("_mut");
    reveal_strlit("_mut()");
    reveal_strlit("()");
    let get = ("self."@ + accessor_texts(mem).0 + "()"@);
    let get_mut = ("self."@ + accessor_texts(mem).1 + "()"@);
    let line = base_lines(helper)[k];
    let to = ("fn "@ + helper_text(helper) + "_m"@ + dec(mem as nat) + "("@);
    assert(to =~= ("fn "@ + helper_method_text(helper, mem) + "("@));
    assert(get =~= ("self.mem"@ + dec(mem as nat) + "()"@));
    assert(get_mut =~= ("self.mem"@ + dec(mem as nat) + "_mut()"@));
    let one = replaced_first(line, signature(helper), to);
    let two = replaced_all(one, "self.mem_mut()"@, get_mut);
    let three = replaced_all(two, "self.mem()"@, get);
    lemma_accessors(mem);
    assert forall|p: int| !#[trigger] occurs_at(two, p, "self.mem_mut()"@) by {
        lemma_absent(one, 0, "self.mem_mut()"@, get_mut, "self.mem_mut()"@, p);
    }
    assert forall|p: int| !#[trigger] occurs_at(three, p, "self.mem_mut()"@) by {
        lemma_absent(two, 0, "self.mem()"@, get, "self.mem_mut()"@, p);
    }
    assert forall|p: int| !#[trigger] occurs_at(three, p, "self.mem()"@) by {
        lemma_absent(two, 0, "self.mem()"@, get, "self.mem()"@, p);
    }
    assert(helper_source(helper, mem)[k] == specialised_line(helper, mem, line));
}

} // verus!
