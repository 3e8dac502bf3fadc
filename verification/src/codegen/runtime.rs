//! The free-standing runtime functions that generated code calls.

use vstd::prelude::*;

use crate::text::{join, joined, lemma_push_to_set, lit, texts, Buf, Lines};

verus! {

/// A free-standing runtime helper function emitted at module scope on demand.
/// Unlike a memory helper, these do not touch instance state (memory/globals), so
/// they are plain `fn`s usable from both stateless and stateful modules — used
/// for operations whose wasm semantics differ from Rust's built-in operators.
#[derive(Clone, Copy, PartialEq, Eq, Structural, Debug)]
pub enum Rt {
    F32Min,
    F32Max,
    F64Min,
    F64Max,
    I32TruncF32S,
    I32TruncF32U,
    I32TruncF64S,
    I32TruncF64U,
    I64TruncF32S,
    I64TruncF32U,
    I64TruncF64S,
    I64TruncF64U,
    // SIMD lane-splat helpers: broadcast a scalar into every lane of a v128.
    SplatI8x16,
    SplatI16x8,
    SplatI32x4,
    SplatI64x2,
    SplatF32x4,
    SplatF64x2,
    // The cold halves of traps, kept out of line.
    TrapUnreachable,
    TrapIndirectTypeMismatch,
}

/// The name of a runtime helper.
pub open spec fn rt_text(rt: Rt) -> Seq<char> {
    match rt {
        Rt::F32Min => "f32_min"@,
        Rt::F32Max => "f32_max"@,
        Rt::F64Min => "f64_min"@,
        Rt::F64Max => "f64_max"@,
        Rt::I32TruncF32S => "i32_trunc_f32_s"@,
        Rt::I32TruncF32U => "i32_trunc_f32_u"@,
        Rt::I32TruncF64S => "i32_trunc_f64_s"@,
        Rt::I32TruncF64U => "i32_trunc_f64_u"@,
        Rt::I64TruncF32S => "i64_trunc_f32_s"@,
        Rt::I64TruncF32U => "i64_trunc_f32_u"@,
        Rt::I64TruncF64S => "i64_trunc_f64_s"@,
        Rt::I64TruncF64U => "i64_trunc_f64_u"@,
        Rt::SplatI8x16 => "i8x16_splat"@,
        Rt::SplatI16x8 => "i16x8_splat"@,
        Rt::SplatI32x4 => "i32x4_splat"@,
        Rt::SplatI64x2 => "i64x2_splat"@,
        Rt::SplatF32x4 => "f32x4_splat"@,
        Rt::SplatF64x2 => "f64x2_splat"@,
        Rt::TrapUnreachable => "trap_unreachable"@,
        Rt::TrapIndirectTypeMismatch => "trap_indirect_type_mismatch"@,
    }
}

/// The name of a runtime helper.
pub fn rt_name(rt: Rt) -> (r: &'static str)
    ensures
        r@ == rt_text(rt),
{
    match rt {
        Rt::F32Min => "f32_min",
        Rt::F32Max => "f32_max",
        Rt::F64Min => "f64_min",
        Rt::F64Max => "f64_max",
        Rt::I32TruncF32S => "i32_trunc_f32_s",
        Rt::I32TruncF32U => "i32_trunc_f32_u",
        Rt::I32TruncF64S => "i32_trunc_f64_s",
        Rt::I32TruncF64U => "i32_trunc_f64_u",
        Rt::I64TruncF32S => "i64_trunc_f32_s",
        Rt::I64TruncF32U => "i64_trunc_f32_u",
        Rt::I64TruncF64S => "i64_trunc_f64_s",
        Rt::I64TruncF64U => "i64_trunc_f64_u",
        Rt::SplatI8x16 => "i8x16_splat",
        Rt::SplatI16x8 => "i16x8_splat",
        Rt::SplatI32x4 => "i32x4_splat",
        Rt::SplatI64x2 => "i64x2_splat",
        Rt::SplatF32x4 => "f32x4_splat",
        Rt::SplatF64x2 => "f64x2_splat",
        Rt::TrapUnreachable => "trap_unreachable",
        Rt::TrapIndirectTypeMismatch => "trap_indirect_type_mismatch",
    }
}

/// The source of a min/max helper. wasm `min`/`max` return NaN if either operand
/// is NaN, and when the operands are equal (notably ±0) `min` yields the
/// negatively-signed and `max` the positively-signed value.
pub open spec fn minmax_source(
    name: Seq<char>,
    ty: Seq<char>,
    equal_pick: Seq<char>,
    order_op: Seq<char>,
) -> Seq<Seq<char>> {
    Seq::empty().push(("fn "@ + name + "(a: "@ + ty + ", b: "@ + ty + ") -> "@ + ty + " {"@)).push(
        "    if a.is_nan() || b.is_nan() {"@,
    ).push(("        return "@ + ty + "::NAN;"@)).push("    }"@).push("    if a == b {"@).push(
        ("        "@ + equal_pick),
    ).push(("    } else if a "@ + order_op
        + " b {"@)).push("        a"@).push("    } else {"@).push(
        "        b"@,
    ).push("    }"@).push("}"@)
}

/// The source of a trapping truncation: trap on NaN, trap when the value is
/// outside `range`, else convert via `cast`.
pub open spec fn trunc_source(
    name: Seq<char>,
    ft: Seq<char>,
    it: Seq<char>,
    range: Seq<char>,
    cast: Seq<char>,
) -> Seq<Seq<char>> {
    Seq::empty().push(("fn "@ + name + "(x: "@ + ft + ") -> "@ + it
        + " {"@)).push("    if x.is_nan() {"@).push(
        "        panic!(\"invalid conversion to integer\");"@,
    ).push("    }"@).push(("    if !("@ + range + ") {"@)).push(
        "        panic!(\"integer overflow\");"@,
    ).push("    }"@).push(("    "@ + cast)).push("}"@)
}

/// The source of a splat: the bytes of one lane repeated over the register.
pub open spec fn splat_source(
    name: Seq<char>,
    ty: Seq<char>,
    lane: Seq<char>,
    bytes: Seq<char>,
) -> Seq<Seq<char>> {
    Seq::empty().push(("fn "@ + name + "(x: "@ + ty + ") -> u128 {"@)).push(
        ("    let lane = "@ + lane + ".to_le_bytes();"@),
    ).push("    let mut r = [0u8; 16];"@).push("    let mut i = 0;"@).push(
        "    while i < 16 {"@,
    ).push(("        r[i..i + "@ + bytes + "].copy_from_slice(&lane);"@)).push(("        i += "@
        + bytes + ";"@)).push(
        "    }"@,
    ).push("    u128::from_le_bytes(r)"@).push("}"@)
}

/// The source of a trap: a cold function that panics.
pub open spec fn trap_source(name: Seq<char>, message: Seq<char>) -> Seq<Seq<char>> {
    Seq::empty().push("#[cold]"@).push("#[inline(never)]"@).push(("fn "@ + name
        + "() -> ! {"@)).push(
        ("    panic!(\""@ + message + "\")"@),
    ).push("}"@)
}

/// For equal operands, `min` keeps the negative one and `max` the positive one.
pub open spec fn equal_pick_text(is_min: bool) -> Seq<char> {
    if is_min {
        "if a.is_sign_negative() { a } else { b }"@
    } else {
        "if a.is_sign_negative() { b } else { a }"@
    }
}

// The in-range predicates for the trapping truncations, following wasm2c's
// proven bounds. Signed f32 sources use `>=` on the exact `-2^N` lower bound
// (the next representable f32 below already truncates out of range); signed
// i32-from-f64 needs a strict `> -2^31 - 1` because f64 can represent values
// between `-2^31 - 1` and `-2^31`. Unsigned sources reject anything `<= -1`.
pub const TRUNC_I32_S_F32: &'static str = "x >= -2147483648.0f32 && x < 2147483648.0f32";

pub const TRUNC_I32_S_F64: &'static str = "x > -2147483649.0f64 && x < 2147483648.0f64";

pub const TRUNC_I64_S_F32: &'static str = "x >= -9223372036854775808.0f32 && x < 9223372036854775808.0f32";

pub const TRUNC_I64_S_F64: &'static str = "x >= -9223372036854775808.0f64 && x < 9223372036854775808.0f64";

pub const TRUNC_U_F32_32: &'static str = "x > -1.0f32 && x < 4294967296.0f32";

pub const TRUNC_U_F64_32: &'static str = "x > -1.0f64 && x < 4294967296.0f64";

pub const TRUNC_U_F32_64: &'static str = "x > -1.0f32 && x < 18446744073709551616.0f32";

pub const TRUNC_U_F64_64: &'static str = "x > -1.0f64 && x < 18446744073709551616.0f64";

/// The source of one runtime helper.
pub open spec fn rt_source(rt: Rt) -> Seq<Seq<char>> {
    match rt {
        Rt::F32Min => minmax_source("f32_min"@, "f32"@, equal_pick_text(true), "<"@),
        Rt::F32Max => minmax_source("f32_max"@, "f32"@, equal_pick_text(false), ">"@),
        Rt::F64Min => minmax_source("f64_min"@, "f64"@, equal_pick_text(true), "<"@),
        Rt::F64Max => minmax_source("f64_max"@, "f64"@, equal_pick_text(false), ">"@),
        Rt::I32TruncF32S => trunc_source(
            "i32_trunc_f32_s"@,
            "f32"@,
            "i32"@,
            TRUNC_I32_S_F32@,
            "x as i32"@,
        ),
        Rt::I32TruncF32U => trunc_source(
            "i32_trunc_f32_u"@,
            "f32"@,
            "i32"@,
            TRUNC_U_F32_32@,
            "x as u32 as i32"@,
        ),
        Rt::I32TruncF64S => trunc_source(
            "i32_trunc_f64_s"@,
            "f64"@,
            "i32"@,
            TRUNC_I32_S_F64@,
            "x as i32"@,
        ),
        Rt::I32TruncF64U => trunc_source(
            "i32_trunc_f64_u"@,
            "f64"@,
            "i32"@,
            TRUNC_U_F64_32@,
            "x as u32 as i32"@,
        ),
        Rt::I64TruncF32S => trunc_source(
            "i64_trunc_f32_s"@,
            "f32"@,
            "i64"@,
            TRUNC_I64_S_F32@,
            "x as i64"@,
        ),
        Rt::I64TruncF32U => trunc_source(
            "i64_trunc_f32_u"@,
            "f32"@,
            "i64"@,
            TRUNC_U_F32_64@,
            "x as u64 as i64"@,
        ),
        Rt::I64TruncF64S => trunc_source(
            "i64_trunc_f64_s"@,
            "f64"@,
            "i64"@,
            TRUNC_I64_S_F64@,
            "x as i64"@,
        ),
        Rt::I64TruncF64U => trunc_source(
            "i64_trunc_f64_u"@,
            "f64"@,
            "i64"@,
            TRUNC_U_F64_64@,
            "x as u64 as i64"@,
        ),
        Rt::SplatI8x16 => splat_source("i8x16_splat"@, "i32"@, "(x as i8)"@, "1"@),
        Rt::SplatI16x8 => splat_source("i16x8_splat"@, "i32"@, "(x as i16)"@, "2"@),
        Rt::SplatI32x4 => splat_source("i32x4_splat"@, "i32"@, "x"@, "4"@),
        Rt::SplatI64x2 => splat_source("i64x2_splat"@, "i64"@, "x"@, "8"@),
        Rt::SplatF32x4 => splat_source("f32x4_splat"@, "f32"@, "x"@, "4"@),
        Rt::SplatF64x2 => splat_source("f64x2_splat"@, "f64"@, "x"@, "8"@),
        Rt::TrapUnreachable => trap_source("trap_unreachable"@, "unreachable"@),
        Rt::TrapIndirectTypeMismatch => trap_source(
            "trap_indirect_type_mismatch"@,
            "indirect call type mismatch"@,
        ),
    }
}

/// A non-saturating float->int truncation helper: trap on NaN, trap when the
/// value is outside `range`, else convert via `cast`.
pub fn trunc_lines(name: &str, ft: &str, it: &str, range: &str, cast: &str) -> (r: Vec<String>)
    ensures
        texts(r@) == trunc_source(name@, ft@, it@, range@, cast@),
{
    let mut out = Lines::new();
    out.add(Buf::lit("fn ").s(name).s("(x: ").s(ft).s(") -> ").s(it).s(" {").end());
    out.lit("    if x.is_nan() {");
    out.lit("        panic!(\"invalid conversion to integer\");");
    out.lit("    }");
    out.add(Buf::lit("    if !(").s(range).s(") {").end());
    out.lit("        panic!(\"integer overflow\");");
    out.lit("    }");
    out.add(Buf::lit("    ").s(cast).end());
    out.lit("}");
    out.v
}

fn splat_lines(name: &str, ty: &str, lane: &str, bytes: &str) -> (r: Vec<String>)
    ensures
        texts(r@) == splat_source(name@, ty@, lane@, bytes@),
{
    let mut out = Lines::new();
    out.add(Buf::lit("fn ").s(name).s("(x: ").s(ty).s(") -> u128 {").end());
    out.add(Buf::lit("    let lane = ").s(lane).s(".to_le_bytes();").end());
    out.lit("    let mut r = [0u8; 16];");
    out.lit("    let mut i = 0;");
    out.lit("    while i < 16 {");
    out.add(Buf::lit("        r[i..i + ").s(bytes).s("].copy_from_slice(&lane);").end());
    out.add(Buf::lit("        i += ").s(bytes).s(";").end());
    out.lit("    }");
    out.lit("    u128::from_le_bytes(r)");
    out.lit("}");
    out.v
}

fn trap_lines(name: &str, message: &str) -> (r: Vec<String>)
    ensures
        texts(r@) == trap_source(name@, message@),
{
    let mut out = Lines::new();
    out.lit("#[cold]");
    out.lit("#[inline(never)]");
    out.add(Buf::lit("fn ").s(name).s("() -> ! {").end());
    out.add(Buf::lit("    panic!(\"").s(message).s("\")").end());
    out.lit("}");
    out.v
}

/// wasm `min`/`max` return NaN if either operand is NaN, and when the operands
/// are equal (notably ±0) `min` yields the negatively-signed and `max` the
/// positively-signed value — differing from Rust's `f32::min`/`max`.
pub fn rt_minmax_lines(rt: Rt) -> (r: Vec<String>)
    requires
        rt == Rt::F32Min || rt == Rt::F32Max || rt == Rt::F64Min || rt == Rt::F64Max,
    ensures
        texts(r@) == rt_source(rt),
{
    let name = rt_name(rt);
    let ty = if rt == Rt::F32Min || rt == Rt::F32Max {
        "f32"
    } else {
        "f64"
    };
    // For equal operands, `min` keeps the negative one and `max` the positive
    // one; the `<`/`>` picks the smaller/larger otherwise.
    let is_min = rt == Rt::F32Min || rt == Rt::F64Min;
    let equal_pick = if is_min {
        "if a.is_sign_negative() { a } else { b }"
    } else {
        "if a.is_sign_negative() { b } else { a }"
    };
    let order_op = if is_min {
        "<"
    } else {
        ">"
    };
    let mut out = Lines::new();
    out.add(Buf::lit("fn ").s(name).s("(a: ").s(ty).s(", b: ").s(ty).s(") -> ").s(ty).s(" {")
        .end());
    out.lit("    if a.is_nan() || b.is_nan() {");
    out.add(Buf::lit("        return ").s(ty).s("::NAN;").end());
    out.lit("    }");
    out.lit("    if a == b {");
    out.add(Buf::lit("        ").s(equal_pick).end());
    out.add(Buf::lit("    } else if a ").s(order_op).s(" b {").end());
    out.lit("        a");
    out.lit("    } else {");
    out.lit("        b");
    out.lit("    }");
    out.lit("}");
    out.v
}

/// The source lines of one runtime helper, dispatched to its template.
pub fn rt_lines(rt: Rt) -> (r: Vec<String>)
    ensures
        texts(r@) == rt_source(rt),
{
    match rt {
        Rt::F32Min => rt_minmax_lines(rt),
        Rt::F32Max => rt_minmax_lines(rt),
        Rt::F64Min => rt_minmax_lines(rt),
        Rt::F64Max => rt_minmax_lines(rt),
        Rt::I32TruncF32S => {
            trunc_lines("i32_trunc_f32_s", "f32", "i32", TRUNC_I32_S_F32, "x as i32")
        },
        Rt::I32TruncF32U => {
            trunc_lines("i32_trunc_f32_u", "f32", "i32", TRUNC_U_F32_32, "x as u32 as i32")
        },
        Rt::I32TruncF64S => {
            trunc_lines("i32_trunc_f64_s", "f64", "i32", TRUNC_I32_S_F64, "x as i32")
        },
        Rt::I32TruncF64U => {
            trunc_lines("i32_trunc_f64_u", "f64", "i32", TRUNC_U_F64_32, "x as u32 as i32")
        },
        Rt::I64TruncF32S => {
            trunc_lines("i64_trunc_f32_s", "f32", "i64", TRUNC_I64_S_F32, "x as i64")
        },
        Rt::I64TruncF32U => {
            trunc_lines("i64_trunc_f32_u", "f32", "i64", TRUNC_U_F32_64, "x as u64 as i64")
        },
        Rt::I64TruncF64S => {
            trunc_lines("i64_trunc_f64_s", "f64", "i64", TRUNC_I64_S_F64, "x as i64")
        },
        Rt::I64TruncF64U => {
            trunc_lines("i64_trunc_f64_u", "f64", "i64", TRUNC_U_F64_64, "x as u64 as i64")
        },
        Rt::SplatI8x16 => splat_lines("i8x16_splat", "i32", "(x as i8)", "1"),
        Rt::SplatI16x8 => splat_lines("i16x8_splat", "i32", "(x as i16)", "2"),
        Rt::SplatI32x4 => splat_lines("i32x4_splat", "i32", "x", "4"),
        Rt::SplatI64x2 => splat_lines("i64x2_splat", "i64", "x", "8"),
        Rt::SplatF32x4 => splat_lines("f32x4_splat", "f32", "x", "4"),
        Rt::SplatF64x2 => splat_lines("f64x2_splat", "f64", "x", "8"),
        Rt::TrapUnreachable => trap_lines("trap_unreachable", "unreachable"),
        Rt::TrapIndirectTypeMismatch => trap_lines(
            "trap_indirect_type_mismatch",
            "indirect call type mismatch",
        ),
    }
}

/// All runtime free-function helpers, in a deterministic emission order.
pub open spec fn rt_list() -> Seq<Rt> {
    Seq::empty().push(Rt::F32Min).push(Rt::F32Max).push(Rt::F64Min).push(Rt::F64Max).push(Rt::I32TruncF32S).push(Rt::I32TruncF32U).push(Rt::I32TruncF64S).push(Rt::I32TruncF64U).push(Rt::I64TruncF32S).push(Rt::I64TruncF32U).push(Rt::I64TruncF64S).push(Rt::I64TruncF64U).push(Rt::SplatI8x16).push(Rt::SplatI16x8).push(Rt::SplatI32x4).push(Rt::SplatI64x2).push(Rt::SplatF32x4).push(Rt::SplatF64x2).push(Rt::TrapUnreachable).push(Rt::TrapIndirectTypeMismatch)
}

/// All runtime free-function helpers, in a deterministic emission order.
pub fn rt_order() -> (r: Vec<Rt>)
    ensures
        r@ == rt_list(),
{
    let mut out: Vec<Rt> = Vec::new();
    out.push(Rt::F32Min);
    out.push(Rt::F32Max);
    out.push(Rt::F64Min);
    out.push(Rt::F64Max);
    out.push(Rt::I32TruncF32S);
    out.push(Rt::I32TruncF32U);
    out.push(Rt::I32TruncF64S);
    out.push(Rt::I32TruncF64U);
    out.push(Rt::I64TruncF32S);
    out.push(Rt::I64TruncF32U);
    out.push(Rt::I64TruncF64S);
    out.push(Rt::I64TruncF64U);
    out.push(Rt::SplatI8x16);
    out.push(Rt::SplatI16x8);
    out.push(Rt::SplatI32x4);
    out.push(Rt::SplatI64x2);
    out.push(Rt::SplatF32x4);
    out.push(Rt::SplatF64x2);
    out.push(Rt::TrapUnreachable);
    out.push(Rt::TrapIndirectTypeMismatch);
    out
}

/// The sources of the used helpers among `list`, one block each.
pub open spec fn rt_blocks(list: Seq<Rt>, used: Set<Rt>) -> Seq<Seq<char>>
    decreases list.len(),
{
    if list.len() == 0 {
        Seq::empty()
    } else if used.contains(list.last()) {
        rt_blocks(list.drop_last(), used).push(joined(rt_source(list.last()), "\n"@))
    } else {
        rt_blocks(list.drop_last(), used)
    }
}

/// Blocks separated by blank lines, with a line break at the end if there are
/// any.
pub open spec fn block_text(blocks: Seq<Seq<char>>) -> Seq<char> {
    let out = joined(blocks, "\n\n"@);
    if out.len() == 0 {
        out
    } else {
        out + "\n"@
    }
}

/// Joins blocks by blank lines, with a line break at the end if there are any.
pub fn render_blocks(blocks: &Vec<String>) -> (r: String)
    ensures
        r@ == block_text(texts(blocks@)),
{
    let mut out = join(blocks, "\n\n");
    if !out.as_str().is_empty() {
        out.append("\n");
    }
    out
}

/// Render the used runtime helpers as module-scope free functions, in order,
/// separated by blank lines. Returns an empty string if none.
pub fn render_rt_helpers(used: &RtSet) -> (r: String)
    ensures
        r@ == block_text(rt_blocks(rt_list(), used@)),
{
    let order = rt_order();
    let ghost all = order@;
    let mut blocks = Lines::new();
    let mut i: usize = 0;
    while i < order.len()
        invariant
            i <= order@.len(),
            all == order@,
            blocks@ == rt_blocks(all.take(i as int), used@),
        decreases order@.len() - i,
    {
        assert(all.take(i + 1).drop_last() =~= all.take(i as int));
        if used.contains(order[i]) {
            blocks.add(join(&rt_lines(order[i]), "\n"));
        }
        i += 1;
    }
    assert(all.take(all.len() as int) =~= all);
    render_blocks(&blocks.v)
}

/// The runtime helpers that a module uses.
pub struct RtSet {
    pub v: Vec<Rt>,
}

impl View for RtSet {
    type V = Set<Rt>;

    open spec fn view(&self) -> Set<Rt> {
        self.v@.to_set()
    }
}

impl RtSet {
    /// No helpers.
    pub fn new() -> (r: RtSet)
        ensures
            r@ == Set::<Rt>::empty(),
    {
        let r = RtSet { v: Vec::new() };
        assert(r@ =~= Set::<Rt>::empty());
        r
    }

    /// Whether `rt` is used.
    pub fn contains(&self, rt: Rt) -> (r: bool)
        ensures
            r == self@.contains(rt),
    {
        let mut i: usize = 0;
        while i < self.v.len()
            invariant
                i <= self.v@.len(),
                forall|k: int| 0 <= k < i ==> self.v@[k] != rt,
            decreases self.v@.len() - i,
        {
            if self.v[i] == rt {
                assert(self.v@.contains(rt));
                return true;
            }
            i += 1;
        }
        false
    }

    /// Notes that `rt` is used.
    pub fn insert(&mut self, rt: Rt)
        ensures
            final(self)@ == old(self)@.insert(rt),
    {
        if self.contains(rt) {
            assert(self@.insert(rt) =~= self@);
            return;
        }
        proof {
            lemma_push_to_set(self.v@, rt);
        }
        self.v.push(rt);
    }

    /// Notes everything that `other` holds.
    pub fn extend(&mut self, other: &RtSet)
        ensures
            final(self)@ == old(self)@.union(other@),
    {
        let ghost start = self@;
        let mut i: usize = 0;
        assert(self@ =~= start.union(other.v@.take(0).to_set()));
        while i < other.v.len()
            invariant
                i <= other.v@.len(),
                self@ == start.union(other.v@.take(i as int).to_set()),
            decreases other.v@.len() - i,
        {
            let rt = other.v[i];
            self.insert(rt);
            proof {
                let now = other.v@.take(i + 1);
                assert(now =~= other.v@.take(i as int).push(rt));
                lemma_push_to_set(other.v@.take(i as int), rt);
                assert(self@ =~= start.union(now.to_set()));
            }
            i += 1;
        }
        assert(other.v@.take(other.v@.len() as int) =~= other.v@);
    }
}

} // verus!
