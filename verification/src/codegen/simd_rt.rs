//! Lane-wise SIMD runtime helpers: module-scope free functions over `u128`
//! (a v128), each splitting the register into lanes, applying a per-lane scalar
//! operation, and repacking. Unlike the scalar [`Rt`](crate::codegen::runtime::Rt)
//! helpers there are many and they are highly regular, so they are described by a
//! table and generated from a single template rather than written out by hand. A
//! function tracks the ones it uses by name.

use vstd::prelude::*;

use crate::codegen::runtime::{block_text, render_blocks};
use crate::text::{dec, join, joined, lit, texts, Buf, Lines, NameSet};

verus! {

/// How a lane helper combines the bound lane value(s) into the per-lane result,
/// written in terms of `x` (and `y` for binary ops).
#[derive(Clone, Copy)]
pub enum Combine {
    /// Binary infix: `x <op> y` (e.g. `+`, `/`).
    Infix(&'static str),
    /// A method call: `x.<m>(y)` for binary lanes, `x.<m>()` for unary.
    Method(&'static str),
    /// wasm `min`/`max`: NaN-propagating, and for equal operands (notably ±0)
    /// picks by sign. `order` is `<` for min / `>` for max; `equal` chooses the
    /// winner when `x == y`. Mirrors the scalar `f32_min`/`f32_max` helpers.
    MinMax { equal: &'static str, order: &'static str },
    /// A custom single expression in `x` and `y` (used for `pmin`/`pmax`).
    Expr(&'static str),
}

/// One lane helper: `name` is the emitted function name, `elem` the Rust lane
/// type, `bytes` its width, `binary` whether it takes two vectors (`fn(a, b)`)
/// or one (`fn(a)`), and `combine` how the lane result is formed. Integer lanes
/// use a signed `elem` because wrapping add/sub/mul/neg produce identical bits
/// for signed and unsigned lanes.
#[derive(Clone, Copy)]
pub struct Lane {
    pub name: &'static str,
    pub elem: &'static str,
    pub bytes: u32,
    pub binary: bool,
    pub combine: Combine,
}

/// One entry of the table.
pub fn lane(
    name: &'static str,
    elem: &'static str,
    bytes: u32,
    binary: bool,
    combine: Combine,
) -> (r: Lane)
    ensures
        r == (Lane { name, elem, bytes, binary, combine }),
{
    Lane { name, elem, bytes, binary, combine }
}

/// All lane helpers, in a deterministic emission order.
pub open spec fn lane_list() -> Seq<Lane> {
    Seq::empty().push(
        Lane {
            name: "i8x16_add",
            elem: "i8",
            bytes: 1,
            binary: true,
            combine: Combine::Method("wrapping_add"),
        },
    ).push(
        Lane {
            name: "i16x8_add",
            elem: "i16",
            bytes: 2,
            binary: true,
            combine: Combine::Method("wrapping_add"),
        },
    ).push(
        Lane {
            name: "i32x4_add",
            elem: "i32",
            bytes: 4,
            binary: true,
            combine: Combine::Method("wrapping_add"),
        },
    ).push(
        Lane {
            name: "i64x2_add",
            elem: "i64",
            bytes: 8,
            binary: true,
            combine: Combine::Method("wrapping_add"),
        },
    ).push(
        Lane {
            name: "i8x16_sub",
            elem: "i8",
            bytes: 1,
            binary: true,
            combine: Combine::Method("wrapping_sub"),
        },
    ).push(
        Lane {
            name: "i16x8_sub",
            elem: "i16",
            bytes: 2,
            binary: true,
            combine: Combine::Method("wrapping_sub"),
        },
    ).push(
        Lane {
            name: "i32x4_sub",
            elem: "i32",
            bytes: 4,
            binary: true,
            combine: Combine::Method("wrapping_sub"),
        },
    ).push(
        Lane {
            name: "i64x2_sub",
            elem: "i64",
            bytes: 8,
            binary: true,
            combine: Combine::Method("wrapping_sub"),
        },
    ).push(
        Lane {
            name: "i16x8_mul",
            elem: "i16",
            bytes: 2,
            binary: true,
            combine: Combine::Method("wrapping_mul"),
        },
    ).push(
        Lane {
            name: "i32x4_mul",
            elem: "i32",
            bytes: 4,
            binary: true,
            combine: Combine::Method("wrapping_mul"),
        },
    ).push(
        Lane {
            name: "i64x2_mul",
            elem: "i64",
            bytes: 8,
            binary: true,
            combine: Combine::Method("wrapping_mul"),
        },
    ).push(
        Lane {
            name: "i8x16_neg",
            elem: "i8",
            bytes: 1,
            binary: false,
            combine: Combine::Method("wrapping_neg"),
        },
    ).push(
        Lane {
            name: "i16x8_neg",
            elem: "i16",
            bytes: 2,
            binary: false,
            combine: Combine::Method("wrapping_neg"),
        },
    ).push(
        Lane {
            name: "i32x4_neg",
            elem: "i32",
            bytes: 4,
            binary: false,
            combine: Combine::Method("wrapping_neg"),
        },
    ).push(
        Lane {
            name: "i64x2_neg",
            elem: "i64",
            bytes: 8,
            binary: false,
            combine: Combine::Method("wrapping_neg"),
        },
    ).push(
        Lane {
            name: "f32x4_add",
            elem: "f32",
            bytes: 4,
            binary: true,
            combine: Combine::Infix("+"),
        },
    ).push(
        Lane {
            name: "f64x2_add",
            elem: "f64",
            bytes: 8,
            binary: true,
            combine: Combine::Infix("+"),
        },
    ).push(
        Lane {
            name: "f32x4_sub",
            elem: "f32",
            bytes: 4,
            binary: true,
            combine: Combine::Infix("-"),
        },
    ).push(
        Lane {
            name: "f64x2_sub",
            elem: "f64",
            bytes: 8,
            binary: true,
            combine: Combine::Infix("-"),
        },
    ).push(
        Lane {
            name: "f32x4_mul",
            elem: "f32",
            bytes: 4,
            binary: true,
            combine: Combine::Infix("*"),
        },
    ).push(
        Lane {
            name: "f64x2_mul",
            elem: "f64",
            bytes: 8,
            binary: true,
            combine: Combine::Infix("*"),
        },
    ).push(
        Lane {
            name: "f32x4_div",
            elem: "f32",
            bytes: 4,
            binary: true,
            combine: Combine::Infix("/"),
        },
    ).push(
        Lane {
            name: "f64x2_div",
            elem: "f64",
            bytes: 8,
            binary: true,
            combine: Combine::Infix("/"),
        },
    ).push(
        Lane {
            name: "f32x4_min",
            elem: "f32",
            bytes: 4,
            binary: true,
            combine: Combine::MinMax { equal: "if x.is_sign_negative() { x } else { y }",
                order: "<" },
        },
    ).push(
        Lane {
            name: "f64x2_min",
            elem: "f64",
            bytes: 8,
            binary: true,
            combine: Combine::MinMax { equal: "if x.is_sign_negative() { x } else { y }",
                order: "<" },
        },
    ).push(
        Lane {
            name: "f32x4_max",
            elem: "f32",
            bytes: 4,
            binary: true,
            combine: Combine::MinMax { equal: "if x.is_sign_negative() { y } else { x }",
                order: ">" },
        },
    ).push(
        Lane {
            name: "f64x2_max",
            elem: "f64",
            bytes: 8,
            binary: true,
            combine: Combine::MinMax { equal: "if x.is_sign_negative() { y } else { x }",
                order: ">" },
        },
    ).push(
        Lane {
            name: "f32x4_pmin",
            elem: "f32",
            bytes: 4,
            binary: true,
            combine: Combine::Expr("if y < x { y } else { x }"),
        },
    ).push(
        Lane {
            name: "f64x2_pmin",
            elem: "f64",
            bytes: 8,
            binary: true,
            combine: Combine::Expr("if y < x { y } else { x }"),
        },
    ).push(
        Lane {
            name: "f32x4_pmax",
            elem: "f32",
            bytes: 4,
            binary: true,
            combine: Combine::Expr("if x < y { y } else { x }"),
        },
    ).push(
        Lane {
            name: "f64x2_pmax",
            elem: "f64",
            bytes: 8,
            binary: true,
            combine: Combine::Expr("if x < y { y } else { x }"),
        },
    ).push(
        Lane {
            name: "f32x4_sqrt",
            elem: "f32",
            bytes: 4,
            binary: false,
            combine: Combine::Method("sqrt"),
        },
    ).push(
        Lane {
            name: "f64x2_sqrt",
            elem: "f64",
            bytes: 8,
            binary: false,
            combine: Combine::Method("sqrt"),
        },
    ).push(
        Lane {
            name: "f32x4_ceil",
            elem: "f32",
            bytes: 4,
            binary: false,
            combine: Combine::Method("ceil"),
        },
    ).push(
        Lane {
            name: "f64x2_ceil",
            elem: "f64",
            bytes: 8,
            binary: false,
            combine: Combine::Method("ceil"),
        },
    ).push(
        Lane {
            name: "f32x4_floor",
            elem: "f32",
            bytes: 4,
            binary: false,
            combine: Combine::Method("floor"),
        },
    ).push(
        Lane {
            name: "f64x2_floor",
            elem: "f64",
            bytes: 8,
            binary: false,
            combine: Combine::Method("floor"),
        },
    ).push(
        Lane {
            name: "f32x4_trunc",
            elem: "f32",
            bytes: 4,
            binary: false,
            combine: Combine::Method("trunc"),
        },
    ).push(
        Lane {
            name: "f64x2_trunc",
            elem: "f64",
            bytes: 8,
            binary: false,
            combine: Combine::Method("trunc"),
        },
    ).push(
        Lane {
            name: "f32x4_nearest",
            elem: "f32",
            bytes: 4,
            binary: false,
            combine: Combine::Method("round_ties_even"),
        },
    ).push(
        Lane {
            name: "f64x2_nearest",
            elem: "f64",
            bytes: 8,
            binary: false,
            combine: Combine::Method("round_ties_even"),
        },
    )
}

/// All lane helpers, in a deterministic emission order.
pub fn lanes() -> (r: Vec<Lane>)
    ensures
        r@ == lane_list(),
{
    let mut out: Vec<Lane> = Vec::new();
    out.push(lane("i8x16_add", "i8", 1, true, Combine::Method("wrapping_add")));
    out.push(lane("i16x8_add", "i16", 2, true, Combine::Method("wrapping_add")));
    out.push(lane("i32x4_add", "i32", 4, true, Combine::Method("wrapping_add")));
    out.push(lane("i64x2_add", "i64", 8, true, Combine::Method("wrapping_add")));
    out.push(lane("i8x16_sub", "i8", 1, true, Combine::Method("wrapping_sub")));
    out.push(lane("i16x8_sub", "i16", 2, true, Combine::Method("wrapping_sub")));
    out.push(lane("i32x4_sub", "i32", 4, true, Combine::Method("wrapping_sub")));
    out.push(lane("i64x2_sub", "i64", 8, true, Combine::Method("wrapping_sub")));
    out.push(lane("i16x8_mul", "i16", 2, true, Combine::Method("wrapping_mul")));
    out.push(lane("i32x4_mul", "i32", 4, true, Combine::Method("wrapping_mul")));
    out.push(lane("i64x2_mul", "i64", 8, true, Combine::Method("wrapping_mul")));
    out.push(lane("i8x16_neg", "i8", 1, false, Combine::Method("wrapping_neg")));
    out.push(lane("i16x8_neg", "i16", 2, false, Combine::Method("wrapping_neg")));
    out.push(lane("i32x4_neg", "i32", 4, false, Combine::Method("wrapping_neg")));
    out.push(lane("i64x2_neg", "i64", 8, false, Combine::Method("wrapping_neg")));
    out.push(lane("f32x4_add", "f32", 4, true, Combine::Infix("+")));
    out.push(lane("f64x2_add", "f64", 8, true, Combine::Infix("+")));
    out.push(lane("f32x4_sub", "f32", 4, true, Combine::Infix("-")));
    out.push(lane("f64x2_sub", "f64", 8, true, Combine::Infix("-")));
    out.push(lane("f32x4_mul", "f32", 4, true, Combine::Infix("*")));
    out.push(lane("f64x2_mul", "f64", 8, true, Combine::Infix("*")));
    out.push(lane("f32x4_div", "f32", 4, true, Combine::Infix("/")));
    out.push(lane("f64x2_div", "f64", 8, true, Combine::Infix("/")));
    out.push(lane("f32x4_min", "f32", 4, true,
        Combine::MinMax { equal: "if x.is_sign_negative() { x } else { y }", order: "<" }));
    out.push(lane("f64x2_min", "f64", 8, true,
        Combine::MinMax { equal: "if x.is_sign_negative() { x } else { y }", order: "<" }));
    out.push(lane("f32x4_max", "f32", 4, true,
        Combine::MinMax { equal: "if x.is_sign_negative() { y } else { x }", order: ">" }));
    out.push(lane("f64x2_max", "f64", 8, true,
        Combine::MinMax { equal: "if x.is_sign_negative() { y } else { x }", order: ">" }));
    out.push(lane("f32x4_pmin", "f32", 4, true, Combine::Expr("if y < x { y } else { x }")));
    out.push(lane("f64x2_pmin", "f64", 8, true, Combine::Expr("if y < x { y } else { x }")));
    out.push(lane("f32x4_pmax", "f32", 4, true, Combine::Expr("if x < y { y } else { x }")));
    out.push(lane("f64x2_pmax", "f64", 8, true, Combine::Expr("if x < y { y } else { x }")));
    out.push(lane("f32x4_sqrt", "f32", 4, false, Combine::Method("sqrt")));
    out.push(lane("f64x2_sqrt", "f64", 8, false, Combine::Method("sqrt")));
    out.push(lane("f32x4_ceil", "f32", 4, false, Combine::Method("ceil")));
    out.push(lane("f64x2_ceil", "f64", 8, false, Combine::Method("ceil")));
    out.push(lane("f32x4_floor", "f32", 4, false, Combine::Method("floor")));
    out.push(lane("f64x2_floor", "f64", 8, false, Combine::Method("floor")));
    out.push(lane("f32x4_trunc", "f32", 4, false, Combine::Method("trunc")));
    out.push(lane("f64x2_trunc", "f64", 8, false, Combine::Method("trunc")));
    out.push(lane("f32x4_nearest", "f32", 4, false, Combine::Method("round_ties_even")));
    out.push(lane("f64x2_nearest", "f64", 8, false, Combine::Method("round_ties_even")));
    out
}

/// The per-lane result expression in terms of the bound lane values `x` (and `y`
/// for binary lanes).
pub open spec fn combine_text(lane: Lane) -> Seq<char> {
    match lane.combine {
        Combine::Infix(op) => ("x "@ + op@ + " y"@),
        Combine::Method(m) => if lane.binary {
            ("x."@ + m@ + "(y)"@)
        } else {
            ("x."@ + m@ + "()"@)
        },
        Combine::MinMax { equal, order } => ("if x.is_nan() || y.is_nan() { "@ + lane.elem@
            + "::NAN } else if x == y { "@ + equal@ + " } else if x "@ + order@
            + " y { x } else { y }"@),
        Combine::Expr(e) => e@,
    }
}

/// The source of one lane helper: read each lane as `elem`, combine, and write
/// the result back, iterating over the 16 bytes in `bytes`-wide steps.
pub open spec fn lane_source(lane: Lane) -> Seq<Seq<char>> {
    let sig = if lane.binary {
        "a: u128, b: u128"@
    } else {
        "a: u128"@
    };
    let o1 = Seq::empty().push(("fn "@ + lane.name@ + "("@ + sig + ") -> u128 {"@)).push(
        "    let a = a.to_le_bytes();"@,
    );
    let o2 = if lane.binary {
        o1.push("    let b = b.to_le_bytes();"@)
    } else {
        o1
    };
    let o3 = o2.push("    let mut r = [0u8; 16];"@).push("    let mut i = 0;"@).push(
        "    while i < 16 {"@,
    ).push(
        ("        let x = "@ + lane.elem@ + "::from_le_bytes(a[i..i + "@ + dec(lane.bytes as nat)
            + "].try_into().unwrap());"@),
    );
    let o4 = if lane.binary {
        o3.push(
            ("        let y = "@ + lane.elem@ + "::from_le_bytes(b[i..i + "@
                + dec(lane.bytes as nat) + "].try_into().unwrap());"@),
        )
    } else {
        o3
    };
    o4.push(
        ("        r[i..i + "@ + dec(lane.bytes as nat) + "].copy_from_slice(&("@
            + combine_text(lane) + ").to_le_bytes());"@),
    ).push(("        i += "@ + dec(lane.bytes as nat) + ";"@)).push("    }"@).push(
        "    u128::from_le_bytes(r)"@,
    ).push("}"@)
}

/// The per-lane result expression in terms of the bound lane values `x` (and
/// `y` for binary lanes).
pub fn combine_expr(lane: &Lane) -> (r: String)
    ensures
        r@ == combine_text(*lane),
{
    match lane.combine {
        Combine::Infix(op) => Buf::lit("x ").s(op).s(" y").end(),
        Combine::Method(m) => if lane.binary {
            Buf::lit("x.").s(m).s("(y)").end()
        } else {
            Buf::lit("x.").s(m).s("()").end()
        },
        Combine::MinMax { equal, order } => Buf::lit("if x.is_nan() || y.is_nan() { ").s(lane.elem)
            .s("::NAN } else if x == y { ").s(equal).s(" } else if x ").s(order)
            .s(" y { x } else { y }").end(),
        Combine::Expr(e) => lit(e),
    }
}

/// The source lines of one lane helper: read each lane as `elem`, combine, and
/// write the result back, iterating over the 16 bytes in `bytes`-wide steps.
pub fn lane_lines(lane: &Lane) -> (r: Vec<String>)
    ensures
        texts(r@) == lane_source(*lane),
{
    let sig = if lane.binary {
        "a: u128, b: u128"
    } else {
        "a: u128"
    };
    let mut lines = Lines::new();
    lines.add(Buf::lit("fn ").s(lane.name).s("(").s(sig).s(") -> u128 {").end());
    lines.lit("    let a = a.to_le_bytes();");
    if lane.binary {
        lines.lit("    let b = b.to_le_bytes();");
    }
    lines.lit("    let mut r = [0u8; 16];");
    lines.lit("    let mut i = 0;");
    lines.lit("    while i < 16 {");
    lines.add(
        Buf::lit("        let x = ").s(lane.elem).s("::from_le_bytes(a[i..i + ")
            .n(lane.bytes as u64).s("].try_into().unwrap());").end(),
    );
    if lane.binary {
        lines.add(
            Buf::lit("        let y = ").s(lane.elem).s("::from_le_bytes(b[i..i + ")
                .n(lane.bytes as u64).s("].try_into().unwrap());").end(),
        );
    }
    lines.add(
        Buf::lit("        r[i..i + ").n(lane.bytes as u64).s("].copy_from_slice(&(")
            .s(&combine_expr(lane)).s(").to_le_bytes());").end(),
    );
    lines.add(Buf::lit("        i += ").n(lane.bytes as u64).s(";").end());
    lines.lit("    }");
    lines.lit("    u128::from_le_bytes(r)");
    lines.lit("}");
    lines.v
}

/// The sources of the used helpers among `list`, one block each.
pub open spec fn lane_blocks(list: Seq<Lane>, used: Set<Seq<char>>) -> Seq<Seq<char>>
    decreases list.len(),
{
    if list.len() == 0 {
        Seq::empty()
    } else if used.contains(list.last().name@) {
        lane_blocks(list.drop_last(), used).push(joined(lane_source(list.last()), "\n"@))
    } else {
        lane_blocks(list.drop_last(), used)
    }
}

/// Render the used lane helpers as module-scope free functions, in table order,
/// separated by blank lines. Returns an empty string if none are used.
pub fn render_simd_helpers(used: &NameSet) -> (r: String)
    ensures
        r@ == block_text(lane_blocks(lane_list(), used@)),
{
    let table = lanes();
    let ghost all = table@;
    let mut blocks = Lines::new();
    let mut i: usize = 0;
    while i < table.len()
        invariant
            i <= table@.len(),
            all == table@,
            blocks@ == lane_blocks(all.take(i as int), used@),
        decreases table@.len() - i,
    {
        assert(all.take(i + 1).drop_last() =~= all.take(i as int));
        if used.contains(table[i].name) {
            blocks.add(join(&lane_lines(&table[i]), "\n"));
        }
        i += 1;
    }
    assert(all.take(all.len() as int) =~= all);
    render_blocks(&blocks.v)
}

} // verus!
