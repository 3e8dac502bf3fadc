//! Operands reach the parameters of the helper methods they are meant for.

use vstd::prelude::*;

use crate::codegen::func::lowering::{load_lane_rule, load_rule, store_lane_rule, store_rule};
use crate::codegen::func::memvals::rmw_text;
use crate::codegen::func::state::GenV;
use crate::codegen::func::value_laws::{law_expressions_are_pushed, law_freezing_keeps_values,
    yields};
use crate::codegen::helpers::{base_lines, helper_method_text, helper_text, Helper};
use crate::codegen::ir::{NodeV, ValV};
use crate::error::FailV;
use crate::ops::{
    AtomicWidth, LoadLaneOp, LoadOp, Operator, RmwOp, StoreLaneOp, StoreOp,
};
use crate::text::{dec, group_text, joined};
use crate::wasm::{MemArg, ValType};

verus! {

// ---------------------------------------------------------------------------
// Signatures
// ---------------------------------------------------------------------------
/// Parameters as they are declared behind the receiver, each a name and a type.
pub open spec fn declared(params: Seq<(Seq<char>, Seq<char>)>) -> Seq<char>
    decreases params.len(),
{
    if params.len() == 0 {
        Seq::empty()
    } else {
        declared(params.drop_last()) + ", "@ + params.last().0 + ": "@ + params.last().1
    }
}

/// Whether the line begins a method `name` with the given parameters.
pub open spec fn declares(
    line: Seq<char>,
    name: Seq<char>,
    params: Seq<(Seq<char>, Seq<char>)>,
) -> bool {
    exists|receiver: Seq<char>, rest: Seq<char>|
        (receiver == "&self"@ || receiver == "&mut self"@) && line == #[trigger] ("fn "@ + name
            + "("@ + receiver + declared(params) + ")"@ + rest)
}

proof fn lemma_two(a: (Seq<char>, Seq<char>), b: (Seq<char>, Seq<char>))
    ensures
        declared(seq![a, b]) == ", "@ + a.0 + ": "@ + a.1 + ", "@ + b.0 + ": "@ + b.1,
        declared(seq![a]) == ", "@ + a.0 + ": "@ + a.1,
{
    assert(seq![a].drop_last() =~= Seq::<(Seq<char>, Seq<char>)>::empty());
    assert(declared(seq![a].drop_last()) == Seq::<char>::empty());
    assert(declared(seq![a]) =~= ", "@ + a.0 + ": "@ + a.1);
    assert(seq![a, b].drop_last() =~= seq![a]);
}

proof fn lemma_four(
    a: (Seq<char>, Seq<char>),
    b: (Seq<char>, Seq<char>),
    c: (Seq<char>, Seq<char>),
    d: (Seq<char>, Seq<char>),
)
    ensures
        declared(seq![a, b, c]) == declared(seq![a, b]) + ", "@ + c.0 + ": "@ + c.1,
        declared(seq![a, b, c, d]) == declared(seq![a, b, c]) + ", "@ + d.0 + ": "@ + d.1,
{
    assert(seq![a, b, c].drop_last() =~= seq![a, b]);
    assert(seq![a, b, c, d].drop_last() =~= seq![a, b, c]);
}

#[verifier::rlimit(40)]
proof fn lemma_load_i32()
    ensures
        declares(
            base_lines(Helper::LoadI32)[0],
            helper_text(Helper::LoadI32),
            seq![("addr"@, "i32"@), ("offset"@, "u32"@)],
        ),
{
    reveal_strlit("fn r32(&self, addr: i32, offset: u32) -> i32 {");
    reveal_strlit("fn ");
    reveal_strlit("(");
    reveal_strlit("&self");
    reveal_strlit(")");
    reveal_strlit(" -> i32 {");
    reveal_strlit(", ");
    reveal_strlit(": ");
    reveal_strlit("r32");
    reveal_strlit("addr");
    reveal_strlit("i32");
    reveal_strlit("offset");
    reveal_strlit("u32");
    lemma_two(("addr"@, "i32"@), ("offset"@, "u32"@));
    let line = base_lines(Helper::LoadI32)[0];
    assert(line == "fn r32(&self, addr: i32, offset: u32) -> i32 {"@);
    assert(line =~= "fn "@ + "r32"@ + "("@ + "&self"@
        + declared(seq![("addr"@, "i32"@), ("offset"@, "u32"@)]) + ")"@ + " -> i32 {"@);
}

#[verifier::rlimit(40)]
proof fn lemma_load8_u()
    ensures
        declares(
            base_lines(Helper::Load8U)[0],
            helper_text(Helper::Load8U),
            seq![("addr"@, "i32"@), ("offset"@, "u32"@)],
        ),
{
    reveal_strlit("fn r8u(&self, addr: i32, offset: u32) -> i32 {");
    reveal_strlit("fn ");
    reveal_strlit("(");
    reveal_strlit("&self");
    reveal_strlit(")");
    reveal_strlit(" -> i32 {");
    reveal_strlit(", ");
    reveal_strlit(": ");
    reveal_strlit("r8u");
    reveal_strlit("addr");
    reveal_strlit("i32");
    reveal_strlit("offset");
    reveal_strlit("u32");
    lemma_two(("addr"@, "i32"@), ("offset"@, "u32"@));
    let line = base_lines(Helper::Load8U)[0];
    assert(line == "fn r8u(&self, addr: i32, offset: u32) -> i32 {"@);
    assert(line =~= "fn "@ + "r8u"@ + "("@ + "&self"@
        + declared(seq![("addr"@, "i32"@), ("offset"@, "u32"@)]) + ")"@ + " -> i32 {"@);
}

#[verifier::rlimit(40)]
proof fn lemma_load8_s()
    ensures
        declares(
            base_lines(Helper::Load8S)[0],
            helper_text(Helper::Load8S),
            seq![("addr"@, "i32"@), ("offset"@, "u32"@)],
        ),
{
    reveal_strlit("fn r8s(&self, addr: i32, offset: u32) -> i32 {");
    reveal_strlit("fn ");
    reveal_strlit("(");
    reveal_strlit("&self");
    reveal_strlit(")");
    reveal_strlit(" -> i32 {");
    reveal_strlit(", ");
    reveal_strlit(": ");
    reveal_strlit("r8s");
    reveal_strlit("addr");
    reveal_strlit("i32");
    reveal_strlit("offset");
    reveal_strlit("u32");
    lemma_two(("addr"@, "i32"@), ("offset"@, "u32"@));
    let line = base_lines(Helper::Load8S)[0];
    assert(line == "fn r8s(&self, addr: i32, offset: u32) -> i32 {"@);
    assert(line =~= "fn "@ + "r8s"@ + "("@ + "&self"@
        + declared(seq![("addr"@, "i32"@), ("offset"@, "u32"@)]) + ")"@ + " -> i32 {"@);
}

#[verifier::rlimit(40)]
proof fn lemma_load16_u()
    ensures
        declares(
            base_lines(Helper::Load16U)[0],
            helper_text(Helper::Load16U),
            seq![("addr"@, "i32"@), ("offset"@, "u32"@)],
        ),
{
    reveal_strlit("fn r16u(&self, addr: i32, offset: u32) -> i32 {");
    reveal_strlit("fn ");
    reveal_strlit("(");
    reveal_strlit("&self");
    reveal_strlit(")");
    reveal_strlit(" -> i32 {");
    reveal_strlit(", ");
    reveal_strlit(": ");
    reveal_strlit("r16u");
    reveal_strlit("addr");
    reveal_strlit("i32");
    reveal_strlit("offset");
    reveal_strlit("u32");
    lemma_two(("addr"@, "i32"@), ("offset"@, "u32"@));
    let line = base_lines(Helper::Load16U)[0];
    assert(line == "fn r16u(&self, addr: i32, offset: u32) -> i32 {"@);
    assert(line =~= "fn "@ + "r16u"@ + "("@ + "&self"@
        + declared(seq![("addr"@, "i32"@), ("offset"@, "u32"@)]) + ")"@ + " -> i32 {"@);
}

#[verifier::rlimit(40)]
proof fn lemma_load16_s()
    ensures
        declares(
            base_lines(Helper::Load16S)[0],
            helper_text(Helper::Load16S),
            seq![("addr"@, "i32"@), ("offset"@, "u32"@)],
        ),
{
    reveal_strlit("fn r16s(&self, addr: i32, offset: u32) -> i32 {");
    reveal_strlit("fn ");
    reveal_strlit("(");
    reveal_strlit("&self");
    reveal_strlit(")");
    reveal_strlit(" -> i32 {");
    reveal_strlit(", ");
    reveal_strlit(": ");
    reveal_strlit("r16s");
    reveal_strlit("addr");
    reveal_strlit("i32");
    reveal_strlit("offset");
    reveal_strlit("u32");
    lemma_two(("addr"@, "i32"@), ("offset"@, "u32"@));
    let line = base_lines(Helper::Load16S)[0];
    assert(line == "fn r16s(&self, addr: i32, offset: u32) -> i32 {"@);
    assert(line =~= "fn "@ + "r16s"@ + "("@ + "&self"@
        + declared(seq![("addr"@, "i32"@), ("offset"@, "u32"@)]) + ")"@ + " -> i32 {"@);
}

#[verifier::rlimit(40)]
proof fn lemma_store_i32()
    ensures
        declares(
            base_lines(Helper::StoreI32)[0],
            helper_text(Helper::StoreI32),
            seq![("addr"@, "i32"@), ("offset"@, "u32"@), ("value"@, "i32"@)],
        ),
{
    reveal_strlit("fn w32(&mut self, addr: i32, offset: u32, value: i32) {");
    reveal_strlit("fn ");
    reveal_strlit("(");
    reveal_strlit("&mut self");
    reveal_strlit(")");
    reveal_strlit(" {");
    reveal_strlit(", ");
    reveal_strlit(": ");
    reveal_strlit("w32");
    reveal_strlit("addr");
    reveal_strlit("i32");
    reveal_strlit("offset");
    reveal_strlit("u32");
    reveal_strlit("value");
    lemma_two(("addr"@, "i32"@), ("offset"@, "u32"@));
    lemma_four(("addr"@, "i32"@), ("offset"@, "u32"@), ("value"@, "i32"@), ("value"@, "i32"@));
    let line = base_lines(Helper::StoreI32)[0];
    assert(line == "fn w32(&mut self, addr: i32, offset: u32, value: i32) {"@);
    assert(line =~= "fn "@ + "w32"@ + "("@ + "&mut self"@
        + declared(seq![("addr"@, "i32"@), ("offset"@, "u32"@), ("value"@, "i32"@)]) + ")"@
        + " {"@);
}

#[verifier::rlimit(40)]
proof fn lemma_store8()
    ensures
        declares(
            base_lines(Helper::Store8)[0],
            helper_text(Helper::Store8),
            seq![("addr"@, "i32"@), ("offset"@, "u32"@), ("value"@, "i32"@)],
        ),
{
    reveal_strlit("fn w8(&mut self, addr: i32, offset: u32, value: i32) {");
    reveal_strlit("fn ");
    reveal_strlit("(");
    reveal_strlit("&mut self");
    reveal_strlit(")");
    reveal_strlit(" {");
    reveal_strlit(", ");
    reveal_strlit(": ");
    reveal_strlit("w8");
    reveal_strlit("addr");
    reveal_strlit("i32");
    reveal_strlit("offset");
    reveal_strlit("u32");
    reveal_strlit("value");
    lemma_two(("addr"@, "i32"@), ("offset"@, "u32"@));
    lemma_four(("addr"@, "i32"@), ("offset"@, "u32"@), ("value"@, "i32"@), ("value"@, "i32"@));
    let line = base_lines(Helper::Store8)[0];
    assert(line == "fn w8(&mut self, addr: i32, offset: u32, value: i32) {"@);
    assert(line =~= "fn "@ + "w8"@ + "("@ + "&mut self"@
        + declared(seq![("addr"@, "i32"@), ("offset"@, "u32"@), ("value"@, "i32"@)]) + ")"@
        + " {"@);
}

#[verifier::rlimit(40)]
proof fn lemma_store16()
    ensures
        declares(
            base_lines(Helper::Store16)[0],
            helper_text(Helper::Store16),
            seq![("addr"@, "i32"@), ("offset"@, "u32"@), ("value"@, "i32"@)],
        ),
{
    reveal_strlit("fn w16(&mut self, addr: i32, offset: u32, value: i32) {");
    reveal_strlit("fn ");
    reveal_strlit("(");
    reveal_strlit("&mut self");
    reveal_strlit(")");
    reveal_strlit(" {");
    reveal_strlit(", ");
    reveal_strlit(": ");
    reveal_strlit("w16");
    reveal_strlit("addr");
    reveal_strlit("i32");
    reveal_strlit("offset");
    reveal_strlit("u32");
    reveal_strlit("value");
    lemma_two(("addr"@, "i32"@), ("offset"@, "u32"@));
    lemma_four(("addr"@, "i32"@), ("offset"@, "u32"@), ("value"@, "i32"@), ("value"@, "i32"@));
    let line = base_lines(Helper::Store16)[0];
    assert(line == "fn w16(&mut self, addr: i32, offset: u32, value: i32) {"@);
    assert(line =~= "fn "@ + "w16"@ + "("@ + "&mut self"@
        + declared(seq![("addr"@, "i32"@), ("offset"@, "u32"@), ("value"@, "i32"@)]) + ")"@
        + " {"@);
}

#[verifier::rlimit(40)]
proof fn lemma_load_i64()
    ensures
        declares(
            base_lines(Helper::LoadI64)[0],
            helper_text(Helper::LoadI64),
            seq![("addr"@, "i32"@), ("offset"@, "u32"@)],
        ),
{
    reveal_strlit("fn r64(&self, addr: i32, offset: u32) -> i64 {");
    reveal_strlit("fn ");
    reveal_strlit("(");
    reveal_strlit("&self");
    reveal_strlit(")");
    reveal_strlit(" -> i64 {");
    reveal_strlit(", ");
    reveal_strlit(": ");
    reveal_strlit("r64");
    reveal_strlit("addr");
    reveal_strlit("i32");
    reveal_strlit("offset");
    reveal_strlit("u32");
    lemma_two(("addr"@, "i32"@), ("offset"@, "u32"@));
    let line = base_lines(Helper::LoadI64)[0];
    assert(line == "fn r64(&self, addr: i32, offset: u32) -> i64 {"@);
    assert(line =~= "fn "@ + "r64"@ + "("@ + "&self"@
        + declared(seq![("addr"@, "i32"@), ("offset"@, "u32"@)]) + ")"@ + " -> i64 {"@);
}

#[verifier::rlimit(40)]
proof fn lemma_load_f32()
    ensures
        declares(
            base_lines(Helper::LoadF32)[0],
            helper_text(Helper::LoadF32),
            seq![("addr"@, "i32"@), ("offset"@, "u32"@)],
        ),
{
    reveal_strlit("fn rf32(&self, addr: i32, offset: u32) -> f32 {");
    reveal_strlit("fn ");
    reveal_strlit("(");
    reveal_strlit("&self");
    reveal_strlit(")");
    reveal_strlit(" -> f32 {");
    reveal_strlit(", ");
    reveal_strlit(": ");
    reveal_strlit("rf32");
    reveal_strlit("addr");
    reveal_strlit("i32");
    reveal_strlit("offset");
    reveal_strlit("u32");
    lemma_two(("addr"@, "i32"@), ("offset"@, "u32"@));
    let line = base_lines(Helper::LoadF32)[0];
    assert(line == "fn rf32(&self, addr: i32, offset: u32) -> f32 {"@);
    assert(line =~= "fn "@ + "rf32"@ + "("@ + "&self"@
        + declared(seq![("addr"@, "i32"@), ("offset"@, "u32"@)]) + ")"@ + " -> f32 {"@);
}

#[verifier::rlimit(40)]
proof fn lemma_load_f64()
    ensures
        declares(
            base_lines(Helper::LoadF64)[0],
            helper_text(Helper::LoadF64),
            seq![("addr"@, "i32"@), ("offset"@, "u32"@)],
        ),
{
    reveal_strlit("fn rf64(&self, addr: i32, offset: u32) -> f64 {");
    reveal_strlit("fn ");
    reveal_strlit("(");
    reveal_strlit("&self");
    reveal_strlit(")");
    reveal_strlit(" -> f64 {");
    reveal_strlit(", ");
    reveal_strlit(": ");
    reveal_strlit("rf64");
    reveal_strlit("addr");
    reveal_strlit("i32");
    reveal_strlit("offset");
    reveal_strlit("u32");
    lemma_two(("addr"@, "i32"@), ("offset"@, "u32"@));
    let line = base_lines(Helper::LoadF64)[0];
    assert(line == "fn rf64(&self, addr: i32, offset: u32) -> f64 {"@);
    assert(line =~= "fn "@ + "rf64"@ + "("@ + "&self"@
        + declared(seq![("addr"@, "i32"@), ("offset"@, "u32"@)]) + ")"@ + " -> f64 {"@);
}

#[verifier::rlimit(40)]
proof fn lemma_load8_ui64()
    ensures
        declares(
            base_lines(Helper::Load8UI64)[0],
            helper_text(Helper::Load8UI64),
            seq![("addr"@, "i32"@), ("offset"@, "u32"@)],
        ),
{
    reveal_strlit("fn r8u64(&self, addr: i32, offset: u32) -> i64 {");
    reveal_strlit("fn ");
    reveal_strlit("(");
    reveal_strlit("&self");
    reveal_strlit(")");
    reveal_strlit(" -> i64 {");
    reveal_strlit(", ");
    reveal_strlit(": ");
    reveal_strlit("r8u64");
    reveal_strlit("addr");
    reveal_strlit("i32");
    reveal_strlit("offset");
    reveal_strlit("u32");
    lemma_two(("addr"@, "i32"@), ("offset"@, "u32"@));
    let line = base_lines(Helper::Load8UI64)[0];
    assert(line == "fn r8u64(&self, addr: i32, offset: u32) -> i64 {"@);
    assert(line =~= "fn "@ + "r8u64"@ + "("@ + "&self"@
        + declared(seq![("addr"@, "i32"@), ("offset"@, "u32"@)]) + ")"@ + " -> i64 {"@);
}

#[verifier::rlimit(40)]
proof fn lemma_load8_si64()
    ensures
        declares(
            base_lines(Helper::Load8SI64)[0],
            helper_text(Helper::Load8SI64),
            seq![("addr"@, "i32"@), ("offset"@, "u32"@)],
        ),
{
    reveal_strlit("fn r8s64(&self, addr: i32, offset: u32) -> i64 {");
    reveal_strlit("fn ");
    reveal_strlit("(");
    reveal_strlit("&self");
    reveal_strlit(")");
    reveal_strlit(" -> i64 {");
    reveal_strlit(", ");
    reveal_strlit(": ");
    reveal_strlit("r8s64");
    reveal_strlit("addr");
    reveal_strlit("i32");
    reveal_strlit("offset");
    reveal_strlit("u32");
    lemma_two(("addr"@, "i32"@), ("offset"@, "u32"@));
    let line = base_lines(Helper::Load8SI64)[0];
    assert(line == "fn r8s64(&self, addr: i32, offset: u32) -> i64 {"@);
    assert(line =~= "fn "@ + "r8s64"@ + "("@ + "&self"@
        + declared(seq![("addr"@, "i32"@), ("offset"@, "u32"@)]) + ")"@ + " -> i64 {"@);
}

#[verifier::rlimit(40)]
proof fn lemma_load16_ui64()
    ensures
        declares(
            base_lines(Helper::Load16UI64)[0],
            helper_text(Helper::Load16UI64),
            seq![("addr"@, "i32"@), ("offset"@, "u32"@)],
        ),
{
    reveal_strlit("fn r16u64(&self, addr: i32, offset: u32) -> i64 {");
    reveal_strlit("fn ");
    reveal_strlit("(");
    reveal_strlit("&self");
    reveal_strlit(")");
    reveal_strlit(" -> i64 {");
    reveal_strlit(", ");
    reveal_strlit(": ");
    reveal_strlit("r16u64");
    reveal_strlit("addr");
    reveal_strlit("i32");
    reveal_strlit("offset");
    reveal_strlit("u32");
    lemma_two(("addr"@, "i32"@), ("offset"@, "u32"@));
    let line = base_lines(Helper::Load16UI64)[0];
    assert(line == "fn r16u64(&self, addr: i32, offset: u32) -> i64 {"@);
    assert(line =~= "fn "@ + "r16u64"@ + "("@ + "&self"@
        + declared(seq![("addr"@, "i32"@), ("offset"@, "u32"@)]) + ")"@ + " -> i64 {"@);
}

#[verifier::rlimit(40)]
proof fn lemma_load16_si64()
    ensures
        declares(
            base_lines(Helper::Load16SI64)[0],
            helper_text(Helper::Load16SI64),
            seq![("addr"@, "i32"@), ("offset"@, "u32"@)],
        ),
{
    reveal_strlit("fn r16s64(&self, addr: i32, offset: u32) -> i64 {");
    reveal_strlit("fn ");
    reveal_strlit("(");
    reveal_strlit("&self");
    reveal_strlit(")");
    reveal_strlit(" -> i64 {");
    reveal_strlit(", ");
    reveal_strlit(": ");
    reveal_strlit("r16s64");
    reveal_strlit("addr");
    reveal_strlit("i32");
    reveal_strlit("offset");
    reveal_strlit("u32");
    lemma_two(("addr"@, "i32"@), ("offset"@, "u32"@));
    let line = base_lines(Helper::Load16SI64)[0];
    assert(line == "fn r16s64(&self, addr: i32, offset: u32) -> i64 {"@);
    assert(line =~= "fn "@ + "r16s64"@ + "("@ + "&self"@
        + declared(seq![("addr"@, "i32"@), ("offset"@, "u32"@)]) + ")"@ + " -> i64 {"@);
}

#[verifier::rlimit(40)]
proof fn lemma_load32_ui64()
    ensures
        declares(
            base_lines(Helper::Load32UI64)[0],
            helper_text(Helper::Load32UI64),
            seq![("addr"@, "i32"@), ("offset"@, "u32"@)],
        ),
{
    reveal_strlit("fn r32u64(&self, addr: i32, offset: u32) -> i64 {");
    reveal_strlit("fn ");
    reveal_strlit("(");
    reveal_strlit("&self");
    reveal_strlit(")");
    reveal_strlit(" -> i64 {");
    reveal_strlit(", ");
    reveal_strlit(": ");
    reveal_strlit("r32u64");
    reveal_strlit("addr");
    reveal_strlit("i32");
    reveal_strlit("offset");
    reveal_strlit("u32");
    lemma_two(("addr"@, "i32"@), ("offset"@, "u32"@));
    let line = base_lines(Helper::Load32UI64)[0];
    assert(line == "fn r32u64(&self, addr: i32, offset: u32) -> i64 {"@);
    assert(line =~= "fn "@ + "r32u64"@ + "("@ + "&self"@
        + declared(seq![("addr"@, "i32"@), ("offset"@, "u32"@)]) + ")"@ + " -> i64 {"@);
}

#[verifier::rlimit(40)]
proof fn lemma_load32_si64()
    ensures
        declares(
            base_lines(Helper::Load32SI64)[0],
            helper_text(Helper::Load32SI64),
            seq![("addr"@, "i32"@), ("offset"@, "u32"@)],
        ),
{
    reveal_strlit("fn r32s64(&self, addr: i32, offset: u32) -> i64 {");
    reveal_strlit("fn ");
    reveal_strlit("(");
    reveal_strlit("&self");
    reveal_strlit(")");
    reveal_strlit(" -> i64 {");
    reveal_strlit(", ");
    reveal_strlit(": ");
    reveal_strlit("r32s64");
    reveal_strlit("addr");
    reveal_strlit("i32");
    reveal_strlit("offset");
    reveal_strlit("u32");
    lemma_two(("addr"@, "i32"@), ("offset"@, "u32"@));
    let line = base_lines(Helper::Load32SI64)[0];
    assert(line == "fn r32s64(&self, addr: i32, offset: u32) -> i64 {"@);
    assert(line =~= "fn "@ + "r32s64"@ + "("@ + "&self"@
        + declared(seq![("addr"@, "i32"@), ("offset"@, "u32"@)]) + ")"@ + " -> i64 {"@);
}

#[verifier::rlimit(40)]
proof fn lemma_store_i64()
    ensures
        declares(
            base_lines(Helper::StoreI64)[0],
            helper_text(Helper::StoreI64),
            seq![("addr"@, "i32"@), ("offset"@, "u32"@), ("value"@, "i64"@)],
        ),
{
    reveal_strlit("fn w64(&mut self, addr: i32, offset: u32, value: i64) {");
    reveal_strlit("fn ");
    reveal_strlit("(");
    reveal_strlit("&mut self");
    reveal_strlit(")");
    reveal_strlit(" {");
    reveal_strlit(", ");
    reveal_strlit(": ");
    reveal_strlit("w64");
    reveal_strlit("addr");
    reveal_strlit("i32");
    reveal_strlit("offset");
    reveal_strlit("u32");
    reveal_strlit("value");
    reveal_strlit("i64");
    lemma_two(("addr"@, "i32"@), ("offset"@, "u32"@));
    lemma_four(("addr"@, "i32"@), ("offset"@, "u32"@), ("value"@, "i64"@), ("value"@, "i64"@));
    let line = base_lines(Helper::StoreI64)[0];
    assert(line == "fn w64(&mut self, addr: i32, offset: u32, value: i64) {"@);
    assert(line =~= "fn "@ + "w64"@ + "("@ + "&mut self"@
        + declared(seq![("addr"@, "i32"@), ("offset"@, "u32"@), ("value"@, "i64"@)]) + ")"@
        + " {"@);
}

#[verifier::rlimit(40)]
proof fn lemma_store_f32()
    ensures
        declares(
            base_lines(Helper::StoreF32)[0],
            helper_text(Helper::StoreF32),
            seq![("addr"@, "i32"@), ("offset"@, "u32"@), ("value"@, "f32"@)],
        ),
{
    reveal_strlit("fn wf32(&mut self, addr: i32, offset: u32, value: f32) {");
    reveal_strlit("fn ");
    reveal_strlit("(");
    reveal_strlit("&mut self");
    reveal_strlit(")");
    reveal_strlit(" {");
    reveal_strlit(", ");
    reveal_strlit(": ");
    reveal_strlit("wf32");
    reveal_strlit("addr");
    reveal_strlit("i32");
    reveal_strlit("offset");
    reveal_strlit("u32");
    reveal_strlit("value");
    reveal_strlit("f32");
    lemma_two(("addr"@, "i32"@), ("offset"@, "u32"@));
    lemma_four(("addr"@, "i32"@), ("offset"@, "u32"@), ("value"@, "f32"@), ("value"@, "f32"@));
    let line = base_lines(Helper::StoreF32)[0];
    assert(line == "fn wf32(&mut self, addr: i32, offset: u32, value: f32) {"@);
    assert(line =~= "fn "@ + "wf32"@ + "("@ + "&mut self"@
        + declared(seq![("addr"@, "i32"@), ("offset"@, "u32"@), ("value"@, "f32"@)]) + ")"@
        + " {"@);
}

#[verifier::rlimit(40)]
proof fn lemma_store_f64()
    ensures
        declares(
            base_lines(Helper::StoreF64)[0],
            helper_text(Helper::StoreF64),
            seq![("addr"@, "i32"@), ("offset"@, "u32"@), ("value"@, "f64"@)],
        ),
{
    reveal_strlit("fn wf64(&mut self, addr: i32, offset: u32, value: f64) {");
    reveal_strlit("fn ");
    reveal_strlit("(");
    reveal_strlit("&mut self");
    reveal_strlit(")");
    reveal_strlit(" {");
    reveal_strlit(", ");
    reveal_strlit(": ");
    reveal_strlit("wf64");
    reveal_strlit("addr");
    reveal_strlit("i32");
    reveal_strlit("offset");
    reveal_strlit("u32");
    reveal_strlit("value");
    reveal_strlit("f64");
    lemma_two(("addr"@, "i32"@), ("offset"@, "u32"@));
    lemma_four(("addr"@, "i32"@), ("offset"@, "u32"@), ("value"@, "f64"@), ("value"@, "f64"@));
    let line = base_lines(Helper::StoreF64)[0];
    assert(line == "fn wf64(&mut self, addr: i32, offset: u32, value: f64) {"@);
    assert(line =~= "fn "@ + "wf64"@ + "("@ + "&mut self"@
        + declared(seq![("addr"@, "i32"@), ("offset"@, "u32"@), ("value"@, "f64"@)]) + ")"@
        + " {"@);
}

#[verifier::rlimit(40)]
proof fn lemma_store8_i64()
    ensures
        declares(
            base_lines(Helper::Store8I64)[0],
            helper_text(Helper::Store8I64),
            seq![("addr"@, "i32"@), ("offset"@, "u32"@), ("value"@, "i64"@)],
        ),
{
    reveal_strlit("fn w8_64(&mut self, addr: i32, offset: u32, value: i64) {");
    reveal_strlit("fn ");
    reveal_strlit("(");
    reveal_strlit("&mut self");
    reveal_strlit(")");
    reveal_strlit(" {");
    reveal_strlit(", ");
    reveal_strlit(": ");
    reveal_strlit("w8_64");
    reveal_strlit("addr");
    reveal_strlit("i32");
    reveal_strlit("offset");
    reveal_strlit("u32");
    reveal_strlit("value");
    reveal_strlit("i64");
    lemma_two(("addr"@, "i32"@), ("offset"@, "u32"@));
    lemma_four(("addr"@, "i32"@), ("offset"@, "u32"@), ("value"@, "i64"@), ("value"@, "i64"@));
    let line = base_lines(Helper::Store8I64)[0];
    assert(line == "fn w8_64(&mut self, addr: i32, offset: u32, value: i64) {"@);
    assert(line =~= "fn "@ + "w8_64"@ + "("@ + "&mut self"@
        + declared(seq![("addr"@, "i32"@), ("offset"@, "u32"@), ("value"@, "i64"@)]) + ")"@
        + " {"@);
}

#[verifier::rlimit(40)]
proof fn lemma_store16_i64()
    ensures
        declares(
            base_lines(Helper::Store16I64)[0],
            helper_text(Helper::Store16I64),
            seq![("addr"@, "i32"@), ("offset"@, "u32"@), ("value"@, "i64"@)],
        ),
{
    reveal_strlit("fn w16_64(&mut self, addr: i32, offset: u32, value: i64) {");
    reveal_strlit("fn ");
    reveal_strlit("(");
    reveal_strlit("&mut self");
    reveal_strlit(")");
    reveal_strlit(" {");
    reveal_strlit(", ");
    reveal_strlit(": ");
    reveal_strlit("w16_64");
    reveal_strlit("addr");
    reveal_strlit("i32");
    reveal_strlit("offset");
    reveal_strlit("u32");
    reveal_strlit("value");
    reveal_strlit("i64");
    lemma_two(("addr"@, "i32"@), ("offset"@, "u32"@));
    lemma_four(("addr"@, "i32"@), ("offset"@, "u32"@), ("value"@, "i64"@), ("value"@, "i64"@));
    let line = base_lines(Helper::Store16I64)[0];
    assert(line == "fn w16_64(&mut self, addr: i32, offset: u32, value: i64) {"@);
    assert(line =~= "fn "@ + "w16_64"@ + "("@ + "&mut self"@
        + declared(seq![("addr"@, "i32"@), ("offset"@, "u32"@), ("value"@, "i64"@)]) + ")"@
        + " {"@);
}

#[verifier::rlimit(40)]
proof fn lemma_store32_i64()
    ensures
        declares(
            base_lines(Helper::Store32I64)[0],
            helper_text(Helper::Store32I64),
            seq![("addr"@, "i32"@), ("offset"@, "u32"@), ("value"@, "i64"@)],
        ),
{
    reveal_strlit("fn w32_64(&mut self, addr: i32, offset: u32, value: i64) {");
    reveal_strlit("fn ");
    reveal_strlit("(");
    reveal_strlit("&mut self");
    reveal_strlit(")");
    reveal_strlit(" {");
    reveal_strlit(", ");
    reveal_strlit(": ");
    reveal_strlit("w32_64");
    reveal_strlit("addr");
    reveal_strlit("i32");
    reveal_strlit("offset");
    reveal_strlit("u32");
    reveal_strlit("value");
    reveal_strlit("i64");
    lemma_two(("addr"@, "i32"@), ("offset"@, "u32"@));
    lemma_four(("addr"@, "i32"@), ("offset"@, "u32"@), ("value"@, "i64"@), ("value"@, "i64"@));
    let line = base_lines(Helper::Store32I64)[0];
    assert(line == "fn w32_64(&mut self, addr: i32, offset: u32, value: i64) {"@);
    assert(line =~= "fn "@ + "w32_64"@ + "("@ + "&mut self"@
        + declared(seq![("addr"@, "i32"@), ("offset"@, "u32"@), ("value"@, "i64"@)]) + ")"@
        + " {"@);
}

#[verifier::rlimit(40)]
proof fn lemma_load_v128()
    ensures
        declares(
            base_lines(Helper::LoadV128)[0],
            helper_text(Helper::LoadV128),
            seq![("addr"@, "i32"@), ("offset"@, "u32"@)],
        ),
{
    reveal_strlit("fn rv128(&self, addr: i32, offset: u32) -> u128 {");
    reveal_strlit("fn ");
    reveal_strlit("(");
    reveal_strlit("&self");
    reveal_strlit(")");
    reveal_strlit(" -> u128 {");
    reveal_strlit(", ");
    reveal_strlit(": ");
    reveal_strlit("rv128");
    reveal_strlit("addr");
    reveal_strlit("i32");
    reveal_strlit("offset");
    reveal_strlit("u32");
    lemma_two(("addr"@, "i32"@), ("offset"@, "u32"@));
    let line = base_lines(Helper::LoadV128)[0];
    assert(line == "fn rv128(&self, addr: i32, offset: u32) -> u128 {"@);
    assert(line =~= "fn "@ + "rv128"@ + "("@ + "&self"@
        + declared(seq![("addr"@, "i32"@), ("offset"@, "u32"@)]) + ")"@ + " -> u128 {"@);
}

#[verifier::rlimit(40)]
proof fn lemma_store_v128()
    ensures
        declares(
            base_lines(Helper::StoreV128)[0],
            helper_text(Helper::StoreV128),
            seq![("addr"@, "i32"@), ("offset"@, "u32"@), ("value"@, "u128"@)],
        ),
{
    reveal_strlit("fn wv128(&mut self, addr: i32, offset: u32, value: u128) {");
    reveal_strlit("fn ");
    reveal_strlit("(");
    reveal_strlit("&mut self");
    reveal_strlit(")");
    reveal_strlit(" {");
    reveal_strlit(", ");
    reveal_strlit(": ");
    reveal_strlit("wv128");
    reveal_strlit("addr");
    reveal_strlit("i32");
    reveal_strlit("offset");
    reveal_strlit("u32");
    reveal_strlit("value");
    reveal_strlit("u128");
    lemma_two(("addr"@, "i32"@), ("offset"@, "u32"@));
    lemma_four(("addr"@, "i32"@), ("offset"@, "u32"@), ("value"@, "u128"@), ("value"@, "u128"@));
    let line = base_lines(Helper::StoreV128)[0];
    assert(line == "fn wv128(&mut self, addr: i32, offset: u32, value: u128) {"@);
    assert(line =~= "fn "@ + "wv128"@ + "("@ + "&mut self"@
        + declared(seq![("addr"@, "i32"@), ("offset"@, "u32"@), ("value"@, "u128"@)]) + ")"@
        + " {"@);
}

#[verifier::rlimit(40)]
proof fn lemma_load8_splat()
    ensures
        declares(
            base_lines(Helper::Load8Splat)[0],
            helper_text(Helper::Load8Splat),
            seq![("addr"@, "i32"@), ("offset"@, "u32"@)],
        ),
{
    reveal_strlit("fn load8_splat(&self, addr: i32, offset: u32) -> u128 {");
    reveal_strlit("fn ");
    reveal_strlit("(");
    reveal_strlit("&self");
    reveal_strlit(")");
    reveal_strlit(" -> u128 {");
    reveal_strlit(", ");
    reveal_strlit(": ");
    reveal_strlit("load8_splat");
    reveal_strlit("addr");
    reveal_strlit("i32");
    reveal_strlit("offset");
    reveal_strlit("u32");
    lemma_two(("addr"@, "i32"@), ("offset"@, "u32"@));
    let line = base_lines(Helper::Load8Splat)[0];
    assert(line == "fn load8_splat(&self, addr: i32, offset: u32) -> u128 {"@);
    assert(line =~= "fn "@ + "load8_splat"@ + "("@ + "&self"@
        + declared(seq![("addr"@, "i32"@), ("offset"@, "u32"@)]) + ")"@ + " -> u128 {"@);
}

#[verifier::rlimit(40)]
proof fn lemma_load16_splat()
    ensures
        declares(
            base_lines(Helper::Load16Splat)[0],
            helper_text(Helper::Load16Splat),
            seq![("addr"@, "i32"@), ("offset"@, "u32"@)],
        ),
{
    reveal_strlit("fn load16_splat(&self, addr: i32, offset: u32) -> u128 {");
    reveal_strlit("fn ");
    reveal_strlit("(");
    reveal_strlit("&self");
    reveal_strlit(")");
    reveal_strlit(" -> u128 {");
    reveal_strlit(", ");
    reveal_strlit(": ");
    reveal_strlit("load16_splat");
    reveal_strlit("addr");
    reveal_strlit("i32");
    reveal_strlit("offset");
    reveal_strlit("u32");
    lemma_two(("addr"@, "i32"@), ("offset"@, "u32"@));
    let line = base_lines(Helper::Load16Splat)[0];
    assert(line == "fn load16_splat(&self, addr: i32, offset: u32) -> u128 {"@);
    assert(line =~= "fn "@ + "load16_splat"@ + "("@ + "&self"@
        + declared(seq![("addr"@, "i32"@), ("offset"@, "u32"@)]) + ")"@ + " -> u128 {"@);
}

#[verifier::rlimit(40)]
proof fn lemma_load32_splat()
    ensures
        declares(
            base_lines(Helper::Load32Splat)[0],
            helper_text(Helper::Load32Splat),
            seq![("addr"@, "i32"@), ("offset"@, "u32"@)],
        ),
{
    reveal_strlit("fn load32_splat(&self, addr: i32, offset: u32) -> u128 {");
    reveal_strlit("fn ");
    reveal_strlit("(");
    reveal_strlit("&self");
    reveal_strlit(")");
    reveal_strlit(" -> u128 {");
    reveal_strlit(", ");
    reveal_strlit(": ");
    reveal_strlit("load32_splat");
    reveal_strlit("addr");
    reveal_strlit("i32");
    reveal_strlit("offset");
    reveal_strlit("u32");
    lemma_two(("addr"@, "i32"@), ("offset"@, "u32"@));
    let line = base_lines(Helper::Load32Splat)[0];
    assert(line == "fn load32_splat(&self, addr: i32, offset: u32) -> u128 {"@);
    assert(line =~= "fn "@ + "load32_splat"@ + "("@ + "&self"@
        + declared(seq![("addr"@, "i32"@), ("offset"@, "u32"@)]) + ")"@ + " -> u128 {"@);
}

#[verifier::rlimit(40)]
proof fn lemma_load64_splat()
    ensures
        declares(
            base_lines(Helper::Load64Splat)[0],
            helper_text(Helper::Load64Splat),
            seq![("addr"@, "i32"@), ("offset"@, "u32"@)],
        ),
{
    reveal_strlit("fn load64_splat(&self, addr: i32, offset: u32) -> u128 {");
    reveal_strlit("fn ");
    reveal_strlit("(");
    reveal_strlit("&self");
    reveal_strlit(")");
    reveal_strlit(" -> u128 {");
    reveal_strlit(", ");
    reveal_strlit(": ");
    reveal_strlit("load64_splat");
    reveal_strlit("addr");
    reveal_strlit("i32");
    reveal_strlit("offset");
    reveal_strlit("u32");
    lemma_two(("addr"@, "i32"@), ("offset"@, "u32"@));
    let line = base_lines(Helper::Load64Splat)[0];
    assert(line == "fn load64_splat(&self, addr: i32, offset: u32) -> u128 {"@);
    assert(line =~= "fn "@ + "load64_splat"@ + "("@ + "&self"@
        + declared(seq![("addr"@, "i32"@), ("offset"@, "u32"@)]) + ")"@ + " -> u128 {"@);
}

#[verifier::rlimit(40)]
proof fn lemma_load32_zero()
    ensures
        declares(
            base_lines(Helper::Load32Zero)[0],
            helper_text(Helper::Load32Zero),
            seq![("addr"@, "i32"@), ("offset"@, "u32"@)],
        ),
{
    reveal_strlit("fn load32_zero(&self, addr: i32, offset: u32) -> u128 {");
    reveal_strlit("fn ");
    reveal_strlit("(");
    reveal_strlit("&self");
    reveal_strlit(")");
    reveal_strlit(" -> u128 {");
    reveal_strlit(", ");
    reveal_strlit(": ");
    reveal_strlit("load32_zero");
    reveal_strlit("addr");
    reveal_strlit("i32");
    reveal_strlit("offset");
    reveal_strlit("u32");
    lemma_two(("addr"@, "i32"@), ("offset"@, "u32"@));
    let line = base_lines(Helper::Load32Zero)[0];
    assert(line == "fn load32_zero(&self, addr: i32, offset: u32) -> u128 {"@);
    assert(line =~= "fn "@ + "load32_zero"@ + "("@ + "&self"@
        + declared(seq![("addr"@, "i32"@), ("offset"@, "u32"@)]) + ")"@ + " -> u128 {"@);
}

#[verifier::rlimit(40)]
proof fn lemma_load64_zero()
    ensures
        declares(
            base_lines(Helper::Load64Zero)[0],
            helper_text(Helper::Load64Zero),
            seq![("addr"@, "i32"@), ("offset"@, "u32"@)],
        ),
{
    reveal_strlit("fn load64_zero(&self, addr: i32, offset: u32) -> u128 {");
    reveal_strlit("fn ");
    reveal_strlit("(");
    reveal_strlit("&self");
    reveal_strlit(")");
    reveal_strlit(" -> u128 {");
    reveal_strlit(", ");
    reveal_strlit(": ");
    reveal_strlit("load64_zero");
    reveal_strlit("addr");
    reveal_strlit("i32");
    reveal_strlit("offset");
    reveal_strlit("u32");
    lemma_two(("addr"@, "i32"@), ("offset"@, "u32"@));
    let line = base_lines(Helper::Load64Zero)[0];
    assert(line == "fn load64_zero(&self, addr: i32, offset: u32) -> u128 {"@);
    assert(line =~= "fn "@ + "load64_zero"@ + "("@ + "&self"@
        + declared(seq![("addr"@, "i32"@), ("offset"@, "u32"@)]) + ")"@ + " -> u128 {"@);
}

#[verifier::rlimit(40)]
proof fn lemma_load8x8_s()
    ensures
        declares(
            base_lines(Helper::Load8x8S)[0],
            helper_text(Helper::Load8x8S),
            seq![("addr"@, "i32"@), ("offset"@, "u32"@)],
        ),
{
    reveal_strlit("fn load8x8_s(&self, addr: i32, offset: u32) -> u128 {");
    reveal_strlit("fn ");
    reveal_strlit("(");
    reveal_strlit("&self");
    reveal_strlit(")");
    reveal_strlit(" -> u128 {");
    reveal_strlit(", ");
    reveal_strlit(": ");
    reveal_strlit("load8x8_s");
    reveal_strlit("addr");
    reveal_strlit("i32");
    reveal_strlit("offset");
    reveal_strlit("u32");
    lemma_two(("addr"@, "i32"@), ("offset"@, "u32"@));
    let line = base_lines(Helper::Load8x8S)[0];
    assert(line == "fn load8x8_s(&self, addr: i32, offset: u32) -> u128 {"@);
    assert(line =~= "fn "@ + "load8x8_s"@ + "("@ + "&self"@
        + declared(seq![("addr"@, "i32"@), ("offset"@, "u32"@)]) + ")"@ + " -> u128 {"@);
}

#[verifier::rlimit(40)]
proof fn lemma_load8x8_u()
    ensures
        declares(
            base_lines(Helper::Load8x8U)[0],
            helper_text(Helper::Load8x8U),
            seq![("addr"@, "i32"@), ("offset"@, "u32"@)],
        ),
{
    reveal_strlit("fn load8x8_u(&self, addr: i32, offset: u32) -> u128 {");
    reveal_strlit("fn ");
    reveal_strlit("(");
    reveal_strlit("&self");
    reveal_strlit(")");
    reveal_strlit(" -> u128 {");
    reveal_strlit(", ");
    reveal_strlit(": ");
    reveal_strlit("load8x8_u");
    reveal_strlit("addr");
    reveal_strlit("i32");
    reveal_strlit("offset");
    reveal_strlit("u32");
    lemma_two(("addr"@, "i32"@), ("offset"@, "u32"@));
    let line = base_lines(Helper::Load8x8U)[0];
    assert(line == "fn load8x8_u(&self, addr: i32, offset: u32) -> u128 {"@);
    assert(line =~= "fn "@ + "load8x8_u"@ + "("@ + "&self"@
        + declared(seq![("addr"@, "i32"@), ("offset"@, "u32"@)]) + ")"@ + " -> u128 {"@);
}

#[verifier::rlimit(40)]
proof fn lemma_load16x4_s()
    ensures
        declares(
            base_lines(Helper::Load16x4S)[0],
            helper_text(Helper::Load16x4S),
            seq![("addr"@, "i32"@), ("offset"@, "u32"@)],
        ),
{
    reveal_strlit("fn load16x4_s(&self, addr: i32, offset: u32) -> u128 {");
    reveal_strlit("fn ");
    reveal_strlit("(");
    reveal_strlit("&self");
    reveal_strlit(")");
    reveal_strlit(" -> u128 {");
    reveal_strlit(", ");
    reveal_strlit(": ");
    reveal_strlit("load16x4_s");
    reveal_strlit("addr");
    reveal_strlit("i32");
    reveal_strlit("offset");
    reveal_strlit("u32");
    lemma_two(("addr"@, "i32"@), ("offset"@, "u32"@));
    let line = base_lines(Helper::Load16x4S)[0];
    assert(line == "fn load16x4_s(&self, addr: i32, offset: u32) -> u128 {"@);
    assert(line =~= "fn "@ + "load16x4_s"@ + "("@ + "&self"@
        + declared(seq![("addr"@, "i32"@), ("offset"@, "u32"@)]) + ")"@ + " -> u128 {"@);
}

#[verifier::rlimit(40)]
proof fn lemma_load16x4_u()
    ensures
        declares(
            base_lines(Helper::Load16x4U)[0],
            helper_text(Helper::Load16x4U),
            seq![("addr"@, "i32"@), ("offset"@, "u32"@)],
        ),
{
    reveal_strlit("fn load16x4_u(&self, addr: i32, offset: u32) -> u128 {");
    reveal_strlit("fn ");
    reveal_strlit("(");
    reveal_strlit("&self");
    reveal_strlit(")");
    reveal_strlit(" -> u128 {");
    reveal_strlit(", ");
    reveal_strlit(": ");
    reveal_strlit("load16x4_u");
    reveal_strlit("addr");
    reveal_strlit("i32");
    reveal_strlit("offset");
    reveal_strlit("u32");
    lemma_two(("addr"@, "i32"@), ("offset"@, "u32"@));
    let line = base_lines(Helper::Load16x4U)[0];
    assert(line == "fn load16x4_u(&self, addr: i32, offset: u32) -> u128 {"@);
    assert(line =~= "fn "@ + "load16x4_u"@ + "("@ + "&self"@
        + declared(seq![("addr"@, "i32"@), ("offset"@, "u32"@)]) + ")"@ + " -> u128 {"@);
}

#[verifier::rlimit(40)]
proof fn lemma_load32x2_s()
    ensures
        declares(
            base_lines(Helper::Load32x2S)[0],
            helper_text(Helper::Load32x2S),
            seq![("addr"@, "i32"@), ("offset"@, "u32"@)],
        ),
{
    reveal_strlit("fn load32x2_s(&self, addr: i32, offset: u32) -> u128 {");
    reveal_strlit("fn ");
    reveal_strlit("(");
    reveal_strlit("&self");
    reveal_strlit(")");
    reveal_strlit(" -> u128 {");
    reveal_strlit(", ");
    reveal_strlit(": ");
    reveal_strlit("load32x2_s");
    reveal_strlit("addr");
    reveal_strlit("i32");
    reveal_strlit("offset");
    reveal_strlit("u32");
    lemma_two(("addr"@, "i32"@), ("offset"@, "u32"@));
    let line = base_lines(Helper::Load32x2S)[0];
    assert(line == "fn load32x2_s(&self, addr: i32, offset: u32) -> u128 {"@);
    assert(line =~= "fn "@ + "load32x2_s"@ + "("@ + "&self"@
        + declared(seq![("addr"@, "i32"@), ("offset"@, "u32"@)]) + ")"@ + " -> u128 {"@);
}

#[verifier::rlimit(40)]
proof fn lemma_load32x2_u()
    ensures
        declares(
            base_lines(Helper::Load32x2U)[0],
            helper_text(Helper::Load32x2U),
            seq![("addr"@, "i32"@), ("offset"@, "u32"@)],
        ),
{
    reveal_strlit("fn load32x2_u(&self, addr: i32, offset: u32) -> u128 {");
    reveal_strlit("fn ");
    reveal_strlit("(");
    reveal_strlit("&self");
    reveal_strlit(")");
    reveal_strlit(" -> u128 {");
    reveal_strlit(", ");
    reveal_strlit(": ");
    reveal_strlit("load32x2_u");
    reveal_strlit("addr");
    reveal_strlit("i32");
    reveal_strlit("offset");
    reveal_strlit("u32");
    lemma_two(("addr"@, "i32"@), ("offset"@, "u32"@));
    let line = base_lines(Helper::Load32x2U)[0];
    assert(line == "fn load32x2_u(&self, addr: i32, offset: u32) -> u128 {"@);
    assert(line =~= "fn "@ + "load32x2_u"@ + "("@ + "&self"@
        + declared(seq![("addr"@, "i32"@), ("offset"@, "u32"@)]) + ")"@ + " -> u128 {"@);
}

#[verifier::rlimit(40)]
proof fn lemma_load8_lane()
    ensures
        declares(
            base_lines(Helper::Load8Lane)[0],
            helper_text(Helper::Load8Lane),
            seq![("addr"@, "i32"@), ("offset"@, "u32"@), ("value"@, "u128"@), ("lane"@, "usize"@)],
        ),
{
    reveal_strlit("fn load8_lane(&self, addr: i32, offset: u32, value: u128, lane: usize) -> u128 {");
    reveal_strlit("fn ");
    reveal_strlit("(");
    reveal_strlit("&self");
    reveal_strlit(")");
    reveal_strlit(" -> u128 {");
    reveal_strlit(", ");
    reveal_strlit(": ");
    reveal_strlit("load8_lane");
    reveal_strlit("addr");
    reveal_strlit("i32");
    reveal_strlit("offset");
    reveal_strlit("u32");
    reveal_strlit("value");
    reveal_strlit("u128");
    reveal_strlit("lane");
    reveal_strlit("usize");
    lemma_two(("addr"@, "i32"@), ("offset"@, "u32"@));
    lemma_four(("addr"@, "i32"@), ("offset"@, "u32"@), ("value"@, "u128"@), ("lane"@, "usize"@));
    let line = base_lines(Helper::Load8Lane)[0];
    assert(line == "fn load8_lane(&self, addr: i32, offset: u32, value: u128, lane: usize) -> u128 {"@);
    assert(line =~= "fn "@ + "load8_lane"@ + "("@ + "&self"@
        + declared(seq![("addr"@, "i32"@), ("offset"@, "u32"@), ("value"@, "u128"@), ("lane"@, "usize"@)])
        + ")"@ + " -> u128 {"@);
}

#[verifier::rlimit(40)]
proof fn lemma_load16_lane()
    ensures
        declares(
            base_lines(Helper::Load16Lane)[0],
            helper_text(Helper::Load16Lane),
            seq![("addr"@, "i32"@), ("offset"@, "u32"@), ("value"@, "u128"@), ("lane"@, "usize"@)],
        ),
{
    reveal_strlit("fn load16_lane(&self, addr: i32, offset: u32, value: u128, lane: usize) -> u128 {");
    reveal_strlit("fn ");
    reveal_strlit("(");
    reveal_strlit("&self");
    reveal_strlit(")");
    reveal_strlit(" -> u128 {");
    reveal_strlit(", ");
    reveal_strlit(": ");
    reveal_strlit("load16_lane");
    reveal_strlit("addr");
    reveal_strlit("i32");
    reveal_strlit("offset");
    reveal_strlit("u32");
    reveal_strlit("value");
    reveal_strlit("u128");
    reveal_strlit("lane");
    reveal_strlit("usize");
    lemma_two(("addr"@, "i32"@), ("offset"@, "u32"@));
    lemma_four(("addr"@, "i32"@), ("offset"@, "u32"@), ("value"@, "u128"@), ("lane"@, "usize"@));
    let line = base_lines(Helper::Load16Lane)[0];
    assert(line == "fn load16_lane(&self, addr: i32, offset: u32, value: u128, lane: usize) -> u128 {"@);
    assert(line =~= "fn "@ + "load16_lane"@ + "("@ + "&self"@
        + declared(seq![("addr"@, "i32"@), ("offset"@, "u32"@), ("value"@, "u128"@), ("lane"@, "usize"@)])
        + ")"@ + " -> u128 {"@);
}

#[verifier::rlimit(40)]
proof fn lemma_load32_lane()
    ensures
        declares(
            base_lines(Helper::Load32Lane)[0],
            helper_text(Helper::Load32Lane),
            seq![("addr"@, "i32"@), ("offset"@, "u32"@), ("value"@, "u128"@), ("lane"@, "usize"@)],
        ),
{
    reveal_strlit("fn load32_lane(&self, addr: i32, offset: u32, value: u128, lane: usize) -> u128 {");
    reveal_strlit("fn ");
    reveal_strlit("(");
    reveal_strlit("&self");
    reveal_strlit(")");
    reveal_strlit(" -> u128 {");
    reveal_strlit(", ");
    reveal_strlit(": ");
    reveal_strlit("load32_lane");
    reveal_strlit("addr");
    reveal_strlit("i32");
    reveal_strlit("offset");
    reveal_strlit("u32");
    reveal_strlit("value");
    reveal_strlit("u128");
    reveal_strlit("lane");
    reveal_strlit("usize");
    lemma_two(("addr"@, "i32"@), ("offset"@, "u32"@));
    lemma_four(("addr"@, "i32"@), ("offset"@, "u32"@), ("value"@, "u128"@), ("lane"@, "usize"@));
    let line = base_lines(Helper::Load32Lane)[0];
    assert(line == "fn load32_lane(&self, addr: i32, offset: u32, value: u128, lane: usize) -> u128 {"@);
    assert(line =~= "fn "@ + "load32_lane"@ + "("@ + "&self"@
        + declared(seq![("addr"@, "i32"@), ("offset"@, "u32"@), ("value"@, "u128"@), ("lane"@, "usize"@)])
        + ")"@ + " -> u128 {"@);
}

#[verifier::rlimit(40)]
proof fn lemma_load64_lane()
    ensures
        declares(
            base_lines(Helper::Load64Lane)[0],
            helper_text(Helper::Load64Lane),
            seq![("addr"@, "i32"@), ("offset"@, "u32"@), ("value"@, "u128"@), ("lane"@, "usize"@)],
        ),
{
    reveal_strlit("fn load64_lane(&self, addr: i32, offset: u32, value: u128, lane: usize) -> u128 {");
    reveal_strlit("fn ");
    reveal_strlit("(");
    reveal_strlit("&self");
    reveal_strlit(")");
    reveal_strlit(" -> u128 {");
    reveal_strlit(", ");
    reveal_strlit(": ");
    reveal_strlit("load64_lane");
    reveal_strlit("addr");
    reveal_strlit("i32");
    reveal_strlit("offset");
    reveal_strlit("u32");
    reveal_strlit("value");
    reveal_strlit("u128");
    reveal_strlit("lane");
    reveal_strlit("usize");
    lemma_two(("addr"@, "i32"@), ("offset"@, "u32"@));
    lemma_four(("addr"@, "i32"@), ("offset"@, "u32"@), ("value"@, "u128"@), ("lane"@, "usize"@));
    let line = base_lines(Helper::Load64Lane)[0];
    assert(line == "fn load64_lane(&self, addr: i32, offset: u32, value: u128, lane: usize) -> u128 {"@);
    assert(line =~= "fn "@ + "load64_lane"@ + "("@ + "&self"@
        + declared(seq![("addr"@, "i32"@), ("offset"@, "u32"@), ("value"@, "u128"@), ("lane"@, "usize"@)])
        + ")"@ + " -> u128 {"@);
}

#[verifier::rlimit(40)]
proof fn lemma_store8_lane()
    ensures
        declares(
            base_lines(Helper::Store8Lane)[0],
            helper_text(Helper::Store8Lane),
            seq![("addr"@, "i32"@), ("offset"@, "u32"@), ("value"@, "u128"@), ("lane"@, "usize"@)],
        ),
{
    reveal_strlit("fn store8_lane(&mut self, addr: i32, offset: u32, value: u128, lane: usize) {");
    reveal_strlit("fn ");
    reveal_strlit("(");
    reveal_strlit("&mut self");
    reveal_strlit(")");
    reveal_strlit(" {");
    reveal_strlit(", ");
    reveal_strlit(": ");
    reveal_strlit("store8_lane");
    reveal_strlit("addr");
    reveal_strlit("i32");
    reveal_strlit("offset");
    reveal_strlit("u32");
    reveal_strlit("value");
    reveal_strlit("u128");
    reveal_strlit("lane");
    reveal_strlit("usize");
    lemma_two(("addr"@, "i32"@), ("offset"@, "u32"@));
    lemma_four(("addr"@, "i32"@), ("offset"@, "u32"@), ("value"@, "u128"@), ("lane"@, "usize"@));
    let line = base_lines(Helper::Store8Lane)[0];
    assert(line == "fn store8_lane(&mut self, addr: i32, offset: u32, value: u128, lane: usize) {"@);
    assert(line =~= "fn "@ + "store8_lane"@ + "("@ + "&mut self"@
        + declared(seq![("addr"@, "i32"@), ("offset"@, "u32"@), ("value"@, "u128"@), ("lane"@, "usize"@)])
        + ")"@ + " {"@);
}

#[verifier::rlimit(40)]
proof fn lemma_store16_lane()
    ensures
        declares(
            base_lines(Helper::Store16Lane)[0],
            helper_text(Helper::Store16Lane),
            seq![("addr"@, "i32"@), ("offset"@, "u32"@), ("value"@, "u128"@), ("lane"@, "usize"@)],
        ),
{
    reveal_strlit("fn store16_lane(&mut self, addr: i32, offset: u32, value: u128, lane: usize) {");
    reveal_strlit("fn ");
    reveal_strlit("(");
    reveal_strlit("&mut self");
    reveal_strlit(")");
    reveal_strlit(" {");
    reveal_strlit(", ");
    reveal_strlit(": ");
    reveal_strlit("store16_lane");
    reveal_strlit("addr");
    reveal_strlit("i32");
    reveal_strlit("offset");
    reveal_strlit("u32");
    reveal_strlit("value");
    reveal_strlit("u128");
    reveal_strlit("lane");
    reveal_strlit("usize");
    lemma_two(("addr"@, "i32"@), ("offset"@, "u32"@));
    lemma_four(("addr"@, "i32"@), ("offset"@, "u32"@), ("value"@, "u128"@), ("lane"@, "usize"@));
    let line = base_lines(Helper::Store16Lane)[0];
    assert(line == "fn store16_lane(&mut self, addr: i32, offset: u32, value: u128, lane: usize) {"@);
    assert(line =~= "fn "@ + "store16_lane"@ + "("@ + "&mut self"@
        + declared(seq![("addr"@, "i32"@), ("offset"@, "u32"@), ("value"@, "u128"@), ("lane"@, "usize"@)])
        + ")"@ + " {"@);
}

#[verifier::rlimit(40)]
proof fn lemma_store32_lane()
    ensures
        declares(
            base_lines(Helper::Store32Lane)[0],
            helper_text(Helper::Store32Lane),
            seq![("addr"@, "i32"@), ("offset"@, "u32"@), ("value"@, "u128"@), ("lane"@, "usize"@)],
        ),
{
    reveal_strlit("fn store32_lane(&mut self, addr: i32, offset: u32, value: u128, lane: usize) {");
    reveal_strlit("fn ");
    reveal_strlit("(");
    reveal_strlit("&mut self");
    reveal_strlit(")");
    reveal_strlit(" {");
    reveal_strlit(", ");
    reveal_strlit(": ");
    reveal_strlit("store32_lane");
    reveal_strlit("addr");
    reveal_strlit("i32");
    reveal_strlit("offset");
    reveal_strlit("u32");
    reveal_strlit("value");
    reveal_strlit("u128");
    reveal_strlit("lane");
    reveal_strlit("usize");
    lemma_two(("addr"@, "i32"@), ("offset"@, "u32"@));
    lemma_four(("addr"@, "i32"@), ("offset"@, "u32"@), ("value"@, "u128"@), ("lane"@, "usize"@));
    let line = base_lines(Helper::Store32Lane)[0];
    assert(line == "fn store32_lane(&mut self, addr: i32, offset: u32, value: u128, lane: usize) {"@);
    assert(line =~= "fn "@ + "store32_lane"@ + "("@ + "&mut self"@
        + declared(seq![("addr"@, "i32"@), ("offset"@, "u32"@), ("value"@, "u128"@), ("lane"@, "usize"@)])
        + ")"@ + " {"@);
}

#[verifier::rlimit(40)]
proof fn lemma_store64_lane()
    ensures
        declares(
            base_lines(Helper::Store64Lane)[0],
            helper_text(Helper::Store64Lane),
            seq![("addr"@, "i32"@), ("offset"@, "u32"@), ("value"@, "u128"@), ("lane"@, "usize"@)],
        ),
{
    reveal_strlit("fn store64_lane(&mut self, addr: i32, offset: u32, value: u128, lane: usize) {");
    reveal_strlit("fn ");
    reveal_strlit("(");
    reveal_strlit("&mut self");
    reveal_strlit(")");
    reveal_strlit(" {");
    reveal_strlit(", ");
    reveal_strlit(": ");
    reveal_strlit("store64_lane");
    reveal_strlit("addr");
    reveal_strlit("i32");
    reveal_strlit("offset");
    reveal_strlit("u32");
    reveal_strlit("value");
    reveal_strlit("u128");
    reveal_strlit("lane");
    reveal_strlit("usize");
    lemma_two(("addr"@, "i32"@), ("offset"@, "u32"@));
    lemma_four(("addr"@, "i32"@), ("offset"@, "u32"@), ("value"@, "u128"@), ("lane"@, "usize"@));
    let line = base_lines(Helper::Store64Lane)[0];
    assert(line == "fn store64_lane(&mut self, addr: i32, offset: u32, value: u128, lane: usize) {"@);
    assert(line =~= "fn "@ + "store64_lane"@ + "("@ + "&mut self"@
        + declared(seq![("addr"@, "i32"@), ("offset"@, "u32"@), ("value"@, "u128"@), ("lane"@, "usize"@)])
        + ")"@ + " {"@);
}

#[verifier::rlimit(40)]
proof fn lemma_grow()
    ensures
        declares(
            base_lines(Helper::Grow)[0],
            helper_text(Helper::Grow),
            seq![("delta"@, "i32"@)],
        ),
{
    reveal_strlit("fn memory_grow(&mut self, delta: i32) -> i32 {");
    reveal_strlit("fn ");
    reveal_strlit("(");
    reveal_strlit("&mut self");
    reveal_strlit(")");
    reveal_strlit(" -> i32 {");
    reveal_strlit(", ");
    reveal_strlit(": ");
    reveal_strlit("memory_grow");
    reveal_strlit("delta");
    reveal_strlit("i32");
    lemma_two(("delta"@, "i32"@), ("delta"@, "i32"@));
    let line = base_lines(Helper::Grow)[0];
    assert(line == "fn memory_grow(&mut self, delta: i32) -> i32 {"@);
    assert(line =~= "fn "@ + "memory_grow"@ + "("@ + "&mut self"@
        + declared(seq![("delta"@, "i32"@)]) + ")"@ + " -> i32 {"@);
}

#[verifier::rlimit(40)]
proof fn lemma_memory_fill()
    ensures
        declares(
            base_lines(Helper::MemoryFill)[0],
            helper_text(Helper::MemoryFill),
            seq![("dest"@, "u32"@), ("val"@, "i32"@), ("len"@, "u32"@)],
        ),
{
    reveal_strlit("fn memory_fill(&mut self, dest: u32, val: i32, len: u32) {");
    reveal_strlit("fn ");
    reveal_strlit("(");
    reveal_strlit("&mut self");
    reveal_strlit(")");
    reveal_strlit(" {");
    reveal_strlit(", ");
    reveal_strlit(": ");
    reveal_strlit("memory_fill");
    reveal_strlit("dest");
    reveal_strlit("u32");
    reveal_strlit("val");
    reveal_strlit("i32");
    reveal_strlit("len");
    lemma_two(("dest"@, "u32"@), ("val"@, "i32"@));
    lemma_four(("dest"@, "u32"@), ("val"@, "i32"@), ("len"@, "u32"@), ("len"@, "u32"@));
    let line = base_lines(Helper::MemoryFill)[0];
    assert(line == "fn memory_fill(&mut self, dest: u32, val: i32, len: u32) {"@);
    assert(line =~= "fn "@ + "memory_fill"@ + "("@ + "&mut self"@
        + declared(seq![("dest"@, "u32"@), ("val"@, "i32"@), ("len"@, "u32"@)]) + ")"@ + " {"@);
}

#[verifier::rlimit(40)]
proof fn lemma_memory_copy()
    ensures
        declares(
            base_lines(Helper::MemoryCopy)[0],
            helper_text(Helper::MemoryCopy),
            seq![("dest"@, "u32"@), ("src"@, "u32"@), ("len"@, "u32"@)],
        ),
{
    reveal_strlit("fn memory_copy(&mut self, dest: u32, src: u32, len: u32) {");
    reveal_strlit("fn ");
    reveal_strlit("(");
    reveal_strlit("&mut self");
    reveal_strlit(")");
    reveal_strlit(" {");
    reveal_strlit(", ");
    reveal_strlit(": ");
    reveal_strlit("memory_copy");
    reveal_strlit("dest");
    reveal_strlit("u32");
    reveal_strlit("src");
    reveal_strlit("len");
    lemma_two(("dest"@, "u32"@), ("src"@, "u32"@));
    lemma_four(("dest"@, "u32"@), ("src"@, "u32"@), ("len"@, "u32"@), ("len"@, "u32"@));
    let line = base_lines(Helper::MemoryCopy)[0];
    assert(line == "fn memory_copy(&mut self, dest: u32, src: u32, len: u32) {"@);
    assert(line =~= "fn "@ + "memory_copy"@ + "("@ + "&mut self"@
        + declared(seq![("dest"@, "u32"@), ("src"@, "u32"@), ("len"@, "u32"@)]) + ")"@ + " {"@);
}

#[verifier::rlimit(40)]
proof fn lemma_table_copy()
    ensures
        declares(
            base_lines(Helper::TableCopy)[0],
            helper_text(Helper::TableCopy),
            seq![("dest"@, "u32"@), ("src"@, "u32"@), ("len"@, "u32"@)],
        ),
{
    reveal_strlit("fn table_copy(&mut self, dest: u32, src: u32, len: u32) {");
    reveal_strlit("fn ");
    reveal_strlit("(");
    reveal_strlit("&mut self");
    reveal_strlit(")");
    reveal_strlit(" {");
    reveal_strlit(", ");
    reveal_strlit(": ");
    reveal_strlit("table_copy");
    reveal_strlit("dest");
    reveal_strlit("u32");
    reveal_strlit("src");
    reveal_strlit("len");
    lemma_two(("dest"@, "u32"@), ("src"@, "u32"@));
    lemma_four(("dest"@, "u32"@), ("src"@, "u32"@), ("len"@, "u32"@), ("len"@, "u32"@));
    let line = base_lines(Helper::TableCopy)[0];
    assert(line == "fn table_copy(&mut self, dest: u32, src: u32, len: u32) {"@);
    assert(line =~= "fn "@ + "table_copy"@ + "("@ + "&mut self"@
        + declared(seq![("dest"@, "u32"@), ("src"@, "u32"@), ("len"@, "u32"@)]) + ")"@ + " {"@);
}

#[verifier::rlimit(40)]
proof fn lemma_table_fill()
    ensures
        declares(
            base_lines(Helper::TableFill)[0],
            helper_text(Helper::TableFill),
            seq![("dest"@, "u32"@), ("val"@, "u32"@), ("len"@, "u32"@)],
        ),
{
    reveal_strlit("fn table_fill(&mut self, dest: u32, val: u32, len: u32) {");
    reveal_strlit("fn ");
    reveal_strlit("(");
    reveal_strlit("&mut self");
    reveal_strlit(")");
    reveal_strlit(" {");
    reveal_strlit(", ");
    reveal_strlit(": ");
    reveal_strlit("table_fill");
    reveal_strlit("dest");
    reveal_strlit("u32");
    reveal_strlit("val");
    reveal_strlit("len");
    lemma_two(("dest"@, "u32"@), ("val"@, "u32"@));
    lemma_four(("dest"@, "u32"@), ("val"@, "u32"@), ("len"@, "u32"@), ("len"@, "u32"@));
    let line = base_lines(Helper::TableFill)[0];
    assert(line == "fn table_fill(&mut self, dest: u32, val: u32, len: u32) {"@);
    assert(line =~= "fn "@ + "table_fill"@ + "("@ + "&mut self"@
        + declared(seq![("dest"@, "u32"@), ("val"@, "u32"@), ("len"@, "u32"@)]) + ")"@ + " {"@);
}

/// Whether `code` calls the method of `helper` for the memory `mem` with these
/// arguments, as many as its source declares parameters.
pub open spec fn calls_helper(
    code: Seq<char>,
    helper: Helper,
    mem: u32,
    params: Seq<(Seq<char>, Seq<char>)>,
    args: Seq<Seq<char>>,
) -> bool {
    &&& declares(base_lines(helper)[0], helper_text(helper), params)
    &&& args.len() == params.len()
    &&& code == "self."@ + helper_method_text(helper, mem) + "("@ + joined(args, ", "@) + ")"@
}

/// Whether the parameter `name` is there and receives `value`.
pub open spec fn receives(
    params: Seq<(Seq<char>, Seq<char>)>,
    args: Seq<Seq<char>>,
    name: Seq<char>,
    value: Seq<char>,
) -> bool {
    &&& exists|i: int| 0 <= i < params.len() && #[trigger] params[i].0 == name
    &&& forall|i: int|
        0 <= i < params.len() && #[trigger] params[i].0 == name ==> 0 <= i < args.len() && args[i]
            == value
}

/// Whether `code` loads from the address `addr` and the static offset `offset`.
pub open spec fn loads(
    code: Seq<char>,
    helper: Helper,
    memarg: MemArg,
    addr: Seq<char>,
) -> bool {
    exists|params: Seq<(Seq<char>, Seq<char>)>, args: Seq<Seq<char>>|
        #[trigger] calls_helper(code, helper, memarg.memory, params, args) && params.len() == 2
            && receives(params, args, "addr"@, addr) && receives(
            params,
            args,
            "offset"@,
            dec(memarg.offset as nat) + "u32"@,
        )
}

/// Whether `code` stores `value` at the address `addr` and the static offset.
pub open spec fn stores(
    code: Seq<char>,
    helper: Helper,
    memarg: MemArg,
    addr: Seq<char>,
    value: Seq<char>,
) -> bool {
    exists|params: Seq<(Seq<char>, Seq<char>)>, args: Seq<Seq<char>>|
        #[trigger] calls_helper(code, helper, memarg.memory, params, args) && params.len() == 3
            && receives(params, args, "addr"@, addr) && receives(
            params,
            args,
            "offset"@,
            dec(memarg.offset as nat) + "u32"@,
        ) && receives(params, args, "value"@, value)
}

/// Whether `code` moves the lane `lane` of the vector `value` to or from the address
/// `addr` and the static offset.
pub open spec fn moves_lane(
    code: Seq<char>,
    helper: Helper,
    memarg: MemArg,
    addr: Seq<char>,
    value: Seq<char>,
    lane: u8,
) -> bool {
    exists|params: Seq<(Seq<char>, Seq<char>)>, args: Seq<Seq<char>>|
        #[trigger] calls_helper(code, helper, memarg.memory, params, args) && params.len() == 4
            && receives(params, args, "addr"@, addr) && receives(
            params,
            args,
            "offset"@,
            dec(memarg.offset as nat) + "u32"@,
        ) && receives(params, args, "value"@, value) && receives(
            params,
            args,
            "lane"@,
            dec(lane as nat),
        )
}

/// Whether `code` works on a range of a memory or table: `dest`, the parameter `what`
/// and the number of cells are handed to the parameters of these names.
pub open spec fn works_on_range(
    code: Seq<char>,
    helper: Helper,
    mem: u32,
    what: Seq<char>,
    dest: Seq<char>,
    from: Seq<char>,
    len: Seq<char>,
) -> bool {
    exists|params: Seq<(Seq<char>, Seq<char>)>, args: Seq<Seq<char>>|
        #[trigger] calls_helper(code, helper, mem, params, args) && params.len() == 3 && receives(
            params,
            args,
            "dest"@,
            dest,
        ) && receives(params, args, what, from) && receives(params, args, "len"@, len)
}

proof fn lemma_joined(a: Seq<char>, b: Seq<char>, c: Seq<char>, d: Seq<char>)
    ensures
        joined(seq![a, b], ", "@) == a + ", "@ + b,
        joined(seq![a, b, c], ", "@) == a + ", "@ + b + ", "@ + c,
        joined(seq![a, b, c, d], ", "@) == a + ", "@ + b + ", "@ + c + ", "@ + d,
{
    assert(seq![a, b].drop_last() =~= seq![a]);
    assert(seq![a, b, c].drop_last() =~= seq![a, b]);
    assert(seq![a, b, c, d].drop_last() =~= seq![a, b, c]);
    assert(joined(seq![a], ", "@) =~= a);
    assert(joined(seq![a, b], ", "@) == joined(seq![a], ", "@) + ", "@ + b);
    assert(joined(seq![a, b, c], ", "@) == joined(seq![a, b], ", "@) + ", "@ + c);
    assert(joined(seq![a, b, c, d], ", "@) == joined(seq![a, b, c], ", "@) + ", "@ + d);
}

proof fn lemma_words()
    ensures
        "addr"@ != "offset"@,
        "addr"@ != "value"@,
        "addr"@ != "lane"@,
        "offset"@ != "value"@,
        "offset"@ != "lane"@,
        "value"@ != "lane"@,
        "dest"@ != "val"@,
        "dest"@ != "src"@,
        "dest"@ != "len"@,
        "val"@ != "len"@,
        "src"@ != "len"@,
{
    reveal_strlit("addr");
    reveal_strlit("offset");
    reveal_strlit("value");
    reveal_strlit("lane");
    reveal_strlit("dest");
    reveal_strlit("val");
    reveal_strlit("src");
    reveal_strlit("len");
    assert("addr"@[0] == 'a' && "offset"@[0] == 'o' && "value"@[0] == 'v' && "lane"@[0] == 'l');
    assert("dest"@[0] == 'd' && "val"@[0] == 'v' && "src"@[0] == 's' && "len"@[0] == 'l');
}

proof fn lemma_receives(
    params: Seq<(Seq<char>, Seq<char>)>,
    args: Seq<Seq<char>>,
    i: int,
)
    requires
        params.len() == args.len(),
        0 <= i < params.len(),
        forall|k: int| 0 <= k < params.len() && k != i ==> params[k].0 != params[i].0,
    ensures
        receives(params, args, params[i].0, args[i]),
{
    assert(params[i].0 == params[i].0);
}

#[verifier::rlimit(40)]
proof fn lemma_load_params(op: LoadOp)
    ensures
        declares(
            base_lines(load_rule(op).0)[0],
            helper_text(load_rule(op).0),
            seq![("addr"@, "i32"@), ("offset"@, "u32"@)],
        ),
{
    match load_rule(op).0 {
        Helper::LoadI32 => lemma_load_i32(),
        Helper::Load8U => lemma_load8_u(),
        Helper::Load8S => lemma_load8_s(),
        Helper::Load16U => lemma_load16_u(),
        Helper::Load16S => lemma_load16_s(),
        Helper::LoadI64 => lemma_load_i64(),
        Helper::LoadF32 => lemma_load_f32(),
        Helper::LoadF64 => lemma_load_f64(),
        Helper::Load8UI64 => lemma_load8_ui64(),
        Helper::Load8SI64 => lemma_load8_si64(),
        Helper::Load16UI64 => lemma_load16_ui64(),
        Helper::Load16SI64 => lemma_load16_si64(),
        Helper::Load32UI64 => lemma_load32_ui64(),
        Helper::Load32SI64 => lemma_load32_si64(),
        Helper::LoadV128 => lemma_load_v128(),
        Helper::Load8Splat => lemma_load8_splat(),
        Helper::Load16Splat => lemma_load16_splat(),
        Helper::Load32Splat => lemma_load32_splat(),
        Helper::Load64Splat => lemma_load64_splat(),
        Helper::Load32Zero => lemma_load32_zero(),
        Helper::Load64Zero => lemma_load64_zero(),
        Helper::Load8x8S => lemma_load8x8_s(),
        Helper::Load8x8U => lemma_load8x8_u(),
        Helper::Load16x4S => lemma_load16x4_s(),
        Helper::Load16x4U => lemma_load16x4_u(),
        Helper::Load32x2S => lemma_load32x2_s(),
        Helper::Load32x2U => lemma_load32x2_u(),
        _ => {},
    }
}

/// The type of the value that a helper stores.
#[verifier::rlimit(40)]
proof fn lemma_store_params(op: StoreOp) -> (ty: Seq<char>)
    ensures
        declares(
            base_lines(store_rule(op))[0],
            helper_text(store_rule(op)),
            seq![("addr"@, "i32"@), ("offset"@, "u32"@), ("value"@, ty)],
        ),
{
    match store_rule(op) {
        Helper::StoreI32 => {
            lemma_store_i32();
            "i32"@
        },
        Helper::Store8 => {
            lemma_store8();
            "i32"@
        },
        Helper::Store16 => {
            lemma_store16();
            "i32"@
        },
        Helper::StoreI64 => {
            lemma_store_i64();
            "i64"@
        },
        Helper::StoreF32 => {
            lemma_store_f32();
            "f32"@
        },
        Helper::StoreF64 => {
            lemma_store_f64();
            "f64"@
        },
        Helper::Store8I64 => {
            lemma_store8_i64();
            "i64"@
        },
        Helper::Store16I64 => {
            lemma_store16_i64();
            "i64"@
        },
        Helper::Store32I64 => {
            lemma_store32_i64();
            "i64"@
        },
        Helper::StoreV128 => {
            lemma_store_v128();
            "u128"@
        },
        _ => ""@,
    }
}

proof fn lemma_load_lane_params(op: LoadLaneOp)
    ensures
        declares(
            base_lines(load_lane_rule(op))[0],
            helper_text(load_lane_rule(op)),
            seq![("addr"@, "i32"@), ("offset"@, "u32"@), ("value"@, "u128"@), ("lane"@, "usize"@)],
        ),
{
    match op {
        LoadLaneOp::V128Load8Lane => lemma_load8_lane(),
        LoadLaneOp::V128Load16Lane => lemma_load16_lane(),
        LoadLaneOp::V128Load32Lane => lemma_load32_lane(),
        LoadLaneOp::V128Load64Lane => lemma_load64_lane(),
    }
}

proof fn lemma_store_lane_params(op: StoreLaneOp)
    ensures
        declares(
            base_lines(store_lane_rule(op))[0],
            helper_text(store_lane_rule(op)),
            seq![("addr"@, "i32"@), ("offset"@, "u32"@), ("value"@, "u128"@), ("lane"@, "usize"@)],
        ),
{
    match op {
        StoreLaneOp::V128Store8Lane => lemma_store8_lane(),
        StoreLaneOp::V128Store16Lane => lemma_store16_lane(),
        StoreLaneOp::V128Store32Lane => lemma_store32_lane(),
        StoreLaneOp::V128Store64Lane => lemma_store64_lane(),
    }
}

proof fn lemma_unfold_access(
    s: GenV,
    load: LoadOp,
    store: StoreOp,
    load_lane: LoadLaneOp,
    store_lane: StoreLaneOp,
    memarg: MemArg,
    lane: u8,
    text: Seq<char>,
)
    requires
        s.reachable,
    ensures
        s.emitted(Operator::Load { op: load, memarg }, text) == s.load(
            load_rule(load).0,
            load_rule(load).1,
            memarg,
        ),
        s.emitted(Operator::Store { op: store, memarg }, text) == s.store(
            store_rule(store),
            memarg,
        ),
        s.emitted(Operator::LoadLane { op: load_lane, memarg, lane }, text) == s.load_lane(
            load_lane_rule(load_lane),
            memarg,
            lane,
        ),
        s.emitted(Operator::StoreLane { op: store_lane, memarg, lane }, text) == s.store_lane(
            store_lane_rule(store_lane),
            memarg,
            lane,
        ),
{
    reveal(GenV::lowered_access);
}

proof fn lemma_unfold_bulk(s: GenV, a: u32, b: u32, text: Seq<char>)
    requires
        s.reachable,
    ensures
        s.emitted(Operator::MemoryFill { mem: a }, text) == s.memory_fill(a),
        s.emitted(Operator::MemoryCopy { dst_mem: a, src_mem: b }, text) == s.memory_copy(a, b),
        s.emitted(Operator::TableFill { table: a }, text) == s.table_fill(a),
        s.emitted(Operator::TableCopy { dst_table: a, src_table: b }, text) == s.table_copy(a, b),
{
    reveal(GenV::lowered_memory);
    reveal(GenV::lowered_table);
}

#[verifier::rlimit(40)]
proof fn lemma_load_call(op: LoadOp, memarg: MemArg, addr: Seq<char>)
    ensures
        loads(
            ("self."@ + helper_method_text(load_rule(op).0, memarg.memory) + "("@ + addr + ", "@
                + dec(memarg.offset as nat) + "u32)"@),
            load_rule(op).0,
            memarg,
            addr,
        ),
{
    let h = load_rule(op).0;
    let offset = dec(memarg.offset as nat) + "u32"@;
    let params = seq![("addr"@, "i32"@), ("offset"@, "u32"@)];
    let args = seq![addr, offset];
    let code = "self."@ + helper_method_text(h, memarg.memory) + "("@ + joined(args, ", "@) + ")"@;
    lemma_load_params(op);
    lemma_words();
    lemma_joined(addr, offset, addr, addr);
    lemma_receives(params, args, 0);
    lemma_receives(params, args, 1);
    assert(calls_helper(code, h, memarg.memory, params, args));
    assert(loads(code, h, memarg, addr));
    reveal_strlit("u32)");
    reveal_strlit("u32");
    reveal_strlit(")");
    assert(code =~= ("self."@ + helper_method_text(h, memarg.memory) + "("@ + addr + ", "@
        + dec(memarg.offset as nat) + "u32)"@));
}

#[verifier::rlimit(40)]
proof fn lemma_store_call(op: StoreOp, memarg: MemArg, addr: Seq<char>, value: Seq<char>)
    ensures
        stores(
            ("self."@ + helper_method_text(store_rule(op), memarg.memory) + "("@ + addr + ", "@
                + dec(memarg.offset as nat) + "u32, "@ + value + ")"@),
            store_rule(op),
            memarg,
            addr,
            value,
        ),
{
    let h = store_rule(op);
    let offset = dec(memarg.offset as nat) + "u32"@;
    let ty = lemma_store_params(op);
    let params = seq![("addr"@, "i32"@), ("offset"@, "u32"@), ("value"@, ty)];
    let args = seq![addr, offset, value];
    let code = "self."@ + helper_method_text(h, memarg.memory) + "("@ + joined(args, ", "@) + ")"@;
    lemma_words();
    lemma_joined(addr, offset, value, value);
    lemma_receives(params, args, 0);
    lemma_receives(params, args, 1);
    lemma_receives(params, args, 2);
    assert(calls_helper(code, h, memarg.memory, params, args));
    assert(stores(code, h, memarg, addr, value));
    reveal_strlit("u32, ");
    reveal_strlit("u32");
    reveal_strlit(", ");
    assert(code
        =~= ("self."@ + helper_method_text(h, memarg.memory) + "("@ + addr + ", "@
            + dec(memarg.offset as nat) + "u32, "@ + value + ")"@));
}

/// A statement is its expression and a semicolon.
proof fn lemma_statement(front: Seq<char>)
    ensures
        front + ");"@ == front + ")"@ + ";"@,
{
    reveal_strlit(");");
    reveal_strlit(")");
    reveal_strlit(";");
    assert(front + ");"@ =~= front + ")"@ + ";"@);
}

// ---------------------------------------------------------------------------
// Accesses
// ---------------------------------------------------------------------------
/// A load reads where its operand says: the top operand is handed to the parameter
/// `addr` of the helper, the static offset to `offset`, and the loaded value takes the
/// operand's place.
#[verifier::rlimit(40)]
pub proof fn law_loads_read_their_address(
    s: GenV,
    op: LoadOp,
    memarg: MemArg,
    text: Seq<char>,
    t: GenV,
)
    requires
        s.reachable,
        s.emitted(Operator::Load { op, memarg }, text) == Ok::<GenV, FailV>(t),
    ensures
        s.stack.len() > 0,
        exists|code: Seq<char>| #[trigger]
            loads(code, load_rule(op).0, memarg, s.stack.last().code) && yields(
                s.drop(1),
                t,
                code,
            ),
{
    lemma_unfold_access(
        s,
        op,
        StoreOp::I32Store,
        LoadLaneOp::V128Load8Lane,
        StoreLaneOp::V128Store8Lane,
        memarg,
        0,
        text,
    );
    let h = load_rule(op).0;
    let addr = s.stack.last().code;
    lemma_load_call(op, memarg, addr);
    let u = s.drop(1).using_helper(h, memarg.memory);
    let code = ("self."@ + helper_method_text(h, memarg.memory) + "("@ + addr + ", "@
        + dec(memarg.offset as nat) + "u32)"@);
    assert(u.combined(code, load_rule(op).1, false) == Ok::<GenV, FailV>(t));
    law_expressions_are_pushed(u, code, load_rule(op).1, false);
}

/// A store writes what its operands say: the operand below the top is handed to the
/// parameter `addr` of the helper, the top operand to `value`, the static offset to
/// `offset`, and both operands are gone.
#[verifier::rlimit(40)]
pub proof fn law_stores_write_their_value(
    s: GenV,
    op: StoreOp,
    memarg: MemArg,
    text: Seq<char>,
    t: GenV,
)
    requires
        s.reachable,
        s.emitted(Operator::Store { op, memarg }, text) == Ok::<GenV, FailV>(t),
    ensures
        s.stack.len() >= 2,
        t.stack.len() == s.stack.len() - 2,
        t.cur.len() > s.cur.len(),
        exists|code: Seq<char>| #[trigger]
            stores(
                code,
                store_rule(op),
                memarg,
                s.stack[s.stack.len() - 2].code,
                s.stack.last().code,
            ) && t.cur.last() == NodeV::Line(code + ";"@),
{
    lemma_unfold_access(
        s,
        LoadOp::I32Load,
        op,
        LoadLaneOp::V128Load8Lane,
        StoreLaneOp::V128Store8Lane,
        memarg,
        0,
        text,
    );
    law_freezing_keeps_values(s, 2);
    let h = store_rule(op);
    let addr = s.stack[s.stack.len() - 2].code;
    let value = s.stack.last().code;
    lemma_store_call(op, memarg, addr, value);
    let u = s.survivors_frozen(2)->Ok_0;
    assert(u.below(1).code == addr && u.top().code == value);
    lemma_statement(("self."@ + helper_method_text(h, memarg.memory) + "("@ + addr + ", "@
        + dec(memarg.offset as nat) + "u32, "@ + value));
}

/// A lane load replaces the lane it names of the top operand by what it reads at the
/// operand below.
#[verifier::rlimit(40)]
pub proof fn law_lane_loads_read_their_address(
    s: GenV,
    op: LoadLaneOp,
    memarg: MemArg,
    lane: u8,
    text: Seq<char>,
    t: GenV,
)
    requires
        s.reachable,
        s.emitted(Operator::LoadLane { op, memarg, lane }, text) == Ok::<GenV, FailV>(t),
    ensures
        s.stack.len() >= 2,
        exists|code: Seq<char>| #[trigger]
            moves_lane(
                code,
                load_lane_rule(op),
                memarg,
                s.stack[s.stack.len() - 2].code,
                s.stack.last().code,
                lane,
            ) && yields(s.drop(2), t, code),
{
    lemma_unfold_access(
        s,
        LoadOp::I32Load,
        StoreOp::I32Store,
        op,
        StoreLaneOp::V128Store8Lane,
        memarg,
        lane,
        text,
    );
    let h = load_lane_rule(op);
    let addr = s.stack[s.stack.len() - 2].code;
    let value = s.stack.last().code;
    lemma_load_lane_params(op);
    let code = lemma_moves_lane(h, memarg, addr, value, lane);
    let u = s.drop(2).using_helper(h, memarg.memory);
    law_expressions_are_pushed(u, code, ValType::V128, false);
}

/// A lane store writes the lane it names of the top operand at the operand below.
#[verifier::rlimit(40)]
pub proof fn law_lane_stores_write_their_lane(
    s: GenV,
    op: StoreLaneOp,
    memarg: MemArg,
    lane: u8,
    text: Seq<char>,
    t: GenV,
)
    requires
        s.reachable,
        s.emitted(Operator::StoreLane { op, memarg, lane }, text) == Ok::<GenV, FailV>(t),
    ensures
        s.stack.len() >= 2,
        t.stack.len() == s.stack.len() - 2,
        t.cur.len() > s.cur.len(),
        exists|code: Seq<char>| #[trigger]
            moves_lane(
                code,
                store_lane_rule(op),
                memarg,
                s.stack[s.stack.len() - 2].code,
                s.stack.last().code,
                lane,
            ) && t.cur.last() == NodeV::Line(code + ";"@),
{
    lemma_unfold_access(
        s,
        LoadOp::I32Load,
        StoreOp::I32Store,
        LoadLaneOp::V128Load8Lane,
        op,
        memarg,
        lane,
        text,
    );
    law_freezing_keeps_values(s, 2);
    let h = store_lane_rule(op);
    let addr = s.stack[s.stack.len() - 2].code;
    let value = s.stack.last().code;
    lemma_store_lane_params(op);
    let code = lemma_moves_lane(h, memarg, addr, value, lane);
    let u = s.survivors_frozen(2)->Ok_0;
    assert(u.below(1).code == addr && u.top().code == value);
    lemma_statement(
        ("self."@ + helper_method_text(h, memarg.memory) + "("@ + addr + ", "@
            + dec(memarg.offset as nat) + "u32, "@ + value + ", "@ + dec(lane as nat)),
    );
}

#[verifier::rlimit(40)]
proof fn lemma_moves_lane(
    h: Helper,
    memarg: MemArg,
    addr: Seq<char>,
    value: Seq<char>,
    lane: u8,
) -> (code: Seq<char>)
    requires
        declares(
            base_lines(h)[0],
            helper_text(h),
            seq![("addr"@, "i32"@), ("offset"@, "u32"@), ("value"@, "u128"@), ("lane"@, "usize"@)],
        ),
    ensures
        moves_lane(code, h, memarg, addr, value, lane),
        code
            == ("self."@ + helper_method_text(h, memarg.memory) + "("@ + addr + ", "@
                + dec(memarg.offset as nat) + "u32, "@ + value + ", "@ + dec(lane as nat) + ")"@),
{
    let offset = dec(memarg.offset as nat) + "u32"@;
    let params = seq![("addr"@, "i32"@), ("offset"@, "u32"@), ("value"@, "u128"@), ("lane"@,
        "usize"@)];
    let args = seq![addr, offset, value, dec(lane as nat)];
    let code = "self."@ + helper_method_text(h, memarg.memory) + "("@ + joined(args, ", "@) + ")"@;
    lemma_words();
    lemma_joined(addr, offset, value, dec(lane as nat));
    lemma_receives(params, args, 0);
    lemma_receives(params, args, 1);
    lemma_receives(params, args, 2);
    lemma_receives(params, args, 3);
    assert(calls_helper(code, h, memarg.memory, params, args));
    reveal_strlit("u32, ");
    reveal_strlit("u32");
    reveal_strlit(", ");
    assert(code
        =~= ("self."@ + helper_method_text(h, memarg.memory) + "("@ + addr + ", "@
            + dec(memarg.offset as nat) + "u32, "@ + value + ", "@ + dec(lane as nat) + ")"@));
    code
}

proof fn lemma_range(
    h: Helper,
    mem: u32,
    what: Seq<char>,
    tys: (Seq<char>, Seq<char>, Seq<char>),
    dest: Seq<char>,
    from: Seq<char>,
    len: Seq<char>,
)
    requires
        declares(
            base_lines(h)[0],
            helper_text(h),
            seq![("dest"@, tys.0), (what, tys.1), ("len"@, tys.2)],
        ),
        what == "src"@ || what == "val"@,
    ensures
        works_on_range(
            ("self."@ + helper_method_text(h, mem) + "("@ + dest + ", "@ + from + ", "@ + len
                + ")"@),
            h,
            mem,
            what,
            dest,
            from,
            len,
        ),
{
    let params = seq![("dest"@, tys.0), (what, tys.1), ("len"@, tys.2)];
    let args = seq![dest, from, len];
    let code = "self."@ + helper_method_text(h, mem) + "("@ + joined(args, ", "@) + ")"@;
    lemma_words();
    lemma_joined(dest, from, len, len);
    lemma_receives(params, args, 0);
    lemma_receives(params, args, 1);
    lemma_receives(params, args, 2);
    assert(calls_helper(code, h, mem, params, args));
    assert(code =~= ("self."@ + helper_method_text(h, mem) + "("@ + dest + ", "@ + from + ", "@
        + len + ")"@));
}

/// The operand as an unsigned number.
pub open spec fn as_unsigned(v: ValV) -> Seq<char> {
    "("@ + v.code + ") as u32"@
}

/// `memory.fill` fills from the third operand on, with the second, as many cells as the
/// top operand says; the operands are those of `s` with their values bound.
#[verifier::rlimit(40)]
pub proof fn law_memory_fill_has_its_range(s: GenV, mem: u32, text: Seq<char>, t: GenV)
    requires
        s.reachable,
        s.emitted(Operator::MemoryFill { mem }, text) == Ok::<GenV, FailV>(t),
    ensures
        s.spilled() matches Ok(u) && u.stack.len() >= 3 && t.stack.len() == s.stack.len() - 3
            && exists|code: Seq<char>| #[trigger]
            works_on_range(
                code,
                Helper::MemoryFill,
                mem,
                "val"@,
                as_unsigned(u.stack[u.stack.len() - 3]),
                u.stack[u.stack.len() - 2].code,
                as_unsigned(u.stack.last()),
            ) && t.cur == u.cur.push(NodeV::Line(code + ";"@)),
{
    lemma_unfold_bulk(s, mem, mem, text);
    law_freezing_keeps_values(s, 0);
    let u = s.spilled()->Ok_0;
    let (a, b, c) = (u.below(2), u.below(1), u.top());
    lemma_memory_fill();
    lemma_range(
        Helper::MemoryFill,
        mem,
        "val"@,
        ("u32"@, "i32"@, "u32"@),
        as_unsigned(a),
        b.code,
        as_unsigned(c),
    );
    lemma_range_text(helper_method_text(Helper::MemoryFill, mem), a, b, c);
}

proof fn lemma_range_text(name: Seq<char>, a: ValV, b: ValV, c: ValV)
    ensures
        ("self."@ + name + "(("@ + a.code + ") as u32, "@ + b.code + ", ("@ + c.code
            + ") as u32);"@)
            == ("self."@ + name + "("@ + as_unsigned(a) + ", "@ + b.code + ", "@ + as_unsigned(c)
                + ")"@) + ";"@,
        ("self."@ + name + "(("@ + a.code + ") as u32, ("@ + b.code + ") as u32, ("@ + c.code
            + ") as u32);"@)
            == ("self."@ + name + "("@ + as_unsigned(a) + ", "@ + as_unsigned(b) + ", "@
                + as_unsigned(c) + ")"@) + ";"@,
{
    lemma_literals();
    assert(("self."@ + name + "(("@ + a.code + ") as u32, "@ + b.code + ", ("@ + c.code
        + ") as u32);"@)
        =~= ("self."@ + name + "("@ + as_unsigned(a) + ", "@ + b.code + ", "@ + as_unsigned(c)
            + ")"@) + ";"@);
    assert(("self."@ + name + "(("@ + a.code + ") as u32, ("@ + b.code + ") as u32, ("@ + c.code
        + ") as u32);"@)
        =~= ("self."@ + name + "("@ + as_unsigned(a) + ", "@ + as_unsigned(b) + ", "@
            + as_unsigned(c) + ")"@) + ";"@);
}

#[verifier::rlimit(40)]
proof fn lemma_literals()
    ensures
        "(("@ == "("@ + "("@,
        ") as u32, "@ == ") as u32"@ + ", "@,
        ") as u32, ("@ == ") as u32"@ + ", "@ + "("@,
        ", ("@ == ", "@ + "("@,
        ") as u32);"@ == ") as u32"@ + ")"@ + ";"@,
{
    reveal_strlit("((");
    reveal_strlit("(");
    reveal_strlit(") as u32, ");
    reveal_strlit(") as u32, (");
    reveal_strlit(") as u32");
    reveal_strlit(", ");
    reveal_strlit(", (");
    reveal_strlit(") as u32);");
    reveal_strlit(")");
    reveal_strlit(";");
    assert("(("@ =~= "("@ + "("@);
    assert(") as u32, "@ =~= ") as u32"@ + ", "@);
    assert(") as u32, ("@ =~= ") as u32"@ + ", "@ + "("@);
    assert(", ("@ =~= ", "@ + "("@);
    assert(") as u32);"@ =~= ") as u32"@ + ")"@ + ";"@);
}

#[verifier::rlimit(40)]
proof fn lemma_memory_copy_call(mem: u32, a: ValV, b: ValV, c: ValV) -> (code: Seq<char>)
    ensures
        works_on_range(
            code,
            Helper::MemoryCopy,
            mem,
            "src"@,
            as_unsigned(a),
            as_unsigned(b),
            as_unsigned(c),
        ),
        code + ";"@
            == ("self."@ + helper_method_text(Helper::MemoryCopy, mem) + "(("@ + a.code
                + ") as u32, ("@ + b.code + ") as u32, ("@ + c.code + ") as u32);"@),
{
    lemma_memory_copy();
    lemma_range(
        Helper::MemoryCopy,
        mem,
        "src"@,
        ("u32"@, "u32"@, "u32"@),
        as_unsigned(a),
        as_unsigned(b),
        as_unsigned(c),
    );
    lemma_range_text(helper_method_text(Helper::MemoryCopy, mem), a, b, c);
    ("self."@ + helper_method_text(Helper::MemoryCopy, mem) + "("@ + as_unsigned(a) + ", "@
        + as_unsigned(b) + ", "@ + as_unsigned(c) + ")"@)
}

/// `memory.copy` within a memory copies to the third operand from the second, as many
/// cells as the top operand says.
#[verifier::rlimit(40)]
pub proof fn law_memory_copy_has_its_ranges(s: GenV, mem: u32, text: Seq<char>, t: GenV)
    requires
        s.reachable,
        s.emitted(Operator::MemoryCopy { dst_mem: mem, src_mem: mem }, text) == Ok::<GenV,
            FailV>(t),
    ensures
        s.spilled() matches Ok(u) && u.stack.len() >= 3 && t.stack.len() == s.stack.len() - 3
            && exists|code: Seq<char>| #[trigger]
            works_on_range(
                code,
                Helper::MemoryCopy,
                mem,
                "src"@,
                as_unsigned(u.stack[u.stack.len() - 3]),
                as_unsigned(u.stack[u.stack.len() - 2]),
                as_unsigned(u.stack.last()),
            ) && t.cur == u.cur.push(NodeV::Line(code + ";"@)),
{
    lemma_unfold_bulk(s, mem, mem, text);
    law_freezing_keeps_values(s, 0);
    let u = s.spilled()->Ok_0;
    let code = lemma_memory_copy_call(mem, u.below(2), u.below(1), u.top());
    assert(t.cur == u.cur.push(NodeV::Line(code + ";"@)));
    assert(works_on_range(
        code,
        Helper::MemoryCopy,
        mem,
        "src"@,
        as_unsigned(u.stack[u.stack.len() - 3]),
        as_unsigned(u.stack[u.stack.len() - 2]),
        as_unsigned(u.stack.last()),
    ));
    assert(t.stack.len() == u.stack.len() - 3);
}

#[verifier::rlimit(40)]
proof fn lemma_table_fill_call(a: ValV, b: ValV, c: ValV) -> (code: Seq<char>)
    ensures
        works_on_range(
            code,
            Helper::TableFill,
            0,
            "val"@,
            as_unsigned(a),
            as_unsigned(b),
            as_unsigned(c),
        ),
        code + ";"@
            == ("self.table_fill(("@ + a.code + ") as u32, ("@ + b.code + ") as u32, ("@ + c.code
                + ") as u32);"@),
{
    lemma_table_fill();
    lemma_range(
        Helper::TableFill,
        0,
        "val"@,
        ("u32"@, "u32"@, "u32"@),
        as_unsigned(a),
        as_unsigned(b),
        as_unsigned(c),
    );
    lemma_range_text(helper_method_text(Helper::TableFill, 0), a, b, c);
    reveal_strlit("self.table_fill((");
    reveal_strlit("table_fill");
    reveal_strlit("self.");
    reveal_strlit("((");
    assert("self.table_fill(("@ =~= "self."@ + "table_fill"@ + "(("@);
    ("self."@ + helper_method_text(Helper::TableFill, 0) + "("@ + as_unsigned(a) + ", "@
        + as_unsigned(b) + ", "@ + as_unsigned(c) + ")"@)
}

/// `table.fill` fills from the third operand on, with the second, as many cells as the
/// top operand says.
#[verifier::rlimit(40)]
pub proof fn law_table_fill_has_its_range(s: GenV, table: u32, text: Seq<char>, t: GenV)
    requires
        s.reachable,
        s.emitted(Operator::TableFill { table }, text) == Ok::<GenV, FailV>(t),
    ensures
        s.spilled() matches Ok(u) && u.stack.len() >= 3 && t.stack.len() == s.stack.len() - 3
            && exists|code: Seq<char>| #[trigger]
            works_on_range(
                code,
                Helper::TableFill,
                0,
                "val"@,
                as_unsigned(u.stack[u.stack.len() - 3]),
                as_unsigned(u.stack[u.stack.len() - 2]),
                as_unsigned(u.stack.last()),
            ) && t.cur == u.cur.push(NodeV::Line(code + ";"@)),
{
    lemma_unfold_bulk(s, table, table, text);
    law_freezing_keeps_values(s, 0);
    let u = s.spilled()->Ok_0;
    let code = lemma_table_fill_call(u.below(2), u.below(1), u.top());
    assert(t.cur == u.cur.push(NodeV::Line(code + ";"@)));
    assert(works_on_range(
        code,
        Helper::TableFill,
        0,
        "val"@,
        as_unsigned(u.stack[u.stack.len() - 3]),
        as_unsigned(u.stack[u.stack.len() - 2]),
        as_unsigned(u.stack.last()),
    ));
    assert(t.stack.len() == u.stack.len() - 3);
}

#[verifier::rlimit(40)]
proof fn lemma_table_copy_call(a: ValV, b: ValV, c: ValV) -> (code: Seq<char>)
    ensures
        works_on_range(
            code,
            Helper::TableCopy,
            0,
            "src"@,
            as_unsigned(a),
            as_unsigned(b),
            as_unsigned(c),
        ),
        code + ";"@
            == ("self.table_copy(("@ + a.code + ") as u32, ("@ + b.code + ") as u32, ("@ + c.code
                + ") as u32);"@),
{
    lemma_table_copy();
    lemma_range(
        Helper::TableCopy,
        0,
        "src"@,
        ("u32"@, "u32"@, "u32"@),
        as_unsigned(a),
        as_unsigned(b),
        as_unsigned(c),
    );
    lemma_range_text(helper_method_text(Helper::TableCopy, 0), a, b, c);
    reveal_strlit("self.table_copy((");
    reveal_strlit("table_copy");
    reveal_strlit("self.");
    reveal_strlit("((");
    assert("self.table_copy(("@ =~= "self."@ + "table_copy"@ + "(("@);
    ("self."@ + helper_method_text(Helper::TableCopy, 0) + "("@ + as_unsigned(a) + ", "@
        + as_unsigned(b) + ", "@ + as_unsigned(c) + ")"@)
}

/// `table.copy` copies to the third operand from the second, as many cells as the top
/// operand says.
#[verifier::rlimit(40)]
pub proof fn law_table_copy_has_its_ranges(
    s: GenV,
    dst_table: u32,
    src_table: u32,
    text: Seq<char>,
    t: GenV,
)
    requires
        s.reachable,
        s.emitted(Operator::TableCopy { dst_table, src_table }, text) == Ok::<GenV, FailV>(t),
    ensures
        s.spilled() matches Ok(u) && u.stack.len() >= 3 && t.stack.len() == s.stack.len() - 3
            && exists|code: Seq<char>| #[trigger]
            works_on_range(
                code,
                Helper::TableCopy,
                0,
                "src"@,
                as_unsigned(u.stack[u.stack.len() - 3]),
                as_unsigned(u.stack[u.stack.len() - 2]),
                as_unsigned(u.stack.last()),
            ) && t.cur == u.cur.push(NodeV::Line(code + ";"@)),
{
    lemma_unfold_bulk(s, dst_table, src_table, text);
    law_freezing_keeps_values(s, 0);
    let u = s.spilled()->Ok_0;
    let code = lemma_table_copy_call(u.below(2), u.below(1), u.top());
    assert(t.cur == u.cur.push(NodeV::Line(code + ";"@)));
    assert(works_on_range(
        code,
        Helper::TableCopy,
        0,
        "src"@,
        as_unsigned(u.stack[u.stack.len() - 3]),
        as_unsigned(u.stack[u.stack.len() - 2]),
        as_unsigned(u.stack.last()),
    ));
    assert(t.stack.len() == u.stack.len() - 3);
}

// ---------------------------------------------------------------------------
// Atomic accesses
// ---------------------------------------------------------------------------
/// The load and the store of the cell of an atomic access.
pub open spec fn cell_ops(width: AtomicWidth) -> (LoadOp, StoreOp) {
    match width {
        AtomicWidth::I32 => (LoadOp::I32AtomicLoad, StoreOp::I32AtomicStore),
        AtomicWidth::I32As8 => (LoadOp::I32AtomicLoad8U, StoreOp::I32AtomicStore8),
        AtomicWidth::I32As16 => (LoadOp::I32AtomicLoad16U, StoreOp::I32AtomicStore16),
        AtomicWidth::I64 => (LoadOp::I64AtomicLoad, StoreOp::I64AtomicStore),
        AtomicWidth::I64As8 => (LoadOp::I64AtomicLoad8U, StoreOp::I64AtomicStore8),
        AtomicWidth::I64As16 => (LoadOp::I64AtomicLoad16U, StoreOp::I64AtomicStore16),
        AtomicWidth::I64As32 => (LoadOp::I64AtomicLoad32U, StoreOp::I64AtomicStore32),
    }
}

/// Whether the nodes from `from` on bind `at` to the address and `old` to what the cell
/// holds there.
pub open spec fn reads_cell(
    nodes: Seq<NodeV>,
    from: int,
    width: AtomicWidth,
    memarg: MemArg,
    addr: Seq<char>,
    at: Seq<char>,
    prev: Seq<char>,
) -> bool {
    &&& 0 <= from && from + 2 <= nodes.len()
    &&& nodes[from] == NodeV::Line("let "@ + at + ": i32 = "@ + addr + ";"@)
    &&& exists|code: Seq<char>| #[trigger]
        loads(code, load_rule(cell_ops(width).0).0, memarg, at) && nodes[from + 1] == NodeV::Line(
            "let "@ + prev + " = "@ + code + ";"@,
        )
}

proof fn lemma_unfold_atomic(
    s: GenV,
    width: AtomicWidth,
    op: RmwOp,
    memarg: MemArg,
    text: Seq<char>,
)
    requires
        s.reachable,
    ensures
        s.emitted(Operator::AtomicRmw { width, op, memarg }, text) == s.atomic_rmw(
            width,
            op,
            memarg,
        ),
        s.emitted(Operator::AtomicCompareExchange { width, memarg }, text) == s.atomic_cmpxchg(
            width,
            memarg,
        ),
{
    reveal(GenV::lowered_access);
}

#[verifier::rlimit(40)]
proof fn lemma_atomic_loaded(
    s: GenV,
    width: AtomicWidth,
    memarg: MemArg,
    addr: Seq<char>,
)
    ensures
        ({
            let t = s.atomic_loaded(width, memarg.memory, memarg.offset as u32, addr);
            let at = s.temp();
            let prev = s.temp_taken().temp();
            memarg.offset <= u32::MAX ==> {
                &&& t.cur.len() == s.cur.len() + 2
                &&& t.cur.take(s.cur.len() as int) == s.cur
                &&& t.stack == s.stack
                &&& reads_cell(t.cur, s.cur.len() as int, width, memarg, addr, at, prev)
            }
        }),
{
    let t = s.atomic_loaded(width, memarg.memory, memarg.offset as u32, addr);
    let at = s.temp();
    let prev = s.temp_taken().temp();
    let op = cell_ops(width).0;
    lemma_load_call(op, memarg, at);
    let code =
        ("self."@ + helper_method_text(load_rule(op).0, memarg.memory) + "("@ + at + ", "@
            + dec(memarg.offset as nat) + "u32)"@);
    assert(load_rule(op).0 == width.load());
    assert(t.cur.take(s.cur.len() as int) =~= s.cur);
    if memarg.offset <= u32::MAX {
        lemma_bound_load(prev, width.load(), memarg, at);
        assert(t.cur[s.cur.len() as int + 1] == NodeV::Line("let "@ + prev + " = "@ + code + ";"@));
    }
}

proof fn lemma_bound_load(prev: Seq<char>, h: Helper, memarg: MemArg, at: Seq<char>)
    ensures
        ("let "@ + prev + " = self."@ + helper_method_text(h, memarg.memory) + "("@ + at + ", "@
            + dec(memarg.offset as nat) + "u32);"@)
            == "let "@ + prev + " = "@
            + ("self."@ + helper_method_text(h, memarg.memory) + "("@ + at + ", "@
                + dec(memarg.offset as nat) + "u32)"@) + ";"@,
{
    broadcast use group_text;

    reveal_strlit(" = self.");
    reveal_strlit(" = ");
    reveal_strlit("self.");
    reveal_strlit("u32);");
    reveal_strlit("u32)");
    reveal_strlit(";");
    assert(" = self."@ =~= " = "@ + "self."@);
    assert("u32);"@ =~= "u32)"@ + ";"@);
}

/// An atomic update of a memory that is not shared reads its cell at the lower operand,
/// writes back what the operator gives of what was there and of the top operand, and
/// gives what was there.
#[verifier::rlimit(40)]
pub proof fn law_atomic_updates_are_in_place(
    s: GenV,
    width: AtomicWidth,
    op: RmwOp,
    memarg: MemArg,
    text: Seq<char>,
    t: GenV,
)
    requires
        s.reachable,
        !s.ctx.memory_shared,
        s.emitted(Operator::AtomicRmw { width, op, memarg }, text) == Ok::<GenV, FailV>(t),
    ensures
        s.spilled() matches Ok(u) && {
            let n = u.stack.len();
            &&& n >= 2
            &&& t.stack.len() == n - 1
            &&& t.cur.len() == u.cur.len() + 3
            &&& exists|at: Seq<char>|
                #[trigger] reads_cell(
                    t.cur,
                    u.cur.len() as int,
                    width,
                    memarg,
                    u.stack[u.stack.len() - 2].code,
                    at,
                    t.stack.last().code,
                ) && exists|code: Seq<char>| #[trigger]
                    stores(
                        code,
                        store_rule(cell_ops(width).1),
                        memarg,
                        at,
                        rmw_text(op, t.stack.last().code, u.stack.last().code),
                    ) && t.cur.last() == NodeV::Line(code + ";"@)
        },
{
    lemma_unfold_atomic(s, width, op, memarg, text);
    law_freezing_keeps_values(s, 0);
    let u = s.spilled()->Ok_0;
    let (addr, value) = (u.stack[u.stack.len() - 2].code, u.stack.last().code);
    let d = u.drop(2);
    let at = d.temp();
    let prev = d.temp_taken().temp();
    lemma_atomic_loaded(d, width, memarg, addr);
    let new = rmw_text(op, prev, value);
    let store = cell_ops(width).1;
    assert(store_rule(store) == width.store());
    lemma_store_call(store, memarg, at, new);
    let code =
        ("self."@ + helper_method_text(store_rule(store), memarg.memory) + "("@ + at + ", "@
            + dec(memarg.offset as nat) + "u32, "@ + new + ")"@);
    lemma_statement(
        ("self."@ + helper_method_text(store_rule(store), memarg.memory) + "("@ + at + ", "@
            + dec(memarg.offset as nat) + "u32, "@ + new),
    );
    let w = d.atomic_loaded(width, memarg.memory, memarg.offset as u32, addr);
    assert(t.cur == w.cur.push(NodeV::Line(code + ";"@)));
    assert(t.stack.last().code == prev);
    let from = u.cur.len() as int;
    assert(t.cur[from] == w.cur[from] && t.cur[from + 1] == w.cur[from + 1]);
    assert(reads_cell(t.cur, from, width, memarg, addr, at, prev));
}

/// `memory.grow` grows the memory that it names by the top operand, and gives what the
/// helper gives.
#[verifier::rlimit(40)]
pub proof fn law_memory_grow_has_its_delta(s: GenV, mem: u32, text: Seq<char>, t: GenV)
    requires
        s.reachable,
        s.emitted(Operator::MemoryGrow { mem }, text) == Ok::<GenV, FailV>(t),
    ensures
        s.spilled() matches Ok(u) && u.stack.len() >= 1 && t.stack.len() == s.stack.len()
            && exists|code: Seq<char>, args: Seq<Seq<char>>|
            #[trigger] calls_helper(code, Helper::Grow, mem, seq![("delta"@, "i32"@)], args)
                && receives(
                seq![("delta"@, "i32"@)],
                args,
                "delta"@,
                u.stack.last().code,
            ) && t.cur == u.cur.push(
                NodeV::Line("let "@ + t.stack.last().code + ": i32 = "@ + code + ";"@),
            ),
{
    lemma_unfold_grow(s, mem, text);
    law_freezing_keeps_values(s, 0);
    let u = s.spilled()->Ok_0;
    let delta = u.stack.last().code;
    let params = seq![("delta"@, "i32"@)];
    let args = seq![delta];
    let code = ("self."@ + helper_method_text(Helper::Grow, mem) + "("@ + delta + ")"@);
    lemma_grow();
    lemma_receives(params, args, 0);
    assert(joined(args, ", "@) == delta);
    assert(calls_helper(code, Helper::Grow, mem, params, args));
    let temp = t.stack.last().code;
    lemma_grow_line(temp, helper_method_text(Helper::Grow, mem), delta);
    assert(t.cur == u.cur.push(NodeV::Line("let "@ + temp + ": i32 = "@ + code + ";"@)));
}

proof fn lemma_grow_line(temp: Seq<char>, method: Seq<char>, delta: Seq<char>)
    ensures
        ("let "@ + temp + ": i32 = self."@ + method + "("@ + delta + ");"@) == "let "@ + temp
            + ": i32 = "@
            + ("self."@ + method + "("@ + delta + ")"@) + ";"@,
{
    broadcast use group_text;

    reveal_strlit(": i32 = self.");
    reveal_strlit(": i32 = ");
    reveal_strlit("self.");
    reveal_strlit(");");
    reveal_strlit(")");
    reveal_strlit(";");
    assert(": i32 = self."@ =~= ": i32 = "@ + "self."@);
    assert(");"@ =~= ")"@ + ";"@);
}

proof fn lemma_unfold_grow(s: GenV, mem: u32, text: Seq<char>)
    requires
        s.reachable,
    ensures
        s.emitted(Operator::MemoryGrow { mem }, text) == s.memory_grow(mem),
{
    reveal(GenV::lowered_memory);
}

} // verus!
