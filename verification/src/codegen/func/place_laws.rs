//! What is written to a place is what is read from it.

use vstd::prelude::*;

use crate::codegen::func::branch_laws::tests;
use crate::codegen::func::gc::{packed_extended, slot_read, slot_wrapped};
use crate::codegen::func::state::GenV;
use crate::codegen::func::value_laws::{law_expressions_are_pushed, law_freezing_keeps_values,
    yields};
use crate::codegen::ir::NodeV;
use crate::codegen::text_laws::law_numbers_read_back;
use crate::error::FailV;
use crate::ops::Operator;
use crate::text::{dec, joined};
use crate::wasm::{funcref, StorageType, ValType};

verus! {

// ---------------------------------------------------------------------------
// Locals and globals
// ---------------------------------------------------------------------------
proof fn lemma_unfold_places(s: GenV, i: u32, text: Seq<char>)
    requires
        s.reachable,
    ensures
        s.emitted(Operator::LocalGet { local_index: i }, text) == s.local_get(i),
        s.emitted(Operator::LocalSet { local_index: i }, text) == s.local_store(i, false),
        s.emitted(Operator::LocalTee { local_index: i }, text) == s.local_store(i, true),
        s.emitted(Operator::GlobalGet { global_index: i }, text) == s.global_get(i),
        s.emitted(Operator::GlobalSet { global_index: i }, text) == s.global_set(i),
        s.emitted(Operator::Select, text) == s.select(),
{
    reveal(GenV::lowered_basic);
}

/// `local.set` writes the variable that `local.get` of the same local reads, with the
/// top operand.
pub proof fn law_locals_read_back(
    s: GenV,
    i: u32,
    text: Seq<char>,
    t: GenV,
    u: GenV,
    v: GenV,
)
    requires
        s.reachable,
        u.reachable,
        s.emitted(Operator::LocalSet { local_index: i }, text) == Ok::<GenV, FailV>(t),
        u.emitted(Operator::LocalGet { local_index: i }, text) == Ok::<GenV, FailV>(v),
    ensures
        v.stack.len() == u.stack.len() + 1,
        v.stack.drop_last() == u.stack,
        v.cur == u.cur,
        s.stack.len() > 0,
        t.stack.len() == s.stack.len() - 1,
        t.cur.len() > s.cur.len(),
        t.cur.last() == NodeV::Line(
            v.stack.last().code + " = "@ + s.stack.last().code + ";"@,
        ),
{
    lemma_unfold_places(s, i, text);
    lemma_unfold_places(u, i, text);
    law_freezing_keeps_values(s, 1);
    assert(v.stack.drop_last() =~= u.stack);
}

/// `local.tee` writes the variable that `local.get` of the same local reads, with the
/// operand that stays on top.
pub proof fn law_tee_keeps_its_operand(
    s: GenV,
    i: u32,
    text: Seq<char>,
    t: GenV,
    u: GenV,
    v: GenV,
)
    requires
        s.reachable,
        u.reachable,
        s.emitted(Operator::LocalTee { local_index: i }, text) == Ok::<GenV, FailV>(t),
        u.emitted(Operator::LocalGet { local_index: i }, text) == Ok::<GenV, FailV>(v),
    ensures
        v.stack.len() > 0,
        s.stack.len() > 0,
        t.stack.len() == s.stack.len(),
        t.stack.last().stable || t.stack.last() == s.stack.last(),
        t.cur.len() > s.cur.len(),
        t.cur.last() == NodeV::Line(
            v.stack.last().code + " = "@ + t.stack.last().code + ";"@,
        ),
{
    lemma_unfold_places(s, i, text);
    lemma_unfold_places(u, i, text);
    law_freezing_keeps_values(s, 0);
    crate::codegen::laws::law_freezing_pins_survivors(s, 0);
}

/// Different locals are different variables.
pub proof fn law_locals_are_apart(
    s: GenV,
    i: u32,
    j: u32,
    text: Seq<char>,
    a: GenV,
    b: GenV,
)
    requires
        s.reachable,
        s.emitted(Operator::LocalGet { local_index: i }, text) == Ok::<GenV, FailV>(a),
        s.emitted(Operator::LocalGet { local_index: j }, text) == Ok::<GenV, FailV>(b),
        a.stack.last().code == b.stack.last().code,
    ensures
        i == j,
{
    lemma_unfold_places(s, i, text);
    lemma_unfold_places(s, j, text);
    law_numbers_read_back(i as nat);
    law_numbers_read_back(j as nat);
    reveal_strlit("l");
    let (x, y) = (a.stack.last().code, b.stack.last().code);
    assert(x.skip(1) =~= dec(i as nat));
    assert(y.skip(1) =~= dec(j as nat));
}

/// Whether `read` and `written` read and write, through the host, the same value `name`.
pub open spec fn hosted(
    name: Seq<char>,
    read: Seq<char>,
    written: NodeV,
    value: Seq<char>,
) -> bool {
    &&& read == "self.imports.get_"@ + name + "()"@
    &&& written == NodeV::Line("self.imports.set_"@ + name + "("@ + value + ");"@)
}

/// `global.set` writes the place that `global.get` of the same global reads, with the
/// top operand: a field of the instance, or the host's accessors.
pub proof fn law_globals_read_back(
    s: GenV,
    i: u32,
    text: Seq<char>,
    t: GenV,
    u: GenV,
    v: GenV,
)
    requires
        s.reachable,
        u.reachable,
        u.ctx == s.ctx,
        s.emitted(Operator::GlobalSet { global_index: i }, text) == Ok::<GenV, FailV>(t),
        u.emitted(Operator::GlobalGet { global_index: i }, text) == Ok::<GenV, FailV>(v),
    ensures
        v.stack.len() == u.stack.len() + 1,
        s.stack.len() > 0,
        t.stack.len() == s.stack.len() - 1,
        t.cur.len() > s.cur.len(),
        t.cur.last() == NodeV::Line(
            v.stack.last().code + " = "@ + s.stack.last().code + ";"@,
        ) || exists|name: Seq<char>| #[trigger]
            hosted(name, v.stack.last().code, t.cur.last(), s.stack.last().code),
{
    lemma_unfold_places(s, i, text);
    lemma_unfold_places(u, i, text);
    law_freezing_keeps_values(s, 1);
    law_numbers_read_back(i as nat);
    let (_, _, imported) = s.global(i)->Ok_0;
    if imported {
        let name = "global"@ + dec(i as nat);
        lemma_global_text(i, s.stack.last().code);
        assert(hosted(name, v.stack.last().code, t.cur.last(), s.stack.last().code));
    }
}

proof fn lemma_global_text(i: u32, code: Seq<char>)
    ensures
        ("self.imports.get_global"@ + dec(i as nat) + "()"@) == "self.imports.get_"@ + ("global"@
            + dec(i as nat))
            + "()"@,
        ("self.imports.set_global"@ + dec(i as nat) + "("@ + code + ");"@) == "self.imports.set_"@
            + ("global"@ + dec(
            i as nat,
        )) + "("@ + code + ");"@,
{
    reveal_strlit("self.imports.get_");
    reveal_strlit("self.imports.set_");
    reveal_strlit("self.imports.get_global");
    reveal_strlit("self.imports.set_global");
    reveal_strlit("global");
    let name = "global"@ + dec(i as nat);
    assert(("self.imports.get_global"@ + dec(i as nat) + "()"@) =~= "self.imports.get_"@ + name
        + "()"@);
    assert(("self.imports.set_global"@ + dec(i as nat) + "("@ + code
        + ");"@) =~= "self.imports.set_"@ + name + "("@ + code
        + ");"@);
}

/// Different globals are different places.
#[verifier::rlimit(40)]
pub proof fn law_globals_are_apart(
    s: GenV,
    i: u32,
    j: u32,
    text: Seq<char>,
    a: GenV,
    b: GenV,
)
    requires
        s.reachable,
        s.emitted(Operator::GlobalGet { global_index: i }, text) == Ok::<GenV, FailV>(a),
        s.emitted(Operator::GlobalGet { global_index: j }, text) == Ok::<GenV, FailV>(b),
        a.stack.last().code == b.stack.last().code,
    ensures
        i == j,
{
    lemma_unfold_places(s, i, text);
    lemma_unfold_places(s, j, text);
    law_numbers_read_back(i as nat);
    law_numbers_read_back(j as nat);
    reveal_strlit("self.g");
    reveal_strlit("self.imports.get_global");
    reveal_strlit("()");
    let (x, y) = (a.stack.last().code, b.stack.last().code);
    let (m, n) = ((s.global(i)->Ok_0).2, (s.global(j)->Ok_0).2);
    if m && n {
        assert(x.subrange(23, x.len() - 2) =~= dec(i as nat));
        assert(y.subrange(23, y.len() - 2) =~= dec(j as nat));
    } else if !m && !n {
        assert(x.skip(6) =~= dec(i as nat));
        assert(y.skip(6) =~= dec(j as nat));
    } else if m {
        assert(x[5] == 'i' && y[5] == 'g');
    } else {
        assert(x[5] == 'g' && y[5] == 'i');
    }
}

// ---------------------------------------------------------------------------
// Select
// ---------------------------------------------------------------------------
/// `select` gives the lower of the two operands below the top if the top operand is not
/// zero, and the upper one if it is.
#[verifier::rlimit(40)]
pub proof fn law_select_chooses(s: GenV, text: Seq<char>, t: GenV)
    requires
        s.reachable,
        s.emitted(Operator::Select, text) == Ok::<GenV, FailV>(t),
    ensures
        s.stack.len() >= 3,
        exists|c: Seq<char>|
            #[trigger] tests(c, s.stack.last().code) && yields(
                s.drop(3),
                t,
                "(if "@ + c + " { "@ + s.stack[s.stack.len() - 3].code + " } else { "@
                    + s.stack[s.stack.len() - 2].code + " })"@,
            ),
{
    lemma_unfold_places(s, 0, text);
    let n = s.stack.len();
    let (a, b, k) = (s.stack[n - 3], s.stack[n - 2], s.stack[n - 1]);
    let c = k.code + " != 0"@;
    assert(tests(c, k.code));
    let code = ("(if "@ + k.code + " != 0 { "@ + a.code + " } else { "@ + b.code + " })"@);
    reveal_strlit(" != 0 { ");
    reveal_strlit(" != 0");
    reveal_strlit(" { ");
    assert(code =~= "(if "@ + c + " { "@ + a.code + " } else { "@ + b.code + " })"@);
    law_expressions_are_pushed(
        s.drop(3),
        code,
        a.ty,
        k.stable && a.stable && b.stable,
    );
}

// ---------------------------------------------------------------------------
// Tables
// ---------------------------------------------------------------------------
proof fn lemma_unfold_table(s: GenV, table: u32, text: Seq<char>)
    requires
        s.reachable,
    ensures
        s.emitted(Operator::TableGet { table }, text) == s.table_get(table),
        s.emitted(Operator::TableSet { table }, text) == s.table_set(table),
{
    reveal(GenV::lowered_table);
}

/// The cell of a table, read or written through `table`.
pub open spec fn cell(table: Seq<char>, index: Seq<char>) -> Seq<char> {
    table + "[("@ + index + ") as u32 as usize]"@
}

/// `table.get` reads the cell at the top operand.
pub proof fn law_table_get_reads_its_cell(s: GenV, table: u32, text: Seq<char>, t: GenV)
    requires
        s.reachable,
        s.emitted(Operator::TableGet { table }, text) == Ok::<GenV, FailV>(t),
    ensures
        s.stack.len() > 0,
        yields(s.drop(1), t, cell("self.table()"@, s.stack.last().code)),
{
    lemma_unfold_table(s, table, text);
    let code = ("self.table()[("@ + s.top().code + ") as u32 as usize]"@);
    reveal_strlit("self.table()[(");
    reveal_strlit("self.table()");
    reveal_strlit("[(");
    assert(code =~= cell("self.table()"@, s.stack.last().code));
    let ty = match s.ctx.table_element {
        Some(ty) => ty,
        None => funcref(),
    };
    law_expressions_are_pushed(s.drop(1), code, ty, false);
}

/// `table.set` writes the top operand to the cell at the operand below; both have been
/// bound.
#[verifier::rlimit(40)]
pub proof fn law_table_set_writes_its_cell(s: GenV, table: u32, text: Seq<char>, t: GenV)
    requires
        s.reachable,
        s.emitted(Operator::TableSet { table }, text) == Ok::<GenV, FailV>(t),
    ensures
        s.spilled() matches Ok(u) && u.stack.len() >= 2 && t.stack.len() == s.stack.len() - 2
            && t.cur == u.cur.push(
            NodeV::Line(
                cell("self.table_mut()"@, u.stack[u.stack.len() - 2].code) + " = ("@
                    + u.stack.last().code + ") as u32;"@,
            ),
        ),
{
    lemma_unfold_table(s, table, text);
    law_freezing_keeps_values(s, 0);
    let u = s.spilled()->Ok_0;
    let (a, b) = (u.stack[u.stack.len() - 2].code, u.stack.last().code);
    reveal_strlit("self.table_mut()[(");
    reveal_strlit("self.table_mut()");
    reveal_strlit("[(");
    reveal_strlit(") as u32 as usize] = (");
    reveal_strlit(") as u32 as usize]");
    reveal_strlit(" = (");
    assert(("self.table_mut()[("@ + a + ") as u32 as usize] = ("@ + b + ") as u32;"@) =~= cell(
        "self.table_mut()"@,
        a,
    ) + " = ("@ + b + ") as u32;"@);
}

// ---------------------------------------------------------------------------
// Objects
// ---------------------------------------------------------------------------
/// What is put into a slot is of the variant that is read back from it, and holds the
/// value; a packed field keeps its low bits.
#[verifier::rlimit(40)]
pub proof fn law_slots_read_back(storage: StorageType, value: Seq<char>, slot: Seq<char>)
    ensures
        exists|variant: Seq<char>, held: Seq<char>, taken: Seq<char>|
            {
                &&& slot_wrapped(storage, value) == #[trigger] ("GcSlot::"@ + variant + "("@ + held
                    + ")"@)
                &&& slot_read(storage, slot) == #[trigger] ("match "@ + slot + " { GcSlot::"@
                    + variant + "(v) => "@ + taken + ", _ => unreachable!() }"@)
                &&& held == match storage {
                    StorageType::I8 => "("@ + value + ") & 0xFF"@,
                    StorageType::I16 => "("@ + value + ") & 0xFFFF"@,
                    StorageType::Val(_) => value,
                }
                &&& taken == "*v"@ || taken == "v.clone()"@
            },
{
    reveal_strlit("GcSlot::");
    reveal_strlit("GcSlot::I32((");
    reveal_strlit("I32");
    reveal_strlit("Ref");
    reveal_strlit("(");
    reveal_strlit(") & 0xFF)");
    reveal_strlit(") & 0xFFFF)");
    reveal_strlit(") & 0xFF");
    reveal_strlit(") & 0xFFFF");
    reveal_strlit(")");
    reveal_strlit(" { GcSlot::I32(v) => *v, _ => unreachable!() }");
    reveal_strlit(" { GcSlot::Ref(v) => v.clone(), _ => unreachable!() }");
    reveal_strlit(" { GcSlot::");
    reveal_strlit("(v) => *v, _ => unreachable!() }");
    reveal_strlit("(v) => ");
    reveal_strlit("*v");
    reveal_strlit("v.clone()");
    reveal_strlit(", _ => unreachable!() }");
    let (variant, held, taken) = match storage {
        StorageType::I8 => ("I32"@, "("@ + value + ") & 0xFF"@, "*v"@),
        StorageType::I16 => ("I32"@, "("@ + value + ") & 0xFFFF"@, "*v"@),
        StorageType::Val(ValType::Ref(_)) => ("Ref"@, value, "v.clone()"@),
        StorageType::Val(ty) => (crate::codegen::func::gc::slot_variant(ty), value, "*v"@),
    };
    assert(slot_wrapped(storage, value) =~= "GcSlot::"@ + variant + "("@ + held + ")"@);
    assert(slot_read(storage, slot) =~= "match "@ + slot + " { GcSlot::"@ + variant + "(v) => "@
        + taken + ", _ => unreachable!() }"@);
}

proof fn lemma_unfold_object(s: GenV, ty: u32, field: u32, text: Seq<char>)
    requires
        s.reachable,
    ensures
        s.emitted(
            Operator::StructGet { struct_type_index: ty, field_index: field },
            text,
        ) == s.struct_get(ty, field, None),
        s.emitted(
            Operator::StructSet { struct_type_index: ty, field_index: field },
            text,
        ) == s.struct_set(ty, field),
        s.emitted(Operator::ArrayGet { array_type_index: ty }, text) == s.array_get(ty, None),
        s.emitted(Operator::ArraySet { array_type_index: ty }, text) == s.array_set(ty),
{
    reveal(GenV::lowered_object);
}

proof fn lemma_set_text(field: u32, a: Seq<char>, w: Seq<char>)
    ensures
        ("{ let __o = ("@ + a + ").obj(); __o.borrow_mut()["@ + dec(field as nat) + "] = "@ + w
            + "; }"@) == "{ let __o = ("@ + a
            + ").obj(); "@ + "__o.borrow_mut()"@ + ("["@ + dec(field as nat) + "]"@) + " = "@ + w
            + "; }"@,
{
    reveal_strlit(").obj(); __o.borrow_mut()[");
    reveal_strlit(").obj(); ");
    reveal_strlit("__o.borrow_mut()");
    reveal_strlit("[");
    reveal_strlit("]");
    reveal_strlit("] = ");
    reveal_strlit(" = ");
    assert(("{ let __o = ("@ + a + ").obj(); __o.borrow_mut()["@ + dec(field as nat) + "] = "@ + w
        + "; }"@) =~= "{ let __o = ("@
        + a + ").obj(); "@ + "__o.borrow_mut()"@ + ("["@ + dec(field as nat) + "]"@) + " = "@ + w
        + "; }"@);
}

#[verifier::rlimit(40)]
proof fn lemma_get_text(field: u32, c: Seq<char>, storage: StorageType)
    ensures
        ("&__b["@ + dec(field as nat) + "]"@) == "&__b"@ + ("["@ + dec(field as nat) + "]"@),
        forall|read: Seq<char>|
            #[trigger] (("{ let __o = ("@ + c + ").obj(); let __b = __o.borrow(); "@ + read
                + " }"@))
                == "{ let __o = ("@ + c + ").obj(); "@ + "let __b = __o.borrow(); "@ + read + " }"@,
{
    reveal_strlit("[");
    reveal_strlit("]");
    reveal_strlit("&__b[");
    reveal_strlit("&__b");
    reveal_strlit(").obj(); let __b = __o.borrow(); ");
    reveal_strlit("let __b = __o.borrow(); ");
    reveal_strlit(").obj(); ");
    assert(("&__b["@ + dec(field as nat) + "]"@) =~= "&__b"@ + ("["@ + dec(field as nat) + "]"@));
    assert forall|read: Seq<char>|
        #[trigger] (("{ let __o = ("@ + c + ").obj(); let __b = __o.borrow(); "@ + read + " }"@))
            == "{ let __o = ("@ + c + ").obj(); "@ + "let __b = __o.borrow(); "@ + read + " }"@ by {
        assert(("{ let __o = ("@ + c + ").obj(); let __b = __o.borrow(); "@ + read
            + " }"@) =~= "{ let __o = ("@
            + c + ").obj(); "@ + "let __b = __o.borrow(); "@ + read + " }"@);
    }
}

/// `struct.set` writes the top operand to the field of the object below that
/// `struct.get` of the same field reads.
#[verifier::rlimit(40)]
pub proof fn law_fields_read_back(
    s: GenV,
    ty: u32,
    field: u32,
    text: Seq<char>,
    t: GenV,
    u: GenV,
    v: GenV,
)
    requires
        s.reachable,
        u.reachable,
        u.ctx == s.ctx,
        s.emitted(Operator::StructSet { struct_type_index: ty, field_index: field }, text)
            == Ok::<GenV, FailV>(t),
        u.emitted(Operator::StructGet { struct_type_index: ty, field_index: field }, text)
            == Ok::<GenV, FailV>(v),
    ensures
        s.stack.len() >= 2,
        u.stack.len() >= 1,
        t.stack.len() == s.stack.len() - 2,
        s.ctx.field(ty, field) matches Ok(storage) && exists|place: Seq<char>|
            {
                &&& place == #[trigger] ("["@ + dec(field as nat) + "]"@)
                &&& t.cur.last() == NodeV::Line(
                    "{ let __o = ("@ + s.stack[s.stack.len() - 2].code + ").obj(); "@
                        + "__o.borrow_mut()"@ + place + " = "@ + slot_wrapped(
                        storage,
                        s.stack.last().code,
                    ) + "; }"@,
                )
                &&& yields(
                    u.drop(1),
                    v,
                    "{ let __o = ("@ + u.stack.last().code + ").obj(); "@
                        + "let __b = __o.borrow(); "@ + slot_read(storage, "&__b"@ + place)
                        + " }"@,
                )
            },
{
    lemma_unfold_object(s, ty, field, text);
    lemma_unfold_object(u, ty, field, text);
    law_freezing_keeps_values(s, 2);
    let storage = s.ctx.field(ty, field)->Ok_0;
    let place = "["@ + dec(field as nat) + "]"@;
    let (a, b, c) = (s.stack[s.stack.len() - 2].code, s.stack.last().code, u.stack.last().code);
    let w = slot_wrapped(storage, b);
    lemma_set_text(field, a, w);
    lemma_get_text(field, c, storage);
    let read = slot_read(storage, ("&__b["@ + dec(field as nat) + "]"@));
    let code = ("{ let __o = ("@ + c + ").obj(); let __b = __o.borrow(); "@ + read + " }"@);
    assert(packed_extended(storage, code, None) == code);
    crate::codegen::func::integer_laws::lemma_materialized_yields(
        u.drop(1),
        code,
        crate::codegen::func::gc::slot_type(storage),
    );
}

/// `array.set` writes the top operand to the element, at the operand below it, of the
/// array below that.
pub proof fn law_array_set_writes_its_element(s: GenV, ty: u32, text: Seq<char>, t: GenV)
    requires
        s.reachable,
        s.emitted(Operator::ArraySet { array_type_index: ty }, text) == Ok::<GenV, FailV>(t),
    ensures
        s.stack.len() >= 3,
        t.stack.len() == s.stack.len() - 3,
        s.ctx.element(ty) matches Ok(storage) && t.cur.len() > s.cur.len() && t.cur.last()
            == NodeV::Line(
            "{ let __o = ("@ + s.stack[s.stack.len() - 3].code + ").obj(); __o.borrow_mut()[("@
                + s.stack[s.stack.len() - 2].code + ") as usize] = "@ + slot_wrapped(
                storage,
                s.stack.last().code,
            ) + "; }"@,
        ),
{
    lemma_unfold_object(s, ty, 0, text);
    law_freezing_keeps_values(s, 3);
    let u = s.survivors_frozen(3)->Ok_0;
    let n = s.stack.len();
    assert(u.stack[n - 3] == s.stack[n - 3] && u.stack[n - 2] == s.stack[n - 2]);
    assert(u.stack[n - 1] == s.stack[n - 1]);
}

/// `array.get` reads the element, at the top operand, of the array below.
#[verifier::rlimit(40)]
pub proof fn law_array_get_reads_its_element(s: GenV, ty: u32, text: Seq<char>, t: GenV)
    requires
        s.reachable,
        s.emitted(Operator::ArrayGet { array_type_index: ty }, text) == Ok::<GenV, FailV>(t),
    ensures
        s.stack.len() >= 2,
        s.ctx.element(ty) matches Ok(storage) && (s.survivors_frozen(2) matches Ok(u) && yields(
            u.drop(2),
            t,
            "{ let __o = ("@ + s.stack[s.stack.len() - 2].code + ").obj(); let __i = "@
                + s.stack.last().code + "; let __b = __o.borrow(); "@ + slot_read(
                storage,
                "&__b[(__i) as usize]"@,
            ) + " }"@,
        )),
{
    lemma_unfold_object(s, ty, 0, text);
    law_freezing_keeps_values(s, 2);
    let u = s.survivors_frozen(2)->Ok_0;
    let n = s.stack.len();
    let storage = s.ctx.element(ty)->Ok_0;
    assert(u.stack[n - 2] == s.stack[n - 2] && u.stack[n - 1] == s.stack[n - 1]);
    let read = slot_read(storage, "&__b[(__i) as usize]"@);
    let (a, b) = (s.stack[n - 2].code, s.stack[n - 1].code);
    let code = ("{ let __o = ("@ + a + ").obj(); let __i = "@ + b + "; let __b = __o.borrow(); "@
        + read + " }"@);
    assert(packed_extended(storage, code, None) == code);
    crate::codegen::func::integer_laws::lemma_materialized_yields(
        u.drop(2),
        code,
        crate::codegen::func::gc::slot_type(storage),
    );
}

proof fn lemma_unfold_struct_new(s: GenV, ty: u32, text: Seq<char>)
    requires
        s.reachable,
    ensures
        s.emitted(Operator::StructNew { struct_type_index: ty }, text) == s.struct_new(ty),
{
    reveal(GenV::lowered_object);
}

/// `struct.new` puts the topmost operands, as many as the type has fields and in their
/// order, into the fields.
#[verifier::rlimit(40)]
pub proof fn law_struct_new_fills_its_fields(s: GenV, ty: u32, text: Seq<char>, t: GenV)
    requires
        s.reachable,
        s.emitted(Operator::StructNew { struct_type_index: ty }, text) == Ok::<GenV, FailV>(t),
    ensures
        s.ctx.fields(ty) matches Ok(fields) && s.stack.len() >= fields.len() && (
        s.survivors_frozen(fields.len()) matches Ok(u) && yields(
            u.drop(fields.len() as int),
            t,
            "GcRef::Obj { ty: "@ + dec(ty as nat)
                + "u32, slots: std::rc::Rc::new(std::cell::RefCell::new(vec!["@ + joined(
                Seq::new(
                    fields.len(),
                    |i: int|
                        slot_wrapped(
                            fields[i].storage,
                            s.stack[s.stack.len() - fields.len() + i].code,
                        ),
                ),
                ", "@,
            ) + "])) }"@,
        )),
{
    lemma_unfold_struct_new(s, ty, text);
    let fields = s.ctx.fields(ty)->Ok_0;
    let n = fields.len();
    law_freezing_keeps_values(s, n);
    let u = s.survivors_frozen(n)->Ok_0;
    let filled = Seq::new(
        n,
        |i: int| slot_wrapped(fields[i].storage, s.stack[s.stack.len() - n + i].code),
    );
    let slots = Seq::new(
        n,
        |i: int| slot_wrapped(fields[i].storage, u.tail(n as int)[i].code),
    );
    assert forall|i: int| 0 <= i < n implies #[trigger] slots[i] == filled[i] by {
        assert(u.tail(n as int)[i] == u.stack[u.stack.len() - n + i]);
        assert(u.stack[s.stack.len() - n + i] == s.stack[s.stack.len() - n + i]);
    }
    assert(slots =~= filled);
    let rty = crate::codegen::func::gc::ref_type_of(ty)->Ok_0;
    let all = joined(slots, ", "@);
    crate::codegen::func::integer_laws::lemma_materialized_yields(
        u.drop(n as int),
        ("GcRef::Obj { ty: "@ + dec(ty as nat)
            + "u32, slots: std::rc::Rc::new(std::cell::RefCell::new(vec!["@ + all + "])) }"@),
        rty,
    );
}

} // verus!
