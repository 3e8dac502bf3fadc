//! Operands keep their values on the way to where they are used.

use vstd::prelude::*;

use crate::codegen::func::state::GenV;
use crate::codegen::ir::{NodeV, ValV};
use crate::wasm::ValType;

verus! {

/// Whether the node binds the value of `code` to the variable `name`.
pub open spec fn binds_value(n: NodeV, name: Seq<char>, code: Seq<char>) -> bool {
    exists|ty: Seq<char>|
        n == NodeV::Line(#[trigger] ("let "@ + name + ": "@ + ty + " = "@ + code + ";"@))
}

/// Whether the top operand of `t` is the value of `code`: `code` itself, or a variable
/// that the last statement binds to it; below it are the operands of `s`, and nothing
/// else happened.
pub open spec fn yields(s: GenV, t: GenV, code: Seq<char>) -> bool {
    &&& t.stack.len() == s.stack.len() + 1
    &&& t.stack.drop_last() == s.stack
    &&& (t.stack.last().code == code && t.cur == s.cur) || (t.cur.len() == s.cur.len() + 1
        && t.cur.drop_last() == s.cur && binds_value(t.cur.last(), t.stack.last().code, code))
}

/// An expression that is pushed is the value of that expression.
#[verifier::rlimit(40)]
pub proof fn law_expressions_are_pushed(s: GenV, code: Seq<char>, ty: ValType, stable: bool)
    ensures
        s.combined(code, ty, stable) matches Ok(t) ==> yields(s, t, code),
{
    reveal(GenV::combined);
    reveal(GenV::materialized);
    if let Ok(t) = s.combined(code, ty, stable) {
        assert(t.stack.drop_last() =~= s.stack);
        if t.cur != s.cur {
            assert(t.cur.drop_last() =~= s.cur);
            let rty = s.rust_type(ty)->Ok_0;
            assert(t.cur.last() == NodeV::Line(
                "let "@ + t.stack.last().code + ": "@ + rty + " = "@ + code + ";"@,
            ));
        }
    }
}

/// Whether `b` stands for the value of `a` in front of which the nodes from `from` to
/// `to` were put: it is the same operand, or a variable that one of those nodes binds
/// to it.
pub open spec fn stands_for(b: ValV, a: ValV, nodes: Seq<NodeV>, from: nat, to: nat) -> bool {
    b == a || exists|k: int|
        from <= k < to && binds_value(#[trigger] nodes[k], b.code, a.code)
}

#[verifier::rlimit(40)]
pub proof fn lemma_frozen_stands(s: GenV, n: nat)
    requires
        n <= s.stack.len(),
    ensures
        s.frozen(n) matches Ok(t) ==> {
            &&& t.stack.len() == s.stack.len()
            &&& s.cur.is_prefix_of(t.cur)
            &&& t.ctx == s.ctx
            &&& forall|i: int|
                0 <= i < s.stack.len() ==> stands_for(
                    #[trigger] t.stack[i],
                    s.stack[i],
                    t.cur,
                    s.cur.len(),
                    t.cur.len(),
                )
            &&& forall|i: int| n <= i < s.stack.len() ==> #[trigger] t.stack[i] == s.stack[i]
        },
    decreases n,
{
    if n > 0 {
        lemma_frozen_stands(s, (n - 1) as nat);
        if let Ok(t) = s.frozen(n) {
            let u = s.frozen((n - 1) as nat)->Ok_0;
            let j = (n - 1) as int;
            let v = u.stack[j];
            assert(v == s.stack[j]);
            if !v.stable {
                let rty = u.rust_type(v.ty)->Ok_0;
                let k = u.cur.len() as int;
                assert(t.cur[k] == NodeV::Line(
                    "let "@ + t.stack[j].code + ": "@ + rty + " = "@ + v.code + ";"@,
                ));
                assert(binds_value(t.cur[k], t.stack[j].code, v.code));
                assert(s.cur.is_prefix_of(t.cur)) by {
                    assert(u.cur.is_prefix_of(t.cur));
                    assert(t.cur.take(s.cur.len() as int) =~= u.cur.take(s.cur.len() as int));
                }
                assert forall|i: int| 0 <= i < s.stack.len() implies stands_for(
                    #[trigger] t.stack[i],
                    s.stack[i],
                    t.cur,
                    s.cur.len(),
                    t.cur.len(),
                ) by {
                    if i != j {
                        assert(t.stack[i] == u.stack[i]);
                        if u.stack[i] != s.stack[i] {
                            let k2 = choose|k2: int|
                                s.cur.len() <= k2 < u.cur.len() && binds_value(
                                    #[trigger] u.cur[k2],
                                    u.stack[i].code,
                                    s.stack[i].code,
                                );
                            assert(t.cur[k2] == u.cur[k2]);
                        }
                    }
                }
            }
        }
    }
}

/// Freezing keeps values: each operand stays as it is, or becomes a variable that a
/// statement put in front binds to it.
pub proof fn law_freezing_keeps_values(s: GenV, keep: nat)
    ensures
        s.survivors_frozen(keep) matches Ok(t) ==> {
            &&& t.stack.len() == s.stack.len()
            &&& s.cur.is_prefix_of(t.cur)
            &&& t.ctx == s.ctx
            &&& forall|i: int|
                0 <= i < s.stack.len() ==> stands_for(
                    #[trigger] t.stack[i],
                    s.stack[i],
                    t.cur,
                    s.cur.len(),
                    t.cur.len(),
                )
            &&& forall|i: int|
                0 <= i < s.stack.len() && s.stack.len() - keep <= i ==> #[trigger] t.stack[i]
                    == s.stack[i]
        },
{
    reveal(GenV::survivors_frozen);
    if s.stack.len() > keep {
        lemma_frozen_stands(s, (s.stack.len() - keep) as nat);
    }
}

} // verus!
