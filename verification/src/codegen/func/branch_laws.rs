//! What branches, returns and region ends carry along.

use vstd::prelude::*;

use crate::codegen::frame::FrameV;
use crate::codegen::func::keeps::lemma_survivors;
use crate::codegen::func::state::{codes, GenV};
use crate::codegen::ir::{condition_text, BrArmV, FrameKind, NodeV, RegionV, ValV};
use crate::error::FailV;
use crate::ops::Operator;
use crate::text::{dec, joined};
use crate::wasm::ValType;

verus! {

/// Whether `text` reads the operand `v`, if need be by cloning it.
pub open spec fn reads(text: Seq<char>, v: ValV) -> bool {
    text == v.code || text == v.code + ".clone()"@
}

/// Whether the node assigns the operand `v` to the variable `name`.
pub open spec fn gives(n: NodeV, name: Seq<char>, v: ValV) -> bool {
    exists|value: Seq<char>| #[trigger] reads(value, v) && n == NodeV::Line(
        name + " = "@ + value + ";"@,
    )
}

/// The variables through which a region takes what is branched to it: those of its
/// parameters for a loop, which starts over, those of its results for any other.
pub open spec fn receivers(f: FrameV) -> Seq<(Seq<char>, ValType)> {
    if f.kind == FrameKind::Loop {
        f.loop_params
    } else {
        f.results
    }
}

/// The region that a branch of the given depth goes to.
pub open spec fn branch_region(s: GenV, depth: u32) -> FrameV {
    s.frames[s.frames.len() - 1 - depth]
}

/// Whether the nodes of `t` are those of `s`, then one assignment per variable of
/// `vars`, each of which receives the operand at its place among the topmost ones of
/// `s`, and then `more` nodes.
pub open spec fn hands_over(
    s: GenV,
    t: GenV,
    vars: Seq<(Seq<char>, ValType)>,
    more: nat,
) -> bool {
    let n = vars.len() as int;
    let from = s.cur.len() as int;
    &&& s.stack.len() >= n
    &&& t.cur.len() == from + n + more
    &&& t.cur.take(from) == s.cur
    &&& forall|i: int|
        0 <= i < n ==> gives(
            t.cur[from + n - 1 - i],
            (#[trigger] vars[i]).0,
            s.stack[s.stack.len() - n + i],
        )
}

proof fn lemma_moved(s: GenV, v: ValV)
    ensures
        s.moved(v) matches Ok(value) ==> reads(value, v),
{
}

#[verifier::rlimit(40)]
pub proof fn lemma_hands_over(s: GenV, vars: Seq<(Seq<char>, ValType)>)
    ensures
        s.assigned(crate::codegen::frame::names(vars)) matches Ok(t) ==> hands_over(s, t, vars, 0)
            && t.stack == s.stack.take(s.stack.len() - vars.len()) && t.frames == s.frames,
    decreases vars.len(),
{
    let all = crate::codegen::frame::names(vars);
    let n = vars.len() as int;
    if n == 0 {
        assert(s.cur.take(s.cur.len() as int) =~= s.cur);
        assert(s.stack.take(s.stack.len() as int) =~= s.stack);
    } else if let Ok(t) = s.assigned(all) {
        let front = vars.drop_last();
        assert(all.drop_last() =~= crate::codegen::frame::names(front));
        let value = s.moved(s.top())->Ok_0;
        lemma_moved(s, s.top());
        let line = all.last() + " = "@ + value + ";"@;
        let u = s.drop(1).line(line);
        lemma_hands_over(u, front);
        assert(hands_over(u, t, front, 0));
        assert(t.cur.take(s.cur.len() as int) =~= u.cur.take(s.cur.len() as int)) by {
            assert(t.cur.take(u.cur.len() as int) == u.cur);
            assert(t.cur.take(s.cur.len() as int) =~= t.cur.take(u.cur.len() as int).take(
                s.cur.len() as int,
            ));
        }
        assert(u.cur.take(s.cur.len() as int) =~= s.cur);
        assert(t.cur[s.cur.len() as int] == u.cur[s.cur.len() as int]) by {
            assert(t.cur.take(u.cur.len() as int)[s.cur.len() as int] == t.cur[s.cur.len() as int]);
        }
        let from = s.cur.len() as int;
        assert forall|i: int| 0 <= i < n implies gives(
            t.cur[from + n - 1 - i],
            (#[trigger] vars[i]).0,
            s.stack[s.stack.len() - n + i],
        ) by {
            if i == n - 1 {
                assert(reads(value, s.top()));
                assert(t.cur[from] == NodeV::Line(line));
            } else {
                assert(front[i] == vars[i]);
                let v = u.stack[u.stack.len() - (n - 1) + i];
                assert(v == s.stack[s.stack.len() - n + i]);
                assert(gives(t.cur[from + 1 + (n - 1) - 1 - i], front[i].0, v));
            }
        }
        assert(t.stack =~= s.stack.take(s.stack.len() - n));
    }
}

/// `br` carries its operands. The region that it goes to is the one that its depth
/// names, counted from the innermost; right before the jump there is one assignment
/// per variable of that region, and the i-th variable receives the i-th of the
/// topmost operands.
#[verifier::rlimit(40)]
pub proof fn law_br_carries_operands(s: GenV, depth: u32, text: Seq<char>, t: GenV)
    requires
        s.reachable,
        s.emitted(Operator::Br { relative_depth: depth }, text) == Ok::<GenV, FailV>(t),
        !s.escapes_try(s.frames.len() - 1 - depth),
    ensures
        depth < s.frames.len(),
        hands_over(s, t, receivers(branch_region(s, depth)), 1),
        t.cur.last() == (NodeV::Br {
            label: branch_region(s, depth).label,
            is_loop: branch_region(s, depth).kind == FrameKind::Loop,
        }),
        !t.reachable,
{
    reveal(GenV::lowered_control);
    let f = branch_region(s, depth);
    let (u, target) = s.resolved(depth)->Ok_0;
    let vars = receivers(f);
    assert(target.vars == crate::codegen::frame::names(vars));
    lemma_hands_over(u, vars);
    let w = u.assigned(target.vars)->Ok_0;
    let n = vars.len() as int;
    let from = s.cur.len() as int;
    assert(t.cur.take(from) =~= w.cur.take(from));
    assert forall|i: int| 0 <= i < n implies gives(
        t.cur[from + n - 1 - i],
        (#[trigger] vars[i]).0,
        s.stack[s.stack.len() - n + i],
    ) by {
        assert(gives(w.cur[from + n - 1 - i], vars[i].0, u.stack[u.stack.len() - n + i]));
        assert(t.cur[from + n - 1 - i] == w.cur[from + n - 1 - i]);
    }
}

/// A `br` out of a `try` body carries its operands too, before it sets the outcome
/// by which the `try` issues the branch again.
#[verifier::rlimit(40)]
pub proof fn law_escaping_br_carries_operands(s: GenV, depth: u32, text: Seq<char>, t: GenV)
    requires
        s.reachable,
        s.emitted(Operator::Br { relative_depth: depth }, text) == Ok::<GenV, FailV>(t),
        s.escapes_try(s.frames.len() - 1 - depth),
    ensures
        depth < s.frames.len(),
        hands_over(s, t, receivers(branch_region(s, depth)), 2),
        t.cur.last() == NodeV::Term("return;"@),
        !t.reachable,
{
    reveal(GenV::lowered_control);
    let f = branch_region(s, depth);
    let (u, target) = s.resolved(depth)->Ok_0;
    let vars = receivers(f);
    assert(target.vars == crate::codegen::frame::names(vars));
    lemma_hands_over(u, vars);
    let w = u.assigned(target.vars)->Ok_0;
    let n = vars.len() as int;
    let from = s.cur.len() as int;
    assert(t.cur.len() == w.cur.len() + 2);
    assert(t.cur.take(w.cur.len() as int) =~= w.cur);
    assert(t.cur.take(from) =~= w.cur.take(from));
    assert forall|i: int| 0 <= i < n implies gives(
        t.cur[from + n - 1 - i],
        (#[trigger] vars[i]).0,
        s.stack[s.stack.len() - n + i],
    ) by {
        assert(gives(w.cur[from + n - 1 - i], vars[i].0, u.stack[u.stack.len() - n + i]));
        assert(t.cur[from + n - 1 - i] == w.cur[from + n - 1 - i]);
    }
}

/// Whether `assigns` gives each variable of `vars` the operand at its place among the
/// topmost ones of `stack`.
pub open spec fn pairs_up(
    assigns: Seq<(Seq<char>, Seq<char>)>,
    vars: Seq<(Seq<char>, ValType)>,
    stack: Seq<ValV>,
) -> bool {
    &&& assigns.len() == vars.len()
    &&& stack.len() >= vars.len()
    &&& forall|i: int|
        0 <= i < vars.len() ==> (#[trigger] assigns[i]).0 == vars[i].0 && reads(
            assigns[i].1,
            stack[stack.len() - vars.len() + i],
        )
}

proof fn lemma_pairs_up(s: GenV, vars: Seq<(Seq<char>, ValType)>, n: nat)
    requires
        s.stack.len() >= vars.len(),
        n <= vars.len(),
    ensures
        s.carried_upto(crate::codegen::frame::names(vars), n) matches Ok(a) ==> a.len() == n
            && forall|i: int|
            0 <= i < n ==> (#[trigger] a[i]).0 == vars[i].0 && reads(
                a[i].1,
                s.stack[s.stack.len() - vars.len() + i],
            ),
    decreases n,
{
    if n > 0 {
        lemma_pairs_up(s, vars, (n - 1) as nat);
        lemma_moved(s, s.stack[s.stack.len() - vars.len() + n - 1]);
    }
}

/// Whether `c` is the Rust condition that the i32 value `code` is not zero: the test
/// itself, or the Boolean that `code` was made from.
pub open spec fn tests(c: Seq<char>, code: Seq<char>) -> bool {
    c == code + " != 0"@ || code == "i32::from("@ + c + ")"@
}

/// The condition of an i32 value holds where the value is not zero.
pub proof fn law_conditions_test_for_zero(code: Seq<char>)
    ensures
        tests(crate::codegen::ir::condition_text(code), code),
{
    reveal_strlit("i32::from(");
    reveal_strlit(")");
    if let Some(inner) = crate::codegen::ir::bool_text(code) {
        assert(code.subrange(0, 10) == "i32::from("@);
        assert(code =~= code.subrange(0, 10) + inner + seq![code.last()]);
        assert(")"@ =~= seq![')']);
    }
}

/// `br_if` goes to the region that its depth names if the top operand is not zero,
/// and then each variable of that region receives the operand at its place among the
/// topmost ones; the operands stay for the case that it does not branch.
#[verifier::rlimit(40)]
pub proof fn law_br_if_carries_operands(s: GenV, depth: u32, text: Seq<char>, t: GenV)
    requires
        s.reachable,
        s.emitted(Operator::BrIf { relative_depth: depth }, text) == Ok::<GenV, FailV>(t),
        !s.escapes_try(s.frames.len() - 1 - depth),
    ensures
        depth < s.frames.len(),
        s.stack.len() > 0,
        t.stack.len() == s.stack.len() - 1,
        t.reachable,
        t.cur.len() > 0 && (t.cur.last() matches NodeV::BrIf { cond, label, is_loop, assigns } && {
            &&& tests(cond, s.stack.last().code)
            &&& label == branch_region(s, depth).label
            &&& is_loop == (branch_region(s, depth).kind == FrameKind::Loop)
            &&& pairs_up(assigns, receivers(branch_region(s, depth)), t.stack)
        }),
{
    reveal(GenV::lowered_control);
    let f = branch_region(s, depth);
    let d = s.drop(1);
    let (u, target) = d.resolved(depth)->Ok_0;
    let vars = receivers(f);
    assert(target.vars == crate::codegen::frame::names(vars));
    law_conditions_test_for_zero(s.top().code);
    if vars.len() > 0 {
        lemma_survivors(u, 0);
        let w = u.spilled()->Ok_0;
        lemma_pairs_up(w, vars, vars.len());
        assert(t.stack == w.stack);
    }
}

/// Whether `arm` is the arm of a `br_table` that goes to the region `f` and carries
/// the topmost operands of `stack` there.
pub open spec fn arm_carries(arm: BrArmV, f: FrameV, stack: Seq<ValV>) -> bool {
    &&& arm.label == f.label
    &&& arm.is_loop == (f.kind == FrameKind::Loop)
    &&& pairs_up(arm.assigns, receivers(f), stack)
}

/// What a branch may change of a region is that it is branched to.
pub open spec fn same_receivers(a: Seq<FrameV>, b: Seq<FrameV>) -> bool {
    &&& a.len() == b.len()
    &&& forall|i: int|
        #![trigger a[i]]
        #![trigger b[i]]
        0 <= i < a.len() ==> a[i].label == b[i].label && a[i].kind == b[i].kind && receivers(a[i])
            == receivers(b[i])
}

/// Whether `arm` is the arm number `i` of a `br_table`.
pub open spec fn table_arm(
    s: GenV,
    targets: Seq<u32>,
    default: u32,
    stack: Seq<ValV>,
    i: int,
    arm: BrArmV,
) -> bool {
    let depth = if i < targets.len() {
        targets[i]
    } else {
        default
    };
    &&& depth < s.frames.len()
    &&& arm_carries(arm, branch_region(s, depth), stack)
    &&& arm.pattern == if i < targets.len() {
        (dec(i as nat) + "u32"@)
    } else {
        "_"@
    }
}

proof fn lemma_carried(s: GenV, f: FrameV)
    ensures
        s.carried(crate::codegen::frame::names(receivers(f))) matches Ok(a) ==> pairs_up(
            a,
            receivers(f),
            s.stack,
        ),
{
    if s.stack.len() >= receivers(f).len() {
        lemma_pairs_up(s, receivers(f), receivers(f).len());
    }
}

pub proof fn lemma_resolved(s: GenV, depth: u32)
    ensures
        s.resolved(depth) matches Ok((t, target)) ==> {
            &&& depth < s.frames.len()
            &&& same_receivers(s.frames, t.frames)
            &&& t.stack == s.stack
            &&& t.cur == s.cur
            &&& target.vars == crate::codegen::frame::names(receivers(branch_region(s, depth)))
            &&& target.label == branch_region(s, depth).label
            &&& target.is_loop == (branch_region(s, depth).kind == FrameKind::Loop)
        },
{
}

#[verifier::rlimit(40)]
proof fn lemma_table_arms(s: GenV, targets: Seq<u32>, default: u32, n: nat)
    requires
        n <= targets.len() + 1,
    ensures
        s.table_arms(targets, default, n) matches Ok((t, arms)) ==> {
            &&& same_receivers(s.frames, t.frames)
            &&& t.stack == s.stack
            &&& t.cur == s.cur
            &&& arms.len() == n
            &&& forall|i: int|
                0 <= i < n ==> table_arm(s, targets, default, s.stack, i, #[trigger] arms[i])
        },
    decreases n,
{
    if n > 0 {
        lemma_table_arms(s, targets, default, (n - 1) as nat);
        if let Ok((t, arms)) = s.table_arms(targets, default, n) {
            let (u, front) = s.table_arms(targets, default, (n - 1) as nat)->Ok_0;
            let depth = if n - 1 < targets.len() {
                targets[n - 1]
            } else {
                default
            };
            let w = u.resolved(depth)->Ok_0.0;
            let f = branch_region(u, depth);
            let g = branch_region(s, depth);
            lemma_resolved(u, depth);
            lemma_carried(w, f);
            assert(receivers(f) == receivers(g) && f.label == g.label && f.kind == g.kind);
            assert(table_arm(s, targets, default, s.stack, n - 1, arms[n - 1]));
            assert forall|i: int| 0 <= i < n implies table_arm(
                s,
                targets,
                default,
                s.stack,
                i,
                #[trigger] arms[i],
            ) by {
                if i < n - 1 {
                    assert(arms[i] == front[i]);
                }
            }
        }
    }
}

/// `br_table` selects by the top operand: the value i goes to the i-th listed region,
/// any other to the default, and each way carries the topmost operands to the
/// variables of the region it goes to.
#[verifier::rlimit(40)]
pub proof fn law_br_table_carries_operands(
    s: GenV,
    targets: Vec<u32>,
    default: u32,
    text: Seq<char>,
    t: GenV,
)
    requires
        s.reachable,
        s.emitted(Operator::BrTable { targets, default }, text) == Ok::<GenV, FailV>(t),
    ensures
        s.stack.len() > 0,
        t.stack.len() == s.stack.len() - 1,
        !t.reachable,
        t.cur.len() > 0 && (t.cur.last() matches NodeV::BrTable { selector, arms } && {
            &&& selector == s.stack.last().code
            &&& arms.len() == targets@.len() + 1
            &&& forall|i: int|
                0 <= i < arms.len() ==> table_arm(
                    s,
                    targets@,
                    default,
                    t.stack,
                    i,
                    #[trigger] arms[i],
                )
        }),
{
    reveal(GenV::lowered_control);
    assert(s.branch_table(targets@, default) == Ok::<GenV, FailV>(t));
    let d = s.drop(1);
    lemma_survivors(d, 0);
    let w = d.spilled()->Ok_0;
    lemma_table_arms(w, targets@, default, targets@.len() + 1);
    let (u, arms) = w.table_arms(targets@, default, targets@.len() + 1)->Ok_0;
    assert(w.frames == s.frames);
    assert(t.cur.last() == (NodeV::BrTable { selector: s.top().code, arms }));
    assert(t.stack == w.stack);
    assert forall|i: int| 0 <= i < arms.len() implies table_arm(
        s,
        targets@,
        default,
        t.stack,
        i,
        #[trigger] arms[i],
    ) by {
        assert(table_arm(w, targets@, default, w.stack, i, arms[i]));
    }
}

/// Where control falls off the end of a region, the results of the region receive the
/// topmost operands, in order; behind the region they are the topmost operands.
#[verifier::rlimit(40)]
pub proof fn law_regions_yield_their_results(s: GenV, t: GenV)
    requires
        s.frames.len() > 0,
        s.reachable,
        s.frames.last().kind != FrameKind::If,
        s.region_ended() == Ok::<GenV, FailV>(t),
    ensures
        t.cur.len() == s.frames.last().parent_buffer.len() + 1,
        t.cur.last() matches NodeV::Region(r) && {
            &&& r.kind == s.frames.last().kind
            &&& r.label == s.frames.last().label
            &&& r.targeted == s.frames.last().targeted
            &&& r.reachable_at_end
            &&& hands_over(s, GenV { cur: r.body, ..s }, s.frames.last().results, 0)
        },
        t.stack.len() >= s.frames.last().results.len(),
        forall|i: int|
            0 <= i < s.frames.last().results.len() ==> t.stack[t.stack.len()
                - s.frames.last().results.len() + i].code == (#[trigger] s.frames.last().results[i]).0,
{
    let f = s.frames.last();
    lemma_hands_over(s, f.results);
    let u = s.fell_through()->Ok_0;
    let region = RegionV {
        kind: f.kind,
        label: f.label,
        targeted: f.targeted,
        reachable_at_end: true,
        cond: f.cond,
        body: u.cur,
        els: None,
    };
    let w = GenV {
        cur: f.parent_buffer.push(NodeV::Region(region)),
        ..u.frame_ended()
    }.cut(f.parent_height);
    lemma_pushed_codes(w, f.results);
}

pub proof fn lemma_pushed_codes(s: GenV, vars: Seq<(Seq<char>, ValType)>)
    ensures
        s.pushed(vars).stack.len() == s.stack.len() + vars.len(),
        forall|i: int|
            0 <= i < vars.len() ==> s.pushed(vars).stack[s.stack.len() + i].code
                == (#[trigger] vars[i]).0,
        forall|i: int|
            0 <= i < s.stack.len() ==> s.pushed(vars).stack[i] == #[trigger] s.stack[i],
        s.pushed(vars).cur == s.cur,
    decreases vars.len(),
{
    if vars.len() > 0 {
        lemma_pushed_codes(s, vars.drop_last());
        assert forall|i: int| 0 <= i < vars.len() implies s.pushed(vars).stack[s.stack.len()
            + i].code == (#[trigger] vars[i]).0 by {
            if i < vars.len() - 1 {
                assert(vars.drop_last()[i] == vars[i]);
            }
        }
    }
}

/// `return` hands back the topmost operands, as many as the function has results, in
/// order: one as it is, several as a tuple.
pub proof fn law_return_hands_back_operands(s: GenV, text: Seq<char>, t: GenV)
    requires
        s.reachable,
        s.emitted(Operator::Return, text) == Ok::<GenV, FailV>(t),
        crate::codegen::func::branch::body_of(s.try_barriers) is None,
    ensures
        s.stack.len() >= s.results.len(),
        !t.reachable,
        t.cur == s.cur.push(
            NodeV::Term(
                if s.results.len() == 0 {
                    "return;"@
                } else if s.results.len() == 1 {
                    "return "@ + s.stack.last().code + ";"@
                } else {
                    "return "@ + ("("@ + joined(
                        Seq::new(
                            s.results.len(),
                            |i: int| s.stack[s.stack.len() - s.results.len() + i].code,
                        ),
                        ", "@,
                    ) + ")"@) + ";"@
                },
            ),
        ),
{
    reveal(GenV::lowered_control);
    let n = s.results.len();
    let all = codes(s.tail(n as int));
    assert(n > 0 ==> all =~= Seq::new(
        n,
        |i: int| s.stack[s.stack.len() - n + i].code,
    ));
    if n == 1 {
        assert(joined(all, ", "@) == all[0]);
    }
}

/// Whether `nodes` goes on from `before` with a conditional that, where the i32 value
/// `code` is not zero, makes the assignments in order, sets an outcome and returns.
pub open spec fn leaves_with(
    before: Seq<NodeV>,
    nodes: Seq<NodeV>,
    code: Seq<char>,
    assigns: Seq<(Seq<char>, Seq<char>)>,
) -> bool {
    let n = assigns.len() as int;
    let from = before.len() as int;
    &&& nodes.len() == from + n + 4
    &&& asks(nodes[from], code)
    &&& forall|i: int|
        0 <= i < n ==> nodes[from + 1 + i] == NodeV::Line(
            (#[trigger] assigns[i]).0 + " = "@ + assigns[i].1 + ";"@,
        )
    &&& nodes[from + n + 2] == NodeV::Line("return;"@)
    &&& nodes[from + n + 3] == NodeV::Line("}"@)
}

/// Whether the node begins a conditional on the i32 value `code`.
pub open spec fn asks(n: NodeV, code: Seq<char>) -> bool {
    exists|c: Seq<char>| #[trigger]
        tests(c, code) && n == NodeV::Line("if "@ + c + " {"@)
}

/// A conditional branch out of a `try` body carries its operands where it is taken: the
/// lines behind its condition assign them to the variables of its region, in order,
/// before the outcome is set.
#[verifier::rlimit(40)]
pub proof fn law_escaping_br_if_carries_operands(s: GenV, depth: u32, text: Seq<char>, t: GenV)
    requires
        s.reachable,
        s.emitted(Operator::BrIf { relative_depth: depth }, text) == Ok::<GenV, FailV>(t),
        s.escapes_try(s.frames.len() - 1 - depth),
    ensures
        depth < s.frames.len(),
        s.stack.len() > 0,
        t.stack.len() == s.stack.len() - 1,
        s.drop(1).spilled() matches Ok(u) && exists|assigns: Seq<(Seq<char>, Seq<char>)>|
            #[trigger] pairs_up(assigns, receivers(branch_region(s, depth)), u.stack)
                && leaves_with(u.cur, t.cur, s.stack.last().code, assigns),
{
    lemma_unfold_br_if(s, depth, text);
    let d = s.drop(1);
    let c = condition_text(s.top().code);
    law_conditions_test_for_zero(s.top().code);
    lemma_resolved(d, depth);
    let (v, target) = d.resolved(depth)->Ok_0;
    lemma_spilled_with(d, v);
    let u = d.spilled()->Ok_0;
    let w = v.spilled()->Ok_0;
    lemma_survivors(v, 0);
    lemma_carried(w, branch_region(s, depth));
    let assigns = w.carried(target.vars)->Ok_0;
    let (x, code, l) = w.escape_recorded(target.target_idx, target.is_loop, target.label)->Ok_0;
    let head = "if "@ + c + " {"@;
    let y = x.line(head);
    lemma_assign_lines(y, assigns);
    assert(x.cur == w.cur && w.cur == u.cur && w.stack == u.stack);
    let z = y.assign_lines(assigns);
    let n = assigns.len() as int;
    let from = u.cur.len() as int;
    let out = ("__out"@ + dec(l as nat) + " = "@ + dec(code as nat) + "u32;"@);
    assert(t.cur == z.cur.push(NodeV::Line(out)).push(NodeV::Line("return;"@)).push(
        NodeV::Line("}"@),
    ));
    assert(y.cur[from] == NodeV::Line(head));
    assert(z.cur[from] == y.cur[from]);
    assert(asks(t.cur[from], s.stack.last().code));
    assert forall|i: int| 0 <= i < n implies t.cur[from + 1 + i] == NodeV::Line(
        (#[trigger] assigns[i]).0 + " = "@ + assigns[i].1 + ";"@,
    ) by {
        assert(z.cur[y.cur.len() + i] == NodeV::Line(
            assigns[i].0 + " = "@ + assigns[i].1 + ";"@,
        ));
    }
    assert(leaves_with(u.cur, t.cur, s.stack.last().code, assigns));
    assert(pairs_up(assigns, receivers(branch_region(s, depth)), u.stack));
}

proof fn lemma_unfold_br_if(s: GenV, depth: u32, text: Seq<char>)
    requires
        s.reachable,
    ensures
        s.emitted(Operator::BrIf { relative_depth: depth }, text) == s.branch_if(depth),
{
    reveal(GenV::lowered_control);
}

#[verifier::rlimit(40)]
proof fn lemma_assign_lines(s: GenV, pairs: Seq<(Seq<char>, Seq<char>)>)
    ensures
        s.assign_lines(pairs).cur.len() == s.cur.len() + pairs.len(),
        s.assign_lines(pairs).stack == s.stack,
        s.cur.is_prefix_of(s.assign_lines(pairs).cur),
        forall|i: int|
            0 <= i < pairs.len() ==> s.assign_lines(pairs).cur[s.cur.len() + i] == NodeV::Line(
                (#[trigger] pairs[i]).0 + " = "@ + pairs[i].1 + ";"@,
            ),
    decreases pairs.len(),
{
    if pairs.len() > 0 {
        let front = pairs.drop_last();
        lemma_assign_lines(s, front);
        assert forall|i: int| 0 <= i < pairs.len() implies s.assign_lines(pairs).cur[s.cur.len()
            + i] == NodeV::Line((#[trigger] pairs[i]).0 + " = "@ + pairs[i].1 + ";"@) by {
            if i < pairs.len() - 1 {
                assert(front[i] == pairs[i]);
            }
        }
    } else {
        assert(s.cur.is_prefix_of(s.cur));
    }
}

proof fn lemma_frozen_with(a: GenV, b: GenV, n: nat)
    requires
        b == (GenV { frames: b.frames, ..a }),
        n <= a.stack.len(),
    ensures
        match (a.frozen(n), b.frozen(n)) {
            (Ok(x), Ok(y)) => y == (GenV { frames: b.frames, ..x }) && x.frames == a.frames,
            (Err(_), Err(_)) => true,
            _ => false,
        },
    decreases n,
{
    if n > 0 {
        lemma_frozen_with(a, b, (n - 1) as nat);
    }
}

proof fn lemma_spilled_with(a: GenV, b: GenV)
    requires
        b == (GenV { frames: b.frames, ..a }),
    ensures
        match (a.spilled(), b.spilled()) {
            (Ok(x), Ok(y)) => y == (GenV { frames: b.frames, ..x }),
            (Err(_), Err(_)) => true,
            _ => false,
        },
{
    reveal(GenV::survivors_frozen);
    if a.stack.len() > 0 {
        lemma_frozen_with(a, b, a.stack.len());
    }
}

#[verifier::rlimit(40)]
proof fn lemma_held(s: GenV, n: nat)
    ensures
        s.held(n) matches Ok(t) ==> {
            &&& s.stack.len() >= n
            &&& t.cur.len() == s.cur.len() + n
            &&& t.cur.take(s.cur.len() as int) == s.cur
            &&& forall|i: int|
                0 <= i < n ==> #[trigger] holds(
                    t.cur[s.cur.len() + n - 1 - i],
                    i as nat,
                    s.stack[s.stack.len() - n + i].code,
                )
        },
    decreases n,
{
    if n == 0 {
        assert(s.cur.take(s.cur.len() as int) =~= s.cur);
    } else if s.has(1) {
        let line = ("__rv"@ + dec((n - 1) as nat) + " = "@ + s.top().code + ";"@);
        let u = s.drop(1).line(line);
        lemma_held(u, (n - 1) as nat);
        if let Ok(t) = s.held(n) {
            let from = s.cur.len() as int;
            assert(t.cur.take(from) =~= t.cur.take(from + 1).take(from));
            assert(u.cur.take(from) =~= s.cur);
            assert(t.cur.take(from + 1)[from] == t.cur[from]);
            assert forall|i: int| 0 <= i < n implies #[trigger] holds(
                t.cur[from + n - 1 - i],
                i as nat,
                s.stack[s.stack.len() - n + i].code,
            ) by {
                if i < n - 1 {
                    assert(holds(
                        t.cur[u.cur.len() + (n - 1) - 1 - i],
                        i as nat,
                        u.stack[u.stack.len() - (n - 1) + i].code,
                    ));
                }
            }
        }
    }
}

/// Whether the node puts the value into the holder of the result `i`.
pub open spec fn holds(n: NodeV, i: nat, code: Seq<char>) -> bool {
    n == NodeV::Line("__rv"@ + dec(i) + " = "@ + code + ";"@)
}

/// A `return` out of a `try` body puts the topmost operands into the holders of the
/// results, in order, and says that the function returns.
#[verifier::rlimit(40)]
pub proof fn law_escaping_return_holds_operands(s: GenV, text: Seq<char>, t: GenV)
    requires
        s.reachable,
        s.emitted(Operator::Return, text) == Ok::<GenV, FailV>(t),
        crate::codegen::func::branch::body_of(s.try_barriers) is Some,
    ensures
        ({
            let n = s.results.len();
            let from = s.cur.len();
            &&& s.stack.len() >= n
            &&& !t.reachable
            &&& t.uses_ret_escape
            &&& t.cur.len() == from + n + 2
            &&& forall|i: int|
                0 <= i < n ==> #[trigger] holds(
                    t.cur[from + n - 1 - i],
                    i as nat,
                    s.stack[s.stack.len() - n + i].code,
                )
            &&& t.cur[from + n as int] == NodeV::Line("__returning = true;"@)
            &&& t.cur.last() == NodeV::Term("return;"@)
        }),
{
    reveal(GenV::lowered_control);
    let n = s.results.len();
    let u = GenV { uses_ret_escape: true, ..s };
    lemma_held(u, n);
    let v = u.held(n)->Ok_0;
    lemma_held_keeps(u, n);
    assert(t.cur == v.cur.push(NodeV::Line("__returning = true;"@)).push(NodeV::Term("return;"@)));
    assert forall|i: int| 0 <= i < n implies #[trigger] holds(
        t.cur[s.cur.len() + n - 1 - i],
        i as nat,
        s.stack[s.stack.len() - n + i].code,
    ) by {
        assert(holds(v.cur[u.cur.len() + n - 1 - i], i as nat,
            u.stack[u.stack.len() - n + i].code));
    }
}

proof fn lemma_held_keeps(s: GenV, n: nat)
    ensures
        s.held(n) matches Ok(t) ==> t.uses_ret_escape == s.uses_ret_escape,
    decreases n,
{
    if n > 0 && s.has(1) {
        lemma_held_keeps(s.drop(1).line(("__rv"@ + dec((n - 1) as nat) + " = "@ + s.top().code
            + ";"@)), (n - 1) as nat);
    }
}

} // verus!
