//! What holds of the flat dispatch and of the operand stack as a whole.

use vstd::prelude::*;

use crate::codegen::context::{chain_reaches, CtxV};
use crate::codegen::dispatch::{assembled, flat_body, fresh_flat, place_of, sorted_arms, SplitV};
use crate::codegen::edges::{
    absorbable, bodies, chain_goes_on, fuse_state, fuse_states, fused, fused_chain, in_degree,
    linears, without_last, FuseV,
};
use crate::codegen::flatten::{
    finished, lower_nodes, lower_region, lower_step, lower_work, started, work_size, ArmV, FlatV,
    LineV, TaskV, WalkV,
};
use crate::codegen::func::state::{GenV, MAX_EXPR_LEN};
use crate::codegen::helpers::{
    base_lines, helper_list, helper_rank, helper_source, shared_source, Helper,
};
use crate::codegen::ir::{
    node_size, nodes_size, region_size, structurable, FrameKind, NodeV, RegionV,
};
use crate::codegen::render::helper_methods;
use crate::text::{byte_len, inc};
use crate::wasm::ValType;

verus! {

// ---------------------------------------------------------------------------
// States
// ---------------------------------------------------------------------------
/// How many arms the state `s` has.
pub open spec fn arm_count(arms: Seq<ArmV>, s: usize) -> nat
    decreases arms.len(),
{
    if arms.len() == 0 {
        0
    } else {
        arm_count(arms.drop_last(), s) + if arms.last().0 == s {
            1nat
        } else {
            0
        }
    }
}

/// How many of the lists still to be lowered enter at the state `s`.
spec fn task_count(work: Seq<TaskV>, s: usize) -> nat
    decreases work.len(),
{
    if work.len() == 0 {
        0
    } else {
        task_count(work.drop_last(), s) + if work.last().entry == s {
            1nat
        } else {
            0
        }
    }
}

/// How many arms the state `s` has or will have.
spec fn claims(w: WalkV, s: usize) -> nat {
    arm_count(w.flat.arms, s) + task_count(w.work, s) + if w.reachable && w.state == s {
        1nat
    } else {
        0
    }
}

/// Whether no state is claimed twice, and only states that were taken are.
spec fn sound(w: WalkV) -> bool {
    forall|s: usize| #[trigger] claims(w, s) <= 1 && (claims(w, s) > 0 ==> s < w.flat.next_state)
}

proof fn lemma_arm_pushed(arms: Seq<ArmV>, a: ArmV, s: usize)
    ensures
        arm_count(arms.push(a), s) == arm_count(arms, s) + if a.0 == s {
            1nat
        } else {
            0
        },
{
    assert(arms.push(a).drop_last() =~= arms);
}

proof fn lemma_task_pushed(work: Seq<TaskV>, t: TaskV, s: usize)
    ensures
        task_count(work.push(t), s) == task_count(work, s) + if t.entry == s {
            1nat
        } else {
            0
        },
{
    assert(work.push(t).drop_last() =~= work);
}

proof fn lemma_size_pushed(work: Seq<TaskV>, t: TaskV)
    ensures
        work_size(work.push(t)) == work_size(work) + 1 + nodes_size(t.nodes),
{
    assert(work.push(t).drop_last() =~= work);
}

/// Lowering one node takes at most three states, and claims each once.
proof fn lemma_step_sound(w: WalkV, n: NodeV)
    requires
        sound(w),
        w.flat.next_state + 3 <= usize::MAX,
    ensures
        sound(lower_step(w, n)),
        lower_step(w, n).flat.next_state + 3 * work_size(lower_step(w, n).work)
            <= w.flat.next_state + 3 * work_size(w.work) + 3 * node_size(n),
{
    let w2 = lower_step(w, n);
    let next = w.flat.next_state;
    if !w.reachable {
    } else if let NodeV::Region(r) = n {
        lemma_region_sound(w, r);
        assert(node_size(n) == region_size(r));
    } else {
        assert forall|s: usize| #[trigger]
            claims(w2, s) <= 1 && (claims(w2, s) > 0 ==> s < w2.flat.next_state) by {
            let own = w.stmt(Seq::empty()).stmts;
            assert(claims(w, s) <= 1);
            if w2.flat.arms.len() == w.flat.arms.len() {
                assert(w2.flat.arms == w.flat.arms);
            } else if let NodeV::Checkpoint { callee, save } = n {
                let one = w2.flat.arms.drop_last();
                assert(one =~= w.flat.arms.push(one.last()));
                lemma_arm_pushed(w.flat.arms, one.last(), s);
                assert(w2.flat.arms =~= one.push(w2.flat.arms.last()));
                lemma_arm_pushed(one, w2.flat.arms.last(), s);
            } else {
                assert(w2.flat.arms =~= w.flat.arms.push(w2.flat.arms.last()));
                lemma_arm_pushed(w.flat.arms, w2.flat.arms.last(), s);
            }
        }
    }
}

proof fn lemma_region_sound(w: WalkV, r: RegionV)
    requires
        sound(w),
        w.reachable,
        w.flat.next_state + 3 <= usize::MAX,
    ensures
        sound(lower_region(w, r)),
        lower_region(w, r).flat.next_state + 3 * work_size(lower_region(w, r).work)
            <= w.flat.next_state + 3 * work_size(w.work) + 3 * region_size(r),
{
    let w2 = lower_region(w, r);
    let first = w.flat.next_state;
    let second = inc(first);
    let body = TaskV {
        nodes: r.body,
        entry: if r.kind == FrameKind::If {
            second
        } else {
            first
        },
        after: if r.kind == FrameKind::If {
            first
        } else {
            second
        },
    };
    let own = w2.flat.arms[w.flat.arms.len() as int];
    let one = w.flat.arms.push(own);
    if r.kind == FrameKind::If {
        lemma_size_pushed(w.work, body);
        if r.els is Some {
            let els = TaskV { nodes: r.els->0, entry: inc(second), after: first };
            lemma_size_pushed(w.work.push(body), els);
            assert(w2.work == w.work.push(body).push(els));
        } else {
            assert(w2.work == w.work.push(body));
        }
    } else if w.flat.allow_structured_loop && structurable(r) {
        assert(w2.work == w.work);
    } else {
        lemma_size_pushed(w.work, body);
        assert(w2.work == w.work.push(body));
    }
    assert forall|s: usize| #[trigger]
        claims(w2, s) <= 1 && (claims(w2, s) > 0 ==> s < w2.flat.next_state) by {
        assert(claims(w, s) <= 1);
        lemma_arm_pushed(w.flat.arms, own, s);
        if r.kind == FrameKind::If {
            assert(w2.flat.arms =~= one);
            lemma_task_pushed(w.work, body, s);
            if r.els is Some {
                let els = TaskV { nodes: r.els->0, entry: inc(second), after: first };
                lemma_task_pushed(w.work.push(body), els, s);
            }
        } else if w.flat.allow_structured_loop && structurable(r) {
            assert(w2.flat.arms =~= one.push(w2.flat.arms.last()));
            lemma_arm_pushed(one, w2.flat.arms.last(), s);
        } else {
            assert(w2.flat.arms =~= one);
            lemma_task_pushed(w.work, body, s);
        }
    }
}

proof fn lemma_nodes_sound(w: WalkV, ns: Seq<NodeV>)
    requires
        sound(w),
        w.flat.next_state + 3 * work_size(w.work) + 3 * nodes_size(ns) + 3 <= usize::MAX,
    ensures
        sound(lower_nodes(w, ns)),
        lower_nodes(w, ns).flat.next_state + 3 * work_size(lower_nodes(w, ns).work)
            <= w.flat.next_state + 3 * work_size(w.work) + 3 * nodes_size(ns),
    decreases ns.len(),
{
    if ns.len() > 0 {
        lemma_nodes_sound(w, ns.drop_last());
        lemma_step_sound(lower_nodes(w, ns.drop_last()), ns.last());
    }
}

/// Whether no state has two arms, or an arm and a list still to be lowered.
spec fn flat_sound(f: FlatV, work: Seq<TaskV>) -> bool {
    forall|s: usize|
        #![trigger arm_count(f.arms, s)]
        arm_count(f.arms, s) + task_count(work, s) <= 1 && (arm_count(f.arms, s) + task_count(
            work,
            s,
        ) > 0 ==> s < f.next_state)
}

proof fn lemma_work_sound(f: FlatV, work: Seq<TaskV>)
    requires
        flat_sound(f, work),
        f.next_state + 3 * work_size(work) + 3 <= usize::MAX,
    ensures
        exists|rest: Seq<TaskV>| flat_sound(lower_work(f, work), rest),
    decreases work_size(work),
{
    if work.len() > 0 {
        let w0 = started(f, work);
        assert forall|s: usize| #[trigger]
            claims(w0, s) <= 1 && (claims(w0, s) > 0 ==> s < w0.flat.next_state) by {
            assert(arm_count(f.arms, s) + task_count(work, s) <= 1);
        }
        lemma_nodes_sound(w0, work.last().nodes);
        let w = lower_nodes(w0, work.last().nodes);
        if work_size(w.work) < work_size(work) {
            let f2 = finished(w, work.last().after);
            assert forall|s: usize|
                #![trigger arm_count(f2.arms, s)]
                arm_count(f2.arms, s) + task_count(w.work, s) <= 1 && (arm_count(f2.arms, s)
                    + task_count(w.work, s) > 0 ==> s < f2.next_state) by {
                assert(claims(w, s) <= 1);
                if w.reachable {
                    lemma_arm_pushed(w.flat.arms, f2.arms.last(), s);
                    assert(f2.arms =~= w.flat.arms.push(f2.arms.last()));
                }
            }
            lemma_work_sound(f2, w.work);
            let rest = choose|rest: Seq<TaskV>| flat_sound(lower_work(f2, w.work), rest);
            assert(lower_work(f, work) == lower_work(f2, w.work));
            assert(flat_sound(lower_work(f, work), rest));
        } else {
            assert(flat_sound(lower_work(f, work), work));
        }
    } else {
        assert(flat_sound(lower_work(f, work), work));
    }
}

/// A flat dispatch has at most one arm per state, and its states are those that
/// were taken: nothing is reached by two arms. (The number of states must fit a
/// machine word.)
pub proof fn law_states_have_one_arm(
    nodes: Seq<NodeV>,
    exit_stmt: Seq<char>,
    structured: bool,
    s: usize,
)
    requires
        3 * nodes_size(nodes) + 8 <= usize::MAX,
    ensures
        arm_count(flat_body(nodes, exit_stmt, structured).arms, s) <= 1,
        arm_count(flat_body(nodes, exit_stmt, structured).arms, s) > 0 ==> s < flat_body(
            nodes,
            exit_stmt,
            structured,
        ).next_state,
{
    let f = fresh_flat(exit_stmt, structured);
    let task = TaskV { nodes, entry: 0, after: 1 };
    let work = Seq::empty().push(task);
    lemma_size_pushed(Seq::empty(), task);
    assert forall|x: usize|
        #![trigger arm_count(f.arms, x)]
        arm_count(f.arms, x) + task_count(work, x) <= 1 && (arm_count(f.arms, x) + task_count(
            work,
            x,
        ) > 0 ==> x < f.next_state) by {
        lemma_task_pushed(Seq::empty(), task, x);
        lemma_arm_pushed(Seq::empty(), f.arms[0], x);
        assert(f.arms =~= Seq::empty().push(f.arms[0]));
    }
    lemma_work_sound(f, work);
    let r = flat_body(nodes, exit_stmt, structured);
    assert(arm_count(r.arms, s) <= 1 && (arm_count(r.arms, s) > 0 ==> s < r.next_state)) by {
        let rest = choose|rest: Seq<TaskV>| flat_sound(r, rest);
    }
}

// ---------------------------------------------------------------------------
// Fusing
// ---------------------------------------------------------------------------
/// Whether some arm is that of the state `t`.
pub open spec fn has_arm(arms: Seq<ArmV>, t: usize) -> bool {
    exists|i: int| 0 <= i < arms.len() && (#[trigger] arms[i]).0 == t
}

/// A chain absorbs absorbable states only, and finishes no arm.
proof fn lemma_chain_absorbs(
    arms: Seq<ArmV>,
    start: usize,
    v: FuseV,
    cur: usize,
    body: Seq<LineV>,
    t: usize,
)
    requires
        v.rest.dom().finite(),
        forall|x: usize| #[trigger] v.consumed.contains(x) ==> absorbable(arms, start, x),
        !absorbable(arms, start, t),
    ensures
        ({
            let v2 = fused_chain(arms, start, v, cur, body).0;
            &&& v2.rest.dom().finite()
            &&& forall|x: usize| #[trigger] v2.consumed.contains(x) ==> absorbable(arms, start, x)
            &&& v2.out == v.out
            &&& v2.rest.contains_key(t) == v.rest.contains_key(t)
        }),
    decreases v.rest.dom().len(),
{
    if chain_goes_on(arms, start, v, cur) {
        let x = linears(arms)[cur];
        let next = FuseV { rest: v.rest.remove(x), consumed: v.consumed.insert(x), out: v.out };
        assert(next.rest.dom() =~= v.rest.dom().remove(x));
        lemma_chain_absorbs(arms, start, next, x, without_last(body) + v.rest[x], t);
    }
}

pub proof fn lemma_bodies(arms: Seq<ArmV>, t: usize)
    ensures
        bodies(arms).dom().finite(),
        has_arm(arms, t) ==> bodies(arms).contains_key(t),
        bodies(arms).contains_key(t) ==> has_arm(arms, t),
    decreases arms.len(),
{
    if arms.len() > 0 {
        let front = arms.drop_last();
        lemma_bodies(front, t);
        assert(bodies(arms).dom() =~= bodies(front).dom().insert(arms.last().0));
        if has_arm(arms, t) && !has_arm(front, t) {
            let i = choose|i: int| 0 <= i < arms.len() && (#[trigger] arms[i]).0 == t;
            if i < arms.len() - 1 {
                assert(front[i].0 == t);
            }
        }
        if has_arm(front, t) {
            let i = choose|i: int| 0 <= i < front.len() && (#[trigger] front[i]).0 == t;
            assert(arms[i].0 == t);
        }
        if arms.last().0 == t {
            assert(arms[arms.len() - 1].0 == t);
        }
    }
}

proof fn lemma_fusing(arms: Seq<ArmV>, start: usize, done: Seq<ArmV>, t: usize)
    requires
        !absorbable(arms, start, t),
        bodies(arms).contains_key(t),
    ensures
        ({
            let v = fuse_states(arms, start, done);
            &&& v.rest.dom().finite()
            &&& forall|x: usize| #[trigger] v.consumed.contains(x) ==> absorbable(arms, start, x)
            &&& v.rest.contains_key(t) || has_arm(v.out, t)
            &&& has_arm(done, t) ==> has_arm(v.out, t)
        }),
    decreases done.len(),
{
    lemma_bodies(arms, t);
    if done.len() > 0 {
        let front = done.drop_last();
        lemma_fusing(arms, start, front, t);
        let v = fuse_states(arms, start, front);
        let s = done.last().0;
        let v3 = fuse_state(arms, start, v, s);
        if absorbable(arms, start, s) || v.consumed.contains(s) || !v.rest.contains_key(s) {
        } else {
            let v1 = FuseV { rest: v.rest.remove(s), ..v };
            assert(v1.rest.dom() =~= v.rest.dom().remove(s));
            lemma_chain_absorbs(arms, start, v1, s, v.rest[s], t);
            assert(v3.out.len() == v.out.len() + 1);
            if has_arm(v.out, t) {
                let i = choose|i: int| 0 <= i < v.out.len() && (#[trigger] v.out[i]).0 == t;
                assert(v3.out[i].0 == t);
            }
            if s == t {
                assert(v3.out[v3.out.len() - 1].0 == t);
            }
        }
        if has_arm(done, t) && !has_arm(front, t) {
            let i = choose|i: int| 0 <= i < done.len() && (#[trigger] done[i]).0 == t;
            if i < done.len() - 1 {
                assert(front[i].0 == t);
            }
        }
    }
}

/// Fusing straight-line chains folds absorbable states only: every other state
/// keeps an arm of its own.
pub proof fn law_only_absorbable_states_vanish(arms: Seq<ArmV>, start: usize, t: usize)
    requires
        has_arm(arms, t),
        !absorbable(arms, start, t),
    ensures
        has_arm(fused(arms, start), t),
{
    lemma_bodies(arms, t);
    lemma_fusing(arms, start, arms, t);
}

/// Fusing never folds the entry away: the machine keeps its entry arm.
pub proof fn law_entry_survives_fusing(arms: Seq<ArmV>, start: usize)
    requires
        has_arm(arms, start),
    ensures
        has_arm(fused(arms, start), start),
{
    law_only_absorbable_states_vanish(arms, start, start);
}

/// A join point, that is a state with more than one way into it, keeps its arm; so
/// does a loop that is entered from outside.
pub proof fn law_join_points_survive_fusing(arms: Seq<ArmV>, start: usize, t: usize)
    requires
        has_arm(arms, t),
        in_degree(arms, start, t) >= 2,
    ensures
        has_arm(fused(arms, start), t),
{
    law_only_absorbable_states_vanish(arms, start, t);
}

// ---------------------------------------------------------------------------
// Order and layout of the arms
// ---------------------------------------------------------------------------
proof fn lemma_place(arms: Seq<ArmV>, s: usize, n: nat)
    requires
        n <= arms.len(),
        forall|i: int, j: int| 0 <= i < j < arms.len() ==> arms[i].0 <= arms[j].0,
        forall|i: int| n <= i < arms.len() ==> s < (#[trigger] arms[i]).0,
    ensures
        place_of(arms, s, n) <= n,
        forall|i: int| 0 <= i < place_of(arms, s, n) ==> (#[trigger] arms[i]).0 <= s,
        forall|i: int| place_of(arms, s, n) <= i < arms.len() ==> s < (#[trigger] arms[i]).0,
    decreases n,
{
    if n > 0 && arms[n - 1].0 > s {
        lemma_place(arms, s, (n - 1) as nat);
    }
}

/// The arms of a dispatch stand in ascending order of their states, and they are
/// the arms that were given.
pub proof fn law_arms_are_sorted(arms: Seq<ArmV>)
    ensures
        forall|i: int, j: int|
            0 <= i < j < sorted_arms(arms).len() ==> sorted_arms(arms)[i].0 <= sorted_arms(
                arms,
            )[j].0,
        sorted_arms(arms).to_multiset() == arms.to_multiset(),
        sorted_arms(arms).len() == arms.len(),
    decreases arms.len(),
{
    if arms.len() > 0 {
        let front = sorted_arms(arms.drop_last());
        law_arms_are_sorted(arms.drop_last());
        let p = place_of(front, arms.last().0, front.len());
        lemma_place(front, arms.last().0, front.len());
        let all = sorted_arms(arms);
        assert forall|i: int, j: int| 0 <= i < j < all.len() implies all[i].0 <= all[j].0 by {
            if i == p {
                assert(all[j] == front[j - 1]);
            } else if j == p {
                assert(all[i] == front[i]);
            } else if j < p {
                assert(all[i] == front[i] && all[j] == front[j]);
            } else if i > p {
                assert(all[i] == front[i - 1] && all[j] == front[j - 1]);
            } else {
                assert(all[i] == front[i] && all[j] == front[j - 1]);
            }
        }
        broadcast use vstd::seq_lib::group_to_multiset_ensures;

        assert(arms =~= arms.drop_last().push(arms.last()));
        assert(arms.to_multiset() =~= arms.drop_last().to_multiset().insert(arms.last()));
        vstd::seq_lib::to_multiset_insert(front, p as int, arms.last());
        assert(all.to_multiset() =~= front.to_multiset().insert(arms.last()));
    } else {
        assert(sorted_arms(arms) =~= arms);
    }
}

/// A dispatch that is not split has no part functions and no state struct: where
/// the plan disables splitting, or the arms fit one part.
pub proof fn law_small_dispatches_stay_whole(
    arms: Seq<ArmV>,
    uses_continue: bool,
    start: usize,
    plan: SplitV,
)
    requires
        plan.max_arms == 0 || arms.len() <= plan.max_arms,
    ensures
        assembled(arms, uses_continue, start, Some(plan)) == assembled(
            arms,
            uses_continue,
            start,
            None,
        ),
        assembled(arms, uses_continue, start, Some(plan)).siblings.len() == 0,
        assembled(arms, uses_continue, start, Some(plan)).state_struct.len() == 0,
{
}

// ---------------------------------------------------------------------------
// Operands
// ---------------------------------------------------------------------------
proof fn lemma_frozen_pins(s: GenV, n: nat)
    requires
        n <= s.stack.len(),
    ensures
        s.frozen(n) matches Ok(t) ==> {
            &&& t.stack.len() == s.stack.len()
            &&& forall|i: int|
                0 <= i < n ==> (#[trigger] t.stack[i]).stable && t.stack[i].ty == s.stack[i].ty
                    && (s.stack[i].stable ==> t.stack[i] == s.stack[i])
            &&& forall|i: int| n <= i < s.stack.len() ==> #[trigger] t.stack[i] == s.stack[i]
        },
    decreases n,
{
    if n > 0 {
        lemma_frozen_pins(s, (n - 1) as nat);
    }
}

/// Freezing pins every operand that survives a boundary to a value that no side
/// effect changes, and leaves the operands that the boundary consumes, all types,
/// and what was pinned already as they are.
pub proof fn law_freezing_pins_survivors(s: GenV, keep: nat)
    ensures
        s.survivors_frozen(keep) matches Ok(t) ==> {
            &&& t.stack.len() == s.stack.len()
            &&& forall|i: int|
                0 <= i < s.stack.len() - keep ==> (#[trigger] t.stack[i]).stable && t.stack[i].ty
                    == s.stack[i].ty && (s.stack[i].stable ==> t.stack[i] == s.stack[i])
            &&& forall|i: int|
                0 <= i < s.stack.len() && s.stack.len() - keep <= i ==> #[trigger] t.stack[i]
                    == s.stack[i]
        },
{
    reveal(GenV::survivors_frozen);
    if s.stack.len() > keep {
        lemma_frozen_pins(s, (s.stack.len() - keep) as nat);
    }
}

/// An expression that is built from other operands stays within
/// [`MAX_EXPR_LEN`] bytes: a longer one is bound to a temporary.
pub proof fn law_expressions_stay_short(s: GenV, code: Seq<char>, ty: ValType, stable: bool)
    ensures
        s.combined(code, ty, stable) matches Ok(t) ==> t.stack.len() == s.stack.len() + 1
            && t.stack.drop_last() == s.stack && t.top().ty == ty && ((t.top().code == code
            && byte_len(code) <= MAX_EXPR_LEN) || (t.top().code == s.temp() && t.top().stable)),
{
    reveal(GenV::combined);
    reveal(GenV::materialized);
    if let Ok(t) = s.combined(code, ty, stable) {
        assert(t.stack.drop_last() =~= s.stack);
    }
}

// ---------------------------------------------------------------------------
// Subtypes
// ---------------------------------------------------------------------------
proof fn lemma_descendants_hold(c: CtxV, target: u32, m: nat, t: u32)
    requires
        m <= c.kinds.len(),
    ensures
        c.descendants(target, m).contains(t) <==> (t < m && c.kinds[t as int].is_object()
            && chain_reaches(c.supers, Some(t), target, c.kinds.len() + 1)),
    decreases m,
{
    if m > 0 {
        lemma_descendants_hold(c, target, (m - 1) as nat, t);
        let front = c.descendants(target, (m - 1) as nat);
        let all = c.descendants(target, m);
        if all.len() == front.len() + 1 {
            assert(all =~= front.push(all.last()));
            if front.contains(t) {
                let k = choose|k: int| 0 <= k < front.len() && front[k] == t;
                assert(all[k] == t);
            }
            if all.contains(t) {
                let k = choose|k: int| 0 <= k < all.len() && all[k] == t;
                if k < front.len() {
                    assert(front[k] == t);
                }
            }
            assert(all[front.len() as int] == (m - 1) as u32);
        }
    }
}

/// The types that a downcast to `target` accepts are exactly the struct and array
/// types whose chain of supertypes reaches it; `target` itself is one of them,
/// where it is a struct or array type.
pub proof fn law_casts_accept_subtypes(c: CtxV, target: u32, t: u32)
    ensures
        c.descendants(target, c.kinds.len()).contains(t) <==> (t < c.kinds.len()
            && c.kinds[t as int].is_object() && chain_reaches(
            c.supers,
            Some(t),
            target,
            c.kinds.len() + 1,
        )),
        target < c.kinds.len() && c.kinds[target as int].is_object() ==> c.descendants(
            target,
            c.kinds.len(),
        ).contains(target),
{
    lemma_descendants_hold(c, target, c.kinds.len(), t);
    lemma_descendants_hold(c, target, c.kinds.len(), target);
}

// ---------------------------------------------------------------------------
// Helpers
// ---------------------------------------------------------------------------
/// The emission order holds every memory helper, so that each helper that some
/// body uses is emitted.
#[verifier::spinoff_prover]
#[verifier::rlimit(60)]
pub proof fn law_every_helper_has_its_place(h: Helper)
    ensures
        0 <= helper_rank(h) < helper_list().len(),
        helper_list()[helper_rank(h)] == h,
{
}

proof fn lemma_helper_emitted(
    out: Seq<Seq<char>>,
    helpers: Seq<Helper>,
    used: Set<(Helper, u32)>,
    mem: u32,
    shared: bool,
    h: Helper,
)
    requires
        helpers.contains(h),
        used.contains((h, mem)),
    ensures
        holds_lines(
            helper_methods(out, helpers, used, mem, shared),
            if shared {
                shared_source(h)
            } else {
                helper_source(h, mem)
            },
        ),
    decreases helpers.len(),
{
    let all = helper_methods(out, helpers, used, mem, shared);
    let front = helper_methods(out, helpers.drop_last(), used, mem, shared);
    let want = if shared {
        shared_source(h)
    } else {
        helper_source(h, mem)
    };
    if helpers.last() == h {
        let head = front.push(""@);
        assert(all == head + want);
        assert(all.subrange(head.len() as int, (head.len() + want.len()) as int) =~= want);
        assert(lines_at(all, head.len() as int, want));
    } else {
        let k = choose|k: int| 0 <= k < helpers.len() && helpers[k] == h;
        assert(helpers.drop_last()[k] == h);
        lemma_helper_emitted(out, helpers.drop_last(), used, mem, shared, h);
        let i = choose|i: int| lines_at(front, i, want);
        assert(front.len() <= all.len());
        assert(all.subrange(i, i + want.len()) =~= front.subrange(i, i + want.len()));
        assert(lines_at(all, i, want));
    }
}

/// Whether the lines `part` stand in `lines` from `i` on.
pub open spec fn lines_at(lines: Seq<Seq<char>>, i: int, part: Seq<Seq<char>>) -> bool {
    0 <= i && i + part.len() <= lines.len() && lines.subrange(i, i + part.len()) == part
}

/// Whether the lines `part` stand together somewhere in `lines`.
pub open spec fn holds_lines(lines: Seq<Seq<char>>, part: Seq<Seq<char>>) -> bool {
    exists|i: int| lines_at(lines, i, part)
}

/// Every helper that is used on a memory is emitted for that memory.
pub proof fn law_used_helpers_are_emitted(
    out: Seq<Seq<char>>,
    used: Set<(Helper, u32)>,
    mem: u32,
    shared: bool,
    h: Helper,
)
    requires
        used.contains((h, mem)),
    ensures
        holds_lines(
            helper_methods(out, helper_list(), used, mem, shared),
            if shared {
                shared_source(h)
            } else {
                helper_source(h, mem)
            },
        ),
{
    law_every_helper_has_its_place(h);
    assert(helper_list().contains(h));
    lemma_helper_emitted(out, helper_list(), used, mem, shared, h);
}

/// A module with one memory is written with the plain helpers.
pub proof fn law_first_memory_uses_plain_helpers(h: Helper)
    ensures
        helper_source(h, 0) == base_lines(h),
{
}

} // verus!
