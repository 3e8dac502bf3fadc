//! Fusing unrolls chains, and does so in one go.

use vstd::prelude::*;

use crate::codegen::edges::{
    absorbable, all_targets, bodies, body_targets, chain_goes_on, fuse_state, fuse_states, fused,
    fused_chain, has_absorbable, in_degree, linear_target, linears, occurrences, without_last,
    FuseV,
};
use crate::codegen::flatten::{ArmV, LineV};
use crate::codegen::fusing::{
    lemma_front, lemma_linear, lemma_occurrences_concat, lemma_ways_in, one_arm_each,
        lemma_jump_edges,
};
use crate::codegen::laws::{arm_count, has_arm, law_entry_survives_fusing, lemma_bodies};
use crate::codegen::reaching::{lemma_counted, lemma_only_arm};
use crate::codegen::scan::pc_targets;

verus! {

/// Whether the state `s` flows into a state that is absorbed.
pub open spec fn goes_on(arms: Seq<ArmV>, start: usize, s: usize) -> bool {
    &&& linears(arms).contains_key(s)
    &&& absorbable(arms, start, linears(arms)[s])
    &&& bodies(arms).contains_key(linears(arms)[s])
}

/// The statements of the state `s` with the jump at their end replaced by the
/// statements of the state it goes to, and so on, as long as that state is
/// absorbed, at most `fuel` times.
pub open spec fn unrolled(arms: Seq<ArmV>, start: usize, s: usize, fuel: nat) -> Seq<LineV>
    decreases fuel,
{
    if fuel > 0 && goes_on(arms, start, s) {
        without_last(bodies(arms)[s]) + unrolled(
            arms,
            start,
            linears(arms)[s],
            (fuel - 1) as nat,
        )
    } else {
        bodies(arms)[s]
    }
}

/// The arms of `some` whose states are not absorbed, in order, with their chains
/// unrolled.
pub open spec fn heads(arms: Seq<ArmV>, start: usize, some: Seq<ArmV>) -> Seq<ArmV>
    decreases some.len(),
{
    if some.len() == 0 {
        Seq::empty()
    } else if absorbable(arms, start, some.last().0) {
        heads(arms, start, some.drop_last())
    } else {
        heads(arms, start, some.drop_last()).push(
            (some.last().0, unrolled(arms, start, some.last().0, arms.len())),
        )
    }
}

// ---------------------------------------------------------------------------
// Unrolling
// ---------------------------------------------------------------------------
/// Of two states that flow into the same absorbed state, one is the other.
proof fn lemma_one_way(arms: Seq<ArmV>, start: usize, p: usize, q: usize)
    requires
        one_arm_each(arms),
        linears(arms).contains_key(p),
        linears(arms).contains_key(q),
        linears(arms)[p] == linears(arms)[q],
        absorbable(arms, start, linears(arms)[p]),
    ensures
        p == q,
{
    lemma_linear(arms, p);
    lemma_linear(arms, q);
    if p != q {
        lemma_ways_in(arms, p, q, linears(arms)[p]);
    }
}

/// Whether a state and the absorbed state it flows into are placed together.
spec fn paired(arms: Seq<ArmV>, start: usize, v: FuseV, q: usize) -> bool {
    goes_on(arms, start, q) ==> (v.rest.contains_key(q) == v.rest.contains_key(linears(arms)[q]))
}

spec fn in_order(arms: Seq<ArmV>, v: FuseV) -> bool {
    &&& v.rest.dom().finite()
    &&& forall|x: usize| #[trigger] v.consumed.contains(x) ==> !v.rest.contains_key(x)
    &&& forall|x: usize| #[trigger]
        v.rest.contains_key(x) ==> bodies(arms).contains_key(x) && v.rest[x] == bodies(arms)[x]
}

/// A chain that has got to `cur`, with `head` in front.
proof fn lemma_chain_unrolls(
    arms: Seq<ArmV>,
    start: usize,
    v: FuseV,
    cur: usize,
    head: Seq<LineV>,
    fuel: nat,
)
    requires
        one_arm_each(arms),
        in_order(arms, v),
        !v.rest.contains_key(cur),
        goes_on(arms, start, cur) ==> v.rest.contains_key(linears(arms)[cur]),
        forall|q: usize| q != cur ==> #[trigger] paired(arms, start, v, q),
        fuel >= v.rest.dom().len(),
    ensures
        ({
            let (v2, body) = fused_chain(arms, start, v, cur, head + bodies(arms)[cur]);
            &&& body == head + unrolled(arms, start, cur, fuel)
            &&& in_order(arms, v2)
            &&& v2.out == v.out
            &&& forall|q: usize| #[trigger] paired(arms, start, v2, q)
            &&& forall|s: usize|
                !absorbable(arms, start, s) ==> #[trigger] v2.rest.contains_key(s)
                    == v.rest.contains_key(s)
            &&& !v2.rest.contains_key(cur)
        }),
    decreases v.rest.dom().len(),
{
    let own = bodies(arms)[cur];
    if goes_on(arms, start, cur) {
        let t = linears(arms)[cur];
        lemma_linear(arms, cur);
        assert(!v.consumed.contains(t));
        assert(chain_goes_on(arms, start, v, cur));
        let next = FuseV { rest: v.rest.remove(t), consumed: v.consumed.insert(t), out: v.out };
        let head2 = head + without_last(own);
        assert(without_last(head + own) =~= head2);
        assert(next.rest.dom() =~= v.rest.dom().remove(t));
        assert(v.rest.dom().len() > 0);
        assert(in_order(arms, next)) by {
            assert forall|x: usize| #[trigger] next.consumed.contains(x) implies !next.rest.contains_key(
                x,
            ) by {
                if x != t {
                    assert(v.consumed.contains(x));
                }
            }
            assert forall|x: usize| #[trigger] next.rest.contains_key(x) implies bodies(
                arms,
            ).contains_key(x) && next.rest[x] == bodies(arms)[x] by {
                assert(v.rest.contains_key(x));
            }
        }
        assert(goes_on(arms, start, t) ==> next.rest.contains_key(linears(arms)[t])) by {
            if goes_on(arms, start, t) {
                assert(cur != t);
                assert(paired(arms, start, v, t));
                if linears(arms)[t] == t {
                    lemma_one_way(arms, start, t, cur);
                }
            }
        }
        assert forall|q: usize| q != t implies #[trigger] paired(arms, start, next, q) by {
            if goes_on(arms, start, q) {
                if q != cur {
                    assert(paired(arms, start, v, q));
                    if linears(arms)[q] == t {
                        lemma_one_way(arms, start, q, cur);
                    }
                }
            }
        }
        lemma_chain_unrolls(arms, start, next, t, head2, (fuel - 1) as nat);
        let rest = unrolled(arms, start, t, (fuel - 1) as nat);
        assert(head2 + rest =~= head + (without_last(own) + rest));
        let v2 = fused_chain(arms, start, v, cur, head + own).0;
        assert(v2 == fused_chain(arms, start, next, t, head2 + bodies(arms)[t]).0);
        assert forall|s: usize| !absorbable(arms, start, s) implies #[trigger] v2.rest.contains_key(s)
            == v.rest.contains_key(s) by {
            assert(next.rest.contains_key(s) == v.rest.contains_key(s));
        }
        assert(!v2.rest.contains_key(cur)) by {
            if v2.rest.contains_key(cur) {
                assert(paired(arms, start, v2, cur));
            }
        }
    } else {
        assert(!chain_goes_on(arms, start, v, cur)) by {
            if chain_goes_on(arms, start, v, cur) {
                assert(v.rest.contains_key(linears(arms)[cur]));
            }
        }
        assert forall|q: usize| #[trigger] paired(arms, start, v, q) by {}
    }
}

proof fn lemma_bodies_len(arms: Seq<ArmV>)
    ensures
        bodies(arms).dom().finite(),
        bodies(arms).dom().len() <= arms.len(),
    decreases arms.len(),
{
    if arms.len() > 0 {
        lemma_bodies_len(arms.drop_last());
        assert(bodies(arms).dom() =~= bodies(arms.drop_last()).dom().insert(arms.last().0));
    } else {
        assert(bodies(arms).dom() =~= Set::<usize>::empty());
    }
}

proof fn lemma_states_unroll(arms: Seq<ArmV>, start: usize, n: int)
    requires
        one_arm_each(arms),
        0 <= n <= arms.len(),
    ensures
        ({
            let v = fuse_states(arms, start, arms.take(n));
            &&& v.out == heads(arms, start, arms.take(n))
            &&& in_order(arms, v)
            &&& forall|q: usize| #[trigger] paired(arms, start, v, q)
            &&& forall|s: usize|
                !absorbable(arms, start, s) ==> #[trigger] v.rest.contains_key(s) == (bodies(
                    arms,
                ).contains_key(s) && !has_arm(arms.take(n), s))
        }),
    decreases n,
{
    let done = arms.take(n);
    lemma_bodies_len(arms);
    if n == 0 {
        let v = fuse_states(arms, start, done);
        assert forall|q: usize| #[trigger] paired(arms, start, v, q) by {
            if goes_on(arms, start, q) {
                lemma_linear(arms, q);
            }
        }
        assert forall|s: usize|
            !absorbable(arms, start, s) implies #[trigger] v.rest.contains_key(s) == (bodies(
            arms,
        ).contains_key(s) && !has_arm(done, s)) by {}
    } else {
        lemma_states_unroll(arms, start, n - 1);
        let front = arms.take(n - 1);
        assert(done.drop_last() =~= front);
        assert(done.last() == arms[n - 1]);
        let v = fuse_states(arms, start, front);
        let s = arms[n - 1].0;
        let w = fuse_state(arms, start, v, s);
        assert(fuse_states(arms, start, done) == w);
        assert forall|x: usize| #[trigger] has_arm(done, x) == (has_arm(front, x) || x == s) by {
            if has_arm(done, x) {
                let i = choose|i: int| 0 <= i < done.len() && (#[trigger] done[i]).0 == x;
                if i < n - 1 {
                    assert(front[i].0 == x);
                }
            }
            if has_arm(front, x) {
                let i = choose|i: int| 0 <= i < front.len() && (#[trigger] front[i]).0 == x;
                assert(done[i].0 == x);
            }
            assert(done[n - 1].0 == s);
        }
        assert(arm_count(arms, s) <= 1);
        lemma_only_arm(arms, n - 1);
        if absorbable(arms, start, s) {
        } else {
            assert(!has_arm(front, s)) by {
                if has_arm(front, s) {
                    let i = choose|i: int| 0 <= i < front.len() && (#[trigger] front[i]).0 == s;
                    lemma_twice(arms, i, n - 1);
                }
            }
            assert(v.rest.contains_key(s));
            assert(!v.consumed.contains(s));
            let u = FuseV { rest: v.rest.remove(s), ..v };
            assert(u.rest.dom() =~= v.rest.dom().remove(s));
            let none = Seq::<LineV>::empty();
            assert(none + bodies(arms)[s] =~= v.rest[s]);
            assert(in_order(arms, u)) by {
                assert forall|x: usize| #[trigger] u.consumed.contains(x) implies !u.rest.contains_key(
                    x,
                ) by {
                    assert(!v.rest.contains_key(x));
                }
                assert forall|x: usize| #[trigger] u.rest.contains_key(x) implies bodies(
                    arms,
                ).contains_key(x) && u.rest[x] == bodies(arms)[x] by {
                    assert(v.rest.contains_key(x));
                }
            }
            assert(paired(arms, start, v, s));
            assert forall|q: usize| q != s implies #[trigger] paired(arms, start, u, q) by {
                assert(paired(arms, start, v, q));
            }
            assert(u.rest.dom().subset_of(bodies(arms).dom())) by {
                assert forall|x: usize| u.rest.dom().contains(x) implies bodies(
                    arms,
                ).dom().contains(x) by {
                    assert(v.rest.contains_key(x));
                }
            }
            vstd::set_lib::lemma_len_subset(u.rest.dom(), bodies(arms).dom());
            lemma_chain_unrolls(arms, start, u, s, none, arms.len());
            let (u2, body) = fused_chain(arms, start, u, s, v.rest[s]);
            assert(none + unrolled(arms, start, s, arms.len()) =~= unrolled(
                arms,
                start,
                s,
                arms.len(),
            ));
            assert(w == (FuseV { out: u2.out.push((s, body)), ..u2 }));
            assert forall|q: usize| #[trigger] paired(arms, start, w, q) by {
                assert(paired(arms, start, u2, q));
            }
            assert forall|x: usize|
                !absorbable(arms, start, x) implies #[trigger] w.rest.contains_key(x) == (bodies(
                arms,
            ).contains_key(x) && !has_arm(done, x)) by {
                assert(u2.rest.contains_key(x) == u.rest.contains_key(x));
                assert(has_arm(done, x) == (has_arm(front, x) || x == s));
            }
        }
    }
}

proof fn lemma_twice(arms: Seq<ArmV>, i: int, j: int)
    requires
        0 <= i < j < arms.len(),
        arms[i].0 == arms[j].0,
    ensures
        arm_count(arms, arms[i].0) >= 2,
    decreases arms.len(),
{
    let front = arms.drop_last();
    if j == arms.len() - 1 {
        assert(front[i] == arms[i]);
        lemma_counted(front, i);
    } else {
        assert(front[i] == arms[i] && front[j] == arms[j]);
        lemma_twice(front, i, j);
    }
}

/// What fusing makes of a dispatch: the states that are not absorbed stay, in
/// their order, and each has its statements with the jump at the end replaced by
/// the statements of the absorbed state it goes to, and so on along the chain. (No
/// state has two arms.)
pub proof fn law_fusing_unrolls_chains(arms: Seq<ArmV>, start: usize)
    requires
        one_arm_each(arms),
    ensures
        fused(arms, start) == heads(arms, start, arms),
{
    assert(arms.take(arms.len() as int) =~= arms);
    if has_absorbable(arms, start) {
        lemma_states_unroll(arms, start, arms.len() as int);
    } else {
        lemma_whole(arms, start, arms.len() as int);
    }
}

proof fn lemma_positions(arms: Seq<ArmV>, start: usize, some: Seq<ArmV>) -> (at: Seq<int>)
    ensures
        at.len() == heads(arms, start, some).len(),
        forall|i: int| 0 <= i < at.len() ==> 0 <= #[trigger] at[i] < some.len(),
        forall|i: int, j: int| 0 <= i < j < at.len() ==> at[i] < at[j],
        forall|i: int|
            0 <= i < at.len() ==> some[#[trigger] at[i]].0 == heads(arms, start, some)[i].0,
    decreases some.len(),
{
    if some.len() == 0 {
        Seq::empty()
    } else {
        let front = some.drop_last();
        let at = lemma_positions(arms, start, front);
        assert forall|i: int| 0 <= i < at.len() implies some[#[trigger] at[i]] == front[at[i]] by {}
        if absorbable(arms, start, some.last().0) {
            at
        } else {
            at.push(some.len() - 1)
        }
    }
}

/// Whether the states of `few` are among those of `many`, in the same order.
pub open spec fn states_in_order(few: Seq<ArmV>, many: Seq<ArmV>) -> bool {
    exists|at: Seq<int>| #[trigger]
        places(at, few, many)
}

/// Whether each arm of `few` has the state of the arm of `many` at its place.
pub open spec fn places(at: Seq<int>, few: Seq<ArmV>, many: Seq<ArmV>) -> bool {
    &&& at.len() == few.len()
    &&& forall|i: int, j: int| 0 <= i < j < at.len() ==> at[i] < at[j]
    &&& forall|i: int|
        0 <= i < at.len() ==> 0 <= #[trigger] at[i] < many.len() && many[at[i]].0 == few[i].0
}

/// The states that survive fusing keep their order, and the entry is among them.
pub proof fn law_fusing_keeps_the_order(arms: Seq<ArmV>, start: usize)
    requires
        one_arm_each(arms),
        has_arm(arms, start),
    ensures
        states_in_order(fused(arms, start), arms),
        has_arm(fused(arms, start), start),
{
    law_fusing_unrolls_chains(arms, start);
    law_entry_survives_fusing(arms, start);
    let at = lemma_positions(arms, start, arms);
    assert(places(at, fused(arms, start), arms));
}

/// Where nothing goes on, nothing changes.
proof fn lemma_whole(arms: Seq<ArmV>, start: usize, n: int)
    requires
        one_arm_each(arms),
        0 <= n <= arms.len(),
        forall|i: int|
            0 <= i < arms.len() ==> !absorbable(arms, start, (#[trigger] arms[i]).0) && !goes_on(
                arms,
                start,
                arms[i].0,
            ),
    ensures
        heads(arms, start, arms.take(n)) == arms.take(n),
    decreases n,
{
    if n > 0 {
        lemma_whole(arms, start, n - 1);
        let done = arms.take(n);
        assert(done.drop_last() =~= arms.take(n - 1));
        assert(done.last() == arms[n - 1]);
        assert(!absorbable(arms, start, arms[n - 1].0));
        assert(arm_count(arms, arms[n - 1].0) <= 1);
        lemma_only_arm(arms, n - 1);
        assert(arms.take(n - 1).push(arms[n - 1]) =~= done);
    } else {
        assert(arms.take(0) =~= Seq::<ArmV>::empty());
    }
}

// ---------------------------------------------------------------------------
// What is left behind
// ---------------------------------------------------------------------------
/// The states that fusing leaves behind.
spec fn left(arms: Seq<ArmV>, start: usize) -> Set<usize> {
    fuse_states(arms, start, arms).rest.dom()
}

/// The state that flows into the absorbed state `t`.
spec fn way_in(arms: Seq<ArmV>, t: usize) -> usize {
    choose|q: usize| #[trigger] linears(arms).contains_key(q) && linears(arms)[q] == t
}

/// A state that is left behind flows into another one.
proof fn lemma_left_goes_on(arms: Seq<ArmV>, start: usize, p: usize)
    requires
        one_arm_each(arms),
        left(arms, start).contains(p),
    ensures
        goes_on(arms, start, p),
{
    let l = left(arms, start);
    let v = fuse_states(arms, start, arms);
    assert(arms.take(arms.len() as int) =~= arms);
    lemma_states_unroll(arms, start, arms.len() as int);
    assert forall|t: usize| l.contains(t) implies absorbable(arms, start, t) && linears(
        arms,
    ).contains_key(way_in(arms, t)) && linears(arms)[way_in(arms, t)] == t && l.contains(
        #[trigger] way_in(arms, t),
    ) by {
        assert(v.rest.contains_key(t));
        lemma_bodies(arms, t);
        if !absorbable(arms, start, t) {
            assert(has_arm(arms, t));
        }
        let q = way_in(arms, t);
        assert(linears(arms).contains_key(q) && linears(arms)[q] == t);
        assert(goes_on(arms, start, q));
        assert(paired(arms, start, v, q));
    }
    let f = |t: usize| way_in(arms, t);
    let image = l.map(f);
    assert(image.subset_of(l)) by {
        assert forall|q: usize| image.contains(q) implies l.contains(q) by {
            let t = choose|t: usize| l.contains(t) && f(t) == q;
            assert(l.contains(way_in(arms, t)));
        }
    }
    vstd::set_lib::lemma_len_subset(image, l);
    assert forall|a: usize, b: usize| l.contains(a) && l.contains(b) && f(a) == f(b) implies a
        == b by {
        assert(l.contains(way_in(arms, a)) && l.contains(way_in(arms, b)));
    }
    vstd::set_lib::lemma_map_size(l, image, f);
    vstd::set_lib::lemma_subset_equality(image, l);
    assert(image.contains(p));
    let t = choose|t: usize| l.contains(t) && f(t) == p;
    assert(l.contains(way_in(arms, t)));
    assert(v.rest.contains_key(t));
}

// ---------------------------------------------------------------------------
// Edges behind fusing
// ---------------------------------------------------------------------------
proof fn lemma_targets_concat(a: Seq<LineV>, b: Seq<LineV>)
    ensures
        body_targets(a + b) == body_targets(a) + body_targets(b),
    decreases b.len(),
{
    if b.len() == 0 {
        assert(a + b =~= a);
        assert(body_targets(a) + body_targets(b) =~= body_targets(a));
    } else {
        assert((a + b).drop_last() =~= a + b.drop_last());
        assert((a + b).last() == b.last());
        lemma_targets_concat(a, b.drop_last());
        assert(body_targets(a + b) =~= body_targets(a) + body_targets(b));
    }
}

/// A state that flows to one successor has no other edge.
proof fn lemma_linear_targets(arms: Seq<ArmV>, s: usize)
    requires
        one_arm_each(arms),
        linears(arms).contains_key(s),
    ensures
        bodies(arms).contains_key(s),
        bodies(arms)[s].len() > 0,
        body_targets(without_last(bodies(arms)[s])) == Seq::<usize>::empty(),
        linear_target(bodies(arms)[s]) == Some(linears(arms)[s]),
    decreases arms.len(),
{
    let front = arms.drop_last();
    let last = arms.last();
    lemma_front(arms);
    assert(arm_count(arms, s) <= 1);
    if linears(front).contains_key(s) {
        lemma_linear(front, s);
        lemma_linear_targets(front, s);
    } else {
        let body = last.1;
        assert(linear_target(body) == Some(linears(arms)[s]));
        assert(arms[arms.len() - 1] == last);
        lemma_jump_edges(body.last().1);
        let before = body_targets(body.drop_last());
        assert(body_targets(body).len() == before.len() + 1);
        assert(before =~= Seq::<usize>::empty());
    }
}

/// A body that flows to one successor makes its state do so.
proof fn lemma_linear_back(arms: Seq<ArmV>, s: usize)
    requires
        one_arm_each(arms),
        bodies(arms).contains_key(s),
    ensures
        linears(arms).contains_key(s) == (linear_target(bodies(arms)[s]) is Some),
        linears(arms).contains_key(s) ==> linear_target(bodies(arms)[s]) == Some(linears(arms)[s]),
    decreases arms.len(),
{
    let front = arms.drop_last();
    assert forall|x: usize| #[trigger] arm_count(front, x) <= 1 by {
        assert(arm_count(arms, x) <= 1);
    }
    if arms.last().0 == s {
        assert(arm_count(arms, s) <= 1);
        if linears(front).contains_key(s) {
            lemma_linear_counted(front, s);
        }
    } else {
        lemma_linear_back(front, s);
    }
}

proof fn lemma_linear_counted(arms: Seq<ArmV>, s: usize)
    requires
        linears(arms).contains_key(s),
    ensures
        arm_count(arms, s) >= 1,
    decreases arms.len(),
{
    if arms.last().0 != s {
        lemma_linear_counted(arms.drop_last(), s);
    }
}

/// An unrolled chain flows where its last state does.
proof fn lemma_unrolled_target(arms: Seq<ArmV>, start: usize, s: usize, fuel: nat, t: usize)
    requires
        one_arm_each(arms),
        bodies(arms).contains_key(s),
        linear_target(unrolled(arms, start, s, fuel)) == Some(t),
    ensures
        exists|e: usize| #[trigger] linears(arms).contains_key(e) && linears(arms)[e] == t,
    decreases fuel,
{
    if fuel > 0 && goes_on(arms, start, s) {
        lemma_linear_targets(arms, s);
        let head = without_last(bodies(arms)[s]);
        let n = linears(arms)[s];
        let rest = unrolled(arms, start, n, (fuel - 1) as nat);
        lemma_targets_concat(head, rest);
        assert(body_targets(head + rest) =~= body_targets(rest));
        if rest.len() == 0 {
            assert(body_targets(rest) =~= Seq::<usize>::empty());
        }
        assert((head + rest).last() == rest.last());
        assert(linear_target(rest) == Some(t));
        lemma_unrolled_target(arms, start, n, (fuel - 1) as nat, t);
    } else {
        lemma_linear_back(arms, s);
    }
}

/// How many edges to `t` the states in `rest` have.
spec fn edges_left(arms: Seq<ArmV>, rest: Set<usize>, t: usize) -> nat
    decreases arms.len(),
{
    if arms.len() == 0 {
        0
    } else {
        edges_left(arms.drop_last(), rest, t) + if rest.contains(arms.last().0) {
            occurrences(body_targets(arms.last().1), t)
        } else {
            0
        }
    }
}

proof fn lemma_edges_removed(arms: Seq<ArmV>, rest: Set<usize>, s: usize, t: usize)
    requires
        rest.contains(s),
        one_arm_each(arms),
    ensures
        edges_left(arms, rest, t) == edges_left(arms, rest.remove(s), t) + if bodies(
            arms,
        ).contains_key(s) {
            occurrences(body_targets(bodies(arms)[s]), t)
        } else {
            0
        },
    decreases arms.len(),
{
    if arms.len() > 0 {
        let front = arms.drop_last();
        assert forall|x: usize| #[trigger] arm_count(front, x) <= 1 by {
            assert(arm_count(arms, x) <= 1);
        }
        lemma_edges_removed(front, rest, s, t);
        if arms.last().0 == s {
            assert(arm_count(arms, s) <= 1);
            if bodies(front).contains_key(s) {
                lemma_bodies(front, s);
                let i = choose|i: int| 0 <= i < front.len() && (#[trigger] front[i]).0 == s;
                lemma_counted(front, i);
            }
        }
    }
}

/// Along a chain, edges to a state that is not absorbed are neither lost nor
/// added.
proof fn lemma_chain_edges(
    arms: Seq<ArmV>,
    start: usize,
    v: FuseV,
    cur: usize,
    head: Seq<LineV>,
    t: usize,
)
    requires
        one_arm_each(arms),
        in_order(arms, v),
        bodies(arms).contains_key(cur),
        !absorbable(arms, start, t),
    ensures
        ({
            let (v2, body) = fused_chain(arms, start, v, cur, head + bodies(arms)[cur]);
            occurrences(body_targets(body), t) + edges_left(arms, v2.rest.dom(), t) == occurrences(
                body_targets(head + bodies(arms)[cur]),
                t,
            ) + edges_left(arms, v.rest.dom(), t)
        }),
    decreases v.rest.dom().len(),
{
    let own = bodies(arms)[cur];
    if chain_goes_on(arms, start, v, cur) {
        let n = linears(arms)[cur];
        lemma_linear_targets(arms, cur);
        let next = FuseV { rest: v.rest.remove(n), consumed: v.consumed.insert(n), out: v.out };
        let head2 = head + without_last(own);
        let b = bodies(arms)[n];
        assert(v.rest.contains_key(n));
        assert(without_last(head + own) =~= head2);
        assert(next.rest.dom() =~= v.rest.dom().remove(n));
        assert(in_order(arms, next)) by {
            assert forall|x: usize| #[trigger] next.consumed.contains(x) implies !next.rest.contains_key(
                x,
            ) by {
                if x != n {
                    assert(v.consumed.contains(x));
                }
            }
            assert forall|x: usize| #[trigger] next.rest.contains_key(x) implies bodies(
                arms,
            ).contains_key(x) && next.rest[x] == bodies(arms)[x] by {
                assert(v.rest.contains_key(x));
            }
        }
        lemma_edges_removed(arms, v.rest.dom(), n, t);
        lemma_chain_edges(arms, start, next, n, head2, t);
        lemma_targets_concat(head, own);
        lemma_targets_concat(head, without_last(own));
        lemma_targets_concat(head2, b);
        lemma_occurrences_concat(body_targets(head), body_targets(own), t);
        lemma_occurrences_concat(body_targets(head), body_targets(without_last(own)), t);
        lemma_occurrences_concat(body_targets(head2), body_targets(b), t);
        assert(body_targets(own) == body_targets(without_last(own)) + pc_targets(own.last().1));
        let only = body_targets(own);
        lemma_linear(arms, cur);
        let k = choose|k: int| 0 <= k < only.len() && only[k] == n;
        assert(only.len() == 1);
        assert(occurrences(only, t) == 0) by {
            assert(only.last() == n);
            assert(only.drop_last() =~= Seq::<usize>::empty());
            assert(occurrences(only.drop_last(), t) == 0);
        }
        assert(occurrences(Seq::<usize>::empty(), t) == 0);
        assert(v.rest[n] == b);
    }
}

proof fn lemma_states_edges(arms: Seq<ArmV>, start: usize, n: int, t: usize)
    requires
        one_arm_each(arms),
        0 <= n <= arms.len(),
        !absorbable(arms, start, t),
    ensures
        ({
            let v = fuse_states(arms, start, arms.take(n));
            occurrences(all_targets(v.out), t) + edges_left(arms, v.rest.dom(), t) == occurrences(
                all_targets(arms),
                t,
            )
        }),
    decreases n,
{
    let done = arms.take(n);
    if n == 0 {
        lemma_all_edges(arms, bodies(arms).dom(), t);
        let v = fuse_states(arms, start, done);
        assert(all_targets(v.out) =~= Seq::<usize>::empty());
        assert(occurrences(all_targets(v.out), t) == 0);
        assert forall|i: int| 0 <= i < arms.len() implies bodies(arms).dom().contains(
            (#[trigger] arms[i]).0,
        ) by {
            lemma_bodies(arms, arms[i].0);
            assert(has_arm(arms, arms[i].0));
        }
    } else {
        lemma_states_edges(arms, start, n - 1, t);
        lemma_states_unroll(arms, start, n - 1);
        let front = arms.take(n - 1);
        assert(done.drop_last() =~= front);
        let v = fuse_states(arms, start, front);
        let s = done.last().0;
        let w = fuse_state(arms, start, v, s);
        if absorbable(arms, start, s) || v.consumed.contains(s) || !v.rest.contains_key(s) {
        } else {
            let u = FuseV { rest: v.rest.remove(s), ..v };
            assert(u.rest.dom() =~= v.rest.dom().remove(s));
            let none = Seq::<LineV>::empty();
            assert(none + bodies(arms)[s] =~= v.rest[s]);
            assert(in_order(arms, u)) by {
                assert forall|x: usize| #[trigger] u.consumed.contains(x) implies !u.rest.contains_key(
                    x,
                ) by {
                    assert(!v.rest.contains_key(x));
                }
                assert forall|x: usize| #[trigger] u.rest.contains_key(x) implies bodies(
                    arms,
                ).contains_key(x) && u.rest[x] == bodies(arms)[x] by {
                    assert(v.rest.contains_key(x));
                }
            }
            lemma_edges_removed(arms, v.rest.dom(), s, t);
            lemma_chain_edges(arms, start, u, s, none, t);
            let (u2, body) = fused_chain(arms, start, u, s, v.rest[s]);
            assert(u2.out == v.out) by {
                lemma_chain_out(arms, start, u, s, v.rest[s]);
            }
            assert(w.out.drop_last() =~= v.out);
            lemma_occurrences_concat(all_targets(v.out), body_targets(body), t);
        }
    }
}

proof fn lemma_chain_out(
    arms: Seq<ArmV>,
    start: usize,
    v: FuseV,
    cur: usize,
    body: Seq<LineV>,
)
    requires
        v.rest.dom().finite(),
    ensures
        fused_chain(arms, start, v, cur, body).0.out == v.out,
    decreases v.rest.dom().len(),
{
    if chain_goes_on(arms, start, v, cur) {
        let t = linears(arms)[cur];
        let next = FuseV { rest: v.rest.remove(t), consumed: v.consumed.insert(t), out: v.out };
        assert(next.rest.dom() =~= v.rest.dom().remove(t));
        lemma_chain_out(arms, start, next, t, without_last(body) + v.rest[t]);
    }
}

proof fn lemma_all_edges(arms: Seq<ArmV>, rest: Set<usize>, t: usize)
    ensures
        (forall|i: int| 0 <= i < arms.len() ==> rest.contains((#[trigger] arms[i]).0))
            ==> edges_left(arms, rest, t) == occurrences(all_targets(arms), t),
    decreases arms.len(),
{
    if forall|i: int| 0 <= i < arms.len() ==> rest.contains((#[trigger] arms[i]).0) {
        if arms.len() > 0 {
            let front = arms.drop_last();
            assert forall|i: int| 0 <= i < front.len() implies rest.contains(
                (#[trigger] front[i]).0,
            ) by {
                assert(front[i] == arms[i]);
            }
            lemma_all_edges(front, rest, t);
            assert(arms[arms.len() - 1] == arms.last());
            lemma_occurrences_concat(all_targets(front), body_targets(arms.last().1), t);
        }
    }
}

/// States that are left behind have no edge to one that is not absorbed.
proof fn lemma_none_left(arms: Seq<ArmV>, start: usize, some: Seq<ArmV>, t: usize)
    requires
        one_arm_each(arms),
        !absorbable(arms, start, t),
        forall|i: int|
            0 <= i < some.len() ==> bodies(arms).contains_key((#[trigger] some[i]).0) && bodies(
                arms,
            )[some[i].0] == some[i].1,
    ensures
        edges_left(some, left(arms, start), t) == 0,
    decreases some.len(),
{
    if some.len() > 0 {
        let front = some.drop_last();
        assert forall|i: int| 0 <= i < front.len() implies bodies(arms).contains_key(
            (#[trigger] front[i]).0,
        ) && bodies(arms)[front[i].0] == front[i].1 by {
            assert(front[i] == some[i]);
        }
        lemma_none_left(arms, start, front, t);
        let s = some.last().0;
        assert(some[some.len() - 1] == some.last());
        if left(arms, start).contains(s) {
            lemma_left_goes_on(arms, start, s);
            lemma_linear(arms, s);
            lemma_linear_targets(arms, s);
            let only = body_targets(some.last().1);
            let n = linears(arms)[s];
            let k = choose|k: int| 0 <= k < only.len() && only[k] == n;
            assert(only.len() == 1);
            assert(only.last() == n);
            assert(only.drop_last() =~= Seq::<usize>::empty());
            assert(occurrences(only.drop_last(), t) == 0);
        }
    }
}

/// Fusing leaves the number of ways into a state that stays as it is.
proof fn lemma_degree_stays(arms: Seq<ArmV>, start: usize, t: usize)
    requires
        one_arm_each(arms),
        !absorbable(arms, start, t),
        has_absorbable(arms, start),
    ensures
        in_degree(fused(arms, start), start, t) == in_degree(arms, start, t),
{
    assert(arms.take(arms.len() as int) =~= arms);
    lemma_states_edges(arms, start, arms.len() as int, t);
    assert forall|i: int| 0 <= i < arms.len() implies bodies(arms).contains_key(
        (#[trigger] arms[i]).0,
    ) && bodies(arms)[arms[i].0] == arms[i].1 by {
        assert(arm_count(arms, arms[i].0) <= 1);
        lemma_only_arm(arms, i);
    }
    lemma_none_left(arms, start, arms, t);
}

// ---------------------------------------------------------------------------
// Fusing twice
// ---------------------------------------------------------------------------
proof fn lemma_heads(arms: Seq<ArmV>, start: usize, some: Seq<ArmV>, s: usize)
    ensures
        arm_count(heads(arms, start, some), s) == if absorbable(arms, start, s) {
            0
        } else {
            arm_count(some, s)
        },
        has_arm(heads(arms, start, some), s) ==> !absorbable(arms, start, s) && has_arm(some, s),
        forall|i: int|
            #![trigger heads(arms, start, some)[i]]
            0 <= i < heads(arms, start, some).len() ==> heads(arms, start, some)[i].1 == unrolled(
                arms,
                start,
                heads(arms, start, some)[i].0,
                arms.len(),
            ) && !absorbable(arms, start, heads(arms, start, some)[i].0) && has_arm(
                some,
                heads(arms, start, some)[i].0,
            ),
    decreases some.len(),
{
    if some.len() > 0 {
        let front = some.drop_last();
        let all = heads(arms, start, some);
        let less = heads(arms, start, front);
        lemma_heads(arms, start, front, s);
        if !absorbable(arms, start, some.last().0) {
            assert(all.drop_last() =~= less);
        }
        assert forall|x: usize| has_arm(front, x) implies #[trigger] has_arm(some, x) by {
            let i = choose|i: int| 0 <= i < front.len() && (#[trigger] front[i]).0 == x;
            assert(some[i].0 == x);
        }
        assert(some[some.len() - 1].0 == some.last().0);
        assert(has_arm(some, some.last().0));
        assert forall|i: int|
            #![trigger all[i]]
            0 <= i < all.len() implies all[i].1 == unrolled(arms, start, all[i].0, arms.len())
            && !absorbable(arms, start, all[i].0) && has_arm(some, all[i].0) by {
            if i < less.len() {
                assert(all[i] == less[i]);
                assert(has_arm(front, less[i].0));
            }
        }
        if has_arm(all, s) {
            let i = choose|i: int| 0 <= i < all.len() && (#[trigger] all[i]).0 == s;
            assert(has_arm(some, all[i].0));
        }
    }
}

proof fn lemma_body_arm(arms: Seq<ArmV>, s: usize)
    requires
        bodies(arms).contains_key(s),
    ensures
        exists|i: int| 0 <= i < arms.len() && (#[trigger] arms[i]) == (s, bodies(arms)[s]),
    decreases arms.len(),
{
    if arms.last().0 == s {
        assert(arms[arms.len() - 1] == (s, bodies(arms)[s]));
    } else {
        let front = arms.drop_last();
        lemma_body_arm(front, s);
        let i = choose|i: int| 0 <= i < front.len() && (#[trigger] front[i]) == (s, bodies(front)[s]);
        assert(arms[i] == (s, bodies(arms)[s]));
    }
}

/// Fusing a fused dispatch changes nothing: all chains are gone after the first
/// time. (No state has two arms.)
pub proof fn law_fusing_is_idempotent(arms: Seq<ArmV>, start: usize)
    requires
        one_arm_each(arms),
    ensures
        fused(fused(arms, start), start) == fused(arms, start),
{
    let r = fused(arms, start);
    if has_absorbable(arms, start) {
        law_fusing_unrolls_chains(arms, start);
        assert(one_arm_each(r)) by {
            assert forall|s: usize| #[trigger] arm_count(r, s) <= 1 by {
                lemma_heads(arms, start, arms, s);
                assert(arm_count(arms, s) <= 1);
            }
        }
        lemma_heads(arms, start, arms, start);
        assert forall|i: int| 0 <= i < r.len() implies bodies(arms).contains_key(
            (#[trigger] r[i]).0,
        ) by {
            lemma_bodies(arms, r[i].0);
        }
        assert forall|t: usize| has_arm(r, t) implies !#[trigger] absorbable(r, start, t) by {
            lemma_heads(arms, start, arms, t);
            lemma_stays_whole(arms, start, t);
        }
        assert forall|i: int| 0 <= i < r.len() implies !absorbable(
            r,
            start,
            (#[trigger] r[i]).0,
        ) && !goes_on(r, start, r[i].0) by {
            assert(has_arm(r, r[i].0));
            if goes_on(r, start, r[i].0) {
                lemma_bodies(r, linears(r)[r[i].0]);
            }
        }
        law_fusing_unrolls_chains(r, start);
        assert(r.take(r.len() as int) =~= r);
        lemma_whole(r, start, r.len() as int);
    }
}

/// A state that stays is not absorbed when the dispatch is fused again.
proof fn lemma_stays_whole(arms: Seq<ArmV>, start: usize, t: usize)
    requires
        one_arm_each(arms),
        has_absorbable(arms, start),
        fused(arms, start) == heads(arms, start, arms),
        one_arm_each(fused(arms, start)),
        !absorbable(arms, start, t),
        has_arm(arms, t),
        has_arm(fused(arms, start), t),
    ensures
        !absorbable(fused(arms, start), start, t),
{
    let r = fused(arms, start);
    if absorbable(r, start, t) {
        let q = choose|q: usize| #[trigger] linears(r).contains_key(q) && linears(r)[q] == t;
        lemma_linear_targets(r, q);
        lemma_body_arm(r, q);
        let i = choose|i: int| 0 <= i < r.len() && (#[trigger] r[i]) == (q, bodies(r)[q]);
        lemma_heads(arms, start, arms, q);
        assert(r[i].1 == unrolled(arms, start, q, arms.len()));
        lemma_bodies(arms, q);
        lemma_unrolled_target(arms, start, q, arms.len(), t);
        lemma_degree_stays(arms, start, t);
        assert(linears(arms).contains_key(t) && linears(arms)[t] == t);
        // A state that flows into itself still does.
        let j = choose|j: int| 0 <= j < r.len() && (#[trigger] r[j]).0 == t;
        lemma_heads(arms, start, arms, t);
        assert(!goes_on(arms, start, t));
        assert(r[j].1 == bodies(arms)[t]);
        assert(arm_count(r, t) <= 1);
        lemma_only_arm(r, j);
        lemma_bodies(arms, t);
        lemma_linear_back(arms, t);
        lemma_linear_back(r, t);
        assert(linears(r)[t] == t);
    }
}

} // verus!
