//! Fusing loses nothing that can be reached.

use vstd::prelude::*;

use crate::codegen::edges::{
    absorbable, all_targets, bodies, body_targets, chain_goes_on, fuse_state, fuse_states, fused,
    fused_chain, has_absorbable, has_edge, in_degree, is_walk, linear_target, linears, occurrences,
    without_last, FuseV,
};
use crate::codegen::flatten::{ArmV, LineV};
use crate::codegen::laws::{arm_count, has_arm, lemma_bodies};
use crate::codegen::scan::{
    edge_at, is_digit, lemma_digits_end, lone_edge, pc_targets, targets_from, without_plus,
};
use crate::codegen::text_laws::lemma_digit_run;

verus! {

/// Whether no state has two arms.
pub open spec fn one_arm_each(arms: Seq<ArmV>) -> bool {
    forall|s: usize| #[trigger] arm_count(arms, s) <= 1
}

/// Whether the lines `part` stand together in `lines`, from `i` on.
pub open spec fn stands_at(lines: Seq<LineV>, i: int, part: Seq<LineV>) -> bool {
    0 <= i && i + part.len() <= lines.len() && lines.subrange(i, i + part.len()) == part
}

/// Whether the lines `part` stand together somewhere in `lines`.
pub open spec fn stands_in(lines: Seq<LineV>, part: Seq<LineV>) -> bool {
    exists|i: int| stands_at(lines, i, part)
}

/// Whether one of the arms has the lines `part`, together and in order.
pub open spec fn stands_in_arm(arms: Seq<ArmV>, part: Seq<LineV>) -> bool {
    exists|k: int| 0 <= k < arms.len() && stands_in((#[trigger] arms[k]).1, part)
}

/// The statements of the state `s` that last: all of them, but for the jump at the
/// end where the state flows to one successor.
pub open spec fn lasting(arms: Seq<ArmV>, s: usize) -> Seq<LineV> {
    if linears(arms).contains_key(s) {
        without_last(bodies(arms)[s])
    } else {
        bodies(arms)[s]
    }
}

// ---------------------------------------------------------------------------
// Edges
// ---------------------------------------------------------------------------
/// A text without a `p` has no edge.
proof fn lemma_no_edges(t: Seq<char>, i: int)
    requires
        0 <= i <= t.len(),
        forall|k: int| i <= k < t.len() ==> #[trigger] t[k] != 'p',
    ensures
        targets_from(t, i) == Seq::<usize>::empty(),
    decreases t.len() - i,
{
    reveal_strlit("pc = ");
    if i < t.len() {
        if edge_at(t, i) {
            assert(t.subrange(i, i + 5)[0] == t[i]);
        }
        lemma_no_edges(t, i + 1);
    }
}

/// A line that is nothing but a jump and has an edge has that edge and no other.
pub proof fn lemma_jump_edges(line: Seq<char>)
    requires
        lone_edge(line) is Some,
        pc_targets(line).len() > 0,
    ensures
        pc_targets(line) == seq![lone_edge(line)->0],
{
    reveal_strlit("pc = ");
    let n = line.len() - 6;
    let e = 5 + n;
    let word = line.subrange(5, e);
    let digits = without_plus(word);
    assert(line.subrange(0, 5) == "pc = "@);
    assert forall|k: int| 1 <= k < line.len() implies #[trigger] line[k] != 'p' by {
        if k < 5 {
            assert(line.subrange(0, 5)[k] == line[k]);
        } else if k < e {
            assert(word[k - 5] == line[k]);
            if digits == word {
                assert(is_digit(digits[k - 5]));
            } else if k > 5 {
                assert(digits[k - 6] == line[k]);
                assert(is_digit(digits[k - 6]));
            }
        } else {
            assert(line[k] == ';');
        }
    }
    lemma_no_edges(line, 1);
    assert(edge_at(line, 0));
    assert(word[0] == line[5]);
    lemma_digits_end(line, 5);
    assert(is_digit(line[5]));
    assert(digits == word);
    assert forall|k: int| 5 <= k < 5 + n implies is_digit(#[trigger] line[k]) by {
        assert(word[k - 5] == line[k]);
    }
    assert(line[e] == ';');
    lemma_digit_run(line, 5, n);
    lemma_no_edges(line, e);
    assert(pc_targets(line) =~= seq![lone_edge(line)->0]);
}

pub proof fn lemma_occurrences_concat(a: Seq<usize>, b: Seq<usize>, t: usize)
    ensures
        occurrences(a + b, t) == occurrences(a, t) + occurrences(b, t),
    decreases b.len(),
{
    if b.len() == 0 {
        assert(a + b =~= a);
    } else {
        assert((a + b).drop_last() =~= a + b.drop_last());
        assert((a + b).last() == b.last());
        lemma_occurrences_concat(a, b.drop_last(), t);
    }
}

pub proof fn lemma_occurs(a: Seq<usize>, t: usize)
    requires
        a.contains(t),
    ensures
        occurrences(a, t) >= 1,
    decreases a.len(),
{
    let i = choose|i: int| 0 <= i < a.len() && a[i] == t;
    if i < a.len() - 1 {
        assert(a.drop_last()[i] == t);
        lemma_occurs(a.drop_last(), t);
    }
}

/// A state that flows to one successor has a jump to it.
pub proof fn lemma_linear(arms: Seq<ArmV>, s: usize)
    requires
        one_arm_each(arms),
        linears(arms).contains_key(s),
    ensures
        bodies(arms).contains_key(s),
        bodies(arms)[s].len() > 0,
        lone_edge(bodies(arms)[s].last().1) is Some,
        body_targets(bodies(arms)[s]).contains(linears(arms)[s]),
        arm_count(arms, s) == 1,
    decreases arms.len(),
{
    let front = arms.drop_last();
    let last = arms.last();
    lemma_front(arms);
    assert(arm_count(arms, s) <= 1);
    if linears(front).contains_key(s) {
        lemma_linear(front, s);
    } else {
        assert(last.0 == s);
        assert(linear_target(last.1) == Some(linears(arms)[s]));
        let body = last.1;
        let line = body.last().1;
        assert(arms[arms.len() - 1] == last);
        lemma_jump_edges(line);
        let jumps = pc_targets(line);
        let before = body_targets(body.drop_last());
        assert((before + jumps)[before.len() as int] == linears(arms)[s]);
    }
}

pub proof fn lemma_front(arms: Seq<ArmV>)
    requires
        arms.len() > 0,
        one_arm_each(arms),
    ensures
        one_arm_each(arms.drop_last()),
{
    let front = arms.drop_last();
    assert forall|s: usize| #[trigger] arm_count(front, s) <= 1 by {
        assert(arm_count(arms, s) <= 1);
    }
}

/// Each state with an edge to `t` counts as a way into it.
proof fn lemma_way_in(arms: Seq<ArmV>, p: usize, t: usize)
    requires
        has_edge(arms, p, t),
    ensures
        occurrences(all_targets(arms), t) >= 1,
    decreases arms.len(),
{
    let front = arms.drop_last();
    let last = arms.last();
    lemma_occurrences_concat(all_targets(front), body_targets(last.1), t);
    if last.0 == p {
        lemma_occurs(body_targets(last.1), t);
    } else {
        lemma_way_in(front, p, t);
    }
}

pub proof fn lemma_ways_in(arms: Seq<ArmV>, p: usize, q: usize, t: usize)
    requires
        has_edge(arms, p, t),
        has_edge(arms, q, t),
        p != q,
    ensures
        occurrences(all_targets(arms), t) >= 2,
    decreases arms.len(),
{
    let front = arms.drop_last();
    let last = arms.last();
    lemma_occurrences_concat(all_targets(front), body_targets(last.1), t);
    if last.0 == p {
        lemma_occurs(body_targets(last.1), t);
        lemma_way_in(front, q, t);
    } else if last.0 == q {
        lemma_occurs(body_targets(last.1), t);
        lemma_way_in(front, p, t);
    } else {
        lemma_ways_in(front, p, q, t);
    }
}

// ---------------------------------------------------------------------------
// Chains
// ---------------------------------------------------------------------------
/// Where a state has gone: it is still to be placed, or its statements stand in
/// an arm.
spec fn accounted(arms: Seq<ArmV>, v: FuseV, s: usize) -> bool {
    if v.rest.contains_key(s) {
        v.rest[s] == bodies(arms)[s]
    } else {
        stands_in_arm(v.out, lasting(arms, s))
    }
}

/// Whether a placed state leaves no absorbable successor behind.
spec fn followed(arms: Seq<ArmV>, start: usize, v: FuseV, p: usize) -> bool {
    let lin = linears(arms);
    !v.rest.contains_key(p) && lin.contains_key(p) && absorbable(arms, start, lin[p])
        ==> !v.rest.contains_key(lin[p])
}

spec fn sound(arms: Seq<ArmV>, start: usize, v: FuseV) -> bool {
    &&& v.rest.dom().finite()
    &&& forall|x: usize| #[trigger] v.consumed.contains(x) ==> !v.rest.contains_key(x)
    &&& forall|x: usize| #[trigger]
        v.rest.contains_key(x) ==> bodies(arms).contains_key(x)
}

proof fn lemma_stands_longer(x: Seq<LineV>, y: Seq<LineV>, part: Seq<LineV>)
    requires
        stands_in(x, part),
    ensures
        stands_in(x + y, part),
{
    let i = choose|i: int| stands_at(x, i, part);
    assert((x + y).subrange(i, i + part.len()) =~= x.subrange(i, i + part.len()));
    assert(stands_at(x + y, i, part));
}

/// A chain that has got to `cur`, with `head` in front of its statements.
proof fn lemma_chain(
    arms: Seq<ArmV>,
    start: usize,
    v: FuseV,
    cur: usize,
    head: Seq<LineV>,
    taken: Set<usize>,
)
    requires
        one_arm_each(arms),
        sound(arms, start, v),
        bodies(arms).contains_key(cur),
        !v.rest.contains_key(cur),
        forall|s: usize| #[trigger]
            bodies(arms).contains_key(s) && !taken.contains(s) && s != cur ==> accounted(
                arms,
                v,
                s,
            ),
        forall|s: usize| #[trigger]
            taken.contains(s) ==> !v.rest.contains_key(s) && stands_in(head, lasting(arms, s)),
        forall|s: usize| s != cur ==> #[trigger] followed(arms, start, v, s),
    ensures
        ({
            let (v2, body) = fused_chain(arms, start, v, cur, head + bodies(arms)[cur]);
            &&& sound(arms, start, v2)
            &&& v2.out == v.out
            &&& forall|s: usize| !v.rest.contains_key(s) ==> !#[trigger] v2.rest.contains_key(s)
            &&& forall|s: usize| #[trigger]
                bodies(arms).contains_key(s) ==> accounted(arms, v2, s) || (
                !v2.rest.contains_key(s) && stands_in(body, lasting(arms, s)))
            &&& forall|s: usize| #[trigger] followed(arms, start, v2, s)
        }),
    decreases v.rest.dom().len(),
{
    let own = bodies(arms)[cur];
    let body = head + own;
    if chain_goes_on(arms, start, v, cur) {
        let t = linears(arms)[cur];
        lemma_linear(arms, cur);
        let head2 = without_last(body);
        assert(head2 =~= head + without_last(own));
        let v2 = FuseV { rest: v.rest.remove(t), consumed: v.consumed.insert(t), out: v.out };
        let taken2 = taken.insert(cur);
        assert(v.rest[t] == bodies(arms)[t]) by {
            assert(bodies(arms).contains_key(t));
            if taken.contains(t) {
                assert(!v.rest.contains_key(t));
            }
            assert(accounted(arms, v, t));
        }
        assert(v2.rest.dom() =~= v.rest.dom().remove(t));
        assert(sound(arms, start, v2)) by {
            assert forall|x: usize| #[trigger] v2.consumed.contains(x) implies !v2.rest.contains_key(
                x,
            ) by {
                if x != t {
                    assert(v.consumed.contains(x));
                }
            }
            assert forall|x: usize| #[trigger] v2.rest.contains_key(x) implies bodies(
                arms,
            ).contains_key(x) by {
                assert(v.rest.contains_key(x));
            }
        }
        assert forall|s: usize| #[trigger]
            bodies(arms).contains_key(s) && !taken2.contains(s) && s != t implies accounted(
            arms,
            v2,
            s,
        ) by {
            assert(accounted(arms, v, s));
        }
        assert forall|s: usize| #[trigger] taken2.contains(s) implies !v2.rest.contains_key(s)
            && stands_in(head2, lasting(arms, s)) by {
            if s == cur {
                assert(head2.subrange(
                    head.len() as int,
                    (head.len() + without_last(own).len()) as int,
                ) =~= without_last(own));
                assert(stands_at(head2, head.len() as int, without_last(own)));
            } else {
                assert(taken.contains(s));
                lemma_stands_longer(head, without_last(own), lasting(arms, s));
            }
        }
        assert forall|s: usize| s != t implies #[trigger] followed(arms, start, v2, s) by {
            if s != cur {
                assert(followed(arms, start, v, s));
            }
        }
        lemma_chain(arms, start, v2, t, head2, taken2);
        assert(fused_chain(arms, start, v, cur, body) == fused_chain(
            arms,
            start,
            v2,
            t,
            head2 + bodies(arms)[t],
        ));
        let done = fused_chain(arms, start, v, cur, body).0;
        assert forall|s: usize| !v.rest.contains_key(s) implies !#[trigger] done.rest.contains_key(
            s,
        ) by {
            assert(!v2.rest.contains_key(s));
        }
    } else {
        assert forall|s: usize| #[trigger] bodies(arms).contains_key(s) implies accounted(
            arms,
            v,
            s,
        ) || (!v.rest.contains_key(s) && stands_in(body, lasting(arms, s))) by {
            if s == cur {
                let part = lasting(arms, cur);
                assert(body.subrange(head.len() as int, (head.len() + part.len()) as int) =~= part);
                assert(stands_at(body, head.len() as int, part));
            } else if taken.contains(s) {
                lemma_stands_longer(head, own, lasting(arms, s));
            } else {
                assert(accounted(arms, v, s));
            }
        }
        assert forall|s: usize| #[trigger] followed(arms, start, v, s) by {
            if s == cur && linears(arms).contains_key(cur) && absorbable(
                arms,
                start,
                linears(arms)[cur],
            ) {
                assert(!chain_goes_on(arms, start, v, cur));
            }
        }
    }
}

proof fn lemma_accounted_grows(arms: Seq<ArmV>, v: FuseV, w: FuseV, a: ArmV, s: usize)
    requires
        accounted(arms, v, s),
        w.rest == v.rest,
        w.out == v.out.push(a),
    ensures
        accounted(arms, w, s),
{
    if !v.rest.contains_key(s) {
        let part = lasting(arms, s);
        let k = choose|k: int| 0 <= k < v.out.len() && stands_in((#[trigger] v.out[k]).1, part);
        assert(w.out[k] == v.out[k]);
    }
}

proof fn lemma_fuse_states(arms: Seq<ArmV>, start: usize, done: Seq<ArmV>)
    requires
        one_arm_each(arms),
    ensures
        ({
            let v = fuse_states(arms, start, done);
            &&& sound(arms, start, v)
            &&& forall|s: usize| #[trigger]
                bodies(arms).contains_key(s) ==> accounted(arms, v, s)
            &&& forall|s: usize| #[trigger] followed(arms, start, v, s)
            &&& forall|s: usize| #[trigger]
                has_arm(done, s) && !absorbable(arms, start, s) ==> !v.rest.contains_key(s)
        }),
    decreases done.len(),
{
    if done.len() == 0 {
        let v = fuse_states(arms, start, done);
        lemma_bodies(arms, start);
        assert forall|s: usize| #[trigger] followed(arms, start, v, s) by {
            if linears(arms).contains_key(s) {
                lemma_linear(arms, s);
            }
        }
    } else {
        let front = done.drop_last();
        lemma_fuse_states(arms, start, front);
        let v = fuse_states(arms, start, front);
        let s = done.last().0;
        let w = fuse_state(arms, start, v, s);
        assert(fuse_states(arms, start, done) == w);
        if absorbable(arms, start, s) || v.consumed.contains(s) || !v.rest.contains_key(s) {
            assert forall|x: usize| #[trigger]
                has_arm(done, x) && !absorbable(arms, start, x) implies !w.rest.contains_key(x) by {
                lemma_has_front(done, x);
                if x == s {
                    assert(v.consumed.contains(s) ==> !v.rest.contains_key(s));
                }
            }
        } else {
            let u = FuseV { rest: v.rest.remove(s), ..v };
            assert(u.rest.dom() =~= v.rest.dom().remove(s));
            assert(bodies(arms).contains_key(s));
            assert(accounted(arms, v, s));
            let none = Seq::<LineV>::empty();
            assert(none + bodies(arms)[s] =~= v.rest[s]);
            assert(sound(arms, start, u)) by {
                assert forall|x: usize| #[trigger] u.consumed.contains(x) implies !u.rest.contains_key(
                    x,
                ) by {
                    assert(!v.rest.contains_key(x));
                }
                assert forall|x: usize| #[trigger] u.rest.contains_key(x) implies bodies(
                    arms,
                ).contains_key(x) by {
                    assert(v.rest.contains_key(x));
                }
            }
            assert forall|x: usize| #[trigger]
                bodies(arms).contains_key(x) && !Set::<usize>::empty().contains(x) && x
                    != s implies accounted(arms, u, x) by {
                assert(accounted(arms, v, x));
            }
            assert forall|x: usize| x != s implies #[trigger] followed(arms, start, u, x) by {
                assert(followed(arms, start, v, x));
            }
            lemma_chain(arms, start, u, s, none, Set::empty());
            let (u2, body) = fused_chain(arms, start, u, s, v.rest[s]);
            assert(w == (FuseV { out: u2.out.push((s, body)), ..u2 }));
            assert forall|x: usize| #[trigger] bodies(arms).contains_key(x) implies accounted(
                arms,
                w,
                x,
            ) by {
                if accounted(arms, u2, x) {
                    lemma_accounted_grows(arms, u2, w, (s, body), x);
                } else {
                    assert(w.out[w.out.len() - 1].1 == body);
                }
            }
            assert forall|x: usize| #[trigger] followed(arms, start, w, x) by {
                assert(followed(arms, start, u2, x));
            }
            assert forall|x: usize| #[trigger]
                has_arm(done, x) && !absorbable(arms, start, x) implies !w.rest.contains_key(x) by {
                lemma_has_front(done, x);
                assert(!u.rest.contains_key(x));
                assert(!u2.rest.contains_key(x));
            }
        }
    }
}

proof fn lemma_has_front(arms: Seq<ArmV>, t: usize)
    requires
        has_arm(arms, t),
    ensures
        has_arm(arms.drop_last(), t) || arms.last().0 == t,
{
    let i = choose|i: int| 0 <= i < arms.len() && (#[trigger] arms[i]).0 == t;
    if i < arms.len() - 1 {
        assert(arms.drop_last()[i].0 == t);
    }
}

/// What is placed places what it leads to.
proof fn lemma_edge_placed(arms: Seq<ArmV>, start: usize, p: usize, t: usize)
    requires
        one_arm_each(arms),
        has_edge(arms, p, t),
        has_arm(arms, t),
        !fuse_states(arms, start, arms).rest.contains_key(p),
    ensures
        !fuse_states(arms, start, arms).rest.contains_key(t),
{
    let v = fuse_states(arms, start, arms);
    lemma_fuse_states(arms, start, arms);
    if v.rest.contains_key(t) {
        assert(absorbable(arms, start, t));
        let q = choose|q: usize| #[trigger]
            linears(arms).contains_key(q) && linears(arms)[q] == t;
        lemma_linear(arms, q);
        if p != q {
            lemma_ways_in(arms, p, q, t);
            assert(in_degree(arms, start, t) >= 2);
        }
        assert(followed(arms, start, v, p));
    }
}

/// Fusing loses nothing that can be reached: of every state that a walk from the
/// entry gets to, all statements stand in one arm of the fused dispatch, together
/// and in order, but for the jump at the end of a state that flows to one
/// successor. (No state has two
/// arms.)
pub proof fn law_fusing_keeps_what_is_reached(arms: Seq<ArmV>, start: usize, walk: Seq<usize>)
    requires
        one_arm_each(arms),
        is_walk(arms, walk),
        walk[0] == start,
        has_arm(arms, walk.last()),
    ensures
        stands_in_arm(fused(arms, start), lasting(arms, walk.last())),
{
    let s = walk.last();
    lemma_bodies(arms, s);
    if has_absorbable(arms, start) {
        lemma_walk_placed(arms, start, walk);
        lemma_fuse_states(arms, start, arms);
        assert(accounted(arms, fuse_states(arms, start, arms), s));
    } else {
        lemma_body_stands(arms, s, lasting(arms, s));
    }
}

proof fn lemma_body_stands(arms: Seq<ArmV>, s: usize, part: Seq<LineV>)
    requires
        bodies(arms).contains_key(s),
        part == bodies(arms)[s] || part == without_last(bodies(arms)[s]),
    ensures
        stands_in_arm(arms, part),
    decreases arms.len(),
{
    let front = arms.drop_last();
    if arms.last().0 == s {
        let body = arms.last().1;
        assert(body.subrange(0, part.len() as int) =~= part);
        assert(stands_at(body, 0, part));
        assert(stands_in(arms[arms.len() - 1].1, part));
    } else {
        lemma_body_stands(front, s, part);
        let k = choose|k: int| 0 <= k < front.len() && stands_in((#[trigger] front[k]).1, part);
        assert(arms[k] == front[k]);
    }
}

proof fn lemma_walk_placed(arms: Seq<ArmV>, start: usize, walk: Seq<usize>)
    requires
        one_arm_each(arms),
        is_walk(arms, walk),
        walk[0] == start,
        has_arm(arms, walk.last()),
    ensures
        !fuse_states(arms, start, arms).rest.contains_key(walk.last()),
    decreases walk.len(),
{
    lemma_fuse_states(arms, start, arms);
    if walk.len() > 1 {
        let front = walk.drop_last();
        let p = walk[walk.len() - 2];
        assert(has_edge(arms, p, walk[walk.len() - 2 + 1]));
        lemma_bodies(arms, p);
        assert forall|i: int| 0 <= i < front.len() - 1 implies has_edge(
            arms,
            #[trigger] front[i],
            front[i + 1],
        ) by {
            assert(has_edge(arms, walk[i], walk[i + 1]));
        }
        lemma_walk_placed(arms, start, front);
        lemma_edge_placed(arms, start, p, walk.last());
    } else {
        assert(!absorbable(arms, start, start));
    }
}

} // verus!
