//! Contracting jumps, and fusing behind it, loses nothing that can be reached.

use vstd::prelude::*;

use crate::codegen::dispatch::flat_body;
use crate::codegen::edges::{
    bodies, body_targets, contracted, forwards, fused, has_edge, is_walk, kept, lemma_reach_self,
    lemma_reach_step, linears, reachable, redirected, redirected_body, resolves,
};
use crate::codegen::flatten::{lowerable, ArmV, LineV};
use crate::codegen::fusing::{
    lasting, law_fusing_keeps_what_is_reached, lemma_linear, one_arm_each, stands_at, stands_in,
    stands_in_arm, lemma_front, lemma_jump_edges,
};
use crate::codegen::ir::{nodes_size, NodeV};
use crate::codegen::laws::{arm_count, has_arm, law_states_have_one_arm, lemma_bodies};
use crate::codegen::live::{ends_marked, label_count, live_nodes};
use crate::codegen::reaching::{law_flattening_keeps_live_statements, lemma_only_arm};
use crate::codegen::scan::{edge_at, edges_from, lone_edge, mapped, pc_targets};
use crate::codegen::text_laws::{all_mapped, law_redirecting_maps_targets};

verus! {

// ---------------------------------------------------------------------------
// Edges
// ---------------------------------------------------------------------------
/// A forwarding state has its jump and no other edge. (A jump written with a sign
/// is no edge.)
proof fn lemma_forward(arms: Seq<ArmV>, s: usize)
    requires
        one_arm_each(arms),
        forwards(arms).contains_key(s),
    ensures
        arm_count(arms, s) == 1,
        bodies(arms).contains_key(s),
        bodies(arms)[s].len() == 1,
        lone_edge(bodies(arms)[s][0].1) is Some,
        body_targets(bodies(arms)[s]).len() > 0 ==> body_targets(bodies(arms)[s])
            == seq![forwards(arms)[s]],
    decreases arms.len(),
{
    let front = arms.drop_last();
    let last = arms.last();
    lemma_front(arms);
    assert(arm_count(arms, s) <= 1);
    if forwards(front).contains_key(s) {
        lemma_forward(front, s);
    } else {
        let body = last.1;
        assert(body.last() == body[0]);
        assert(body_targets(body.drop_last()) =~= Seq::<usize>::empty());
        assert(body_targets(body) =~= pc_targets(body[0].1));
        if body_targets(body).len() > 0 {
            lemma_jump_edges(body[0].1);
        }
    }
}

proof fn lemma_body_redirected(body: Seq<LineV>, r: Map<usize, usize>)
    ensures
        body_targets(redirected_body(body, r)) == all_mapped(body_targets(body), r),
    decreases body.len(),
{
    let all = redirected_body(body, r);
    if body.len() == 0 {
        assert(body_targets(all) =~= all_mapped(body_targets(body), r));
    } else {
        lemma_body_redirected(body.drop_last(), r);
        assert(all.drop_last() =~= redirected_body(body.drop_last(), r));
        law_redirecting_maps_targets(body.last().1, r);
        assert(body_targets(all) =~= all_mapped(body_targets(body), r));
    }
}

proof fn lemma_bodies_redirected(arms: Seq<ArmV>, r: Map<usize, usize>, s: usize)
    ensures
        bodies(redirected(arms, r)).contains_key(s) == bodies(arms).contains_key(s),
        bodies(arms).contains_key(s) ==> bodies(redirected(arms, r))[s] == redirected_body(
            bodies(arms)[s],
            r,
        ),
        arm_count(redirected(arms, r), s) == arm_count(arms, s),
    decreases arms.len(),
{
    if arms.len() > 0 {
        lemma_bodies_redirected(arms.drop_last(), r, s);
        assert(redirected(arms, r).drop_last() =~= redirected(arms.drop_last(), r));
    }
}

proof fn lemma_bodies_kept(arms: Seq<ArmV>, whole: Seq<ArmV>, start: usize, s: usize)
    ensures
        bodies(kept(arms, whole, start)).contains_key(s) == (bodies(arms).contains_key(s)
            && reachable(whole, start, s)),
        bodies(kept(arms, whole, start)).contains_key(s) ==> bodies(
            kept(arms, whole, start),
        )[s] == bodies(arms)[s],
        arm_count(kept(arms, whole, start), s) <= arm_count(arms, s),
    decreases arms.len(),
{
    if arms.len() > 0 {
        let front = kept(arms.drop_last(), whole, start);
        lemma_bodies_kept(arms.drop_last(), whole, start, s);
        if reachable(whole, start, arms.last().0) {
            assert(front.push(arms.last()).drop_last() =~= front);
        }
    }
}

/// A walk of the dispatch has a counterpart among the redirected edges.
proof fn lemma_walk_redirected(arms: Seq<ArmV>, r: Map<usize, usize>, walk: Seq<usize>)
    requires
        one_arm_each(arms),
        resolves(forwards(arms), r),
        is_walk(arms, walk),
    ensures
        reachable(redirected(arms, r), mapped(r, walk[0]), mapped(r, walk.last())),
    decreases walk.len(),
{
    let red = redirected(arms, r);
    if walk.len() == 1 {
        lemma_reach_self(red, mapped(r, walk[0]));
    } else {
        let front = walk.drop_last();
        let p = walk[walk.len() - 2];
        let t = walk.last();
        assert(has_edge(arms, p, walk[walk.len() - 2 + 1]));
        assert forall|i: int| 0 <= i < front.len() - 1 implies has_edge(
            arms,
            #[trigger] front[i],
            front[i + 1],
        ) by {
            assert(has_edge(arms, walk[i], walk[i + 1]));
        }
        lemma_walk_redirected(arms, r, front);
        if forwards(arms).contains_key(p) {
            lemma_forward(arms, p);
            assert(t == forwards(arms)[p]);
        } else {
            lemma_bodies_redirected(arms, r, p);
            let targets = body_targets(bodies(arms)[p]);
            lemma_body_redirected(bodies(arms)[p], r);
            let k = choose|k: int| 0 <= k < targets.len() && targets[k] == t;
            assert(all_mapped(targets, r)[k] == mapped(r, t));
            assert(has_edge(red, p, mapped(r, t)));
            lemma_reach_step(red, mapped(r, walk[0]), p, mapped(r, t));
        }
    }
}

/// What is reached among all arms is reached among the kept ones.
proof fn lemma_walk_kept(arms: Seq<ArmV>, start: usize, walk: Seq<usize>)
    requires
        is_walk(arms, walk),
        walk[0] == start,
    ensures
        is_walk(kept(arms, arms, start), walk),
{
    let short = kept(arms, arms, start);
    assert forall|i: int| 0 <= i < walk.len() - 1 implies has_edge(
        short,
        #[trigger] walk[i],
        walk[i + 1],
    ) by {
        assert(has_edge(arms, walk[i], walk[i + 1]));
        let part = walk.take(i + 1);
        assert forall|k: int| 0 <= k < part.len() - 1 implies has_edge(
            arms,
            #[trigger] part[k],
            part[k + 1],
        ) by {
            assert(has_edge(arms, walk[k], walk[k + 1]));
        }
        assert(is_walk(arms, part) && part[0] == start && part.last() == walk[i]);
        lemma_bodies_kept(arms, arms, start, walk[i]);
    }
}

proof fn lemma_short_is_plain(
    before: Seq<ArmV>,
    start: usize,
    after: Seq<ArmV>,
    entry: usize,
)
    requires
        one_arm_each(before),
        contracted(before, start, after, entry),
    ensures
        one_arm_each(after),
{
    if forwards(before).dom() != Set::<usize>::empty() {
        let r = choose|r: Map<usize, usize>| #[trigger]
            resolves(forwards(before), r) && entry == mapped(r, start) && after == kept(
                redirected(before, r),
                redirected(before, r),
                entry,
            );
        let red = redirected(before, r);
        assert forall|s: usize| #[trigger] arm_count(after, s) <= 1 by {
            lemma_bodies_kept(red, red, entry, s);
            lemma_bodies_redirected(before, r, s);
            assert(arm_count(before, s) <= 1);
        }
    }
}

/// Contracting loses nothing that can be reached: every state that a walk from the
/// entry gets to, but for the pure jumps, is reached in the shorter dispatch too,
/// with its statements as they were but for where their jumps lead. (No state has
/// two arms.)
pub proof fn law_contracting_keeps_what_is_reached(
    before: Seq<ArmV>,
    start: usize,
    after: Seq<ArmV>,
    entry: usize,
    walk: Seq<usize>,
)
    requires
        one_arm_each(before),
        contracted(before, start, after, entry),
        is_walk(before, walk),
        walk[0] == start,
        has_arm(before, walk.last()),
        !forwards(before).contains_key(walk.last()),
    ensures
        has_arm(after, walk.last()),
        reachable(after, entry, walk.last()),
        bodies(after)[walk.last()] == bodies(before)[walk.last()] || exists|r: Map<usize, usize>|
            #[trigger]
            resolves(forwards(before), r) && bodies(after)[walk.last()] == redirected_body(
                bodies(before)[walk.last()],
                r,
            ),
{
    let s = walk.last();
    lemma_bodies(before, s);
    lemma_bodies(after, s);
    if forwards(before).dom() != Set::<usize>::empty() {
        let r = choose|r: Map<usize, usize>| #[trigger]
            resolves(forwards(before), r) && entry == mapped(r, start) && after == kept(
                redirected(before, r),
                redirected(before, r),
                entry,
            );
        let red = redirected(before, r);
        lemma_walk_redirected(before, r, walk);
        assert(reachable(red, entry, s));
        lemma_bodies_redirected(before, r, s);
        lemma_bodies_kept(red, red, entry, s);
        let there = choose|there: Seq<usize>| #[trigger]
            is_walk(red, there) && there[0] == entry && there.last() == s;
        lemma_walk_kept(red, entry, there);
        assert(is_walk(after, there));
    }
}

/// The dispatch that is rendered has all that can be reached: of every state that
/// a walk from the entry gets to, but for the pure jumps, all statements stand in
/// one arm of the contracted and fused dispatch, together and in order, but for the
/// jump at the end of a state that flows to one successor.
pub proof fn law_shortening_keeps_what_is_reached(
    before: Seq<ArmV>,
    start: usize,
    after: Seq<ArmV>,
    entry: usize,
    walk: Seq<usize>,
)
    requires
        one_arm_each(before),
        contracted(before, start, after, entry),
        is_walk(before, walk),
        walk[0] == start,
        has_arm(before, walk.last()),
        !forwards(before).contains_key(walk.last()),
    ensures
        stands_in_arm(fused(after, entry), lasting(after, walk.last())),
{
    law_contracting_keeps_what_is_reached(before, start, after, entry, walk);
    lemma_short_is_plain(before, start, after, entry);
    let there = choose|there: Seq<usize>| #[trigger]
        is_walk(after, there) && there[0] == entry && there.last() == walk.last();
    law_fusing_keeps_what_is_reached(after, entry, there);
}

// ---------------------------------------------------------------------------
// From the body to the dispatch
// ---------------------------------------------------------------------------
/// Whether some arm has the statement `t`.
pub open spec fn has_statement(arms: Seq<ArmV>, t: Seq<char>) -> bool {
    exists|k: int, i: int|
        #![trigger arms[k].1[i]]
        0 <= k < arms.len() && 0 <= i < arms[k].1.len() && arms[k].1[i].1 == t
}

/// Whether a statement has no edge, nor reads as a jump.
pub open spec fn jumps_nowhere(t: Seq<char>) -> bool {
    lone_edge(t) is None && forall|i: int| !#[trigger] edge_at(t, i)
}

proof fn lemma_without_edges(t: Seq<char>, i: int, r: Map<usize, usize>)
    requires
        jumps_nowhere(t),
        0 <= i <= t.len(),
    ensures
        edges_from(t, i, r) == t.skip(i),
    decreases t.len() - i,
{
    if i < t.len() {
        assert(!edge_at(t, i));
        lemma_without_edges(t, i + 1, r);
        assert(edges_from(t, i, r) =~= t.skip(i));
    } else {
        assert(edges_from(t, i, r) =~= t.skip(i));
    }
}

/// The rendered dispatch has every statement that the body can execute, but for
/// the jumps, which shortening takes away or redirects. (The labels of the regions
/// are all different, the ends of loops are marked, and the number of states fits a
/// machine word.)
pub proof fn law_dispatch_has_live_statements(
    nodes: Seq<NodeV>,
    exit_stmt: Seq<char>,
    short: Seq<ArmV>,
    entry: usize,
    t: Seq<char>,
)
    requires
        lowerable(nodes, Set::empty(), true),
        ends_marked(nodes),
        forall|l: usize| #[trigger] label_count(nodes, l) <= 1,
        3 * nodes_size(nodes) + 8 <= usize::MAX,
        contracted(flat_body(nodes, exit_stmt, true).arms, 0, short, entry),
        live_nodes(nodes).texts.contains(t),
        jumps_nowhere(t),
    ensures
        has_statement(fused(short, entry), t),
{
    let all = flat_body(nodes, exit_stmt, true).arms;
    law_flattening_keeps_live_statements(nodes, exit_stmt);
    assert forall|s: usize| #[trigger] arm_count(all, s) <= 1 by {
        law_states_have_one_arm(nodes, exit_stmt, true, s);
    }
    let (k, i) = choose|k: int, i: int|
        #![trigger all[k].1[i]]
        0 <= k < all.len() && 0 <= i < all[k].1.len() && reachable(all, 0, all[k].0)
            && all[k].1[i].1 == t;
    let s = all[k].0;
    assert(arm_count(all, s) <= 1);
    lemma_only_arm(all, k);
    lemma_bodies(all, s);
    if forwards(all).contains_key(s) {
        lemma_forward(all, s);
        assert(i == 0);
    }
    let walk = choose|walk: Seq<usize>| #[trigger]
        is_walk(all, walk) && walk[0] == 0 && walk.last() == s;
    law_contracting_keeps_what_is_reached(all, 0, short, entry, walk);
    law_shortening_keeps_what_is_reached(all, 0, short, entry, walk);
    lemma_short_is_plain(all, 0, short, entry);
    let body = bodies(short)[s];
    assert(i < body.len() && body[i].1 == t) by {
        if body != bodies(all)[s] {
            let r = choose|r: Map<usize, usize>| #[trigger]
                resolves(forwards(all), r) && body == redirected_body(bodies(all)[s], r);
            lemma_without_edges(t, 0, r);
            assert(t.skip(0) =~= t);
        }
    }
    let part = lasting(short, s);
    assert(i < part.len() && part[i].1 == t) by {
        if linears(short).contains_key(s) {
            lemma_linear(short, s);
            assert(i != body.len() - 1);
        }
    }
    let done = fused(short, entry);
    let q = choose|q: int| 0 <= q < done.len() && stands_in((#[trigger] done[q]).1, part);
    let at = choose|at: int| stands_at(done[q].1, at, part);
    assert(done[q].1.subrange(at, at + part.len())[i] == done[q].1[at + i]);
    assert(done[q].1[at + i].1 == t);
}

} // verus!
