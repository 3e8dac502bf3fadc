//! How deep the lines of a flat dispatch stand.
//!
//! However deep a body nests, a line of its dispatch stands at most
//! [`MAX_LINE_DEPTH`] levels inside its arm: the flattener turns every region into
//! arms of their own, except for the loops that it keeps as they are, and those
//! nest within [`STRUCT_BUDGET`](crate::codegen::ir::STRUCT_BUDGET).

use vstd::prelude::*;

use crate::codegen::dispatch::{flat_body, fresh_flat};
use crate::codegen::edges::{
    bodies, chain_goes_on, contracted, forwards, fuse_state, fuse_states, fused, fused_chain, kept,
    linears, redirected, redirected_body, resolves, without_last, FuseV,
};
use crate::codegen::flatten::{
    finished, lower_nodes, lower_region, lower_step, lower_work, started, structured_arms,
    structured_assigns, structured_inner, structured_loop, structured_node, structured_nodes,
    structured_region, work_size, ArmV, FlatV, LineV, StructV, TaskV, WalkV,
};
use crate::codegen::ir::{
    cond_text, depth_of, lemma_node_size, node_depth, nodes_size, region_depth, region_header,
    region_size, structurable, BrArmV, FrameKind, NodeV, RegionV,
};
use crate::codegen::scan::mapped;
use crate::text::inc;

verus! {

/// The deepest that a line of a dispatch stands inside its arm: two levels for
/// each region of a loop that is kept, and those of the loop itself.
pub const MAX_LINE_DEPTH: usize = 67;

/// Whether no line stands deeper than `bound`.
pub open spec fn lines_within(lines: Seq<LineV>, bound: nat) -> bool {
    forall|i: int| 0 <= i < lines.len() ==> (#[trigger] lines[i]).0 <= bound
}

/// Whether no line of an arm stands deeper than `bound`.
pub open spec fn arms_within(arms: Seq<ArmV>, bound: nat) -> bool {
    forall|i: int| 0 <= i < arms.len() ==> lines_within((#[trigger] arms[i]).1, bound)
}

// ---------------------------------------------------------------------------
// Structured loops
// ---------------------------------------------------------------------------
proof fn lemma_assigns_within(
    s: StructV,
    assigns: Seq<(Seq<char>, Seq<char>)>,
    depth: usize,
    bound: nat,
)
    requires
        lines_within(s.out, bound),
        depth <= bound,
    ensures
        lines_within(structured_assigns(s, assigns, depth).out, bound),
    decreases assigns.len(),
{
    if assigns.len() > 0 {
        lemma_assigns_within(s, assigns.drop_last(), depth, bound);
    }
}

proof fn lemma_table_within(
    s: StructV,
    labels: Map<usize, usize>,
    arms: Seq<BrArmV>,
    depth: usize,
    bound: nat,
)
    requires
        lines_within(s.out, bound),
        depth <= bound,
    ensures
        lines_within(structured_arms(s, labels, arms, depth).out, bound),
    decreases arms.len(),
{
    if arms.len() > 0 {
        lemma_table_within(s, labels, arms.drop_last(), depth, bound);
    }
}

proof fn lemma_nodes_within(
    s: StructV,
    labels: Map<usize, usize>,
    ns: Seq<NodeV>,
    depth: usize,
    bound: nat,
)
    requires
        lines_within(s.out, bound),
        depth + 2 * depth_of(ns) + 1 <= bound,
    ensures
        lines_within(structured_nodes(s, labels, ns, depth).out, bound),
    decreases nodes_size(ns), 2nat, ns.len(),
{
    if ns.len() > 0 {
        lemma_node_size(ns, ns.len() - 1);
        lemma_nodes_within(s, labels, ns.drop_last(), depth, bound);
        let t = structured_nodes(s, labels, ns.drop_last(), depth);
        match ns.last() {
            NodeV::BrIf { cond, label, is_loop, assigns } => {
                lemma_assigns_within(
                    t.line(depth, ("if "@ + cond + " {"@)),
                    assigns,
                    inc(depth),
                    bound,
                );
            },
            NodeV::BrTable { selector, arms } => {
                lemma_table_within(
                    t.line(depth, ("match ("@ + selector + ") as u32 {"@)),
                    labels,
                    arms,
                    inc(depth),
                    bound,
                );
            },
            NodeV::Region(r) => {
                assert(node_depth(ns.last()) == region_depth(r));
                lemma_region_within(t, labels, r, depth, bound);
            },
            _ => {},
        }
        assert(lines_within(structured_node(t, labels, ns.last(), depth).out, bound));
    }
}

proof fn lemma_inner_within(
    s: StructV,
    labels: Map<usize, usize>,
    r: RegionV,
    depth: usize,
    bound: nat,
)
    requires
        lines_within(s.out, bound),
        depth + 2 * depth_of(r.body) + 2 <= bound,
        r.kind == FrameKind::If && r.els is Some ==> depth + 2 * depth_of(r.els->0) + 2 <= bound,
    ensures
        lines_within(structured_inner(s, labels, r, depth).out, bound),
    decreases region_size(r), 0nat, 0nat,
{
    match r.kind {
        FrameKind::If => {
            let s1 = s.line(depth, ("if "@ + cond_text(r.cond) + " {"@));
            lemma_nodes_within(s1, labels, r.body, inc(depth), bound);
            let s2 = structured_nodes(s1, labels, r.body, inc(depth));
            if let Some(els) = r.els {
                lemma_nodes_within(
                    s2.line(depth, "} else {"@),
                    labels,
                    els,
                    inc(depth),
                    bound,
                );
            }
        },
        _ => {
            lemma_nodes_within(s, labels, r.body, depth, bound);
        },
    }
}

proof fn lemma_region_within(
    s: StructV,
    labels: Map<usize, usize>,
    r: RegionV,
    depth: usize,
    bound: nat,
)
    requires
        lines_within(s.out, bound),
        depth + 2 * region_depth(r) + 1 <= bound,
    ensures
        lines_within(structured_region(s, labels, r, depth).out, bound),
    decreases region_size(r), 1nat, 0nat,
{
    if r.targeted {
        lemma_inner_within(
            s.line(depth, region_header(r.kind, r.label)),
            labels,
            r,
            inc(depth),
            bound,
        );
    } else {
        lemma_inner_within(s, labels, r, depth, bound);
    }
}

/// A loop that is kept as a loop stays within the bound.
proof fn lemma_loop_within(labels: Map<usize, usize>, r: RegionV, cont: usize)
    requires
        structurable(r),
    ensures
        lines_within(structured_loop(labels, r, cont).out, MAX_LINE_DEPTH as nat),
{
    let none = StructV { out: Seq::empty(), escapes: false };
    let head = none.line(0, region_header(r.kind, r.label));
    lemma_inner_within(head, labels, r, inc(0), MAX_LINE_DEPTH as nat);
}

// ---------------------------------------------------------------------------
// Lowering
// ---------------------------------------------------------------------------
/// Whether the arms so far and the statements of the current one are within the
/// bound.
spec fn walk_within(w: WalkV) -> bool {
    arms_within(w.flat.arms, MAX_LINE_DEPTH as nat) && lines_within(w.stmts, 0)
}

proof fn lemma_step_within(w: WalkV, n: NodeV)
    requires
        walk_within(w),
    ensures
        walk_within(lower_step(w, n)),
{
    if let NodeV::Region(r) = n {
        if w.reachable && r.kind != FrameKind::If && w.flat.allow_structured_loop && structurable(
            r,
        ) {
            lemma_loop_within(w.flat.labels, r, inc(w.flat.next_state));
        }
        assert(w.reachable ==> walk_within(lower_region(w, r)));
    }
}

proof fn lemma_walk_within(w: WalkV, ns: Seq<NodeV>)
    requires
        walk_within(w),
    ensures
        walk_within(lower_nodes(w, ns)),
    decreases ns.len(),
{
    if ns.len() > 0 {
        lemma_walk_within(w, ns.drop_last());
        lemma_step_within(lower_nodes(w, ns.drop_last()), ns.last());
    }
}

proof fn lemma_work_within(f: FlatV, work: Seq<TaskV>)
    requires
        arms_within(f.arms, MAX_LINE_DEPTH as nat),
    ensures
        arms_within(lower_work(f, work).arms, MAX_LINE_DEPTH as nat),
    decreases work_size(work),
{
    if work.len() > 0 {
        lemma_walk_within(started(f, work), work.last().nodes);
        let w = lower_nodes(started(f, work), work.last().nodes);
        if work_size(w.work) < work_size(work) {
            lemma_work_within(finished(w, work.last().after), w.work);
        }
    }
}

// ---------------------------------------------------------------------------
// Shortening
// ---------------------------------------------------------------------------
proof fn lemma_kept_within(arms: Seq<ArmV>, whole: Seq<ArmV>, start: usize, bound: nat)
    requires
        arms_within(arms, bound),
    ensures
        arms_within(kept(arms, whole, start), bound),
    decreases arms.len(),
{
    if arms.len() > 0 {
        assert(arms_within(arms.drop_last(), bound)) by {
            assert forall|i: int| 0 <= i < arms.drop_last().len() implies lines_within(
                (#[trigger] arms.drop_last()[i]).1,
                bound,
            ) by {
                assert(lines_within(arms[i].1, bound));
            }
        }
        lemma_kept_within(arms.drop_last(), whole, start, bound);
        assert(lines_within(arms[arms.len() - 1].1, bound));
    }
}

proof fn lemma_redirected_within(arms: Seq<ArmV>, r: Map<usize, usize>, bound: nat)
    requires
        arms_within(arms, bound),
    ensures
        arms_within(redirected(arms, r), bound),
{
    assert forall|i: int| 0 <= i < arms.len() implies lines_within(
        (#[trigger] redirected(arms, r)[i]).1,
        bound,
    ) by {
        assert(lines_within(arms[i].1, bound));
        assert forall|k: int| 0 <= k < arms[i].1.len() implies (#[trigger] redirected_body(
            arms[i].1,
            r,
        )[k]).0 <= bound by {
            assert(arms[i].1[k].0 <= bound);
        }
    }
}

/// Whether no line of a body stands deeper than `bound`.
spec fn bodies_within(m: Map<usize, Seq<LineV>>, bound: nat) -> bool {
    forall|s: usize| #[trigger] m.contains_key(s) ==> lines_within(m[s], bound)
}

proof fn lemma_bodies_within(arms: Seq<ArmV>, bound: nat)
    requires
        arms_within(arms, bound),
    ensures
        bodies_within(bodies(arms), bound),
    decreases arms.len(),
{
    if arms.len() > 0 {
        assert(arms_within(arms.drop_last(), bound)) by {
            assert forall|i: int| 0 <= i < arms.drop_last().len() implies lines_within(
                (#[trigger] arms.drop_last()[i]).1,
                bound,
            ) by {
                assert(lines_within(arms[i].1, bound));
            }
        }
        lemma_bodies_within(arms.drop_last(), bound);
        assert(lines_within(arms[arms.len() - 1].1, bound));
    }
}

proof fn lemma_chain_within(
    arms: Seq<ArmV>,
    start: usize,
    v: FuseV,
    cur: usize,
    body: Seq<LineV>,
    bound: nat,
)
    requires
        bodies_within(v.rest, bound),
        lines_within(body, bound),
    ensures
        ({
            let (v2, b2) = fused_chain(arms, start, v, cur, body);
            bodies_within(v2.rest, bound) && lines_within(b2, bound) && v2.out == v.out
        }),
    decreases v.rest.dom().len(),
{
    if chain_goes_on(arms, start, v, cur) && v.rest.dom().finite() {
        let t = linears(arms)[cur];
        let next = FuseV { rest: v.rest.remove(t), consumed: v.consumed.insert(t), out: v.out };
        let longer = without_last(body) + v.rest[t];
        assert(lines_within(longer, bound)) by {
            assert(lines_within(v.rest[t], bound));
            assert forall|i: int| 0 <= i < longer.len() implies (#[trigger] longer[i]).0
                <= bound by {
                let n = without_last(body).len();
                if i < n {
                    assert(longer[i] == body[i]);
                } else {
                    assert(longer[i] == v.rest[t][i - n]);
                }
            }
        }
        assert(bodies_within(next.rest, bound)) by {
            assert forall|s: usize| #[trigger] next.rest.contains_key(s) implies lines_within(
                next.rest[s],
                bound,
            ) by {
                assert(v.rest.contains_key(s));
            }
        }
        lemma_chain_within(arms, start, next, t, longer, bound);
    }
}

proof fn lemma_fuse_within(arms: Seq<ArmV>, start: usize, done: Seq<ArmV>, bound: nat)
    requires
        arms_within(arms, bound),
    ensures
        bodies_within(fuse_states(arms, start, done).rest, bound),
        arms_within(fuse_states(arms, start, done).out, bound),
    decreases done.len(),
{
    if done.len() == 0 {
        lemma_bodies_within(arms, bound);
    } else {
        lemma_fuse_within(arms, start, done.drop_last(), bound);
        let v = fuse_states(arms, start, done.drop_last());
        let s = done.last().0;
        if v.rest.contains_key(s) {
            let rest = FuseV { rest: v.rest.remove(s), ..v };
            assert(bodies_within(rest.rest, bound)) by {
                assert forall|k: usize| #[trigger] rest.rest.contains_key(k) implies lines_within(
                    rest.rest[k],
                    bound,
                ) by {
                    assert(v.rest.contains_key(k));
                }
            }
            lemma_chain_within(arms, start, rest, s, v.rest[s], bound);
        }
        assert(fuse_states(arms, start, done) == fuse_state(arms, start, v, s));
    }
}

/// However deep a body nests, each line of its dispatch stands at most
/// [`MAX_LINE_DEPTH`] levels inside its arm, before and after the dispatch is
/// shortened.
pub proof fn law_dispatch_nesting_is_bounded(
    nodes: Seq<NodeV>,
    exit_stmt: Seq<char>,
    structured: bool,
    short: Seq<ArmV>,
    entry: usize,
)
    requires
        contracted(flat_body(nodes, exit_stmt, structured).arms, 0, short, entry),
    ensures
        arms_within(flat_body(nodes, exit_stmt, structured).arms, MAX_LINE_DEPTH as nat),
        arms_within(fused(short, entry), MAX_LINE_DEPTH as nat),
{
    let bound = MAX_LINE_DEPTH as nat;
    let f = fresh_flat(exit_stmt, structured);
    assert(arms_within(f.arms, bound));
    lemma_work_within(f, Seq::empty().push(TaskV { nodes, entry: 0, after: 1 }));
    let arms = flat_body(nodes, exit_stmt, structured).arms;
    if forwards(arms).dom() != Set::<usize>::empty() {
        let r = choose|r: Map<usize, usize>| #[trigger]
            resolves(forwards(arms), r) && entry
                == mapped(r, 0) && short == kept(
                redirected(arms, r),
                redirected(arms, r),
                entry,
            );
        lemma_redirected_within(arms, r, bound);
        lemma_kept_within(redirected(arms, r), redirected(arms, r), entry, bound);
    }
    lemma_fuse_within(short, entry, short, bound);
}

} // verus!
