//! The dispatch leads to every statement that its body can execute.

use vstd::prelude::*;

use crate::codegen::dispatch::{flat_body, fresh_flat};
use crate::codegen::edges::{
    bodies, body_targets, has_edge, lemma_reach_self, lemma_reach_step, reachable,
};
use crate::codegen::flatten::{
    finished, lemma_lowerable_node, lemma_step_keeps, lower_nodes, lower_region, lower_step,
    lower_work, lowerable, lowerable_node, lowerable_region, started, structured_loop,
    structured_region, work_lowerable, work_size, ArmV, FlatV, LineV, StructV, TaskV, WalkV,
};
use crate::codegen::ir::{
    assigns_text, cond_text, lemma_node_size, nodes_size, region_size, structurable, FrameKind,
    NodeV, RegionV,
};
use crate::codegen::laws::{arm_count, law_states_have_one_arm};
use crate::codegen::live::{
    arm_labels, ends_marked, extends, has_line, label_count, leads, lemma_extends_at,
    lemma_extends_further, lemma_extends_push, lemma_extends_self, lemma_fork, lemma_jump,
    lemma_region_rendered, lemma_table_edge, lemma_written_edge, live_node, live_nodes, live_region,
    reached_text, region_end_marked, region_label_count, LiveV,
};
use crate::codegen::scan::pc_targets;
use crate::text::{dec, inc};

verus! {

// ---------------------------------------------------------------------------
// Arms and their edges
// ---------------------------------------------------------------------------
pub proof fn lemma_counted(arms: Seq<ArmV>, k: int)
    requires
        0 <= k < arms.len(),
    ensures
        arm_count(arms, arms[k].0) >= 1,
    decreases arms.len(),
{
    if k < arms.len() - 1 {
        lemma_counted(arms.drop_last(), k);
        assert(arms.drop_last()[k] == arms[k]);
    }
}

/// The body of a state with one arm is that of the arm.
pub proof fn lemma_only_arm(arms: Seq<ArmV>, k: int)
    requires
        0 <= k < arms.len(),
        arm_count(arms, arms[k].0) <= 1,
    ensures
        bodies(arms).contains_key(arms[k].0),
        bodies(arms)[arms[k].0] == arms[k].1,
    decreases arms.len(),
{
    if k < arms.len() - 1 {
        let front = arms.drop_last();
        assert(front[k] == arms[k]);
        lemma_counted(front, k);
        lemma_only_arm(front, k);
    }
}

proof fn lemma_line_targets(body: Seq<LineV>, i: int, n: usize)
    requires
        0 <= i < body.len(),
        pc_targets(body[i].1).contains(n),
    ensures
        body_targets(body).contains(n),
    decreases body.len(),
{
    let front = body_targets(body.drop_last());
    let own = pc_targets(body.last().1);
    if i < body.len() - 1 {
        lemma_line_targets(body.drop_last(), i, n);
        let k = choose|k: int| 0 <= k < front.len() && front[k] == n;
        assert((front + own)[k] == n);
    } else {
        let k = choose|k: int| 0 <= k < own.len() && own[k] == n;
        assert((front + own)[front.len() + k] == n);
    }
}

/// Where an arm is reached, so is what its lines lead to.
proof fn lemma_line_reaches(arms: Seq<ArmV>, k: int, i: int, n: usize)
    requires
        0 <= k < arms.len(),
        0 <= i < arms[k].1.len(),
        arm_count(arms, arms[k].0) <= 1,
        reachable(arms, 0, arms[k].0),
        pc_targets(arms[k].1[i].1).contains(n),
    ensures
        reachable(arms, 0, n),
{
    lemma_only_arm(arms, k);
    lemma_line_targets(arms[k].1, i, n);
    assert(has_edge(arms, arms[k].0, n));
    lemma_reach_step(arms, 0, arms[k].0, n);
}

// ---------------------------------------------------------------------------
// One list of nodes
// ---------------------------------------------------------------------------
/// Whether the arm of the current state goes on behind the node.
pub open spec fn stays(n: NodeV) -> bool {
    n is Line || n is BrIf || n is Try
}

/// The line that a node adds to the current arm.
pub open spec fn line_of(w: WalkV, n: NodeV) -> LineV {
    let w1 = lower_step(w, n);
    if stays(n) {
        w1.stmts.last()
    } else {
        w1.flat.arms[w.flat.arms.len() as int].1.last()
    }
}

pub proof fn lemma_step_shape(w: WalkV, n: NodeV)
    ensures
        extends(lower_step(w, n).flat.arms, w.flat.arms),
        extends(lower_step(w, n).work, w.work),
        w.reachable && stays(n) ==> {
            let w1 = lower_step(w, n);
            &&& w1.state == w.state
            &&& w1.reachable
            &&& w1.stmts == w.stmts.push(line_of(w, n))
            &&& w1.flat.arms == w.flat.arms
            &&& w1.flat.labels == w.flat.labels
            &&& w1.work == w.work
        },
        w.reachable && !stays(n) ==> {
            let w1 = lower_step(w, n);
            &&& w1.flat.arms.len() > w.flat.arms.len()
            &&& w1.flat.arms[w.flat.arms.len() as int] == (w.state, w.stmts.push(line_of(w, n)))
        },
{
    let w1 = lower_step(w, n);
    if !w.reachable || stays(n) {
        lemma_extends_self(w.flat.arms);
        lemma_extends_self(w.work);
    } else {
        let own = w1.flat.arms[w.flat.arms.len() as int];
        match n {
            NodeV::Region(r) => {
                assert(w1 == lower_region(w, r));
                assert(own.1.drop_last() =~= w.stmts);
                assert(own.1 =~= w.stmts.push(own.1.last()));
            },
            _ => {
                assert(own.1.drop_last() =~= w.stmts);
                assert(own.1 =~= w.stmts.push(own.1.last()));
            },
        }
        assert(w1.flat.arms.take(w.flat.arms.len() as int) =~= w.flat.arms);
        assert(w1.work.take(w.work.len() as int) =~= w.work);
    }
}

/// The walk over the last list of `work`, behind its first `i` nodes.
pub open spec fn at(f: FlatV, work: Seq<TaskV>, i: int) -> WalkV {
    lower_nodes(started(f, work), work.last().nodes.take(i))
}

/// The flattener behind the last list of `work`.
pub open spec fn behind(f: FlatV, work: Seq<TaskV>) -> FlatV {
    finished(lower_nodes(started(f, work), work.last().nodes), work.last().after)
}

pub proof fn lemma_at_next(f: FlatV, work: Seq<TaskV>, i: int)
    requires
        0 <= i < work.last().nodes.len(),
    ensures
        at(f, work, i + 1) == lower_step(at(f, work, i), work.last().nodes[i]),
        work.last().nodes.take(i + 1).drop_last() == work.last().nodes.take(i),
        work.last().nodes.take(i + 1).last() == work.last().nodes[i],
{
    let ns = work.last().nodes;
    assert(ns.take(i + 1).drop_last() =~= ns.take(i));
}

pub proof fn lemma_at_extends(f: FlatV, work: Seq<TaskV>, i: int, j: int)
    requires
        0 <= i <= j <= work.last().nodes.len(),
    ensures
        extends(at(f, work, j).flat.arms, at(f, work, i).flat.arms),
        extends(at(f, work, j).work, at(f, work, i).work),
    decreases j - i,
{
    if i == j {
        lemma_extends_self(at(f, work, i).flat.arms);
        lemma_extends_self(at(f, work, i).work);
    } else {
        lemma_at_extends(f, work, i, j - 1);
        lemma_at_next(f, work, j - 1);
        lemma_step_shape(at(f, work, j - 1), work.last().nodes[j - 1]);
        lemma_extends_further(
            at(f, work, j).flat.arms,
            at(f, work, j - 1).flat.arms,
            at(f, work, i).flat.arms,
        );
        lemma_extends_further(
            at(f, work, j).work,
            at(f, work, j - 1).work,
            at(f, work, i).work,
        );
    }
}

/// All that was finished up to some node is there behind the list.
pub proof fn lemma_behind_extends(f: FlatV, work: Seq<TaskV>, i: int)
    requires
        0 <= i <= work.last().nodes.len(),
    ensures
        extends(behind(f, work).arms, at(f, work, i).flat.arms),
{
    let ns = work.last().nodes;
    let n = ns.len() as int;
    assert(ns.take(n) =~= ns);
    lemma_at_extends(f, work, i, n);
    let w = at(f, work, n);
    if w.reachable {
        lemma_extends_push(w.flat.arms, behind(f, work).arms.last());
        assert(behind(f, work).arms =~= w.flat.arms.push(behind(f, work).arms.last()));
        lemma_extends_further(behind(f, work).arms, w.flat.arms, at(f, work, i).flat.arms);
    }
}

/// Whether the arm of some state starts with `lines`.
spec fn arm_starts(arms: Seq<ArmV>, s: usize, lines: Seq<LineV>) -> bool {
    exists|k: int|
        0 <= k < arms.len() && (#[trigger] arms[k]).0 == s && extends(arms[k].1, lines)
}

/// The line that comes behind the first `i` nodes.
spec fn next_line(f: FlatV, work: Seq<TaskV>, i: int) -> LineV {
    if i < work.last().nodes.len() {
        line_of(at(f, work, i), work.last().nodes[i])
    } else {
        (0usize, ("pc = "@ + dec(work.last().after as nat) + ";"@))
    }
}

/// The current arm is finished at some point, with what it had and what comes
/// next.
proof fn lemma_arm_closes(f: FlatV, work: Seq<TaskV>, i: int)
    requires
        0 <= i <= work.last().nodes.len(),
        at(f, work, i).reachable,
    ensures
        arm_starts(
            behind(f, work).arms,
            at(f, work, i).state,
            at(f, work, i).stmts.push(next_line(f, work, i)),
        ),
    decreases work.last().nodes.len() - i,
{
    let ns = work.last().nodes;
    let w = at(f, work, i);
    let lines = w.stmts.push(next_line(f, work, i));
    let all = behind(f, work).arms;
    if i == ns.len() {
        assert(ns.take(i) =~= ns);
        let k = w.flat.arms.len() as int;
        assert(all[k] == (w.state, lines));
        lemma_extends_self(lines);
    } else {
        lemma_at_next(f, work, i);
        lemma_step_shape(w, ns[i]);
        if stays(ns[i]) {
            lemma_arm_closes(f, work, i + 1);
            let longer = lines.push(next_line(f, work, i + 1));
            let k = choose|k: int|
                0 <= k < all.len() && (#[trigger] all[k]).0 == w.state && extends(
                    all[k].1,
                    longer,
                );
            lemma_extends_push(lines, next_line(f, work, i + 1));
            lemma_extends_further(all[k].1, longer, lines);
        } else {
            let k = w.flat.arms.len() as int;
            lemma_behind_extends(f, work, i + 1);
            lemma_extends_at(all, at(f, work, i + 1).flat.arms, k);
            assert(all[k] == (w.state, lines));
            lemma_extends_self(lines);
        }
    }
}

// ---------------------------------------------------------------------------
// Labels
// ---------------------------------------------------------------------------
pub open spec fn bound_count(f: FlatV, l: usize) -> nat {
    if f.labels.contains_key(l) {
        1
    } else {
        0
    }
}

pub open spec fn work_labels(work: Seq<TaskV>, l: usize) -> nat
    decreases work.len(),
{
    if work.len() == 0 {
        0
    } else {
        work_labels(work.drop_last(), l) + label_count(work.last().nodes, l)
    }
}

/// Whether no label is given twice.
pub open spec fn labels_unique(f: FlatV, work: Seq<TaskV>) -> bool {
    forall|l: usize| #[trigger] work_labels(work, l) + bound_count(f, l) <= 1
}

pub open spec fn work_marked(work: Seq<TaskV>) -> bool {
    forall|i: int| 0 <= i < work.len() ==> ends_marked((#[trigger] work[i]).nodes)
}

/// What is asked of a flattener and of its work.
pub open spec fn ready(f: FlatV, work: Seq<TaskV>) -> bool {
    &&& f.allow_structured_loop
    &&& work_lowerable(work, f.labels.dom(), true)
    &&& work_marked(work)
    &&& labels_unique(f, work)
}

pub open spec fn node_labels(n: NodeV, l: usize) -> nat {
    match n {
        NodeV::Region(r) => region_label_count(r, l),
        _ => 0,
    }
}

pub proof fn lemma_labels_pushed(work: Seq<TaskV>, t: TaskV, l: usize)
    ensures
        work_labels(work.push(t), l) == work_labels(work, l) + label_count(t.nodes, l),
{
    assert(work.push(t).drop_last() =~= work);
}

pub proof fn lemma_marked_node(ns: Seq<NodeV>, i: int)
    requires
        ends_marked(ns),
        0 <= i < ns.len(),
    ensures
        ns[i] matches NodeV::Region(r) ==> region_end_marked(r),
    decreases ns.len(),
{
    if i < ns.len() - 1 {
        lemma_marked_node(ns.drop_last(), i);
        assert(ns.drop_last()[i] == ns[i]);
    }
}

pub proof fn lemma_count_grows(ns: Seq<NodeV>, i: int, l: usize)
    requires
        0 <= i <= ns.len(),
    ensures
        label_count(ns.take(i), l) <= label_count(ns, l),
        i < ns.len() ==> label_count(ns.take(i), l) + node_labels(ns[i], l) <= label_count(ns, l),
    decreases ns.len() - i,
{
    if i < ns.len() {
        lemma_count_grows(ns, i + 1, l);
        assert(ns.take(i + 1).drop_last() =~= ns.take(i));
        assert(ns.take(i + 1).last() == ns[i]);
    } else {
        assert(ns.take(i) =~= ns);
    }
}

/// One node moves the labels of its regions to the work or binds them.
proof fn lemma_step_labels(w: WalkV, n: NodeV, l: usize)
    ensures
        bound_count(lower_step(w, n).flat, l) + work_labels(lower_step(w, n).work, l)
            <= bound_count(w.flat, l) + work_labels(w.work, l) + node_labels(n, l),
{
    let w1 = lower_step(w, n);
    if w.reachable {
        if let NodeV::Region(r) = n {
            assert(w1 == lower_region(w, r));
            let first = w.flat.next_state;
            let second = inc(first);
            if r.kind == FrameKind::If {
                let body = TaskV { nodes: r.body, entry: second, after: first };
                lemma_labels_pushed(w.work, body, l);
                if let Some(els) = r.els {
                    let other = TaskV { nodes: els, entry: inc(second), after: first };
                    lemma_labels_pushed(w.work.push(body), other, l);
                    assert(w1.work == w.work.push(body).push(other));
                } else {
                    assert(w1.work == w.work.push(body));
                }
            } else if w.flat.allow_structured_loop && structurable(r) {
                assert(w1.work == w.work);
            } else {
                let body = TaskV { nodes: r.body, entry: first, after: second };
                lemma_labels_pushed(w.work, body, l);
                assert(w1.work == w.work.push(body));
            }
        }
    }
}

proof fn lemma_step_marked(w: WalkV, n: NodeV)
    requires
        work_marked(w.work),
        n matches NodeV::Region(r) ==> region_end_marked(r),
    ensures
        work_marked(lower_step(w, n).work),
{
    let w1 = lower_step(w, n);
    lemma_step_shape(w, n);
    assert forall|i: int| 0 <= i < w1.work.len() implies ends_marked(
        (#[trigger] w1.work[i]).nodes,
    ) by {
        if i < w.work.len() {
            lemma_extends_at(w1.work, w.work, i);
        } else if let NodeV::Region(r) = n {
            assert(w1 == lower_region(w, r));
        }
    }
}

/// What holds in the middle of a list.
pub proof fn lemma_at_ready(f: FlatV, work: Seq<TaskV>, i: int)
    requires
        work.len() > 0,
        ready(f, work),
        0 <= i <= work.last().nodes.len(),
    ensures
        ({
            let w = at(f, work, i);
            let ns = work.last().nodes;
            &&& w.flat.allow_structured_loop
            &&& lowerable(ns, w.flat.labels.dom(), true)
            &&& work_lowerable(w.work, w.flat.labels.dom(), true)
            &&& work_size(w.work) <= work_size(work.drop_last()) + nodes_size(ns.take(i))
            &&& work_marked(w.work)
            &&& forall|l: usize| #[trigger]
                work_labels(w.work, l) + bound_count(w.flat, l) + label_count(ns, l) <= 1
                    + label_count(ns.take(i), l)
        }),
    decreases i,
{
    let ns = work.last().nodes;
    let w = at(f, work, i);
    if i == 0 {
        assert(w == started(f, work)) by {
            assert(ns.take(0).len() == 0);
        }
        assert(work[work.len() - 1] == work.last());
        assert forall|k: int| 0 <= k < w.work.len() implies lowerable(
            (#[trigger] w.work[k]).nodes,
            w.flat.labels.dom(),
            true,
        ) && ends_marked(w.work[k].nodes) by {
            assert(w.work[k] == work[k]);
        }
        assert forall|l: usize| #[trigger]
            work_labels(w.work, l) + bound_count(w.flat, l) + label_count(ns, l) <= 1 + label_count(
            ns.take(i),
            l,
        ) by {
            assert(work_labels(work, l) + bound_count(f, l) <= 1);
        }
    } else {
        let prev = at(f, work, i - 1);
        let n = ns[i - 1];
        lemma_at_ready(f, work, i - 1);
        lemma_at_next(f, work, i - 1);
        lemma_lowerable_node(ns, prev.flat.labels.dom(), true, i - 1);
        lemma_step_keeps(prev, n, ns);
        assert(work[work.len() - 1] == work.last());
        lemma_marked_node(ns, i - 1);
        lemma_step_marked(prev, n);
        assert forall|l: usize| #[trigger]
            work_labels(w.work, l) + bound_count(w.flat, l) + label_count(ns, l) <= 1 + label_count(
            ns.take(i),
            l,
        ) by {
            assert(work_labels(prev.work, l) + bound_count(prev.flat, l) + label_count(ns, l) <= 1
                + label_count(ns.take(i - 1), l));
            lemma_step_labels(prev, n, l);
        }
    }
}

/// Whether `b` has the labels of `a`, bound as they are there.
pub open spec fn same_labels(a: Map<usize, usize>, b: Map<usize, usize>) -> bool {
    forall|l: usize| #[trigger] a.contains_key(l) ==> b.contains_key(l) && b[l] == a[l]
}

/// Once bound, a label stays as it is.
pub proof fn lemma_labels_stay(f: FlatV, work: Seq<TaskV>, i: int, j: int)
    requires
        work.len() > 0,
        ready(f, work),
        0 <= i <= j <= work.last().nodes.len(),
    ensures
        same_labels(at(f, work, i).flat.labels, at(f, work, j).flat.labels),
    decreases j - i,
{
    if i < j {
        let ns = work.last().nodes;
        let prev = at(f, work, j - 1);
        let n = ns[j - 1];
        lemma_labels_stay(f, work, i, j - 1);
        lemma_at_ready(f, work, j - 1);
        lemma_at_next(f, work, j - 1);
        if let NodeV::Region(r) = n {
            lemma_count_grows(ns, j - 1, r.label);
            assert(work_labels(prev.work, r.label) + bound_count(prev.flat, r.label) + label_count(
                ns,
                r.label,
            ) <= 1 + label_count(ns.take(j - 1), r.label));
            assert(!prev.flat.labels.contains_key(r.label));
            assert(prev.reachable ==> lower_step(prev, n) == lower_region(prev, r));
        }
        assert(same_labels(prev.flat.labels, at(f, work, j).flat.labels));
        assert forall|l: usize| #[trigger] at(f, work, i).flat.labels.contains_key(l) implies at(
            f,
            work,
            j,
        ).flat.labels.contains_key(l) && at(f, work, j).flat.labels[l] == at(
            f,
            work,
            i,
        ).flat.labels[l] by {
            assert(prev.flat.labels.contains_key(l));
        }
    }
}

// ---------------------------------------------------------------------------
// What a list executes
// ---------------------------------------------------------------------------
/// Whether the dispatch has all that `v` executes, leads to the labels that `v`
/// branches to, and to `after` where `v` falls through.
spec fn served(arms: Seq<ArmV>, labels: Map<usize, usize>, v: LiveV, after: usize) -> bool {
    &&& forall|t: Seq<char>| #[trigger] v.texts.contains(t) ==> reached_text(arms, t)
    &&& forall|l: usize| #[trigger]
        v.labels.contains(l) ==> labels.contains_key(l) && reachable(arms, 0, labels[l])
    &&& v.falls ==> reachable(arms, 0, after)
}

spec fn task_served(arms: Seq<ArmV>, labels: Map<usize, usize>, t: TaskV) -> bool {
    reachable(arms, 0, t.entry) ==> served(arms, labels, live_nodes(t.nodes), t.after)
}

/// The finished dispatch, seen from its last list: `arms` goes on from what the
/// list leaves behind, and what the list leaves to do is served.
spec fn outcome(f: FlatV, work: Seq<TaskV>, arms: Seq<ArmV>, labels: Map<usize, usize>) -> bool {
    let n = work.last().nodes.len() as int;
    &&& extends(arms, behind(f, work).arms)
    &&& forall|s: usize| #[trigger] arm_count(arms, s) <= 1
    &&& same_labels(at(f, work, n).flat.labels, labels)
    &&& forall|j: int|
        0 <= j < at(f, work, n).work.len() ==> task_served(
            arms,
            labels,
            #[trigger] at(f, work, n).work[j],
        )
}

/// The line that comes next stands in the dispatch, in the arm of the current
/// state.
proof fn lemma_next_line(
    f: FlatV,
    work: Seq<TaskV>,
    i: int,
    arms: Seq<ArmV>,
    labels: Map<usize, usize>,
)
    requires
        0 <= i <= work.last().nodes.len(),
        outcome(f, work, arms, labels),
        at(f, work, i).reachable,
        reachable(arms, 0, at(f, work, i).state),
    ensures
        reached_text(arms, next_line(f, work, i).1),
        forall|n: usize| #[trigger]
            pc_targets(next_line(f, work, i).1).contains(n) ==> reachable(arms, 0, n),
{
    let w = at(f, work, i);
    let line = next_line(f, work, i);
    let part = behind(f, work).arms;
    lemma_arm_closes(f, work, i);
    let k = choose|k: int|
        0 <= k < part.len() && (#[trigger] part[k]).0 == w.state && extends(
            part[k].1,
            w.stmts.push(line),
        );
    lemma_extends_at(arms, part, k);
    lemma_extends_at(arms[k].1, w.stmts.push(line), w.stmts.len() as int);
    assert(arms[k].1[w.stmts.len() as int] == line);
    assert forall|n: usize| #[trigger] pc_targets(line.1).contains(n) implies reachable(
        arms,
        0,
        n,
    ) by {
        assert(arm_count(arms, arms[k].0) <= 1);
        lemma_line_reaches(arms, k, w.stmts.len() as int, n);
    }
}

/// The labels that a list branches to, among those that are bound.
proof fn lemma_live_labels(ns: Seq<NodeV>, bound: Set<usize>)
    requires
        lowerable(ns, bound, true),
    ensures
        live_nodes(ns).labels.subset_of(bound),
    decreases nodes_size(ns), 1nat, ns.len(),
{
    if ns.len() > 0 {
        lemma_node_size(ns, ns.len() - 1);
        lemma_live_labels(ns.drop_last(), bound);
        let n = ns.last();
        assert(lowerable_node(n, bound, true));
        match n {
            NodeV::BrTable { selector, arms } => {
                assert forall|l: usize| arm_labels(arms).contains(l) implies bound.contains(l) by {
                    let i = choose|i: int| 0 <= i < arms.len() && (#[trigger] arms[i]).label == l;
                    assert(bound.contains(arms[i].label));
                }
            },
            NodeV::Region(r) => {
                lemma_region_labels(r, bound);
            },
            _ => {},
        }
        assert(live_node(n).labels.subset_of(bound));
    }
}

pub proof fn lemma_region_labels(r: RegionV, bound: Set<usize>)
    requires
        lowerable_region(r, bound, true),
    ensures
        live_region(r).labels.subset_of(bound),
    decreases region_size(r), 0nat, 0nat,
{
    let inner = bound.insert(r.label);
    lemma_live_labels(r.body, inner);
    if let Some(els) = r.els {
        lemma_live_labels(els, inner);
    }
    assert forall|l: usize| live_region(r).labels.contains(l) implies bound.contains(l) by {
        assert(inner.contains(l));
    }
}

/// A region behind the first `i` nodes.
proof fn lemma_region_served(
    f: FlatV,
    work: Seq<TaskV>,
    i: int,
    r: RegionV,
    arms: Seq<ArmV>,
    labels: Map<usize, usize>,
)
    requires
        work.len() > 0,
        ready(f, work),
        0 <= i < work.last().nodes.len(),
        work.last().nodes[i] == NodeV::Region(r),
        outcome(f, work, arms, labels),
        at(f, work, i).reachable,
        reachable(arms, 0, at(f, work, i).state),
    ensures
        served(arms, labels, live_region(r), at(f, work, i + 1).state),
        at(f, work, i + 1).reachable,
{
    let ns = work.last().nodes;
    let n = ns.len() as int;
    let w = at(f, work, i);
    let w1 = at(f, work, i + 1);
    let v = live_region(r);
    lemma_at_next(f, work, i);
    assert(w1 == lower_region(w, r));
    lemma_step_shape(w, ns[i]);
    lemma_next_line(f, work, i, arms, labels);
    lemma_at_ready(f, work, i);
    lemma_lowerable_node(ns, w.flat.labels.dom(), true, i);
    assert(lowerable_region(r, w.flat.labels.dom(), true));
    lemma_labels_stay(f, work, i + 1, n);
    lemma_labels_stay(f, work, i, n);
    lemma_at_extends(f, work, i + 1, n);
    let first = w.flat.next_state;
    let second = inc(first);
    let line = next_line(f, work, i);
    let at_body = w.work.len() as int;
    if r.kind == FrameKind::If {
        let body = TaskV { nodes: r.body, entry: second, after: first };
        assert(w1.work[at_body] == body);
        lemma_extends_at(at(f, work, n).work, w1.work, at_body);
        assert(task_served(arms, labels, at(f, work, n).work[at_body]));
        assert(w1.flat.labels[r.label] == first);
        assert(labels.contains_key(r.label) && labels[r.label] == first) by {
            assert(w1.flat.labels.contains_key(r.label));
            assert(at(f, work, n).flat.labels.contains_key(r.label));
        }
        match r.els {
            Some(els) => {
                let third = inc(second);
                let other = TaskV { nodes: els, entry: third, after: first };
                assert(w1.work[at_body + 1] == other);
                lemma_extends_at(at(f, work, n).work, w1.work, at_body + 1);
                assert(task_served(arms, labels, at(f, work, n).work[at_body + 1]));
                lemma_fork(cond_text(r.cond), second, third);
            },
            None => {
                lemma_fork(cond_text(r.cond), second, first);
            },
        }
    } else if structurable(r) {
        let s = structured_loop(w.flat.labels, r, second);
        let none = StructV { out: Seq::empty(), escapes: false };
        let inside = structured_region(none, w.flat.labels, r, 0);
        let k = w.flat.arms.len() as int + 1;
        lemma_jump(first);
        assert(reachable(arms, 0, first));
        assert(w1.flat.arms[k] == (first, s.out));
        lemma_behind_extends(f, work, i + 1);
        lemma_extends_at(behind(f, work).arms, w1.flat.arms, k);
        lemma_extends_at(arms, behind(f, work).arms, k);
        assert(arms[k] == (first, s.out));
        assert(arm_count(arms, first) <= 1);
        lemma_region_rendered(none, w.flat.labels, r, 0);
        assert(extends(s.out, inside.out)) by {
            if r.reachable_at_end {
                lemma_extends_push(inside.out, (0usize, ("pc = "@ + dec(second as nat) + ";"@)));
            } else {
                lemma_extends_self(inside.out);
            }
        }
        assert forall|t: Seq<char>| #[trigger] v.texts.contains(t) implies reached_text(
            arms,
            t,
        ) by {
            assert(has_line(inside.out, t));
            let q = choose|q: int| 0 <= q < inside.out.len() && (#[trigger] inside.out[q]).1 == t;
            lemma_extends_at(s.out, inside.out, q);
            assert(arms[k].1[q].1 == t);
        }
        lemma_region_labels(r, w.flat.labels.dom());
        assert forall|l: usize| #[trigger] v.labels.contains(l) implies labels.contains_key(l)
            && reachable(arms, 0, labels[l]) by {
            assert(w.flat.labels.contains_key(l));
            assert(leads(inside.out, w.flat.labels[l]));
            let q = choose|q: int|
                0 <= q < inside.out.len() && pc_targets((#[trigger] inside.out[q]).1).contains(
                    w.flat.labels[l],
                );
            lemma_extends_at(s.out, inside.out, q);
            assert(arms[k].1[q] == inside.out[q]);
            lemma_line_reaches(arms, k, q, w.flat.labels[l]);
            assert(at(f, work, n).flat.labels.contains_key(l));
        }
        if v.falls {
            assert(work[work.len() - 1] == work.last());
            lemma_marked_node(ns, i);
            assert(r.reachable_at_end);
            lemma_jump(second);
            let q = inside.out.len() as int;
            assert(arms[k].1[q].1 == ("pc = "@ + dec(second as nat) + ";"@));
            lemma_line_reaches(arms, k, q, second);
        }
    } else {
        let body = TaskV { nodes: r.body, entry: first, after: second };
        assert(w1.work[at_body] == body);
        lemma_extends_at(at(f, work, n).work, w1.work, at_body);
        assert(task_served(arms, labels, at(f, work, n).work[at_body]));
        lemma_jump(first);
        assert(reachable(arms, 0, first));
        assert(w1.flat.labels.contains_key(r.label));
        assert(at(f, work, n).flat.labels.contains_key(r.label));
    }
}

/// The first `i` nodes of the last list.
proof fn lemma_prefix_served(
    f: FlatV,
    work: Seq<TaskV>,
    i: int,
    arms: Seq<ArmV>,
    labels: Map<usize, usize>,
)
    requires
        work.len() > 0,
        ready(f, work),
        0 <= i <= work.last().nodes.len(),
        outcome(f, work, arms, labels),
        reachable(arms, 0, work.last().entry),
    ensures
        served(
            arms,
            labels,
            live_nodes(work.last().nodes.take(i)),
            at(f, work, i).state,
        ),
        live_nodes(work.last().nodes.take(i)).falls ==> at(f, work, i).reachable,
    decreases i,
{
    let ns = work.last().nodes;
    let last = ns.len() as int;
    let v = live_nodes(ns.take(i));
    if i == 0 {
        assert(ns.take(0).len() == 0);
        assert(at(f, work, 0) == started(f, work));
    } else {
        let n = ns[i - 1];
        let w = at(f, work, i - 1);
        let before = live_nodes(ns.take(i - 1));
        lemma_prefix_served(f, work, i - 1, arms, labels);
        lemma_at_next(f, work, i - 1);
        assert(v == before.before(live_node(n)));
        if before.falls {
            lemma_next_line(f, work, i - 1, arms, labels);
            lemma_step_shape(w, n);
            lemma_at_ready(f, work, i - 1);
            lemma_lowerable_node(ns, w.flat.labels.dom(), true, i - 1);
            lemma_labels_stay(f, work, i - 1, last);
            let line = next_line(f, work, i - 1);
            assert(served(arms, labels, live_node(n), at(f, work, i).state)) by {
                match n {
                    NodeV::Line(text) => {
                        assert(line.1 == text);
                    },
                    NodeV::Term(text) => {
                        assert(line.1 == text);
                    },
                    NodeV::Br { label, is_loop } => {
                        lemma_jump(w.flat.labels[label]);
                        assert(w.flat.labels.contains_key(label));
                        assert(at(f, work, last).flat.labels.contains_key(label));
                    },
                    NodeV::BrIf { cond, label, is_loop, assigns } => {
                        reveal_strlit("; continue 'sm; }");
                        lemma_written_edge(
                            ("if "@ + cond + " { "@ + assigns_text(assigns)),
                            w.flat.labels[label],
                            "; continue 'sm; }"@,
                        );
                        assert(w.flat.labels.contains_key(label));
                        assert(at(f, work, last).flat.labels.contains_key(label));
                    },
                    NodeV::BrTable { selector, arms: table } => {
                        assert forall|l: usize| #[trigger]
                            arm_labels(table).contains(l) implies labels.contains_key(l)
                            && reachable(arms, 0, labels[l]) by {
                            let q = choose|q: int|
                                0 <= q < table.len() && (#[trigger] table[q]).label == l;
                            lemma_table_edge(
                                ("match ("@ + selector + ") as u32 { "@),
                                table,
                                w.flat.labels,
                                "}"@,
                                q,
                            );
                            assert(w.flat.labels.contains_key(l));
                            assert(at(f, work, last).flat.labels.contains_key(l));
                        }
                    },
                    NodeV::Region(r) => {
                        lemma_region_served(f, work, i - 1, r, arms, labels);
                    },
                    _ => {},
                }
            }
            assert(live_node(n).falls ==> at(f, work, i).reachable) by {
                if let NodeV::Region(r) = n {
                    lemma_region_served(f, work, i - 1, r, arms, labels);
                }
            }
        }
    }
}

/// The last list of the work.
proof fn lemma_list_served(
    f: FlatV,
    work: Seq<TaskV>,
    arms: Seq<ArmV>,
    labels: Map<usize, usize>,
)
    requires
        work.len() > 0,
        ready(f, work),
        outcome(f, work, arms, labels),
    ensures
        task_served(arms, labels, work.last()),
{
    let t = work.last();
    let n = t.nodes.len() as int;
    if reachable(arms, 0, t.entry) {
        lemma_prefix_served(f, work, n, arms, labels);
        assert(t.nodes.take(n) =~= t.nodes);
        if live_nodes(t.nodes).falls {
            lemma_next_line(f, work, n, arms, labels);
            lemma_jump(t.after);
        }
    }
}

/// All lists of the work.
proof fn lemma_work_served(f: FlatV, work: Seq<TaskV>)
    requires
        ready(f, work),
        forall|s: usize| #[trigger] arm_count(lower_work(f, work).arms, s) <= 1,
    ensures
        extends(lower_work(f, work).arms, f.arms),
        same_labels(f.labels, lower_work(f, work).labels),
        forall|j: int|
            0 <= j < work.len() ==> task_served(
                lower_work(f, work).arms,
                lower_work(f, work).labels,
                #[trigger] work[j],
            ),
    decreases work_size(work),
{
    if work.len() == 0 {
        lemma_extends_self(f.arms);
    } else {
        let ns = work.last().nodes;
        let n = ns.len() as int;
        assert(ns.take(n) =~= ns);
        let w = at(f, work, n);
        let f2 = behind(f, work);
        let r = lower_work(f, work);
        lemma_at_ready(f, work, n);
        assert(work_size(w.work) < work_size(work));
        assert(r == lower_work(f2, w.work));
        assert(labels_unique(f2, w.work)) by {
            assert forall|l: usize| #[trigger] work_labels(w.work, l) + bound_count(f2, l) <= 1 by {
                assert(work_labels(w.work, l) + bound_count(w.flat, l) + label_count(ns, l) <= 1
                    + label_count(ns.take(n), l));
            }
        }
        lemma_work_served(f2, w.work);
        assert(outcome(f, work, r.arms, r.labels));
        lemma_list_served(f, work, r.arms, r.labels);
        lemma_behind_extends(f, work, 0);
        lemma_at_extends(f, work, 0, n);
        lemma_labels_stay(f, work, 0, n);
        assert(ns.take(0).len() == 0);
        assert(at(f, work, 0) == started(f, work));
        lemma_extends_further(r.arms, f2.arms, f.arms);
        assert forall|l: usize| #[trigger] f.labels.contains_key(l) implies r.labels.contains_key(l)
            && r.labels[l] == f.labels[l] by {
            assert(at(f, work, 0).flat.labels.contains_key(l));
            assert(w.flat.labels.contains_key(l));
            assert(f2.labels.contains_key(l));
        }
        assert forall|j: int| 0 <= j < work.len() implies task_served(
            r.arms,
            r.labels,
            #[trigger] work[j],
        ) by {
            if j < work.len() - 1 {
                assert(work.drop_last()[j] == work[j]);
                lemma_extends_at(w.work, work.drop_last(), j);
                assert(task_served(r.arms, r.labels, w.work[j]));
            } else {
                assert(work[j] == work.last());
            }
        }
    }
}

/// Flattening keeps every statement that the body can execute: it stands in an arm
/// of the dispatch that the entry leads to. And where the body falls through, the
/// entry leads to the exit. (The labels of the regions are all different, the ends
/// of loops are marked, and the number of states fits a machine word.)
pub proof fn law_flattening_keeps_live_statements(nodes: Seq<NodeV>, exit_stmt: Seq<char>)
    requires
        lowerable(nodes, Set::empty(), true),
        ends_marked(nodes),
        forall|l: usize| #[trigger] label_count(nodes, l) <= 1,
        3 * nodes_size(nodes) + 8 <= usize::MAX,
    ensures
        forall|t: Seq<char>| #[trigger]
            live_nodes(nodes).texts.contains(t) ==> reached_text(
                flat_body(nodes, exit_stmt, true).arms,
                t,
            ),
        live_nodes(nodes).falls ==> reachable(flat_body(nodes, exit_stmt, true).arms, 0, 1),
{
    let f = fresh_flat(exit_stmt, true);
    let task = TaskV { nodes, entry: 0, after: 1 };
    let work = Seq::<TaskV>::empty().push(task);
    let r = flat_body(nodes, exit_stmt, true);
    assert(r == lower_work(f, work));
    assert(f.labels.dom() =~= Set::<usize>::empty());
    assert forall|s: usize| #[trigger] arm_count(r.arms, s) <= 1 by {
        law_states_have_one_arm(nodes, exit_stmt, true, s);
    }
    assert forall|l: usize| #[trigger] work_labels(work, l) + bound_count(f, l) <= 1 by {
        lemma_labels_pushed(Seq::empty(), task, l);
        assert(label_count(nodes, l) <= 1);
    }
    lemma_work_served(f, work);
    lemma_reach_self(r.arms, 0);
    assert(task_served(r.arms, r.labels, work[0]));
}

} // verus!
