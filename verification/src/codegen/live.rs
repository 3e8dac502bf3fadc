//! Flattening keeps every statement that can be executed.
//!
//! What a body can execute is read off its tree: which statements control gets to,
//! which labels it branches to, and whether it falls through. The dispatch that the
//! tree is lowered to has each such statement in an arm that its entry leads to.

use vstd::prelude::*;

use crate::codegen::edges::reachable;
use crate::codegen::flatten::{
    structured_arms, structured_assigns, structured_branch_text, structured_inner, structured_node,
    structured_nodes, structured_region, table_arms_text, ArmV, LineV, StructV,
};
use crate::codegen::ir::{
    assigns_text, breaks_at_end, cond_text, lemma_node_size, node_size, nodes_size, region_header,
    region_size, BrArmV, FrameKind, NodeV, RegionV,
};
use crate::codegen::scan::{
    digits_end, edge_at, is_digit, lemma_digits_end, pc_targets, state_value, targets_from,
};
use crate::codegen::text_laws::{law_numbers_read_back, lemma_digit_run};
use crate::text::{dec, inc};

verus! {

// ---------------------------------------------------------------------------
// What a body can execute
// ---------------------------------------------------------------------------
/// What control gets to: statements, the labels of regions outside that it
/// branches to, and whether it falls through.
pub struct LiveV {
    pub texts: Set<Seq<char>>,
    pub labels: Set<usize>,
    pub falls: bool,
}

impl LiveV {
    /// No statement and no branch.
    pub open spec fn nothing(falls: bool) -> LiveV {
        LiveV { texts: Set::empty(), labels: Set::empty(), falls }
    }

    /// One statement.
    pub open spec fn one(text: Seq<char>, falls: bool) -> LiveV {
        LiveV { texts: Set::empty().insert(text), labels: Set::empty(), falls }
    }

    /// Branches to some labels.
    pub open spec fn branching(labels: Set<usize>, falls: bool) -> LiveV {
        LiveV { texts: Set::empty(), labels, falls }
    }

    /// One thing behind the other, which is reached only if the first falls
    /// through.
    pub open spec fn before(self, next: LiveV) -> LiveV {
        if self.falls {
            LiveV {
                texts: self.texts.union(next.texts),
                labels: self.labels.union(next.labels),
                falls: next.falls,
            }
        } else {
            self
        }
    }

    /// One thing or the other.
    pub open spec fn or(self, other: LiveV) -> LiveV {
        LiveV {
            texts: self.texts.union(other.texts),
            labels: self.labels.union(other.labels),
            falls: self.falls || other.falls,
        }
    }

    /// The inside of the region `label`, seen from outside; `ends` says whether a
    /// branch to the label ends the region.
    pub open spec fn enclosed(self, label: usize, ends: bool) -> LiveV {
        LiveV {
            texts: self.texts,
            labels: self.labels.remove(label),
            falls: self.falls || (ends && self.labels.contains(label)),
        }
    }
}

/// The labels that the arms of a table branch to.
pub open spec fn arm_labels(arms: Seq<BrArmV>) -> Set<usize> {
    Set::new(|l: usize| exists|i: int| 0 <= i < arms.len() && (#[trigger] arms[i]).label == l)
}

/// What a list of nodes executes once control enters it.
pub open spec fn live_nodes(ns: Seq<NodeV>) -> LiveV
    decreases ns,
{
    if ns.len() == 0 {
        LiveV::nothing(true)
    } else {
        live_nodes(ns.drop_last()).before(live_node(ns.last()))
    }
}

pub open spec fn live_node(n: NodeV) -> LiveV
    decreases n,
{
    match n {
        NodeV::Line(text) => LiveV::one(text, true),
        NodeV::Term(text) => LiveV::one(text, false),
        NodeV::Br { label, .. } => LiveV::branching(Set::empty().insert(label), false),
        NodeV::BrIf { label, .. } => LiveV::branching(Set::empty().insert(label), true),
        NodeV::BrTable { arms, .. } => LiveV::branching(arm_labels(arms), false),
        NodeV::Region(r) => live_region(r),
        _ => LiveV::nothing(true),
    }
}

pub open spec fn live_region(r: RegionV) -> LiveV
    decreases r,
{
    let body = live_nodes(r.body);
    let inside = if r.kind == FrameKind::If {
        match r.els {
            Some(els) => body.or(live_nodes(els)),
            None => body.or(LiveV::nothing(true)),
        }
    } else {
        body
    };
    inside.enclosed(r.label, r.kind != FrameKind::Loop)
}

/// Whether every loop whose end can be reached is marked so.
pub open spec fn ends_marked(ns: Seq<NodeV>) -> bool
    decreases ns,
{
    ns.len() == 0 || (ends_marked(ns.drop_last()) && match ns.last() {
        NodeV::Region(r) => region_end_marked(r),
        _ => true,
    })
}

pub open spec fn region_end_marked(r: RegionV) -> bool
    decreases r,
{
    &&& r.kind == FrameKind::Loop && live_nodes(r.body).falls ==> r.reachable_at_end
    &&& ends_marked(r.body)
    &&& match r.els {
        Some(els) => ends_marked(els),
        None => true,
    }
}

/// How many regions have the label `l`.
pub open spec fn label_count(ns: Seq<NodeV>, l: usize) -> nat
    decreases ns,
{
    if ns.len() == 0 {
        0
    } else {
        label_count(ns.drop_last(), l) + match ns.last() {
            NodeV::Region(r) => region_label_count(r, l),
            _ => 0,
        }
    }
}

pub open spec fn region_label_count(r: RegionV, l: usize) -> nat
    decreases r,
{
    label_count(r.body, l) + match r.els {
        Some(els) => label_count(els, l),
        None => 0,
    } + if r.label == l {
        1nat
    } else {
        0
    }
}

/// Whether the statement `t` stands in an arm that the state 0 leads to.
pub open spec fn reached_text(arms: Seq<ArmV>, t: Seq<char>) -> bool {
    exists|k: int, i: int|
        #![trigger arms[k].1[i]]
        0 <= k < arms.len() && 0 <= i < arms[k].1.len() && reachable(arms, 0, arms[k].0)
            && arms[k].1[i].1 == t
}

// ---------------------------------------------------------------------------
// Edges that are written
// ---------------------------------------------------------------------------
/// An edge that is written somewhere is read off from any position in front.
proof fn lemma_edge_found(t: Seq<char>, j: int, i: int)
    requires
        0 <= j <= i,
        edge_at(t, i),
    ensures
        targets_from(t, j).contains(state_value(t.subrange(i + 5, digits_end(t, i + 5)))),
    decreases i - j,
{
    reveal_strlit("pc = ");
    let want = state_value(t.subrange(i + 5, digits_end(t, i + 5)));
    assert(t.subrange(i, i + 5)[0] == t[i]);
    if edge_at(t, j) {
        let e = digits_end(t, j + 5);
        lemma_digits_end(t, j + 5);
        let rest = targets_from(t, e);
        let own = state_value(t.subrange(j + 5, e));
        if i == j {
            assert((seq![own] + rest)[0] == want);
        } else {
            let head = t.subrange(j, j + 5);
            if i < j + 5 {
                assert(head[i - j] == t[i]);
            }
            if j + 5 <= i && i < e {
                assert(is_digit(t[i]));
            }
            lemma_edge_found(t, e, i);
            let k = choose|k: int| 0 <= k < rest.len() && rest[k] == want;
            assert((seq![own] + rest)[k + 1] == want);
        }
    } else {
        lemma_edge_found(t, j + 1, i);
    }
}

/// What is written as an edge is read as one.
pub proof fn lemma_written_edge(pre: Seq<char>, n: usize, post: Seq<char>)
    requires
        post.len() > 0,
        !is_digit(post[0]),
    ensures
        pc_targets(pre + "pc = "@ + dec(n as nat) + post).contains(n),
{
    reveal_strlit("pc = ");
    let t = pre + "pc = "@ + dec(n as nat) + post;
    let i = pre.len() as int;
    let d = dec(n as nat);
    law_numbers_read_back(n as nat);
    assert(t.subrange(i, i + 5) =~= "pc = "@);
    assert forall|k: int| i + 5 <= k < i + 5 + d.len() implies is_digit(#[trigger] t[k]) by {
        assert(t[k] == d[k - i - 5]);
    }
    assert(t[i + 5 + d.len()] == post[0]);
    lemma_digit_run(t, i + 5, d.len() as int);
    assert(t.subrange(i + 5, i + 5 + d.len()) =~= d);
    lemma_edge_found(t, 0, i);
}

/// An edge inside a longer text.
proof fn lemma_inner_edge(
    head: Seq<char>,
    pre: Seq<char>,
    n: usize,
    post: Seq<char>,
    tail: Seq<char>,
)
    requires
        post.len() > 0,
        !is_digit(post[0]),
    ensures
        pc_targets(head + (pre + "pc = "@ + dec(n as nat) + post) + tail).contains(n),
{
    lemma_written_edge(head + pre, n, post + tail);
    assert(head + (pre + "pc = "@ + dec(n as nat) + post) + tail =~= (head + pre) + "pc = "@ + dec(
        n as nat,
    ) + (post + tail));
}

pub proof fn lemma_jump(n: usize)
    ensures
        pc_targets(("pc = "@ + dec(n as nat) + ";"@)).contains(n),
{
    reveal_strlit(";");
    lemma_written_edge(Seq::empty(), n, ";"@);
    assert(Seq::<char>::empty() + "pc = "@ + dec(n as nat) + ";"@ =~= ("pc = "@ + dec(n as nat)
        + ";"@));
}

pub proof fn lemma_fork(cond: Seq<char>, a: usize, b: usize)
    ensures
        pc_targets(("if "@ + cond + " { pc = "@ + dec(a as nat) + "; } else { pc = "@
            + dec(b as nat) + "; }"@)).contains(a),
        pc_targets(("if "@ + cond + " { pc = "@ + dec(a as nat) + "; } else { pc = "@
            + dec(b as nat) + "; }"@)).contains(b),
{
    reveal_strlit(" { pc = ");
    reveal_strlit(" { ");
    reveal_strlit("pc = ");
    reveal_strlit("; } else { pc = ");
    reveal_strlit("; } else { ");
    reveal_strlit("; }");
    let t = ("if "@ + cond + " { pc = "@ + dec(a as nat) + "; } else { pc = "@ + dec(b as nat)
        + "; }"@);
    let post = ("; } else { pc = "@ + dec(b as nat) + "; }"@);
    lemma_written_edge(("if "@ + cond + " { "@), a, post);
    assert(" { pc = "@ =~= " { "@ + "pc = "@);
    assert(t =~= ("if "@ + cond + " { "@) + "pc = "@ + dec(a as nat) + post);
    let pre = ("if "@ + cond + " { pc = "@ + dec(a as nat) + "; } else { "@);
    lemma_written_edge(pre, b, "; }"@);
    assert("; } else { pc = "@ =~= "; } else { "@ + "pc = "@);
    assert(t =~= pre + "pc = "@ + dec(b as nat) + "; }"@);
}

/// Every arm of a table has its edge.
pub proof fn lemma_table_edge(
    head: Seq<char>,
    arms: Seq<BrArmV>,
    labels: Map<usize, usize>,
    tail: Seq<char>,
    i: int,
)
    requires
        0 <= i < arms.len(),
    ensures
        pc_targets(head + table_arms_text(arms, labels) + tail).contains(labels[arms[i].label]),
    decreases arms.len(),
{
    let a = arms.last();
    let front = table_arms_text(arms.drop_last(), labels);
    let n = labels[a.label];
    let own = (a.pattern + " => { "@ + assigns_text(a.assigns) + "pc = "@ + dec(n as nat)
        + "; } "@);
    if i == arms.len() - 1 {
        reveal_strlit("; } ");
        lemma_inner_edge(
            head + front,
            (a.pattern + " => { "@ + assigns_text(a.assigns)),
            n,
            "; } "@,
            tail,
        );
        assert(head + table_arms_text(arms, labels) + tail =~= (head + front) + own + tail);
    } else {
        lemma_table_edge(head, arms.drop_last(), labels, own + tail, i);
        assert(head + table_arms_text(arms, labels) + tail =~= head + front + (own + tail));
    }
}

// ---------------------------------------------------------------------------
// Structured loops
// ---------------------------------------------------------------------------
/// Whether `a` starts with `b`.
pub open spec fn extends<T>(a: Seq<T>, b: Seq<T>) -> bool {
    b.len() <= a.len() && a.take(b.len() as int) == b
}

pub proof fn lemma_extends_further<T>(a: Seq<T>, b: Seq<T>, c: Seq<T>)
    requires
        extends(a, b),
        extends(b, c),
    ensures
        extends(a, c),
{
    assert(a.take(c.len() as int) =~= a.take(b.len() as int).take(c.len() as int));
}

pub proof fn lemma_extends_at<T>(a: Seq<T>, b: Seq<T>, i: int)
    requires
        extends(a, b),
        0 <= i < b.len(),
    ensures
        a[i] == b[i],
{
    assert(a.take(b.len() as int)[i] == a[i]);
}

pub proof fn lemma_extends_push<T>(a: Seq<T>, x: T)
    ensures
        extends(a.push(x), a),
{
    assert(a.push(x).take(a.len() as int) =~= a);
}

pub proof fn lemma_extends_self<T>(a: Seq<T>)
    ensures
        extends(a, a),
{
    assert(a.take(a.len() as int) =~= a);
}

/// Whether a line of `out` reads `t`.
pub open spec fn has_line(out: Seq<LineV>, t: Seq<char>) -> bool {
    exists|i: int| 0 <= i < out.len() && (#[trigger] out[i]).1 == t
}

/// Whether a line of `out` has an edge to `n`.
pub open spec fn leads(out: Seq<LineV>, n: usize) -> bool {
    exists|i: int| 0 <= i < out.len() && pc_targets((#[trigger] out[i]).1).contains(n)
}

/// Whether the lines have all that `v` executes, as far as it leaves through
/// `labels`.
pub open spec fn rendered(out: Seq<LineV>, labels: Map<usize, usize>, v: LiveV) -> bool {
    &&& forall|t: Seq<char>| #[trigger] v.texts.contains(t) ==> has_line(out, t)
    &&& forall|l: usize| #[trigger]
        v.labels.contains(l) && labels.contains_key(l) ==> leads(out, labels[l])
}

proof fn lemma_rendered_longer(
    a: Seq<LineV>,
    b: Seq<LineV>,
    labels: Map<usize, usize>,
    v: LiveV,
)
    requires
        rendered(b, labels, v),
        extends(a, b),
    ensures
        rendered(a, labels, v),
{
    assert forall|t: Seq<char>| #[trigger] v.texts.contains(t) implies has_line(a, t) by {
        let i = choose|i: int| 0 <= i < b.len() && (#[trigger] b[i]).1 == t;
        lemma_extends_at(a, b, i);
        assert(a[i].1 == t);
    }
    assert forall|l: usize| #[trigger]
        v.labels.contains(l) && labels.contains_key(l) implies leads(a, labels[l]) by {
        let i = choose|i: int|
            0 <= i < b.len() && pc_targets((#[trigger] b[i]).1).contains(labels[l]);
        lemma_extends_at(a, b, i);
        assert(pc_targets(a[i].1).contains(labels[l]));
    }
}

proof fn lemma_line_extends(s: StructV, depth: usize, text: Seq<char>)
    ensures
        extends(s.line(depth, text).out, s.out),
        has_line(s.line(depth, text).out, text),
        forall|n: usize| #[trigger]
            pc_targets(text).contains(n) ==> leads(s.line(depth, text).out, n),
{
    let out = s.line(depth, text).out;
    lemma_extends_push(s.out, (depth, text));
    assert(out[s.out.len() as int].1 == text);
}

proof fn lemma_assigns_extend(
    s: StructV,
    assigns: Seq<(Seq<char>, Seq<char>)>,
    depth: usize,
)
    ensures
        extends(structured_assigns(s, assigns, depth).out, s.out),
    decreases assigns.len(),
{
    if assigns.len() == 0 {
        lemma_extends_self(s.out);
    } else {
        let front = structured_assigns(s, assigns.drop_last(), depth);
        lemma_assigns_extend(s, assigns.drop_last(), depth);
        lemma_line_extends(front, depth, (assigns.last().0 + " = "@ + assigns.last().1 + ";"@));
        lemma_extends_further(structured_assigns(s, assigns, depth).out, front.out, s.out);
    }
}

/// A branch to a bound label is an edge of the line that holds it.
proof fn lemma_branch_edge(
    head: Seq<char>,
    labels: Map<usize, usize>,
    label: usize,
    is_loop: bool,
    assigns: Seq<char>,
    tail: Seq<char>,
)
    requires
        labels.contains_key(label),
    ensures
        pc_targets(head + structured_branch_text(labels, label, is_loop, assigns) + tail).contains(
            labels[label],
        ),
{
    reveal_strlit("; continue 'sm;");
    lemma_inner_edge(head, assigns, labels[label], "; continue 'sm;"@, tail);
}

proof fn lemma_arms_rendered(
    s: StructV,
    labels: Map<usize, usize>,
    arms: Seq<BrArmV>,
    depth: usize,
)
    ensures
        extends(structured_arms(s, labels, arms, depth).out, s.out),
        rendered(
            structured_arms(s, labels, arms, depth).out,
            labels,
            LiveV::branching(arm_labels(arms), false),
        ),
    decreases arms.len(),
{
    let all = structured_arms(s, labels, arms, depth);
    let v = LiveV::branching(arm_labels(arms), false);
    if arms.len() == 0 {
        lemma_extends_self(s.out);
    } else {
        let front = structured_arms(s, labels, arms.drop_last(), depth);
        lemma_arms_rendered(s, labels, arms.drop_last(), depth);
        let a = arms.last();
        let br = structured_branch_text(labels, a.label, a.is_loop, assigns_text(a.assigns));
        let text = (a.pattern + " => { "@ + br + " },"@);
        lemma_line_extends(front.branching(labels, a.label), depth, text);
        assert(extends(all.out, front.out));
        lemma_extends_further(all.out, front.out, s.out);
        let before = LiveV::branching(arm_labels(arms.drop_last()), false);
        lemma_rendered_longer(all.out, front.out, labels, before);
        assert forall|l: usize| #[trigger]
            v.labels.contains(l) && labels.contains_key(l) implies leads(all.out, labels[l]) by {
            let i = choose|i: int| 0 <= i < arms.len() && (#[trigger] arms[i]).label == l;
            if i < arms.len() - 1 {
                assert(arms.drop_last()[i].label == l);
                assert(before.labels.contains(l));
            } else {
                lemma_branch_edge(
                    (a.pattern + " => { "@),
                    labels,
                    l,
                    a.is_loop,
                    assigns_text(a.assigns),
                    " },"@,
                );
            }
        }
    }
}

proof fn lemma_nodes_rendered(
    s: StructV,
    labels: Map<usize, usize>,
    ns: Seq<NodeV>,
    depth: usize,
)
    ensures
        extends(structured_nodes(s, labels, ns, depth).out, s.out),
        rendered(structured_nodes(s, labels, ns, depth).out, labels, live_nodes(ns)),
    decreases nodes_size(ns), 3nat, ns.len(),
{
    let all = structured_nodes(s, labels, ns, depth);
    if ns.len() == 0 {
        lemma_extends_self(s.out);
    } else {
        let t = structured_nodes(s, labels, ns.drop_last(), depth);
        let n = ns.last();
        lemma_node_size(ns, ns.len() - 1);
        lemma_nodes_rendered(s, labels, ns.drop_last(), depth);
        lemma_node_rendered(t, labels, n, depth);
        lemma_extends_further(all.out, t.out, s.out);
        lemma_rendered_longer(all.out, t.out, labels, live_nodes(ns.drop_last()));
    }
}

proof fn lemma_node_rendered(s: StructV, labels: Map<usize, usize>, n: NodeV, depth: usize)
    ensures
        extends(structured_node(s, labels, n, depth).out, s.out),
        rendered(structured_node(s, labels, n, depth).out, labels, live_node(n)),
    decreases node_size(n), 2nat, 0nat,
{
    let all = structured_node(s, labels, n, depth);
    match n {
        NodeV::Line(text) => {
            lemma_line_extends(s, depth, text);
        },
        NodeV::Term(text) => {
            lemma_line_extends(s, depth, text);
        },
        NodeV::Br { label, is_loop } => {
            let text = structured_branch_text(labels, label, is_loop, ""@);
            lemma_line_extends(s.branching(labels, label), depth, text);
            if labels.contains_key(label) {
                lemma_branch_edge(Seq::empty(), labels, label, is_loop, ""@, Seq::empty());
                assert(Seq::<char>::empty() + text + Seq::<char>::empty() =~= text);
            }
        },
        NodeV::BrIf { cond, label, is_loop, assigns } => {
            let br = structured_branch_text(labels, label, is_loop, ""@);
            if assigns.len() == 0 {
                let text = ("if "@ + cond + " { "@ + br + " }"@);
                lemma_line_extends(s.branching(labels, label), depth, text);
                if labels.contains_key(label) {
                    lemma_branch_edge(("if "@ + cond + " { "@), labels, label, is_loop, ""@, " }"@);
                }
            } else {
                let s1 = s.line(depth, ("if "@ + cond + " {"@));
                let s2 = structured_assigns(s1, assigns, inc(depth)).branching(labels, label);
                let s3 = s2.line(inc(depth), br);
                lemma_line_extends(s, depth, ("if "@ + cond + " {"@));
                lemma_assigns_extend(s1, assigns, inc(depth));
                lemma_line_extends(s2, inc(depth), br);
                lemma_line_extends(s3, depth, "}"@);
                lemma_extends_further(s2.out, s1.out, s.out);
                lemma_extends_further(s3.out, s2.out, s.out);
                lemma_extends_further(all.out, s3.out, s.out);
                if labels.contains_key(label) {
                    lemma_branch_edge(Seq::empty(), labels, label, is_loop, ""@, Seq::empty());
                    assert(Seq::<char>::empty() + br + Seq::<char>::empty() =~= br);
                }
                assert(rendered(s3.out, labels, live_node(n)));
                lemma_rendered_longer(all.out, s3.out, labels, live_node(n));
            }
        },
        NodeV::BrTable { selector, arms } => {
            let s1 = s.line(depth, ("match ("@ + selector + ") as u32 {"@));
            let s2 = structured_arms(s1, labels, arms, inc(depth));
            lemma_line_extends(s, depth, ("match ("@ + selector + ") as u32 {"@));
            lemma_arms_rendered(s1, labels, arms, inc(depth));
            lemma_line_extends(s2, depth, "}"@);
            lemma_extends_further(s2.out, s1.out, s.out);
            lemma_extends_further(all.out, s2.out, s.out);
            lemma_rendered_longer(all.out, s2.out, labels, live_node(n));
        },
        NodeV::Region(r) => {
            lemma_region_rendered(s, labels, r, depth);
        },
        _ => {
            lemma_extends_self(s.out);
        },
    }
}

pub proof fn lemma_inner_rendered(s: StructV, labels: Map<usize, usize>, r: RegionV, depth: usize)
    ensures
        extends(structured_inner(s, labels, r, depth).out, s.out),
        rendered(structured_inner(s, labels, r, depth).out, labels, live_region(r)),
    decreases region_size(r), 0nat, 0nat,
{
    let all = structured_inner(s, labels, r, depth);
    match r.kind {
        FrameKind::If => {
            let s1 = s.line(depth, ("if "@ + cond_text(r.cond) + " {"@));
            lemma_line_extends(s, depth, ("if "@ + cond_text(r.cond) + " {"@));
            lemma_nodes_rendered(s1, labels, r.body, inc(depth));
            let s2 = structured_nodes(s1, labels, r.body, inc(depth));
            lemma_extends_further(s2.out, s1.out, s.out);
            match r.els {
                Some(els) => {
                    let s3 = s2.line(depth, "} else {"@);
                    let s4 = structured_nodes(s3, labels, els, inc(depth));
                    lemma_line_extends(s2, depth, "} else {"@);
                    lemma_nodes_rendered(s3, labels, els, inc(depth));
                    lemma_line_extends(s4, depth, "}"@);
                    lemma_extends_further(s4.out, s3.out, s2.out);
                    lemma_extends_further(all.out, s4.out, s2.out);
                    lemma_extends_further(all.out, s2.out, s.out);
                    lemma_rendered_longer(all.out, s4.out, labels, live_nodes(els));
                    lemma_rendered_longer(all.out, s2.out, labels, live_nodes(r.body));
                },
                None => {
                    lemma_line_extends(s2, depth, "}"@);
                    lemma_extends_further(all.out, s2.out, s.out);
                    lemma_rendered_longer(all.out, s2.out, labels, live_nodes(r.body));
                },
            }
        },
        _ => {
            lemma_nodes_rendered(s, labels, r.body, depth);
        },
    }
}

pub proof fn lemma_region_rendered(s: StructV, labels: Map<usize, usize>, r: RegionV, depth: usize)
    ensures
        extends(structured_region(s, labels, r, depth).out, s.out),
        rendered(structured_region(s, labels, r, depth).out, labels, live_region(r)),
    decreases region_size(r), 1nat, 0nat,
{
    if r.targeted {
        let s0 = s.line(depth, region_header(r.kind, r.label));
        lemma_line_extends(s, depth, region_header(r.kind, r.label));
        lemma_inner_rendered(s0, labels, r, inc(depth));
        let s1 = structured_inner(s0, labels, r, inc(depth));
        lemma_extends_further(s1.out, s0.out, s.out);
        let s2 = if breaks_at_end(r) {
            s1.line(inc(depth), ("break 'l"@ + dec(r.label as nat) + ";"@))
        } else {
            s1
        };
        if breaks_at_end(r) {
            lemma_line_extends(s1, inc(depth), ("break 'l"@ + dec(r.label as nat) + ";"@));
        } else {
            lemma_extends_self(s1.out);
        }
        let s3 = s2.line(depth, "}"@);
        lemma_line_extends(s2, depth, "}"@);
        lemma_extends_further(s3.out, s2.out, s1.out);
        lemma_extends_further(s3.out, s1.out, s.out);
        lemma_rendered_longer(s3.out, s1.out, labels, live_region(r));
    } else {
        lemma_inner_rendered(s, labels, r, depth);
    }
}

} // verus!
