//! Structured code runs as the body that it renders.

use vstd::prelude::*;

use crate::codegen::flatten::{
    structured_arms, structured_assigns, structured_branch_text, structured_inner, structured_node,
    structured_nodes, structured_region, StructV,
};
use crate::codegen::ir::{
    assigns_text, breaks_at_end, cond_text, lemma_node_size, nodes_size, region_header,
    region_size, BrArmV, FrameKind, NodeV, RegionV,
};
use crate::codegen::live::{label_count, region_label_count};
use crate::codegen::running::{
    arm_patterns, arm_per_line, assign_text, atom_text, did_assigns, jump_fits, kinds_inside,
    lemma_run_live, node_stops, on_a_line, patterns, region_stops, run_atom, run_atoms, run_code,
    run_codes, run_inside, run_node, run_nodes, run_region, sound, sound_node, sound_region, spaced,
    terms_stop, written, written_one, AtomV, CodeV, EndV, EventV, LayoutV, LeftV, RunV, WorldV,
};
use crate::text::inc;

verus! {

// ---------------------------------------------------------------------------
// The code of a body
// ---------------------------------------------------------------------------
/// The jump of a branch: to a state if the label has one, else to a region.
pub open spec fn jump_atoms(labels: Map<usize, usize>, label: usize, is_loop: bool) -> Seq<AtomV> {
    if labels.contains_key(label) {
        seq![AtomV::Goto(labels[label]), AtomV::Again]
    } else if is_loop {
        seq![AtomV::Continue(label)]
    } else {
        seq![AtomV::Break(label)]
    }
}

pub open spec fn assign_atoms(assigns: Seq<(Seq<char>, Seq<char>)>) -> Seq<AtomV> {
    Seq::new(assigns.len(), |i: int| AtomV::Do(assign_text(assigns[i])))
}

pub open spec fn assign_codes(assigns: Seq<(Seq<char>, Seq<char>)>) -> Seq<CodeV> {
    Seq::new(assigns.len(), |i: int| CodeV::Line(seq![AtomV::Do(assign_text(assigns[i]))]))
}

pub open spec fn arm_codes(labels: Map<usize, usize>, arms: Seq<BrArmV>) -> Seq<
    (Seq<char>, Seq<AtomV>),
> {
    Seq::new(
        arms.len(),
        |i: int|
            (
                arms[i].pattern,
                assign_atoms(arms[i].assigns) + jump_atoms(labels, arms[i].label, arms[i].is_loop),
            ),
    )
}

/// The code that renders a list of nodes.
pub open spec fn code_nodes(labels: Map<usize, usize>, ns: Seq<NodeV>, layout: LayoutV) -> Seq<
    CodeV,
>
    decreases ns,
{
    if ns.len() == 0 {
        Seq::empty()
    } else {
        code_nodes(labels, ns.drop_last(), layout).push(code_node(labels, ns.last(), layout))
    }
}

pub open spec fn code_node(labels: Map<usize, usize>, n: NodeV, layout: LayoutV) -> CodeV
    decreases n,
{
    match n {
        NodeV::Line(text) => CodeV::Line(seq![AtomV::Do(text)]),
        NodeV::Term(text) => CodeV::Line(seq![AtomV::Do(text)]),
        NodeV::Br { label, is_loop } => CodeV::Line(jump_atoms(labels, label, is_loop)),
        NodeV::BrIf { cond, label, is_loop, assigns } => if assigns.len() == 0 {
            CodeV::Cond { cond, yes: jump_atoms(labels, label, is_loop), no: None }
        } else {
            CodeV::If {
                cond,
                body: assign_codes(assigns).push(CodeV::Line(jump_atoms(labels, label, is_loop))),
                els: None,
            }
        },
        NodeV::BrTable { selector, arms } => CodeV::Table {
            selector,
            arms: arm_codes(labels, arms),
            layout,
        },
        NodeV::Region(r) => code_region(labels, r, layout),
        _ => CodeV::Group(Seq::empty()),
    }
}

pub open spec fn code_inside(labels: Map<usize, usize>, r: RegionV, layout: LayoutV) -> CodeV
    decreases r, 0nat,
{
    if r.kind == FrameKind::If {
        CodeV::If {
            cond: cond_text(r.cond),
            body: code_nodes(labels, r.body, layout),
            els: match r.els {
                Some(els) => Some(code_nodes(labels, els, layout)),
                None => None,
            },
        }
    } else {
        CodeV::Group(code_nodes(labels, r.body, layout))
    }
}

pub open spec fn code_region(labels: Map<usize, usize>, r: RegionV, layout: LayoutV) -> CodeV
    decreases r, 1nat,
{
    let inside = code_inside(labels, r, layout);
    if !r.targeted {
        inside
    } else if r.kind == FrameKind::If {
        CodeV::Block { label: r.label, body: seq![inside] }
    } else if r.reachable_at_end {
        CodeV::Loop {
            label: r.label,
            body: seq![inside, CodeV::Line(seq![AtomV::Break(r.label)])],
        }
    } else {
        CodeV::Loop { label: r.label, body: seq![inside] }
    }
}

// ---------------------------------------------------------------------------
// Its text
// ---------------------------------------------------------------------------
pub proof fn lemma_spaced_one(a: AtomV)
    ensures
        spaced(seq![a]) == atom_text(a) + " "@,
        on_a_line(seq![a]) == atom_text(a),
{
    assert(seq![a].drop_last() =~= Seq::<AtomV>::empty());
    assert(spaced(seq![a].drop_last()) == Seq::<char>::empty());
    assert(spaced(seq![a]) =~= atom_text(a) + " "@);
    assert(on_a_line(seq![a]) =~= atom_text(a));
}

pub proof fn lemma_spaced_cat(a: Seq<AtomV>, b: Seq<AtomV>)
    ensures
        spaced(a + b) == spaced(a) + spaced(b),
    decreases b.len(),
{
    if b.len() == 0 {
        assert(a + b =~= a);
        assert(spaced(a) + spaced(b) =~= spaced(a));
    } else {
        assert((a + b).drop_last() =~= a + b.drop_last());
        lemma_spaced_cat(a, b.drop_last());
        assert(spaced(a + b) =~= spaced(a) + spaced(b));
    }
}

pub proof fn lemma_spaced_assigns(assigns: Seq<(Seq<char>, Seq<char>)>)
    ensures
        spaced(assign_atoms(assigns)) == assigns_text(assigns),
    decreases assigns.len(),
{
    if assigns.len() > 0 {
        lemma_spaced_assigns(assigns.drop_last());
        let all = assign_atoms(assigns);
        assert(all.drop_last() =~= assign_atoms(assigns.drop_last()));
        reveal_strlit("; ");
        reveal_strlit(";");
        reveal_strlit(" ");
        assert(spaced(all) =~= assigns_text(assigns));
    }
}

#[verifier::rlimit(40)]
pub proof fn lemma_jump_text(labels: Map<usize, usize>, label: usize, is_loop: bool)
    ensures
        on_a_line(jump_atoms(labels, label, is_loop)) == structured_branch_text(
            labels,
            label,
            is_loop,
            ""@,
        ),
        spaced(jump_atoms(labels, label, is_loop)) == structured_branch_text(
            labels,
            label,
            is_loop,
            ""@,
        ) + " "@,
        forall|a: Seq<char>|
            a + structured_branch_text(labels, label, is_loop, ""@)
                == #[trigger] structured_branch_text(labels, label, is_loop, a),
{
    reveal_strlit("");
    reveal_strlit(" ");
    reveal_strlit(";");
    reveal_strlit("; continue 'sm;");
    reveal_strlit("continue 'sm;");
    assert forall|a: Seq<char>|
        a + structured_branch_text(labels, label, is_loop, ""@)
            == #[trigger] structured_branch_text(labels, label, is_loop, a) by {
        assert(a + structured_branch_text(labels, label, is_loop, ""@)
            =~= structured_branch_text(labels, label, is_loop, a));
    }
    let plain = structured_branch_text(labels, label, is_loop, ""@);
    if labels.contains_key(label) {
        let (a, b) = (AtomV::Goto(labels[label]), AtomV::Again);
        assert(seq![a, b].drop_last() =~= seq![a]);
        lemma_spaced_one(a);
        assert(on_a_line(seq![a, b]) =~= plain);
        assert(spaced(seq![a, b]) =~= plain + " "@);
    } else if is_loop {
        lemma_spaced_one(AtomV::Continue(label));
        assert(on_a_line(seq![AtomV::Continue(label)]) =~= plain);
    } else {
        lemma_spaced_one(AtomV::Break(label));
        assert(on_a_line(seq![AtomV::Break(label)]) =~= plain);
    }
}

proof fn lemma_written_assigns(
    s: StructV,
    assigns: Seq<(Seq<char>, Seq<char>)>,
    depth: usize,
)
    ensures
        structured_assigns(s, assigns, depth).out == written(s.out, assign_codes(assigns), depth),
    decreases assigns.len(),
{
    if assigns.len() > 0 {
        lemma_written_assigns(s, assigns.drop_last(), depth);
        let all = assign_codes(assigns);
        assert(all.drop_last() =~= assign_codes(assigns.drop_last()));
        lemma_spaced_one(AtomV::Do(assign_text(assigns.last())));
        let line = CodeV::Line(seq![AtomV::Do(assign_text(assigns.last()))]);
        assert(all.last() == line);
        let front = written(s.out, all.drop_last(), depth);
        assert(written_one(front, line, depth) == front.push((depth, assign_text(assigns.last()))));
        assert(written(s.out, all, depth) == written_one(front, line, depth));
    }
}

#[verifier::rlimit(40)]
proof fn lemma_written_arms(
    s: StructV,
    labels: Map<usize, usize>,
    arms: Seq<BrArmV>,
    depth: usize,
)
    ensures
        structured_arms(s, labels, arms, depth).out == arm_per_line(
            s.out,
            arm_codes(labels, arms),
            LayoutV::Lines,
            depth,
        ),
    decreases arms.len(),
{
    if arms.len() > 0 {
        lemma_written_arms(s, labels, arms.drop_last(), depth);
        let all = arm_codes(labels, arms);
        assert(all.drop_last() =~= arm_codes(labels, arms.drop_last()));
        let a = arms.last();
        lemma_spaced_cat(assign_atoms(a.assigns), jump_atoms(labels, a.label, a.is_loop));
        lemma_spaced_assigns(a.assigns);
        lemma_jump_text(labels, a.label, a.is_loop);
        let br = structured_branch_text(labels, a.label, a.is_loop, assigns_text(a.assigns));
        reveal_strlit(" },");
        reveal_strlit(" ");
        reveal_strlit("},");
        assert((a.pattern + " => { "@ + br + " },"@) =~= a.pattern + " => { "@
            + spaced(all.last().1)
            + "},"@);
    }
}

/// Structured code is the code of the nodes, written down.
pub proof fn lemma_written_nodes(
    s: StructV,
    labels: Map<usize, usize>,
    ns: Seq<NodeV>,
    depth: usize,
)
    ensures
        structured_nodes(s, labels, ns, depth).out == written(
            s.out,
            code_nodes(labels, ns, LayoutV::Lines),
            depth,
        ),
    decreases nodes_size(ns), 3nat, ns.len(),
{
    if ns.len() > 0 {
        lemma_node_size(ns, ns.len() - 1);
        lemma_written_nodes(s, labels, ns.drop_last(), depth);
        let t = structured_nodes(s, labels, ns.drop_last(), depth);
        assert(code_nodes(labels, ns, LayoutV::Lines).drop_last() =~= code_nodes(labels,
            ns.drop_last(), LayoutV::Lines));
        lemma_written_node(t, labels, ns.last(), depth);
    }
}

#[verifier::rlimit(40)]
proof fn lemma_written_node(s: StructV, labels: Map<usize, usize>, n: NodeV, depth: usize)
    ensures
        structured_node(s, labels, n, depth).out == written_one(
            s.out,
            code_node(labels, n, LayoutV::Lines),
            depth,
        ),
    decreases crate::codegen::ir::node_size(n), 2nat, 0nat,
{
    match n {
        NodeV::Line(text) => {
            lemma_spaced_one(AtomV::Do(text));
        },
        NodeV::Term(text) => {
            lemma_spaced_one(AtomV::Do(text));
        },
        NodeV::Br { label, is_loop } => {
            lemma_jump_text(labels, label, is_loop);
        },
        NodeV::BrIf { cond, label, is_loop, assigns } => {
            lemma_jump_text(labels, label, is_loop);
            let br = structured_branch_text(labels, label, is_loop, ""@);
            if assigns.len() == 0 {
                reveal_strlit(" }");
                reveal_strlit(" ");
                reveal_strlit("}");
                assert(("if "@ + cond + " { "@ + br + " }"@) =~= "if "@ + cond + " { "@ + spaced(
                    jump_atoms(labels, label, is_loop),
                ) + "}"@ + Seq::<char>::empty());
            } else {
                let t = s.line(depth, ("if "@ + cond + " {"@));
                lemma_written_assigns(t, assigns, inc(depth));
                let last = CodeV::Line(jump_atoms(labels, label, is_loop));
                let yes = assign_codes(assigns).push(last);
                assert(yes.drop_last() =~= assign_codes(assigns));
                assert(written(t.out, yes, inc(depth)) == written_one(
                    written(t.out, assign_codes(assigns), inc(depth)),
                    last,
                    inc(depth),
                ));
            }
        },
        NodeV::BrTable { selector, arms } => {
            let t = s.line(depth, ("match ("@ + selector + ") as u32 {"@));
            lemma_written_arms(t, labels, arms, inc(depth));
        },
        NodeV::Region(r) => {
            lemma_written_region(s, labels, r, depth);
        },
        _ => {},
    }
}

#[verifier::rlimit(40)]
proof fn lemma_written_inside(s: StructV, labels: Map<usize, usize>, r: RegionV, depth: usize)
    ensures
        structured_inner(s, labels, r, depth).out == written_one(
            s.out,
            code_inside(labels, r, LayoutV::Lines),
            depth,
        ),
    decreases region_size(r), 0nat, 0nat,
{
    match r.kind {
        FrameKind::If => {
            let s1 = s.line(depth, ("if "@ + cond_text(r.cond) + " {"@));
            lemma_written_nodes(s1, labels, r.body, inc(depth));
            let s2 = structured_nodes(s1, labels, r.body, inc(depth));
            if let Some(els) = r.els {
                lemma_written_nodes(s2.line(depth, "} else {"@), labels, els, inc(depth));
            }
        },
        _ => {
            lemma_written_nodes(s, labels, r.body, depth);
        },
    }
}

#[verifier::rlimit(40)]
pub proof fn lemma_written_region(s: StructV, labels: Map<usize, usize>, r: RegionV, depth: usize)
    ensures
        structured_region(s, labels, r, depth).out == written_one(
            s.out,
            code_region(labels, r, LayoutV::Lines),
            depth,
        ),
    decreases region_size(r), 1nat, 0nat,
{
    let inside = code_inside(labels, r, LayoutV::Lines);
    if r.targeted {
        let s1 = s.line(depth, region_header(r.kind, r.label));
        lemma_written_inside(s1, labels, r, inc(depth));
        let one = seq![inside];
        assert(one.drop_last() =~= Seq::<CodeV>::empty());
        assert(written(s1.out, one.drop_last(), inc(depth)) == s1.out);
        assert(written(s1.out, one, inc(depth)) == written_one(s1.out, inside, inc(depth)));
        if breaks_at_end(r) {
            let leave = CodeV::Line(seq![AtomV::Break(r.label)]);
            let two = seq![inside, leave];
            assert(two.drop_last() =~= one);
            lemma_spaced_one(AtomV::Break(r.label));
            assert(written(s1.out, two, inc(depth)) == written_one(
                written(s1.out, one, inc(depth)),
                leave,
                inc(depth),
            ));
        }
    } else {
        lemma_written_inside(s, labels, r, depth);
    }
}

// ---------------------------------------------------------------------------
// Its runs
// ---------------------------------------------------------------------------
/// Whether code is left as the nodes are that it renders: a branch to a label that has a
/// state goes on there, another one leaves or starts over the Rust loop of the label.
pub open spec fn same_end(
    end: EndV,
    run: RunV,
    pc: usize,
    labels: Map<usize, usize>,
    kinds: Map<usize, bool>,
) -> bool {
    match end {
        EndV::Fall => run.left is Fall && run.pc == pc,
        EndV::To(l) => kinds.contains_key(l) && if labels.contains_key(l) {
            run.left is Again && run.pc == labels[l]
        } else if kinds[l] {
            run.left == LeftV::Continue(l) && run.pc == pc
        } else {
            run.left == LeftV::Break(l) && run.pc == pc
        },
        EndV::Stop => run.left is Stop,
        EndV::Cut => run.left is Cut,
    }
}

/// Whether no region of the list has a label that has a state.
pub open spec fn unbound(ns: Seq<NodeV>, labels: Map<usize, usize>) -> bool {
    forall|l: usize| #[trigger] labels.contains_key(l) ==> label_count(ns, l) == 0
}

pub open spec fn region_unbound(r: RegionV, labels: Map<usize, usize>) -> bool {
    forall|l: usize| #[trigger] labels.contains_key(l) ==> region_label_count(r, l) == 0
}

pub proof fn lemma_run_one(w: WorldV, a: AtomV, pc: usize, h: Seq<EventV>)
    ensures
        run_atoms(w, seq![a], pc, h) == run_atom(w, a, pc, h),
{
    assert(seq![a].drop_last() =~= Seq::<AtomV>::empty());
    assert(run_atoms(w, seq![a].drop_last(), pc, h) == (RunV { left: LeftV::Fall, pc, h }));
}

pub proof fn lemma_run_cat(w: WorldV, a: Seq<AtomV>, b: Seq<AtomV>, pc: usize, h: Seq<EventV>)
    ensures
        run_atoms(w, a + b, pc, h) == {
            let run = run_atoms(w, a, pc, h);
            if run.left is Fall {
                run_atoms(w, b, run.pc, run.h)
            } else {
                run
            }
        },
    decreases b.len(),
{
    if b.len() == 0 {
        assert(a + b =~= a);
    } else {
        assert((a + b).drop_last() =~= a + b.drop_last());
        assert((a + b).last() == b.last());
        lemma_run_cat(w, a, b.drop_last(), pc, h);
    }
}

#[verifier::rlimit(40)]
pub proof fn lemma_run_assigns(
    w: WorldV,
    assigns: Seq<(Seq<char>, Seq<char>)>,
    pc: usize,
    h: Seq<EventV>,
    fuel: nat,
)
    ensures
        ({
            let (end, h1) = did_assigns(w, assigns, h);
            let left = if end is Fall {
                LeftV::Fall
            } else {
                LeftV::Stop
            };
            &&& end is Fall || end is Stop
            &&& run_atoms(w, assign_atoms(assigns), pc, h) == (RunV { left, pc, h: h1 })
            &&& run_codes(w, assign_codes(assigns), pc, h, fuel) == (RunV { left, pc, h: h1 })
        }),
    decreases assigns.len(),
{
    if assigns.len() > 0 {
        lemma_run_assigns(w, assigns.drop_last(), pc, h, fuel);
        let a = assign_atoms(assigns);
        let c = assign_codes(assigns);
        assert(a.drop_last() =~= assign_atoms(assigns.drop_last()));
        assert(c.drop_last() =~= assign_codes(assigns.drop_last()));
        let h1 = did_assigns(w, assigns.drop_last(), h).1;
        let last = AtomV::Do(assign_text(assigns.last()));
        lemma_run_one(w, last, pc, h1);
        assert(a.last() == last && c.last() == CodeV::Line(seq![last]));
        assert(run_code(w, CodeV::Line(seq![last]), pc, h1, fuel) == run_atoms(
            w,
            seq![last],
            pc,
            h1,
        ));
    }
}

proof fn lemma_run_jump(
    w: WorldV,
    labels: Map<usize, usize>,
    label: usize,
    is_loop: bool,
    kinds: Map<usize, bool>,
    pc: usize,
    h: Seq<EventV>,
)
    requires
        jump_fits(label, is_loop, kinds),
    ensures
        ({
            let run = run_atoms(w, jump_atoms(labels, label, is_loop), pc, h);
            run.h == h && same_end(EndV::To(label), run, pc, labels, kinds)
        }),
{
    if labels.contains_key(label) {
        let (a, b) = (AtomV::Goto(labels[label]), AtomV::Again);
        assert(seq![a, b].drop_last() =~= seq![a]);
        lemma_run_one(w, a, pc, h);
    } else if is_loop {
        lemma_run_one(w, AtomV::Continue(label), pc, h);
    } else {
        lemma_run_one(w, AtomV::Break(label), pc, h);
    }
}

/// The code of a list of nodes runs as the nodes do.
#[verifier::rlimit(40)]
pub proof fn lemma_same_nodes(
    w: WorldV,
    ns: Seq<NodeV>,
    labels: Map<usize, usize>,
    kinds: Map<usize, bool>,
    layout: LayoutV,
    pc: usize,
    h: Seq<EventV>,
    fuel: nat,
)
    requires
        sound(ns, kinds),
        unbound(ns, labels),
        terms_stop(w, ns),
    ensures
        ({
            let (end, h1) = run_nodes(w, ns, h, fuel);
            let run = run_codes(w, code_nodes(labels, ns, layout), pc, h, fuel);
            run.h == h1 && same_end(end, run, pc, labels, kinds)
        }),
    decreases fuel, nodes_size(ns), 3nat, ns.len(),
{
    if ns.len() > 0 {
        lemma_node_size(ns, ns.len() - 1);
        let front = ns.drop_last();
        assert(unbound(front, labels)) by {
            assert forall|l: usize| #[trigger] labels.contains_key(l) implies label_count(front, l)
                == 0 by {
                assert(label_count(ns, l) == 0);
            }
        }
        lemma_same_nodes(w, front, labels, kinds, layout, pc, h, fuel);
        let all = code_nodes(labels, ns, layout);
        assert(all.drop_last() =~= code_nodes(labels, front, layout));
        let (end, h1) = run_nodes(w, front, h, fuel);
        if end is Fall {
            let n = ns.last();
            assert(sound_node(n, kinds) && node_stops(w, n));
            assert(all.last() == code_node(labels, n, layout));
            if let NodeV::Region(r) = n {
                assert(region_unbound(r, labels)) by {
                    assert forall|l: usize| #[trigger]
                        labels.contains_key(l) implies region_label_count(r, l) == 0 by {
                        assert(label_count(ns, l) == 0);
                    }
                }
                lemma_same_region(w, r, labels, kinds, layout, pc, h1, fuel);
            } else {
                lemma_same_simple(w, n, labels, kinds, layout, pc, h1, fuel);
            }
        }
    }
}

#[verifier::rlimit(40)]
proof fn lemma_same_simple(
    w: WorldV,
    n: NodeV,
    labels: Map<usize, usize>,
    kinds: Map<usize, bool>,
    layout: LayoutV,
    pc: usize,
    h: Seq<EventV>,
    fuel: nat,
)
    requires
        sound_node(n, kinds),
        node_stops(w, n),
        !(n is Region),
    ensures
        ({
            let (end, h1) = run_node(w, n, h, fuel);
            let run = run_code(w, code_node(labels, n, layout), pc, h, fuel);
            run.h == h1 && same_end(end, run, pc, labels, kinds)
        }),
{
    match n {
        NodeV::Line(text) => {
            lemma_run_one(w, AtomV::Do(text), pc, h);
        },
        NodeV::Term(text) => {
            lemma_run_one(w, AtomV::Do(text), pc, h);
            assert((w.stops)(h, text));
        },
        NodeV::Br { label, is_loop } => {
            lemma_run_jump(w, labels, label, is_loop, kinds, pc, h);
        },
        NodeV::BrIf { cond, label, is_loop, assigns } => {
            let h1 = h.push(EventV::Asked(cond));
            if assigns.len() == 0 {
                lemma_run_jump(w, labels, label, is_loop, kinds, pc, h1);
            } else {
                lemma_run_assigns(w, assigns, pc, h1, fuel);
                let jump = CodeV::Line(jump_atoms(labels, label, is_loop));
                let yes = assign_codes(assigns).push(jump);
                assert(yes.drop_last() =~= assign_codes(assigns));
                let h2 = did_assigns(w, assigns, h1).1;
                lemma_run_jump(w, labels, label, is_loop, kinds, pc, h2);
                assert(run_code(w, jump, pc, h2, fuel) == run_atoms(
                    w,
                    jump_atoms(labels, label, is_loop),
                    pc,
                    h2,
                ));
                let front = run_codes(w, yes.drop_last(), pc, h1, fuel);
                assert(run_codes(w, yes, pc, h1, fuel) == if front.left is Fall {
                    run_code(w, jump, front.pc, front.h, fuel)
                } else {
                    front
                });
            }
        },
        NodeV::BrTable { selector, arms } => {
            let codes = arm_codes(labels, arms);
            assert(arm_patterns(codes) =~= patterns(arms));
            let k = (w.choice)(h, selector, patterns(arms));
            let h1 = h.push(EventV::Chose(selector));
            if 0 <= k < arms.len() {
                let a = arms[k];
                assert(jump_fits(a.label, a.is_loop, kinds));
                let jump = jump_atoms(labels, a.label, a.is_loop);
                lemma_run_assigns(w, a.assigns, pc, h1, fuel);
                lemma_run_cat(w, assign_atoms(a.assigns), jump, pc, h1);
                let h2 = did_assigns(w, a.assigns, h1).1;
                lemma_run_jump(w, labels, a.label, a.is_loop, kinds, pc, h2);
            }
        },
        _ => {},
    }
}

#[verifier::rlimit(40)]
proof fn lemma_same_inside(
    w: WorldV,
    r: RegionV,
    labels: Map<usize, usize>,
    kinds: Map<usize, bool>,
    layout: LayoutV,
    pc: usize,
    h: Seq<EventV>,
    fuel: nat,
)
    requires
        sound_region(r, kinds),
        region_unbound(r, labels),
        region_stops(w, r),
    ensures
        ({
            let (end, h1) = run_inside(w, r, h, fuel);
            let run = run_code(w, code_inside(labels, r, layout), pc, h, fuel);
            run.h == h1 && same_end(end, run, pc, labels, kinds_inside(r, kinds))
        }),
    decreases fuel, region_size(r), 0nat, 0nat,
{
    let inner = kinds_inside(r, kinds);
    assert(unbound(r.body, labels)) by {
        assert forall|l: usize| #[trigger] labels.contains_key(l) implies label_count(r.body, l)
            == 0 by {
            assert(region_label_count(r, l) == 0);
        }
    }
    if r.kind == FrameKind::If {
        let h1 = h.push(EventV::Asked(cond_text(r.cond)));
        lemma_same_nodes(w, r.body, labels, inner, layout, pc, h1, fuel);
        if let Some(els) = r.els {
            assert(unbound(els, labels)) by {
                assert forall|l: usize| #[trigger] labels.contains_key(l) implies label_count(
                    els,
                    l,
                ) == 0 by {
                    assert(region_label_count(r, l) == 0);
                }
            }
            lemma_same_nodes(w, els, labels, inner, layout, pc, h1, fuel);
        }
    } else {
        lemma_same_nodes(w, r.body, labels, inner, layout, pc, h, fuel);
    }
}

/// The code of a region runs as the region does.
#[verifier::rlimit(40)]
pub proof fn lemma_same_region(
    w: WorldV,
    r: RegionV,
    labels: Map<usize, usize>,
    kinds: Map<usize, bool>,
    layout: LayoutV,
    pc: usize,
    h: Seq<EventV>,
    fuel: nat,
)
    requires
        sound_region(r, kinds),
        region_unbound(r, labels),
        region_stops(w, r),
    ensures
        ({
            let (end, h1) = run_region(w, r, h, fuel);
            let run = run_code(w, code_region(labels, r, layout), pc, h, fuel);
            run.h == h1 && same_end(end, run, pc, labels, kinds)
        }),
    decreases fuel, region_size(r), 1nat, 0nat,
{
    lemma_same_inside(w, r, labels, kinds, layout, pc, h, fuel);
    let (end, h1) = run_inside(w, r, h, fuel);
    let inside = code_inside(labels, r, layout);
    let run = run_code(w, inside, pc, h, fuel);
    assert(!labels.contains_key(r.label)) by {
        if labels.contains_key(r.label) {
            assert(region_label_count(r, r.label) == 0);
        }
    }
    if r.targeted {
        let one = seq![inside];
        assert(one.drop_last() =~= Seq::<CodeV>::empty());
        assert(run_codes(w, one.drop_last(), pc, h, fuel) == (RunV { left: LeftV::Fall, pc, h }));
        assert(run_codes(w, one, pc, h, fuel) == run);
        if r.kind != FrameKind::If {
            if r.reachable_at_end {
                let leave = CodeV::Line(seq![AtomV::Break(r.label)]);
                let two = seq![inside, leave];
                assert(two.drop_last() =~= one);
                lemma_run_one(w, AtomV::Break(r.label), run.pc, run.h);
                assert(run_code(w, leave, run.pc, run.h, fuel) == run_atoms(
                    w,
                    seq![AtomV::Break(r.label)],
                    run.pc,
                    run.h,
                ));
                assert(two.last() == leave);
                assert(run_codes(w, two, pc, h, fuel) == if run.left is Fall {
                    RunV { left: LeftV::Break(r.label), pc: run.pc, h: run.h }
                } else {
                    run
                });
            } else {
                lemma_run_live(w, r.body, h, fuel);
                assert(!(end is Fall));
            }
            if end == EndV::To(r.label) && r.kind == FrameKind::Loop && fuel > 0 {
                lemma_same_region(w, r, labels, kinds, layout, pc, h1, (fuel - 1) as nat);
            }
        }
    }
}

} // verus!
