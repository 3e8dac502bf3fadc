//! A flat dispatch runs as the body that it was made from.

use vstd::prelude::*;

use crate::codegen::dispatch::{flat_body, fresh_flat};
use crate::codegen::flatten::{
    finished, lemma_lowerable_node, lower_nodes, lower_region, lower_step, lower_work, lowerable,
    lowerable_node, lowerable_region, started, structured_loop, structured_region,
    table_arms_text, work_size, ArmV, FlatV, LineV, StructV, TaskV, WalkV,
};
use crate::codegen::ir::{
    assigns_text, cond_text, lemma_node_size, nodes_size, structurable, BrArmV, FrameKind, NodeV,
    RegionV,
};
use crate::codegen::laws::{arm_count, law_states_have_one_arm};
use crate::codegen::live::{
    ends_marked, extends, label_count, region_end_marked, lemma_extends_at, lemma_extends_further,
    lemma_extends_push, lemma_extends_self, region_label_count,
};
use crate::codegen::reaching::{
    at, behind, bound_count, labels_unique, lemma_at_next, lemma_at_ready, lemma_count_grows,
    lemma_labels_pushed, lemma_labels_stay, lemma_region_labels, ready, same_labels, stays,
    work_labels,
};
use crate::codegen::running::{
    arm_patterns, branched, did_assigns, inline_arms, lemma_region_live, node_stops, patterns,
    region_stops, run_atoms, run_code, run_codes, run_inside, run_node, run_nodes, run_region,
    sound, sound_node, sound_region, spaced, terms_stop, written, written_one, AtomV, CodeV, EndV,
    EventV, LayoutV, LeftV, RunV, WorldV,
};
use crate::codegen::structured_runs::{
    assign_atoms, code_region, lemma_run_assigns, lemma_run_cat, lemma_run_one,
    lemma_same_nodes, lemma_same_region, lemma_spaced_assigns, lemma_spaced_cat, lemma_spaced_one,
    lemma_written_region, region_unbound,
};
use crate::text::{dec, inc};

verus! {

// ---------------------------------------------------------------------------
// Reading a dispatch as code
// ---------------------------------------------------------------------------
/// An arm of a dispatch, read as code.
pub type CodedArmV = (usize, Seq<CodeV>);

/// A walk, read as code: the arms that are finished, and the current one.
pub struct CodedV {
    pub arms: Seq<CodedArmV>,
    pub stmts: Seq<CodeV>,
}

impl CodedV {
    pub open spec fn closed(self, state: usize, last: CodeV) -> CodedV {
        CodedV { arms: self.arms.push((state, self.stmts.push(last))), stmts: Seq::empty() }
    }
}

/// `pc = n;`
pub open spec fn goto(n: usize) -> CodeV {
    CodeV::Line(seq![AtomV::Goto(n)])
}

pub open spec fn flat_arm_codes(labels: Map<usize, usize>, arms: Seq<BrArmV>) -> Seq<
    (Seq<char>, Seq<AtomV>),
> {
    Seq::new(
        arms.len(),
        |i: int|
            (
                arms[i].pattern,
                assign_atoms(arms[i].assigns) + seq![AtomV::Goto(labels[arms[i].label])],
            ),
    )
}

/// The code that a node adds to the current arm.
pub open spec fn flat_code(w: WalkV, n: NodeV) -> CodeV {
    let labels = w.flat.labels;
    match n {
        NodeV::Line(text) => CodeV::Line(seq![AtomV::Do(text)]),
        NodeV::Term(text) => CodeV::Line(seq![AtomV::Do(text)]),
        NodeV::Br { label, .. } => goto(labels[label]),
        NodeV::BrIf { cond, label, assigns, .. } => CodeV::Cond {
            cond,
            yes: assign_atoms(assigns) + seq![AtomV::Goto(labels[label]), AtomV::Again],
            no: None,
        },
        NodeV::BrTable { selector, arms } => CodeV::Table {
            selector,
            arms: flat_arm_codes(labels, arms),
            layout: LayoutV::Flat,
        },
        NodeV::Region(r) => {
            let first = w.flat.next_state;
            let second = inc(first);
            if r.kind == FrameKind::If {
                CodeV::Cond {
                    cond: cond_text(r.cond),
                    yes: seq![AtomV::Goto(second)],
                    no: Some(
                        seq![
                            AtomV::Goto(
                                if r.els is Some {
                                    inc(second)
                                } else {
                                    first
                                },
                            ),
                        ],
                    ),
                }
            } else {
                goto(first)
            }
        },
        _ => CodeV::Group(Seq::empty()),
    }
}

/// The code of a loop that is kept.
pub open spec fn kept_loop(labels: Map<usize, usize>, r: RegionV, cont: usize) -> Seq<CodeV> {
    if r.reachable_at_end {
        seq![code_region(labels, r, LayoutV::Lines), goto(cont)]
    } else {
        seq![code_region(labels, r, LayoutV::Lines)]
    }
}

/// Whether a region becomes an arm of its own.
pub open spec fn kept(w: WalkV, r: RegionV) -> bool {
    r.kind != FrameKind::If && w.flat.allow_structured_loop && structurable(r)
}

pub open spec fn coded_step(w: WalkV, c: CodedV, n: NodeV) -> CodedV {
    if !w.reachable {
        c
    } else if stays(n) {
        CodedV { stmts: c.stmts.push(flat_code(w, n)), ..c }
    } else {
        let c1 = c.closed(w.state, flat_code(w, n));
        match n {
            NodeV::Region(r) => if kept(w, r) {
                let first = w.flat.next_state;
                CodedV {
                    arms: c1.arms.push((first, kept_loop(w.flat.labels, r, inc(first)))),
                    ..c1
                }
            } else {
                c1
            },
            _ => c1,
        }
    }
}

pub open spec fn coded_nodes(w: WalkV, c: CodedV, ns: Seq<NodeV>) -> CodedV
    decreases ns.len(),
{
    if ns.len() == 0 {
        c
    } else {
        coded_step(
            lower_nodes(w, ns.drop_last()),
            coded_nodes(w, c, ns.drop_last()),
            ns.last(),
        )
    }
}

/// The walk over the last list of `work`, behind its first `i` nodes, read as code.
pub open spec fn coded_at(f: FlatV, arms: Seq<CodedArmV>, work: Seq<TaskV>, i: int) -> CodedV {
    coded_nodes(
        started(f, work),
        CodedV { arms, stmts: Seq::empty() },
        work.last().nodes.take(i),
    )
}

/// The arms behind the last list of `work`, read as code.
pub open spec fn coded_behind(f: FlatV, arms: Seq<CodedArmV>, work: Seq<TaskV>) -> Seq<CodedArmV> {
    let n = work.last().nodes.len() as int;
    let w = at(f, work, n);
    let c = coded_at(f, arms, work, n);
    if w.reachable {
        c.arms.push((w.state, c.stmts.push(goto(work.last().after))))
    } else {
        c.arms
    }
}

/// The arms of a whole dispatch, read as code.
pub open spec fn coded_work(f: FlatV, arms: Seq<CodedArmV>, work: Seq<TaskV>) -> Seq<CodedArmV>
    decreases work_size(work),
{
    if work.len() == 0 {
        arms
    } else {
        let w = lower_nodes(started(f, work), work.last().nodes);
        if work_size(w.work) < work_size(work) {
            coded_work(
                finished(w, work.last().after),
                coded_behind(f, arms, work),
                w.work,
            )
        } else {
            arms
        }
    }
}

/// Whether the code, written down, is the arms.
pub open spec fn reads_as(arms: Seq<ArmV>, coded: Seq<CodedArmV>) -> bool {
    &&& coded.len() == arms.len()
    &&& forall|k: int|
        #![trigger coded[k]]
        #![trigger arms[k]]
        0 <= k < arms.len() ==> coded[k].0 == arms[k].0 && written(Seq::empty(), coded[k].1, 0)
            == arms[k].1
}

pub open spec fn walk_reads_as(w: WalkV, c: CodedV) -> bool {
    reads_as(w.flat.arms, c.arms) && written(Seq::empty(), c.stmts, 0) == w.stmts
}

proof fn lemma_written_push(cs: Seq<CodeV>, c: CodeV)
    ensures
        written(Seq::empty(), cs.push(c), 0) == written_one(written(Seq::empty(), cs, 0), c, 0),
{
    assert(cs.push(c).drop_last() =~= cs);
}

proof fn lemma_goto_text(out: Seq<LineV>, n: usize)
    ensures
        written_one(out, goto(n), 0) == out.push((0usize, ("pc = "@ + dec(n as nat) + ";"@))),
{
    lemma_spaced_one(AtomV::Goto(n));
}

#[verifier::rlimit(40)]
proof fn lemma_arms_text(labels: Map<usize, usize>, arms: Seq<BrArmV>)
    ensures
        inline_arms(flat_arm_codes(labels, arms)) == table_arms_text(arms, labels),
    decreases arms.len(),
{
    if arms.len() > 0 {
        lemma_arms_text(labels, arms.drop_last());
        let all = flat_arm_codes(labels, arms);
        assert(all.drop_last() =~= flat_arm_codes(labels, arms.drop_last()));
        let a = arms.last();
        let to = AtomV::Goto(labels[a.label]);
        lemma_spaced_cat(assign_atoms(a.assigns), seq![to]);
        lemma_spaced_assigns(a.assigns);
        lemma_spaced_one(to);
        reveal_strlit("; } ");
        reveal_strlit(";");
        reveal_strlit(" ");
        reveal_strlit("} ");
        assert(inline_arms(all) =~= table_arms_text(arms, labels));
    }
}

#[verifier::rlimit(40)]
proof fn lemma_br_if_text(cond: Seq<char>, assigns: Seq<(Seq<char>, Seq<char>)>, to: usize)
    ensures
        "if "@ + cond + " { "@ + spaced(
            assign_atoms(assigns) + seq![AtomV::Goto(to), AtomV::Again],
        ) + "}"@ + Seq::<char>::empty()
            == ("if "@ + cond + " { "@ + assigns_text(assigns) + "pc = "@ + dec(to as nat)
                + "; continue 'sm; }"@),
{
    let (a, b) = (AtomV::Goto(to), AtomV::Again);
    lemma_spaced_cat(assign_atoms(assigns), seq![a, b]);
    lemma_spaced_assigns(assigns);
    lemma_spaced_one(a);
    assert(seq![a, b].drop_last() =~= seq![a]);
    reveal_strlit("; continue 'sm; }");
    reveal_strlit("continue 'sm;");
    reveal_strlit(";");
    reveal_strlit(" ");
    reveal_strlit("}");
    assert("if "@ + cond + " { "@ + spaced(assign_atoms(assigns) + seq![a, b]) + "}"@
        + Seq::<char>::empty()
        =~= ("if "@ + cond + " { "@ + assigns_text(assigns) + "pc = "@ + dec(to as nat)
            + "; continue 'sm; }"@));
}

#[verifier::rlimit(40)]
proof fn lemma_fork_text(cond: Seq<char>, yes: usize, no: usize)
    ensures
        "if "@ + cond + " { "@ + spaced(seq![AtomV::Goto(yes)]) + "}"@ + (" else { "@ + spaced(
            seq![AtomV::Goto(no)],
        ) + "}"@) == ("if "@ + cond + " { pc = "@ + dec(yes as nat) + "; } else { pc = "@
            + dec(no as nat) + "; }"@),
{
    lemma_spaced_one(AtomV::Goto(yes));
    lemma_spaced_one(AtomV::Goto(no));
    reveal_strlit(" { pc = ");
    reveal_strlit("; } else { pc = ");
    reveal_strlit("; }");
    reveal_strlit(" { ");
    reveal_strlit("pc = ");
    reveal_strlit(";");
    reveal_strlit(" ");
    reveal_strlit("}");
    reveal_strlit(" else { ");
    assert("if "@ + cond + " { "@ + spaced(seq![AtomV::Goto(yes)]) + "}"@ + (" else { "@ + spaced(
        seq![AtomV::Goto(no)],
    ) + "}"@) =~= ("if "@ + cond + " { pc = "@ + dec(yes as nat) + "; } else { pc = "@
        + dec(no as nat) + "; }"@));
}

#[verifier::rlimit(40)]
proof fn lemma_flat_text(w: WalkV, n: NodeV, out: Seq<LineV>)
    requires
        sound_kind(n),
    ensures
        written_one(out, flat_code(w, n), 0) == out.push((0usize, flat_line(w, n))),
{
    let labels = w.flat.labels;
    match n {
        NodeV::Line(text) => {
            lemma_spaced_one(AtomV::Do(text));
        },
        NodeV::Term(text) => {
            lemma_spaced_one(AtomV::Do(text));
        },
        NodeV::Br { label, is_loop } => {
            lemma_goto_text(out, labels[label]);
        },
        NodeV::BrIf { cond, label, is_loop, assigns } => {
            lemma_br_if_text(cond, assigns, labels[label]);
        },
        NodeV::BrTable { selector, arms } => {
            lemma_arms_text(labels, arms);
        },
        NodeV::Region(r) => {
            let first = w.flat.next_state;
            let second = inc(first);
            if r.kind == FrameKind::If {
                let third = if r.els is Some {
                    inc(second)
                } else {
                    first
                };
                lemma_fork_text(cond_text(r.cond), second, third);
            } else {
                lemma_goto_text(out, first);
            }
        },
        _ => {},
    }
}

/// Whether the node is neither of a `try` nor of a continuation.
pub open spec fn sound_kind(n: NodeV) -> bool {
    n is Line || n is Term || n is Br || n is BrIf || n is BrTable || n is Region
}

/// The line that a node adds to the current arm.
spec fn flat_line(w: WalkV, n: NodeV) -> Seq<char> {
    crate::codegen::reaching::line_of(WalkV { reachable: true, ..w }, n).1
}

// ---------------------------------------------------------------------------
// The reading is faithful
// ---------------------------------------------------------------------------
proof fn lemma_reads_push(arms: Seq<ArmV>, coded: Seq<CodedArmV>, a: ArmV, c: CodedArmV)
    requires
        reads_as(arms, coded),
        c.0 == a.0,
        written(Seq::empty(), c.1, 0) == a.1,
    ensures
        reads_as(arms.push(a), coded.push(c)),
{
}

proof fn lemma_kept_text(labels: Map<usize, usize>, r: RegionV, cont: usize)
    ensures
        written(Seq::empty(), kept_loop(labels, r, cont), 0) == structured_loop(
            labels,
            r,
            cont,
        ).out,
{
    let none = StructV { out: Seq::empty(), escapes: false };
    let code = code_region(labels, r, LayoutV::Lines);
    lemma_written_region(none, labels, r, 0);
    let one = seq![code];
    assert(one =~= Seq::<CodeV>::empty().push(code));
    lemma_written_push(Seq::empty(), code);
    if r.reachable_at_end {
        assert(seq![code, goto(cont)] =~= one.push(goto(cont)));
        lemma_written_push(one, goto(cont));
        lemma_goto_text(structured_region(none, labels, r, 0).out, cont);
    }
}

#[verifier::rlimit(40)]
proof fn lemma_step_reads(w: WalkV, c: CodedV, n: NodeV)
    requires
        walk_reads_as(w, c),
        sound_kind(n),
    ensures
        walk_reads_as(lower_step(w, n), coded_step(w, c, n)),
{
    if w.reachable {
        let code = flat_code(w, n);
        let line = (0usize, flat_line(w, n));
        assert(w == (WalkV { reachable: true, ..w }));
        lemma_flat_text(w, n, w.stmts);
        lemma_written_push(c.stmts, code);
        let all = w.stmts.push(line);
        assert(written(Seq::empty(), c.stmts.push(code), 0) == all);
        let w1 = lower_step(w, n);
        if stays(n) {
            assert(w1.stmts == all);
        } else {
            lemma_reads_push(
                w.flat.arms,
                c.arms,
                (w.state, all),
                (w.state, c.stmts.push(code)),
            );
            if let NodeV::Region(r) = n {
                assert(w1 == lower_region(w, r));
                if kept(w, r) {
                    let first = w.flat.next_state;
                    lemma_kept_text(w.flat.labels, r, inc(first));
                    lemma_reads_push(
                        w.flat.arms.push((w.state, all)),
                        c.arms.push((w.state, c.stmts.push(code))),
                        (first, structured_loop(w.flat.labels, r, inc(first)).out),
                        (first, kept_loop(w.flat.labels, r, inc(first))),
                    );
                    assert(w1.flat.arms == w.flat.arms.push((w.state, all)).push(
                        (first, structured_loop(w.flat.labels, r, inc(first)).out),
                    ));
                } else {
                    assert(w1.flat.arms == w.flat.arms.push((w.state, all)));
                }
            } else {
                assert(w1.flat.arms == w.flat.arms.push((w.state, all)));
            }
        }
    }
}

/// Whether every list of the work is sound, and the world stops at its terminators.
pub open spec fn fit(w: WorldV, ns: Seq<NodeV>) -> bool {
    terms_stop(w, ns) && exists|kinds: Map<usize, bool>| sound(ns, kinds)
}

pub open spec fn work_fit(w: WorldV, work: Seq<TaskV>) -> bool {
    forall|j: int| 0 <= j < work.len() ==> fit(w, (#[trigger] work[j]).nodes)
}

proof fn lemma_sound_at(ns: Seq<NodeV>, kinds: Map<usize, bool>, w: WorldV, i: int)
    requires
        sound(ns, kinds),
        terms_stop(w, ns),
        0 <= i < ns.len(),
    ensures
        sound_node(ns[i], kinds),
        node_stops(w, ns[i]),
        sound_kind(ns[i]),
    decreases ns.len(),
{
    if i < ns.len() - 1 {
        lemma_sound_at(ns.drop_last(), kinds, w, i);
        assert(ns.drop_last()[i] == ns[i]);
    } else {
        assert(sound_node(ns.last(), kinds));
    }
}

proof fn lemma_coded_next(f: FlatV, arms: Seq<CodedArmV>, work: Seq<TaskV>, i: int)
    requires
        0 <= i < work.last().nodes.len(),
    ensures
        coded_at(f, arms, work, i + 1) == coded_step(
            at(f, work, i),
            coded_at(f, arms, work, i),
            work.last().nodes[i],
        ),
{
    lemma_at_next(f, work, i);
}

#[verifier::rlimit(40)]
proof fn lemma_at_reads(f: FlatV, arms: Seq<CodedArmV>, work: Seq<TaskV>, w: WorldV, i: int)
    requires
        work.len() > 0,
        reads_as(f.arms, arms),
        fit(w, work.last().nodes),
        0 <= i <= work.last().nodes.len(),
    ensures
        walk_reads_as(at(f, work, i), coded_at(f, arms, work, i)),
    decreases i,
{
    let ns = work.last().nodes;
    if i == 0 {
        assert(ns.take(0).len() == 0);
        assert(at(f, work, 0) == started(f, work));
        assert(coded_at(f, arms, work, 0) == (CodedV { arms, stmts: Seq::empty() }));
    } else {
        let kinds = choose|kinds: Map<usize, bool>| sound(ns, kinds);
        lemma_at_reads(f, arms, work, w, i - 1);
        lemma_at_next(f, work, i - 1);
        lemma_coded_next(f, arms, work, i - 1);
        lemma_sound_at(ns, kinds, w, i - 1);
        lemma_step_reads(at(f, work, i - 1), coded_at(f, arms, work, i - 1), ns[i - 1]);
    }
}

#[verifier::rlimit(40)]
proof fn lemma_behind_reads(f: FlatV, arms: Seq<CodedArmV>, work: Seq<TaskV>, w: WorldV)
    requires
        work.len() > 0,
        reads_as(f.arms, arms),
        fit(w, work.last().nodes),
    ensures
        reads_as(behind(f, work).arms, coded_behind(f, arms, work)),
{
    let ns = work.last().nodes;
    let n = ns.len() as int;
    assert(ns.take(n) =~= ns);
    lemma_at_reads(f, arms, work, w, n);
    let x = at(f, work, n);
    let c = coded_at(f, arms, work, n);
    if x.reachable {
        let last = goto(work.last().after);
        lemma_written_push(c.stmts, last);
        lemma_goto_text(x.stmts, work.last().after);
        lemma_reads_push(
            x.flat.arms,
            c.arms,
            (x.state, x.stmts.push((0usize, ("pc = "@ + dec(work.last().after as nat) + ";"@)))),
            (x.state, c.stmts.push(last)),
        );
    }
}

#[verifier::rlimit(40)]
proof fn lemma_step_fit(w: WorldV, x: WalkV, n: NodeV, kinds: Map<usize, bool>)
    requires
        work_fit(w, x.work),
        sound_node(n, kinds),
        node_stops(w, n),
    ensures
        work_fit(w, lower_step(x, n).work),
{
    let x1 = lower_step(x, n);
    if x.reachable {
        if let NodeV::Region(r) = n {
            assert(x1 == lower_region(x, r));
            let inner = crate::codegen::running::kinds_inside(r, kinds);
            assert(sound(r.body, inner));
            assert(fit(w, r.body));
            if let Some(els) = r.els {
                assert(sound(els, inner));
                assert(fit(w, els));
            }
        }
    }
}

#[verifier::rlimit(40)]
proof fn lemma_at_fit(f: FlatV, work: Seq<TaskV>, w: WorldV, i: int)
    requires
        work.len() > 0,
        work_fit(w, work),
        0 <= i <= work.last().nodes.len(),
    ensures
        work_fit(w, at(f, work, i).work),
    decreases i,
{
    let ns = work.last().nodes;
    assert(work[work.len() - 1] == work.last());
    assert(fit(w, ns));
    if i == 0 {
        assert(ns.take(0).len() == 0);
        assert(at(f, work, 0) == started(f, work));
        assert forall|j: int| 0 <= j < work.drop_last().len() implies fit(
            w,
            (#[trigger] work.drop_last()[j]).nodes,
        ) by {
            assert(work.drop_last()[j] == work[j]);
        }
    } else {
        let kinds = choose|kinds: Map<usize, bool>| sound(ns, kinds);
        lemma_at_fit(f, work, w, i - 1);
        lemma_at_next(f, work, i - 1);
        lemma_sound_at(ns, kinds, w, i - 1);
        lemma_step_fit(w, at(f, work, i - 1), ns[i - 1], kinds);
    }
}

// ---------------------------------------------------------------------------
// Runs of a dispatch
// ---------------------------------------------------------------------------
/// The code of a state: that of the first arm for it.
pub open spec fn arm_at(arms: Seq<CodedArmV>, s: usize) -> Option<Seq<CodeV>>
    decreases arms.len(),
{
    if arms.len() == 0 {
        None
    } else if arm_at(arms.drop_last(), s) is Some {
        arm_at(arms.drop_last(), s)
    } else if arms.last().0 == s {
        Some(arms.last().1)
    } else {
        None
    }
}

/// One turn of the dispatch `loop { match pc { .. } }`; it is cut where a state has no
/// arm.
pub open spec fn turn(
    w: WorldV,
    arms: Seq<CodedArmV>,
    pc: usize,
    h: Seq<EventV>,
    fuel: nat,
) -> RunV {
    match arm_at(arms, pc) {
        Some(code) => run_codes(w, code, pc, h, fuel),
        None => RunV { left: LeftV::Cut, pc, h },
    }
}

/// Whether one turn takes the dispatch from one state to another.
pub open spec fn moves(
    w: WorldV,
    arms: Seq<CodedArmV>,
    pc: usize,
    h: Seq<EventV>,
    pc2: usize,
    h2: Seq<EventV>,
) -> bool {
    exists|fuel: nat|
        {
            let run = #[trigger] turn(w, arms, pc, h, fuel);
            (run.left is Fall || run.left is Again) && run.pc == pc2 && run.h == h2
        }
}

/// Whether `n` turns take the dispatch from one state to another.
pub open spec fn turns_to(
    w: WorldV,
    arms: Seq<CodedArmV>,
    pc: usize,
    h: Seq<EventV>,
    pc2: usize,
    h2: Seq<EventV>,
    n: nat,
) -> bool
    decreases n,
{
    if n == 0 {
        pc == pc2 && h == h2
    } else {
        exists|pc1: usize, h1: Seq<EventV>|
            turns_to(w, arms, pc, h, pc1, h1, (n - 1) as nat) && #[trigger] moves(
                w,
                arms,
                pc1,
                h1,
                pc2,
                h2,
            )
    }
}

/// Whether the dispatch comes from one state to another.
pub open spec fn comes_to(
    w: WorldV,
    arms: Seq<CodedArmV>,
    pc: usize,
    h: Seq<EventV>,
    pc2: usize,
    h2: Seq<EventV>,
) -> bool {
    exists|n: nat| turns_to(w, arms, pc, h, pc2, h2, n)
}

/// Whether the dispatch comes to a statement at which the run ends.
pub open spec fn halts(
    w: WorldV,
    arms: Seq<CodedArmV>,
    pc: usize,
    h: Seq<EventV>,
    h2: Seq<EventV>,
) -> bool {
    exists|pc1: usize, h1: Seq<EventV>, fuel: nat|
        comes_to(w, arms, pc, h, pc1, h1) && (#[trigger] turn(w, arms, pc1, h1, fuel)).left is Stop
            && turn(w, arms, pc1, h1, fuel).h == h2
}

proof fn lemma_comes_self(w: WorldV, arms: Seq<CodedArmV>, pc: usize, h: Seq<EventV>)
    ensures
        comes_to(w, arms, pc, h, pc, h),
{
    assert(turns_to(w, arms, pc, h, pc, h, 0));
}

#[verifier::rlimit(40)]
proof fn lemma_turns_add(
    w: WorldV,
    arms: Seq<CodedArmV>,
    a: (usize, Seq<EventV>),
    b: (usize, Seq<EventV>),
    c: (usize, Seq<EventV>),
    n: nat,
    m: nat,
)
    requires
        turns_to(w, arms, a.0, a.1, b.0, b.1, n),
        turns_to(w, arms, b.0, b.1, c.0, c.1, m),
    ensures
        turns_to(w, arms, a.0, a.1, c.0, c.1, n + m),
    decreases m,
{
    if m > 0 {
        let (pc1, h1) = choose|pc1: usize, h1: Seq<EventV>|
            turns_to(w, arms, b.0, b.1, pc1, h1, (m - 1) as nat) && #[trigger] moves(
                w,
                arms,
                pc1,
                h1,
                c.0,
                c.1,
            );
        lemma_turns_add(w, arms, a, b, (pc1, h1), n, (m - 1) as nat);
        assert((n + m - 1) as nat == n + (m - 1) as nat);
        assert(turns_to(w, arms, a.0, a.1, pc1, h1, (n + m - 1) as nat));
    }
}

proof fn lemma_comes_further(
    w: WorldV,
    arms: Seq<CodedArmV>,
    a: (usize, Seq<EventV>),
    b: (usize, Seq<EventV>),
    c: (usize, Seq<EventV>),
)
    requires
        comes_to(w, arms, a.0, a.1, b.0, b.1),
        comes_to(w, arms, b.0, b.1, c.0, c.1),
    ensures
        comes_to(w, arms, a.0, a.1, c.0, c.1),
{
    let n = choose|n: nat| turns_to(w, arms, a.0, a.1, b.0, b.1, n);
    let m = choose|m: nat| turns_to(w, arms, b.0, b.1, c.0, c.1, m);
    lemma_turns_add(w, arms, a, b, c, n, m);
}

proof fn lemma_comes_turn(
    w: WorldV,
    arms: Seq<CodedArmV>,
    a: (usize, Seq<EventV>),
    b: (usize, Seq<EventV>),
    fuel: nat,
)
    requires
        comes_to(w, arms, a.0, a.1, b.0, b.1),
    ensures
        ({
            let run = turn(w, arms, b.0, b.1, fuel);
            &&& run.left is Fall || run.left is Again ==> comes_to(
                w,
                arms,
                a.0,
                a.1,
                run.pc,
                run.h,
            )
            &&& run.left is Stop ==> halts(w, arms, a.0, a.1, run.h)
        }),
{
    let run = turn(w, arms, b.0, b.1, fuel);
    if run.left is Fall || run.left is Again {
        assert(moves(w, arms, b.0, b.1, run.pc, run.h));
        assert(turns_to(w, arms, b.0, b.1, b.0, b.1, 0));
        assert(turns_to(w, arms, b.0, b.1, run.pc, run.h, 1));
        lemma_comes_further(w, arms, a, b, (run.pc, run.h));
    }
}

proof fn lemma_halts_further(
    w: WorldV,
    arms: Seq<CodedArmV>,
    a: (usize, Seq<EventV>),
    b: (usize, Seq<EventV>),
    h: Seq<EventV>,
)
    requires
        comes_to(w, arms, a.0, a.1, b.0, b.1),
        halts(w, arms, b.0, b.1, h),
    ensures
        halts(w, arms, a.0, a.1, h),
{
    let (pc1, h1, fuel) = choose|pc1: usize, h1: Seq<EventV>, fuel: nat|
        comes_to(w, arms, b.0, b.1, pc1, h1) && (#[trigger] turn(w, arms, pc1, h1,
            fuel)).left is Stop
            && turn(w, arms, pc1, h1, fuel).h == h;
    lemma_comes_further(w, arms, a, b, (pc1, h1));
}

/// Whether the dispatch, entered at `pc`, ends as the nodes do: it falls through to
/// `after`, comes to the state of the label that is branched to, or stops, and the same
/// has happened.
pub open spec fn ends_well(
    w: WorldV,
    arms: Seq<CodedArmV>,
    labels: Map<usize, usize>,
    pc: usize,
    h: Seq<EventV>,
    end: (EndV, Seq<EventV>),
    after: usize,
) -> bool {
    match end.0 {
        EndV::Fall => comes_to(w, arms, pc, h, after, end.1),
        EndV::To(l) => labels.contains_key(l) && comes_to(w, arms, pc, h, labels[l], end.1),
        EndV::Stop => halts(w, arms, pc, h, end.1),
        EndV::Cut => true,
    }
}

#[verifier::rlimit(40)]
proof fn lemma_ends_further(
    w: WorldV,
    arms: Seq<CodedArmV>,
    labels: Map<usize, usize>,
    a: (usize, Seq<EventV>),
    b: (usize, Seq<EventV>),
    end: (EndV, Seq<EventV>),
    after: usize,
)
    requires
        comes_to(w, arms, a.0, a.1, b.0, b.1),
        ends_well(w, arms, labels, b.0, b.1, end, after),
    ensures
        ends_well(w, arms, labels, a.0, a.1, end, after),
{
    match end.0 {
        EndV::Fall => {
            lemma_comes_further(w, arms, a, b, (after, end.1));
        },
        EndV::To(l) => {
            lemma_comes_further(w, arms, a, b, (labels[l], end.1));
        },
        EndV::Stop => {
            lemma_halts_further(w, arms, a, b, end.1);
        },
        EndV::Cut => {},
    }
}

/// Whether a list of the work runs as its nodes do.
pub open spec fn task_runs(
    w: WorldV,
    arms: Seq<CodedArmV>,
    labels: Map<usize, usize>,
    t: TaskV,
) -> bool {
    forall|h: Seq<EventV>, fuel: nat|
        ends_well(
            w,
            arms,
            labels,
            t.entry,
            h,
            #[trigger] run_nodes(w, t.nodes, h, fuel),
            t.after,
        )
}

// ---------------------------------------------------------------------------
// One list of nodes
// ---------------------------------------------------------------------------
/// Whether the dispatch has come to the middle of an arm: behind `stmts` in the arm of
/// `state`.
spec fn amid(
    w: WorldV,
    arms: Seq<CodedArmV>,
    pc: usize,
    h: Seq<EventV>,
    state: usize,
    stmts: Seq<CodeV>,
    h1: Seq<EventV>,
) -> bool {
    exists|h0: Seq<EventV>| #[trigger]
        comes_to(w, arms, pc, h, state, h0) && run_codes(w, stmts, state, h0, 0) == (RunV {
            left: LeftV::Fall,
            pc: state,
            h: h1,
        })
}

/// The code that comes behind the first `i` nodes.
spec fn next_code(f: FlatV, work: Seq<TaskV>, i: int) -> CodeV {
    if i < work.last().nodes.len() {
        flat_code(at(f, work, i), work.last().nodes[i])
    } else {
        goto(work.last().after)
    }
}

/// Whether the arm of the current state ends behind what comes next.
spec fn closes(work: Seq<TaskV>, i: int) -> bool {
    i >= work.last().nodes.len() || !stays(work.last().nodes[i])
}

spec fn arm_begins(
    arms: Seq<CodedArmV>,
    s: usize,
    code: Seq<CodeV>,
    whole: bool,
) -> bool {
    exists|k: int|
        0 <= k < arms.len() && (#[trigger] arms[k]).0 == s && extends(arms[k].1, code) && (whole
            ==> arms[k].1 == code)
}

#[verifier::rlimit(40)]
proof fn lemma_coded_extends(f: FlatV, arms: Seq<CodedArmV>, work: Seq<TaskV>, i: int)
    requires
        0 <= i <= work.last().nodes.len(),
    ensures
        extends(coded_behind(f, arms, work), coded_at(f, arms, work, i).arms),
    decreases work.last().nodes.len() - i,
{
    let n = work.last().nodes.len() as int;
    let c = coded_at(f, arms, work, i);
    let all = coded_behind(f, arms, work);
    if i == n {
        if at(f, work, n).reachable {
            lemma_extends_push(c.arms, all.last());
            assert(all =~= c.arms.push(all.last()));
        } else {
            lemma_extends_self(c.arms);
        }
    } else {
        lemma_coded_extends(f, arms, work, i + 1);
        lemma_coded_next(f, arms, work, i);
        let c1 = coded_at(f, arms, work, i + 1);
        assert(extends(c1.arms, c.arms)) by {
            assert(c1.arms.take(c.arms.len() as int) =~= c.arms);
        }
        lemma_extends_further(all, c1.arms, c.arms);
    }
}

/// The current arm is finished at some point, with what it had and what comes next.
#[verifier::rlimit(40)]
proof fn lemma_coded_closes(f: FlatV, arms: Seq<CodedArmV>, work: Seq<TaskV>, i: int)
    requires
        0 <= i <= work.last().nodes.len(),
        at(f, work, i).reachable,
    ensures
        arm_begins(
            coded_behind(f, arms, work),
            at(f, work, i).state,
            coded_at(f, arms, work, i).stmts.push(next_code(f, work, i)),
            closes(work, i),
        ),
    decreases work.last().nodes.len() - i,
{
    let ns = work.last().nodes;
    let x = at(f, work, i);
    let c = coded_at(f, arms, work, i);
    let code = c.stmts.push(next_code(f, work, i));
    let all = coded_behind(f, arms, work);
    lemma_extends_self(code);
    if i == ns.len() {
        let k = c.arms.len() as int;
        assert(all[k] == (x.state, code));
    } else {
        lemma_at_next(f, work, i);
        lemma_coded_next(f, arms, work, i);
        crate::codegen::reaching::lemma_step_shape(x, ns[i]);
        let c1 = coded_at(f, arms, work, i + 1);
        if stays(ns[i]) {
            lemma_coded_closes(f, arms, work, i + 1);
            let longer = code.push(next_code(f, work, i + 1));
            assert(c1.stmts == code);
            let k = choose|k: int|
                0 <= k < all.len() && (#[trigger] all[k]).0 == x.state && extends(
                    all[k].1,
                    longer,
                ) && (closes(work, i + 1) ==> all[k].1 == longer);
            lemma_extends_push(code, next_code(f, work, i + 1));
            lemma_extends_further(all[k].1, longer, code);
        } else {
            let k = c.arms.len() as int;
            assert(c1.arms[k] == (x.state, code));
            lemma_coded_extends(f, arms, work, i + 1);
            lemma_extends_at(all, c1.arms, k);
        }
    }
}

/// Code whose beginning does not fall through runs as its beginning.
proof fn lemma_decided(
    w: WorldV,
    cs: Seq<CodeV>,
    front: Seq<CodeV>,
    pc: usize,
    h: Seq<EventV>,
    fuel: nat,
)
    requires
        extends(cs, front),
        !(run_codes(w, front, pc, h, fuel).left is Fall),
    ensures
        run_codes(w, cs, pc, h, fuel) == run_codes(w, front, pc, h, fuel),
    decreases cs.len(),
{
    if cs.len() == front.len() {
        assert(cs.take(front.len() as int) =~= cs);
    } else {
        assert(cs.drop_last().take(front.len() as int) =~= cs.take(front.len() as int));
        lemma_decided(w, cs.drop_last(), front, pc, h, fuel);
    }
}

/// Whether each state of the dispatch has one arm.
pub open spec fn single_arms(arms: Seq<CodedArmV>) -> bool {
    forall|k: int|
        0 <= k < arms.len() ==> arm_at(arms, (#[trigger] arms[k]).0) == Some(arms[k].1)
}

/// The finished dispatch, seen from its last list: `arms` goes on from what the list
/// leaves behind, and what the list leaves to do runs as its nodes do.
spec fn outcome(
    w: WorldV,
    f: FlatV,
    before: Seq<CodedArmV>,
    work: Seq<TaskV>,
    arms: Seq<CodedArmV>,
    labels: Map<usize, usize>,
) -> bool {
    let n = work.last().nodes.len() as int;
    &&& extends(arms, coded_behind(f, before, work))
    &&& single_arms(arms)
    &&& same_labels(at(f, work, n).flat.labels, labels)
    &&& forall|j: int|
        0 <= j < at(f, work, n).work.len() ==> task_runs(
            w,
            arms,
            labels,
            #[trigger] at(f, work, n).work[j],
        )
}

/// What comes next in the arm of the current state is run.
#[verifier::rlimit(40)]
proof fn lemma_next_runs(
    w: WorldV,
    f: FlatV,
    before: Seq<CodedArmV>,
    work: Seq<TaskV>,
    i: int,
    arms: Seq<CodedArmV>,
    labels: Map<usize, usize>,
    pc: usize,
    h: Seq<EventV>,
    h1: Seq<EventV>,
)
    requires
        0 <= i <= work.last().nodes.len(),
        outcome(w, f, before, work, arms, labels),
        at(f, work, i).reachable,
        amid(
            w,
            arms,
            pc,
            h,
            at(f, work, i).state,
            coded_at(f, before, work, i).stmts,
            h1,
        ),
    ensures
        ({
            let run = run_code(w, next_code(f, work, i), at(f, work, i).state, h1, 0);
            &&& closes(work, i) && run.left is Fall ==> comes_to(w, arms, pc, h, run.pc, run.h)
            &&& run.left is Again ==> comes_to(w, arms, pc, h, run.pc, run.h)
            &&& run.left is Stop ==> halts(w, arms, pc, h, run.h)
        }),
{
    let x = at(f, work, i);
    let stmts = coded_at(f, before, work, i).stmts;
    let next = next_code(f, work, i);
    let code = stmts.push(next);
    let part = coded_behind(f, before, work);
    let h0 = choose|h0: Seq<EventV>| #[trigger]
        comes_to(w, arms, pc, h, x.state, h0) && run_codes(w, stmts, x.state, h0, 0) == (RunV {
            left: LeftV::Fall,
            pc: x.state,
            h: h1,
        });
    lemma_coded_closes(f, before, work, i);
    let k = choose|k: int|
        0 <= k < part.len() && (#[trigger] part[k]).0 == x.state && extends(part[k].1, code) && (
        closes(work, i) ==> part[k].1 == code);
    lemma_extends_at(arms, part, k);
    assert(arm_at(arms, arms[k].0) == Some(arms[k].1));
    let run = run_code(w, next, x.state, h1, 0);
    assert(code.drop_last() =~= stmts);
    assert(run_codes(w, code, x.state, h0, 0) == run);
    if !(run.left is Fall) {
        lemma_decided(w, part[k].1, code, x.state, h0, 0);
    }
    lemma_comes_turn(w, arms, (pc, h), (x.state, h0), 0);
}

proof fn lemma_run_goto(w: WorldV, n: usize, pc: usize, h: Seq<EventV>)
    ensures
        run_code(w, goto(n), pc, h, 0) == (RunV { left: LeftV::Fall, pc: n, h }),
{
    lemma_run_one(w, AtomV::Goto(n), pc, h);
}

/// A region whose body is a list of its own runs as the region does, from the state
/// that enters it.
#[verifier::rlimit(40)]
proof fn lemma_entered(
    w: WorldV,
    arms: Seq<CodedArmV>,
    labels: Map<usize, usize>,
    r: RegionV,
    entry: usize,
    after: usize,
    h: Seq<EventV>,
    fuel: nat,
)
    requires
        r.kind != FrameKind::If,
        task_runs(w, arms, labels, TaskV { nodes: r.body, entry, after }),
        labels.contains_key(r.label),
        labels[r.label] == if r.kind == FrameKind::Loop {
            entry
        } else {
            after
        },
    ensures
        ends_well(w, arms, labels, entry, h, run_region(w, r, h, fuel), after),
    decreases fuel,
{
    let t = TaskV { nodes: r.body, entry, after };
    let end = run_nodes(w, t.nodes, h, fuel);
    assert(ends_well(w, arms, labels, t.entry, h, end, t.after));
    assert(run_inside(w, r, h, fuel) == end);
    if end.0 == EndV::To(r.label) {
        if r.kind == FrameKind::Loop && fuel > 0 {
            lemma_entered(w, arms, labels, r, entry, after, end.1, (fuel - 1) as nat);
            lemma_ends_further(
                w,
                arms,
                labels,
                (entry, h),
                (entry, end.1),
                run_region(w, r, end.1, (fuel - 1) as nat),
                after,
            );
        }
    }
}

/// A loop that is kept runs as the loop does, from the state of its arm.
#[verifier::rlimit(40)]
proof fn lemma_kept_runs(
    w: WorldV,
    arms: Seq<CodedArmV>,
    own: Map<usize, usize>,
    labels: Map<usize, usize>,
    kinds: Map<usize, bool>,
    r: RegionV,
    entry: usize,
    after: usize,
    h: Seq<EventV>,
    fuel: nat,
)
    requires
        r.kind == FrameKind::Loop,
        sound_region(r, kinds),
        region_stops(w, r),
        region_unbound(r, own),
        lowerable_region(r, own.dom(), true),
        same_labels(own, labels),
        arm_at(arms, entry) == Some(kept_loop(own, r, after)),
    ensures
        ends_well(w, arms, labels, entry, h, run_region(w, r, h, fuel), after),
{
    let end = run_region(w, r, h, fuel);
    let code = code_region(own, r, LayoutV::Lines);
    let run = run_code(w, code, entry, h, fuel);
    lemma_same_region(w, r, own, kinds, LayoutV::Lines, entry, h, fuel);
    lemma_region_live(w, r, h, fuel);
    lemma_region_labels(r, own.dom());
    let one = seq![code];
    assert(one.drop_last() =~= Seq::<CodeV>::empty());
    assert(run_codes(w, one.drop_last(), entry, h, fuel) == (RunV {
        left: LeftV::Fall,
        pc: entry,
        h,
    }));
    assert(run_codes(w, one, entry, h, fuel) == run);
    if r.reachable_at_end {
        let two = seq![code, goto(after)];
        assert(two.drop_last() =~= one);
        lemma_run_one(w, AtomV::Goto(after), run.pc, run.h);
        assert(run_code(w, goto(after), run.pc, run.h, fuel) == (RunV {
            left: LeftV::Fall,
            pc: after,
            h: run.h,
        }));
        assert(two.last() == goto(after));
        assert(run_codes(w, two, entry, h, fuel) == if run.left is Fall {
            RunV { left: LeftV::Fall, pc: after, h: run.h }
        } else {
            run
        });
    }
    lemma_comes_self(w, arms, entry, h);
    lemma_comes_turn(w, arms, (entry, h), (entry, h), fuel);
    if let EndV::To(l) = end.0 {
        assert(own.dom().contains(l));
        assert(own.contains_key(l));
    }
}

/// What is known where a region comes behind the first `i` nodes.
#[verifier::rlimit(40)]
proof fn lemma_region_met(
    w: WorldV,
    f: FlatV,
    before: Seq<CodedArmV>,
    work: Seq<TaskV>,
    i: int,
    r: RegionV,
    arms: Seq<CodedArmV>,
    labels: Map<usize, usize>,
)
    requires
        work.len() > 0,
        ready(f, work),
        fit(w, work.last().nodes),
        0 <= i < work.last().nodes.len(),
        work.last().nodes[i] == NodeV::Region(r),
        outcome(w, f, before, work, arms, labels),
        at(f, work, i).reachable,
    ensures
        ({
            let x = at(f, work, i);
            let x1 = at(f, work, i + 1);
            &&& x1 == lower_region(x, r)
            &&& x1.reachable
            &&& x.flat.allow_structured_loop
            &&& coded_at(f, before, work, i + 1) == coded_step(
                x,
                coded_at(f, before, work, i),
                NodeV::Region(r),
            )
            &&& coded_at(f, before, work, i + 1).stmts.len() == 0
            &&& lowerable_region(r, x.flat.labels.dom(), true)
            &&& same_labels(x.flat.labels, labels)
            &&& same_labels(x1.flat.labels, labels)
            &&& region_unbound(r, x.flat.labels)
            &&& region_stops(w, r)
            &&& exists|kinds: Map<usize, bool>| sound_region(r, kinds)
            &&& forall|j: int|
                0 <= j < x1.work.len() ==> task_runs(w, arms, labels, #[trigger] x1.work[j])
        }),
{
    let ns = work.last().nodes;
    let n = ns.len() as int;
    let x = at(f, work, i);
    let x1 = at(f, work, i + 1);
    let last = at(f, work, n);
    lemma_at_next(f, work, i);
    lemma_coded_next(f, before, work, i);
    assert(x1 == lower_region(x, r));
    lemma_at_ready(f, work, i);
    lemma_lowerable_node(ns, x.flat.labels.dom(), true, i);
    lemma_labels_stay(f, work, i + 1, n);
    lemma_labels_stay(f, work, i, n);
    crate::codegen::reaching::lemma_at_extends(f, work, i + 1, n);
    let kinds = choose|kinds: Map<usize, bool>| sound(ns, kinds);
    lemma_sound_at(ns, kinds, w, i);
    assert(sound_region(r, kinds));
    assert forall|l: usize| #[trigger] x.flat.labels.contains_key(l) implies labels.contains_key(l)
        && labels[l] == x.flat.labels[l] by {
        assert(last.flat.labels.contains_key(l));
    }
    assert forall|l: usize| #[trigger] x1.flat.labels.contains_key(l) implies labels.contains_key(
        l,
    ) && labels[l] == x1.flat.labels[l] by {
        assert(last.flat.labels.contains_key(l));
    }
    assert forall|l: usize| #[trigger] x.flat.labels.contains_key(l) implies region_label_count(
        r,
        l,
    ) == 0 by {
        lemma_count_grows(ns, i, l);
        assert(work_labels(x.work, l) + bound_count(x.flat, l) + label_count(ns, l) <= 1
            + label_count(ns.take(i), l));
    }
    assert forall|j: int| 0 <= j < x1.work.len() implies task_runs(
        w,
        arms,
        labels,
        #[trigger] x1.work[j],
    ) by {
        lemma_extends_at(last.work, x1.work, j);
        assert(task_runs(w, arms, labels, last.work[j]));
    }
}

/// An `if` behind the first `i` nodes: the arm of the dispatch leads to the state that
/// enters the body if the condition holds, and to the other one if it does not.
#[verifier::rlimit(40)]
proof fn lemma_if_runs(
    w: WorldV,
    f: FlatV,
    before: Seq<CodedArmV>,
    work: Seq<TaskV>,
    i: int,
    r: RegionV,
    arms: Seq<CodedArmV>,
    labels: Map<usize, usize>,
    pc: usize,
    h: Seq<EventV>,
    h1: Seq<EventV>,
    fuel: nat,
)
    requires
        work.len() > 0,
        ready(f, work),
        fit(w, work.last().nodes),
        0 <= i < work.last().nodes.len(),
        work.last().nodes[i] == NodeV::Region(r),
        outcome(w, f, before, work, arms, labels),
        at(f, work, i).reachable,
        amid(
            w,
            arms,
            pc,
            h,
            at(f, work, i).state,
            coded_at(f, before, work, i).stmts,
            h1,
        ),
        r.kind == FrameKind::If,
    ensures
        ends_well(
            w,
            arms,
            labels,
            pc,
            h,
            run_region(w, r, h1, fuel),
            at(f, work, i + 1).state,
        ),
{
    let x = at(f, work, i);
    let x1 = at(f, work, i + 1);
    lemma_region_met(w, f, before, work, i, r, arms, labels);
    lemma_next_runs(w, f, before, work, i, arms, labels, pc, h, h1);
    let first = x.flat.next_state;
    let second = inc(first);
    let third = inc(second);
    let at_body = x.work.len() as int;
    let cond = cond_text(r.cond);
    let body = TaskV { nodes: r.body, entry: second, after: first };
    assert(x1.work[at_body] == body);
    assert(x1.flat.labels.contains_key(r.label) && x1.flat.labels[r.label] == first);
    assert(labels.contains_key(r.label) && labels[r.label] == first);
    assert(x1.state == first);
    let h2 = h1.push(EventV::Asked(cond));
    let inside = run_inside(w, r, h1, fuel);
    let run = run_code(w, flat_code(x, NodeV::Region(r)), x.state, h1, 0);
    assert(ends_well(w, arms, labels, pc, h, inside, first)) by {
        if (w.truth)(h1, cond) {
            lemma_run_one(w, AtomV::Goto(second), x.state, h2);
            assert(run == (RunV { left: LeftV::Fall, pc: second, h: h2 }));
            assert(inside == run_nodes(w, body.nodes, h2, fuel));
            assert(ends_well(w, arms, labels, body.entry, h2, inside, body.after));
            lemma_ends_further(w, arms, labels, (pc, h), (second, h2), inside, first);
        } else if let Some(els) = r.els {
            let other = TaskV { nodes: els, entry: third, after: first };
            assert(x1.work[at_body + 1] == other);
            lemma_run_one(w, AtomV::Goto(third), x.state, h2);
            assert(run == (RunV { left: LeftV::Fall, pc: third, h: h2 }));
            assert(inside == run_nodes(w, other.nodes, h2, fuel));
            assert(ends_well(w, arms, labels, other.entry, h2, inside, other.after));
            lemma_ends_further(w, arms, labels, (pc, h), (third, h2), inside, first);
        } else {
            lemma_run_one(w, AtomV::Goto(first), x.state, h2);
            assert(run == (RunV { left: LeftV::Fall, pc: first, h: h2 }));
        }
    }
}

/// A block or loop behind the first `i` nodes.
#[verifier::rlimit(40)]
proof fn lemma_nested_runs(
    w: WorldV,
    f: FlatV,
    before: Seq<CodedArmV>,
    work: Seq<TaskV>,
    i: int,
    r: RegionV,
    arms: Seq<CodedArmV>,
    labels: Map<usize, usize>,
    pc: usize,
    h: Seq<EventV>,
    h1: Seq<EventV>,
    fuel: nat,
)
    requires
        work.len() > 0,
        ready(f, work),
        fit(w, work.last().nodes),
        0 <= i < work.last().nodes.len(),
        work.last().nodes[i] == NodeV::Region(r),
        outcome(w, f, before, work, arms, labels),
        at(f, work, i).reachable,
        amid(
            w,
            arms,
            pc,
            h,
            at(f, work, i).state,
            coded_at(f, before, work, i).stmts,
            h1,
        ),
        r.kind != FrameKind::If,
    ensures
        ends_well(
            w,
            arms,
            labels,
            pc,
            h,
            run_region(w, r, h1, fuel),
            at(f, work, i + 1).state,
        ),
{
    let x = at(f, work, i);
    let x1 = at(f, work, i + 1);
    lemma_region_met(w, f, before, work, i, r, arms, labels);
    lemma_next_runs(w, f, before, work, i, arms, labels, pc, h, h1);
    let first = x.flat.next_state;
    let second = inc(first);
    let at_body = x.work.len() as int;
    let end = run_region(w, r, h1, fuel);
    lemma_run_goto(w, first, x.state, h1);
    assert(comes_to(w, arms, pc, h, first, h1));
    assert(x1.state == second);
    if structurable(r) {
        let kinds = choose|kinds: Map<usize, bool>| sound_region(r, kinds);
        let c1 = coded_at(f, before, work, i + 1);
        let k = coded_at(f, before, work, i).arms.len() as int + 1;
        assert(kept(x, r));
        assert(c1.arms[k] == (first, kept_loop(x.flat.labels, r, second)));
        lemma_coded_extends(f, before, work, i + 1);
        lemma_extends_at(coded_behind(f, before, work), c1.arms, k);
        lemma_extends_at(arms, coded_behind(f, before, work), k);
        assert(arm_at(arms, arms[k].0) == Some(arms[k].1));
        lemma_kept_runs(w, arms, x.flat.labels, labels, kinds, r, first, second, h1, fuel);
    } else {
        let body = TaskV { nodes: r.body, entry: first, after: second };
        assert(x1.work[at_body] == body);
        assert(task_runs(w, arms, labels, x1.work[at_body]));
        assert(x1.flat.labels.contains_key(r.label));
        lemma_entered(w, arms, labels, r, first, second, h1, fuel);
    }
    lemma_ends_further(w, arms, labels, (pc, h), (first, h1), end, second);
}

/// A region behind the first `i` nodes.
proof fn lemma_region_runs(
    w: WorldV,
    f: FlatV,
    before: Seq<CodedArmV>,
    work: Seq<TaskV>,
    i: int,
    r: RegionV,
    arms: Seq<CodedArmV>,
    labels: Map<usize, usize>,
    pc: usize,
    h: Seq<EventV>,
    h1: Seq<EventV>,
    fuel: nat,
)
    requires
        work.len() > 0,
        ready(f, work),
        fit(w, work.last().nodes),
        0 <= i < work.last().nodes.len(),
        work.last().nodes[i] == NodeV::Region(r),
        outcome(w, f, before, work, arms, labels),
        at(f, work, i).reachable,
        amid(
            w,
            arms,
            pc,
            h,
            at(f, work, i).state,
            coded_at(f, before, work, i).stmts,
            h1,
        ),
    ensures
        ends_well(
            w,
            arms,
            labels,
            pc,
            h,
            run_region(w, r, h1, fuel),
            at(f, work, i + 1).state,
        ),
        at(f, work, i + 1).reachable,
        coded_at(f, before, work, i + 1).stmts.len() == 0,
{
    lemma_region_met(w, f, before, work, i, r, arms, labels);
    if r.kind == FrameKind::If {
        lemma_if_runs(w, f, before, work, i, r, arms, labels, pc, h, h1, fuel);
    } else {
        lemma_nested_runs(w, f, before, work, i, r, arms, labels, pc, h, h1, fuel);
    }
}

/// A branch, run as code: the carried values are assigned, and the state is that of the
/// label.
proof fn lemma_branch_runs(
    w: WorldV,
    assigns: Seq<(Seq<char>, Seq<char>)>,
    label: usize,
    to: usize,
    state: usize,
    h: Seq<EventV>,
)
    ensures
        ({
            let end = branched(w, assigns, label, h);
            let there = run_atoms(w, assign_atoms(assigns) + seq![AtomV::Goto(to)], state, h);
            let again = run_atoms(
                w,
                assign_atoms(assigns) + seq![AtomV::Goto(to), AtomV::Again],
                state,
                h,
            );
            match end.0 {
                EndV::To(l) => {
                    &&& l == label
                    &&& there == (RunV { left: LeftV::Fall, pc: to, h: end.1 })
                    &&& again == (RunV { left: LeftV::Again, pc: to, h: end.1 })
                },
                EndV::Stop => {
                    &&& there.left is Stop && there.h == end.1
                    &&& again.left is Stop && again.h == end.1
                },
                _ => false,
            }
        }),
{
    let (a, b) = (AtomV::Goto(to), AtomV::Again);
    lemma_run_assigns(w, assigns, state, h, 0);
    lemma_run_cat(w, assign_atoms(assigns), seq![a], state, h);
    lemma_run_cat(w, assign_atoms(assigns), seq![a, b], state, h);
    let h1 = did_assigns(w, assigns, h).1;
    lemma_run_one(w, a, state, h1);
    assert(seq![a, b].drop_last() =~= seq![a]);
}

/// What a node other than a region does, and what its code does.
#[verifier::rlimit(40)]
proof fn lemma_simple_step(
    w: WorldV,
    x: WalkV,
    n: NodeV,
    kinds: Map<usize, bool>,
    h: Seq<EventV>,
    fuel: nat,
)
    requires
        sound_node(n, kinds),
        node_stops(w, n),
        lowerable_node(n, x.flat.labels.dom(), true),
        !(n is Region),
    ensures
        ({
            let end = run_node(w, n, h, fuel);
            let run = run_code(w, flat_code(x, n), x.state, h, 0);
            &&& run.h == end.1
            &&& match end.0 {
                EndV::Fall => stays(n) && run.left is Fall && run.pc == x.state,
                EndV::To(l) => {
                    &&& x.flat.labels.contains_key(l)
                    &&& run.pc == x.flat.labels[l]
                    &&& run.left is Again || (run.left is Fall && !stays(n))
                },
                EndV::Stop => run.left is Stop,
                EndV::Cut => false,
            }
        }),
{
    match n {
        NodeV::Line(text) => {
            lemma_run_one(w, AtomV::Do(text), x.state, h);
        },
        NodeV::Term(text) => {
            lemma_run_one(w, AtomV::Do(text), x.state, h);
            assert((w.stops)(h, text));
        },
        NodeV::Br { label, is_loop } => {
            lemma_run_goto(w, x.flat.labels[label], x.state, h);
            assert(x.flat.labels.dom().contains(label));
        },
        NodeV::BrIf { cond, label, is_loop, assigns } => {
            let h2 = h.push(EventV::Asked(cond));
            lemma_branch_runs(w, assigns, label, x.flat.labels[label], x.state, h2);
            assert(x.flat.labels.dom().contains(label));
        },
        NodeV::BrTable { selector, arms: table } => {
            let coded = flat_arm_codes(x.flat.labels, table);
            assert(arm_patterns(coded) =~= patterns(table));
            let k = (w.choice)(h, selector, patterns(table));
            if 0 <= k < table.len() {
                let a = table[k];
                let h2 = h.push(EventV::Chose(selector));
                assert(x.flat.labels.dom().contains(table[k].label));
                lemma_branch_runs(w, a.assigns, a.label, x.flat.labels[a.label], x.state, h2);
                assert(coded[k].1 == assign_atoms(a.assigns) + seq![
                    AtomV::Goto(x.flat.labels[a.label]),
                ]);
            }
        },
        _ => {},
    }
}

/// A node other than a region, behind the first `i` nodes.
#[verifier::rlimit(40)]
proof fn lemma_simple_runs(
    w: WorldV,
    f: FlatV,
    before: Seq<CodedArmV>,
    work: Seq<TaskV>,
    i: int,
    arms: Seq<CodedArmV>,
    labels: Map<usize, usize>,
    pc: usize,
    h: Seq<EventV>,
    h1: Seq<EventV>,
    fuel: nat,
)
    requires
        work.len() > 0,
        ready(f, work),
        fit(w, work.last().nodes),
        0 <= i < work.last().nodes.len(),
        !(work.last().nodes[i] is Region),
        outcome(w, f, before, work, arms, labels),
        at(f, work, i).reachable,
        amid(
            w,
            arms,
            pc,
            h,
            at(f, work, i).state,
            coded_at(f, before, work, i).stmts,
            h1,
        ),
    ensures
        ({
            let end = run_node(w, work.last().nodes[i], h1, fuel);
            let x1 = at(f, work, i + 1);
            if end.0 is Fall {
                x1.reachable && amid(
                    w,
                    arms,
                    pc,
                    h,
                    x1.state,
                    coded_at(f, before, work, i + 1).stmts,
                    end.1,
                )
            } else {
                ends_well(w, arms, labels, pc, h, end, 0)
            }
        }),
{
    let ns = work.last().nodes;
    let n = ns[i];
    let last = ns.len() as int;
    let x = at(f, work, i);
    let c = coded_at(f, before, work, i);
    lemma_at_next(f, work, i);
    lemma_coded_next(f, before, work, i);
    lemma_next_runs(w, f, before, work, i, arms, labels, pc, h, h1);
    lemma_at_ready(f, work, i);
    lemma_lowerable_node(ns, x.flat.labels.dom(), true, i);
    lemma_labels_stay(f, work, i, last);
    let kinds = choose|kinds: Map<usize, bool>| sound(ns, kinds);
    lemma_sound_at(ns, kinds, w, i);
    lemma_simple_step(w, x, n, kinds, h1, fuel);
    let code = flat_code(x, n);
    let end = run_node(w, n, h1, fuel);
    let h0 = choose|h0: Seq<EventV>| #[trigger]
        comes_to(w, arms, pc, h, x.state, h0) && run_codes(w, c.stmts, x.state, h0, 0) == (RunV {
            left: LeftV::Fall,
            pc: x.state,
            h: h1,
        });
    assert(c.stmts.push(code).drop_last() =~= c.stmts);
    assert(run_codes(w, c.stmts.push(code), x.state, h0, 0) == run_code(
        w,
        code,
        x.state,
        h1,
        0,
    ));
    if let EndV::To(l) = end.0 {
        assert(at(f, work, last).flat.labels.contains_key(l));
    }
    if end.0 is Fall {
        crate::codegen::reaching::lemma_step_shape(x, n);
        assert(coded_at(f, before, work, i + 1).stmts == c.stmts.push(code));
    }
}

/// The first `i` nodes of the last list.
#[verifier::rlimit(40)]
proof fn lemma_prefix_runs(
    w: WorldV,
    f: FlatV,
    before: Seq<CodedArmV>,
    work: Seq<TaskV>,
    i: int,
    arms: Seq<CodedArmV>,
    labels: Map<usize, usize>,
    h: Seq<EventV>,
    fuel: nat,
)
    requires
        work.len() > 0,
        ready(f, work),
        fit(w, work.last().nodes),
        0 <= i <= work.last().nodes.len(),
        outcome(w, f, before, work, arms, labels),
    ensures
        ({
            let end = run_nodes(w, work.last().nodes.take(i), h, fuel);
            let x = at(f, work, i);
            if end.0 is Fall {
                x.reachable && amid(
                    w,
                    arms,
                    work.last().entry,
                    h,
                    x.state,
                    coded_at(f, before, work, i).stmts,
                    end.1,
                )
            } else {
                ends_well(w, arms, labels, work.last().entry, h, end, 0)
            }
        }),
    decreases i,
{
    let ns = work.last().nodes;
    let entry = work.last().entry;
    if i == 0 {
        assert(ns.take(0).len() == 0);
        assert(at(f, work, 0) == started(f, work));
        lemma_comes_self(w, arms, entry, h);
        assert(amid(
            w,
            arms,
            entry,
            h,
            entry,
            coded_at(f, before, work, 0).stmts,
            h,
        ));
    } else {
        let n = ns[i - 1];
        lemma_prefix_runs(w, f, before, work, i - 1, arms, labels, h, fuel);
        lemma_at_next(f, work, i - 1);
        let (end, h1) = run_nodes(w, ns.take(i - 1), h, fuel);
        if end is Fall {
            if let NodeV::Region(r) = n {
                lemma_region_runs(
                    w,
                    f,
                    before,
                    work,
                    i - 1,
                    r,
                    arms,
                    labels,
                    entry,
                    h,
                    h1,
                    fuel,
                );
                let x1 = at(f, work, i);
                let end1 = run_region(w, r, h1, fuel);
                if end1.0 is Fall {
                    let stmts = coded_at(f, before, work, i).stmts;
                    assert(comes_to(w, arms, entry, h, x1.state, end1.1));
                    assert(run_codes(w, stmts, x1.state, end1.1, 0) == (RunV {
                        left: LeftV::Fall,
                        pc: x1.state,
                        h: end1.1,
                    }));
                }
            } else {
                lemma_simple_runs(
                    w,
                    f,
                    before,
                    work,
                    i - 1,
                    arms,
                    labels,
                    entry,
                    h,
                    h1,
                    fuel,
                );
            }
        }
    }
}

/// The last list of the work.
#[verifier::rlimit(40)]
proof fn lemma_list_runs(
    w: WorldV,
    f: FlatV,
    before: Seq<CodedArmV>,
    work: Seq<TaskV>,
    arms: Seq<CodedArmV>,
    labels: Map<usize, usize>,
)
    requires
        work.len() > 0,
        ready(f, work),
        fit(w, work.last().nodes),
        outcome(w, f, before, work, arms, labels),
    ensures
        task_runs(w, arms, labels, work.last()),
{
    let t = work.last();
    let n = t.nodes.len() as int;
    assert(t.nodes.take(n) =~= t.nodes);
    assert forall|h: Seq<EventV>, fuel: nat|
        ends_well(
            w,
            arms,
            labels,
            t.entry,
            h,
            #[trigger] run_nodes(w, t.nodes, h, fuel),
            t.after,
        ) by {
        lemma_prefix_runs(w, f, before, work, n, arms, labels, h, fuel);
        let (end, h1) = run_nodes(w, t.nodes, h, fuel);
        if end is Fall {
            lemma_next_runs(w, f, before, work, n, arms, labels, t.entry, h, h1);
            lemma_run_goto(w, t.after, at(f, work, n).state, h1);
        }
    }
}

/// All lists of the work.
#[verifier::rlimit(40)]
proof fn lemma_work_runs(w: WorldV, f: FlatV, before: Seq<CodedArmV>, work: Seq<TaskV>)
    requires
        ready(f, work),
        work_fit(w, work),
        reads_as(f.arms, before),
        forall|s: usize| #[trigger] arm_count(lower_work(f, work).arms, s) <= 1,
    ensures
        reads_as(lower_work(f, work).arms, coded_work(f, before, work)),
        extends(coded_work(f, before, work), before),
        same_labels(f.labels, lower_work(f, work).labels),
        single_arms(coded_work(f, before, work)),
        forall|j: int|
            0 <= j < work.len() ==> task_runs(
                w,
                coded_work(f, before, work),
                lower_work(f, work).labels,
                #[trigger] work[j],
            ),
    decreases work_size(work),
{
    if work.len() == 0 {
        lemma_extends_self(before);
        lemma_single(f.arms, before);
    } else {
        let ns = work.last().nodes;
        let n = ns.len() as int;
        assert(ns.take(n) =~= ns);
        let x = at(f, work, n);
        let f2 = behind(f, work);
        let r = lower_work(f, work);
        let arms2 = coded_behind(f, before, work);
        let arms = coded_work(f, before, work);
        assert(work[work.len() - 1] == work.last());
        assert(fit(w, ns));
        lemma_at_ready(f, work, n);
        assert(work_size(x.work) < work_size(work));
        assert(r == lower_work(f2, x.work));
        assert(arms == coded_work(f2, arms2, x.work));
        assert(labels_unique(f2, x.work)) by {
            assert forall|l: usize| #[trigger] work_labels(x.work, l) + bound_count(f2, l) <= 1 by {
                assert(work_labels(x.work, l) + bound_count(x.flat, l) + label_count(ns, l) <= 1
                    + label_count(ns.take(n), l));
            }
        }
        lemma_behind_reads(f, before, work, w);
        lemma_at_fit(f, work, w, n);
        lemma_work_runs(w, f2, arms2, x.work);
        assert(outcome(w, f, before, work, arms, r.labels));
        lemma_list_runs(w, f, before, work, arms, r.labels);
        lemma_coded_extends(f, before, work, 0);
        lemma_labels_stay(f, work, 0, n);
        crate::codegen::reaching::lemma_at_extends(f, work, 0, n);
        assert(ns.take(0).len() == 0);
        assert(at(f, work, 0) == started(f, work));
        assert(coded_at(f, before, work, 0).arms == before);
        lemma_extends_further(arms, arms2, before);
        assert forall|l: usize| #[trigger] f.labels.contains_key(l) implies r.labels.contains_key(l)
            && r.labels[l] == f.labels[l] by {
            assert(at(f, work, 0).flat.labels.contains_key(l));
            assert(x.flat.labels.contains_key(l));
            assert(f2.labels.contains_key(l));
        }
        assert forall|j: int| 0 <= j < work.len() implies task_runs(
            w,
            arms,
            r.labels,
            #[trigger] work[j],
        ) by {
            if j < work.len() - 1 {
                assert(work.drop_last()[j] == work[j]);
                lemma_extends_at(x.work, work.drop_last(), j);
                assert(task_runs(w, arms, r.labels, x.work[j]));
            } else {
                assert(work[j] == work.last());
            }
        }
    }
}

/// A state with one arm has the code of that arm.
proof fn lemma_single(arms: Seq<ArmV>, coded: Seq<CodedArmV>)
    requires
        reads_as(arms, coded),
        forall|s: usize| #[trigger] arm_count(arms, s) <= 1,
    ensures
        single_arms(coded),
{
    assert forall|k: int| 0 <= k < coded.len() implies arm_at(coded, (#[trigger] coded[k]).0)
        == Some(coded[k].1) by {
        assert(arms[k].0 == coded[k].0);
        lemma_single_arm(arms, coded, k);
    }
}

#[verifier::rlimit(40)]
proof fn lemma_no_arm(arms: Seq<ArmV>, coded: Seq<CodedArmV>, s: usize)
    requires
        reads_as(arms, coded),
    ensures
        arm_at(coded, s) is Some <==> arm_count(arms, s) > 0,
    decreases arms.len(),
{
    if arms.len() > 0 {
        assert(reads_as(arms.drop_last(), coded.drop_last())) by {
            assert forall|k: int|
                #![trigger coded.drop_last()[k]]
                #![trigger arms.drop_last()[k]]
                0 <= k < arms.len() - 1 implies coded.drop_last()[k].0 == arms.drop_last()[k].0
                && written(Seq::empty(), coded.drop_last()[k].1, 0) == arms.drop_last()[k].1 by {
                assert(coded[k].0 == arms[k].0);
            }
        }
        lemma_no_arm(arms.drop_last(), coded.drop_last(), s);
        assert(coded[arms.len() - 1].0 == arms[arms.len() - 1].0);
    }
}

#[verifier::rlimit(40)]
proof fn lemma_single_arm(arms: Seq<ArmV>, coded: Seq<CodedArmV>, k: int)
    requires
        reads_as(arms, coded),
        0 <= k < arms.len(),
        arm_count(arms, arms[k].0) <= 1,
    ensures
        arm_at(coded, arms[k].0) == Some(coded[k].1),
    decreases arms.len(),
{
    let s = arms[k].0;
    assert(coded[k].0 == s);
    assert(reads_as(arms.drop_last(), coded.drop_last())) by {
        assert forall|j: int|
            #![trigger coded.drop_last()[j]]
            #![trigger arms.drop_last()[j]]
            0 <= j < arms.len() - 1 implies coded.drop_last()[j].0 == arms.drop_last()[j].0
            && written(Seq::empty(), coded.drop_last()[j].1, 0) == arms.drop_last()[j].1 by {
            assert(coded[j].0 == arms[j].0);
        }
    }
    if k < arms.len() - 1 {
        assert(arms.drop_last()[k] == arms[k]);
        assert(coded.drop_last()[k] == coded[k]);
        lemma_single_arm(arms.drop_last(), coded.drop_last(), k);
    } else {
        lemma_no_arm(arms.drop_last(), coded.drop_last(), s);
    }
}

// ---------------------------------------------------------------------------
// The laws
// ---------------------------------------------------------------------------
#[verifier::rlimit(40)]
proof fn lemma_all_stop(w: WorldV, ns: Seq<NodeV>)
    requires
        forall|h: Seq<EventV>, t: Seq<char>| #[trigger] (w.stops)(h, t),
    ensures
        terms_stop(w, ns),
    decreases nodes_size(ns), ns.len(),
{
    if ns.len() > 0 {
        lemma_node_size(ns, ns.len() - 1);
        lemma_all_stop(w, ns.drop_last());
        if let NodeV::Region(r) = ns.last() {
            lemma_all_stop(w, r.body);
            if let Some(els) = r.els {
                lemma_all_stop(w, els);
            }
            assert(region_stops(w, r));
        }
        assert(node_stops(w, ns.last()));
    }
}

#[verifier::rlimit(40)]
proof fn lemma_sound_lowers(ns: Seq<NodeV>, kinds: Map<usize, bool>, bound: Set<usize>)
    requires
        sound(ns, kinds),
        kinds.dom().subset_of(bound),
    ensures
        lowerable(ns, bound, true),
        ends_marked(ns),
    decreases nodes_size(ns), ns.len(),
{
    if ns.len() > 0 {
        lemma_node_size(ns, ns.len() - 1);
        lemma_sound_lowers(ns.drop_last(), kinds, bound);
        let n = ns.last();
        assert(sound_node(n, kinds));
        match n {
            NodeV::Br { label, is_loop } => {
                assert(kinds.dom().contains(label));
            },
            NodeV::BrIf { cond, label, is_loop, assigns } => {
                assert(kinds.dom().contains(label));
            },
            NodeV::BrTable { selector, arms } => {
                assert forall|i: int| 0 <= i < arms.len() implies bound.contains(
                    (#[trigger] arms[i]).label,
                ) by {
                    assert(kinds.dom().contains(arms[i].label));
                }
            },
            NodeV::Region(r) => {
                let inner = crate::codegen::running::kinds_inside(r, kinds);
                let within = bound.insert(r.label);
                assert forall|l: usize| inner.dom().contains(l) implies within.contains(l) by {
                    if l != r.label {
                        assert(kinds.dom().contains(l));
                    }
                }
                lemma_sound_lowers(r.body, inner, within);
                if let Some(els) = r.els {
                    lemma_sound_lowers(els, inner, within);
                }
                assert(lowerable_region(r, bound, true));
                assert(region_end_marked(r));
            },
            _ => {},
        }
        assert(lowerable_node(n, bound, true));
    }
}

/// Whether a dispatch, read as code, runs as the body does in every world: entered at
/// state 0 after whatever has happened, it executes the same statements and asks the
/// same conditions in the same order, comes to state 1 where the body falls through,
/// and ends where the body ends.
pub open spec fn runs_as_body(coded: Seq<CodedArmV>, nodes: Seq<NodeV>) -> bool {
    forall|w: WorldV, h: Seq<EventV>, fuel: nat|
        terms_stop(w, nodes) ==> {
            let end = #[trigger] run_nodes(w, nodes, h, fuel);
            match end.0 {
                EndV::Fall => comes_to(w, coded, 0, h, 1, end.1),
                EndV::To(_) => false,
                EndV::Stop => halts(w, coded, 0, h, end.1),
                EndV::Cut => true,
            }
        }
}

/// Flattening keeps what a body does. The arms of the dispatch are the lines of code
/// that runs as the body does, whatever its conditions and selectors give each time
/// and wherever it stops: where a condition holds, control goes to the state that
/// enters the body of the `if`, where it does not, to the other one, and a branch goes
/// to where its region begins or ends, with the carried values assigned. (A run that
/// does not end is covered by those that stop at any of its statements. The labels of
/// the regions are all different, and the number of states fits a machine word.)
#[verifier::rlimit(40)]
pub proof fn law_flattening_keeps_runs(nodes: Seq<NodeV>, exit_stmt: Seq<char>)
    requires
        sound(nodes, Map::empty()),
        forall|l: usize| #[trigger] label_count(nodes, l) <= 1,
        3 * nodes_size(nodes) + 8 <= usize::MAX,
    ensures
        exists|coded: Seq<CodedArmV>| #[trigger]
            reads_as(flat_body(nodes, exit_stmt, true).arms, coded) && single_arms(coded)
                && runs_as_body(coded, nodes),
{
    let f = fresh_flat(exit_stmt, true);
    let task = TaskV { nodes, entry: 0, after: 1 };
    let work = Seq::<TaskV>::empty().push(task);
    let r = flat_body(nodes, exit_stmt, true);
    let leave = CodeV::Line(seq![AtomV::Do(exit_stmt)]);
    let before: Seq<CodedArmV> = seq![(1usize, Seq::empty().push(leave))];
    let coded = coded_work(f, before, work);
    assert(r == lower_work(f, work));
    assert(f.labels.dom() =~= Set::<usize>::empty());
    assert(Map::<usize, bool>::empty().dom() =~= Set::<usize>::empty());
    lemma_sound_lowers(nodes, Map::empty(), Set::empty());
    assert forall|s: usize| #[trigger] arm_count(r.arms, s) <= 1 by {
        law_states_have_one_arm(nodes, exit_stmt, true, s);
    }
    assert forall|l: usize| #[trigger] work_labels(work, l) + bound_count(f, l) <= 1 by {
        lemma_labels_pushed(Seq::empty(), task, l);
        assert(label_count(nodes, l) <= 1);
    }
    assert(reads_as(f.arms, before)) by {
        lemma_written_push(Seq::empty(), leave);
        lemma_spaced_one(AtomV::Do(exit_stmt));
        let none = written(Seq::empty(), Seq::<CodeV>::empty(), 0);
        assert(none == Seq::<LineV>::empty());
        assert(written_one(none, leave, 0) == none.push((0usize, exit_stmt)));
    }
    let stopping = WorldV {
        truth: |h: Seq<EventV>, c: Seq<char>| true,
        choice: |h: Seq<EventV>, s: Seq<char>, p: Seq<Seq<char>>| 0int,
        stops: |h: Seq<EventV>, t: Seq<char>| true,
    };
    lemma_all_stop(stopping, nodes);
    assert(fit(stopping, nodes));
    lemma_work_runs(stopping, f, before, work);
    assert forall|w: WorldV, h: Seq<EventV>, fuel: nat| terms_stop(w, nodes) implies {
        let end = #[trigger] run_nodes(w, nodes, h, fuel);
        match end.0 {
            EndV::Fall => comes_to(w, coded, 0, h, 1, end.1),
            EndV::To(_) => false,
            EndV::Stop => halts(w, coded, 0, h, end.1),
            EndV::Cut => true,
        }
    } by {
        assert(fit(w, nodes));
        lemma_work_runs(w, f, before, work);
        assert(task_runs(w, coded, r.labels, work[0]));
        let end = run_nodes(w, task.nodes, h, fuel);
        assert(ends_well(w, coded, r.labels, 0, h, end, 1));
        lemma_stays_inside(w, nodes, Map::empty(), h, fuel);
    }
}

/// A branch goes to a label that can be branched to.
proof fn lemma_stays_inside(
    w: WorldV,
    ns: Seq<NodeV>,
    kinds: Map<usize, bool>,
    h: Seq<EventV>,
    fuel: nat,
)
    requires
        sound(ns, kinds),
        terms_stop(w, ns),
    ensures
        run_nodes(w, ns, h, fuel).0 matches EndV::To(l) ==> kinds.contains_key(l),
{
    lemma_same_nodes(w, ns, Map::empty(), kinds, LayoutV::Lines, 0, h, fuel);
}

} // verus!
