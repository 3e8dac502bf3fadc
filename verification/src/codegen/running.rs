//! What a body does when it runs, and what the lines of generated code do.
//!
//! A run is a sequence of events: the statements that are executed, the conditions
//! that are asked and the selectors that are looked at, in their order. What a
//! condition or a selector gives, and whether a statement is the last one, is up to
//! the world, which may decide anew each time. A loop that is entered again uses up
//! fuel, so that a run always comes to an end.

use vstd::prelude::*;

use crate::codegen::flatten::LineV;
use crate::codegen::ir::{
    cond_text, lemma_node_size, nodes_size, region_size, BrArmV, FrameKind, NodeV, RegionV,
};
use crate::codegen::live::{live_node, live_nodes, live_region};
use crate::text::{dec, inc};

verus! {

// ---------------------------------------------------------------------------
// Runs
// ---------------------------------------------------------------------------
/// Something that happens in a run.
pub enum EventV {
    /// A statement was executed.
    Did(Seq<char>),
    /// A condition was asked.
    Asked(Seq<char>),
    /// A selector was looked at.
    Chose(Seq<char>),
}

/// What decides a run, from what has happened so far.
pub struct WorldV {
    /// Whether a condition holds.
    pub truth: spec_fn(Seq<EventV>, Seq<char>) -> bool,
    /// Which of the patterns takes the value of a selector.
    pub choice: spec_fn(Seq<EventV>, Seq<char>, Seq<Seq<char>>) -> int,
    /// Whether the run ends with a statement.
    pub stops: spec_fn(Seq<EventV>, Seq<char>) -> bool,
}

/// How a list of nodes is left.
pub enum EndV {
    /// Behind its last node.
    Fall,
    /// By a branch to a label.
    To(usize),
    /// The whole run ended.
    Stop,
    /// The fuel was used up.
    Cut,
}

/// A statement executed.
pub open spec fn did(w: WorldV, text: Seq<char>, h: Seq<EventV>) -> (EndV, Seq<EventV>) {
    (
        if (w.stops)(h, text) {
            EndV::Stop
        } else {
            EndV::Fall
        },
        h.push(EventV::Did(text)),
    )
}

/// The statement that assigns a carried value.
pub open spec fn assign_text(a: (Seq<char>, Seq<char>)) -> Seq<char> {
    a.0 + " = "@ + a.1 + ";"@
}

/// Carried values assigned, one after another.
pub open spec fn did_assigns(
    w: WorldV,
    assigns: Seq<(Seq<char>, Seq<char>)>,
    h: Seq<EventV>,
) -> (EndV, Seq<EventV>)
    decreases assigns.len(),
{
    if assigns.len() == 0 {
        (EndV::Fall, h)
    } else {
        let (end, h1) = did_assigns(w, assigns.drop_last(), h);
        if end is Fall {
            did(w, assign_text(assigns.last()), h1)
        } else {
            (end, h1)
        }
    }
}

/// A branch taken: the carried values are assigned first.
pub open spec fn branched(
    w: WorldV,
    assigns: Seq<(Seq<char>, Seq<char>)>,
    label: usize,
    h: Seq<EventV>,
) -> (EndV, Seq<EventV>) {
    let (end, h1) = did_assigns(w, assigns, h);
    (
        if end is Fall {
            EndV::To(label)
        } else {
            end
        },
        h1,
    )
}

pub open spec fn patterns(arms: Seq<BrArmV>) -> Seq<Seq<char>> {
    Seq::new(arms.len(), |i: int| arms[i].pattern)
}

/// A list of nodes run, behind what has happened in `h`.
pub open spec fn run_nodes(w: WorldV, ns: Seq<NodeV>, h: Seq<EventV>, fuel: nat) -> (
    EndV,
    Seq<EventV>,
)
    decreases fuel, ns,
{
    if ns.len() == 0 {
        (EndV::Fall, h)
    } else {
        let (end, h1) = run_nodes(w, ns.drop_last(), h, fuel);
        if end is Fall {
            run_node(w, ns.last(), h1, fuel)
        } else {
            (end, h1)
        }
    }
}

/// A node run. A node that belongs to a `try` or to a continuation does nothing here.
pub open spec fn run_node(w: WorldV, n: NodeV, h: Seq<EventV>, fuel: nat) -> (EndV, Seq<EventV>)
    decreases fuel, n,
{
    match n {
        NodeV::Line(text) => did(w, text, h),
        NodeV::Term(text) => (EndV::Stop, h.push(EventV::Did(text))),
        NodeV::Br { label, .. } => (EndV::To(label), h),
        NodeV::BrIf { cond, label, assigns, .. } => if (w.truth)(h, cond) {
            branched(w, assigns, label, h.push(EventV::Asked(cond)))
        } else {
            (EndV::Fall, h.push(EventV::Asked(cond)))
        },
        NodeV::BrTable { selector, arms } => {
            let k = (w.choice)(h, selector, patterns(arms));
            let h1 = h.push(EventV::Chose(selector));
            if 0 <= k < arms.len() {
                branched(w, arms[k].assigns, arms[k].label, h1)
            } else {
                (EndV::Stop, h1)
            }
        },
        NodeV::Region(r) => run_region(w, r, h, fuel),
        _ => (EndV::Fall, h),
    }
}

/// The inside of a region run once: the body, or the arm of an `if` that its condition
/// selects.
pub open spec fn run_inside(w: WorldV, r: RegionV, h: Seq<EventV>, fuel: nat) -> (
    EndV,
    Seq<EventV>,
)
    decreases fuel, r, 0nat,
{
    if r.kind == FrameKind::If {
        let h1 = h.push(EventV::Asked(cond_text(r.cond)));
        if (w.truth)(h, cond_text(r.cond)) {
            run_nodes(w, r.body, h1, fuel)
        } else {
            match r.els {
                Some(els) => run_nodes(w, els, h1, fuel),
                None => (EndV::Fall, h1),
            }
        }
    } else {
        run_nodes(w, r.body, h, fuel)
    }
}

/// A region run. A branch to it leaves it, or starts it over if it is a loop.
pub open spec fn run_region(w: WorldV, r: RegionV, h: Seq<EventV>, fuel: nat) -> (
    EndV,
    Seq<EventV>,
)
    decreases fuel, r, 1nat,
{
    let (end, h1) = run_inside(w, r, h, fuel);
    if end == EndV::To(r.label) {
        if r.kind != FrameKind::Loop {
            (EndV::Fall, h1)
        } else if fuel == 0 {
            (EndV::Cut, h1)
        } else {
            run_region(w, r, h1, (fuel - 1) as nat)
        }
    } else {
        (end, h1)
    }
}

// ---------------------------------------------------------------------------
// Code
// ---------------------------------------------------------------------------
/// A simple statement of generated code.
pub enum AtomV {
    /// Any statement.
    Do(Seq<char>),
    /// `pc = n;`
    Goto(usize),
    /// `continue 'sm;`
    Again,
    /// `break 'lN;`
    Break(usize),
    /// `continue 'lN;`
    Continue(usize),
}

/// How a `match` is laid out.
pub enum LayoutV {
    /// On one line.
    Flat,
    /// With a line per arm.
    Lines,
    /// With a line per arm, and without braces where an arm is a single jump.
    Bare,
}

/// Generated code.
pub enum CodeV {
    /// Simple statements on one line.
    Line(Seq<AtomV>),
    /// `if c { .. }` on one line, with or without `else { .. }`.
    Cond { cond: Seq<char>, yes: Seq<AtomV>, no: Option<Seq<AtomV>> },
    /// `match (s) as u32 { .. }`.
    Table { selector: Seq<char>, arms: Seq<(Seq<char>, Seq<AtomV>)>, layout: LayoutV },
    /// `if c {`, lines, `} else {`, lines, `}`.
    If { cond: Seq<char>, body: Seq<CodeV>, els: Option<Seq<CodeV>> },
    /// `'lN: {`, lines, `}`.
    Block { label: usize, body: Seq<CodeV> },
    /// `'lN: loop {`, lines, `}`.
    Loop { label: usize, body: Seq<CodeV> },
    /// Lines one behind the other.
    Group(Seq<CodeV>),
}

pub open spec fn atom_text(a: AtomV) -> Seq<char> {
    match a {
        AtomV::Do(text) => text,
        AtomV::Goto(n) => ("pc = "@ + dec(n as nat) + ";"@),
        AtomV::Again => "continue 'sm;"@,
        AtomV::Break(l) => ("break 'l"@ + dec(l as nat) + ";"@),
        AtomV::Continue(l) => ("continue 'l"@ + dec(l as nat) + ";"@),
    }
}

/// Simple statements, each with a space behind it.
pub open spec fn spaced(atoms: Seq<AtomV>) -> Seq<char>
    decreases atoms.len(),
{
    if atoms.len() == 0 {
        Seq::empty()
    } else {
        spaced(atoms.drop_last()) + atom_text(atoms.last()) + " "@
    }
}

/// Simple statements on a line.
pub open spec fn on_a_line(atoms: Seq<AtomV>) -> Seq<char> {
    if atoms.len() == 0 {
        Seq::empty()
    } else {
        spaced(atoms.drop_last()) + atom_text(atoms.last())
    }
}

/// The arms of a `match` on one line.
pub open spec fn inline_arms(arms: Seq<(Seq<char>, Seq<AtomV>)>) -> Seq<char>
    decreases arms.len(),
{
    if arms.len() == 0 {
        Seq::empty()
    } else {
        inline_arms(arms.drop_last()) + arms.last().0 + " => { "@ + spaced(arms.last().1) + "} "@
    }
}

/// The arms of a `match`, each on its line.
pub open spec fn arm_per_line(
    out: Seq<LineV>,
    arms: Seq<(Seq<char>, Seq<AtomV>)>,
    layout: LayoutV,
    depth: usize,
) -> Seq<LineV>
    decreases arms.len(),
{
    if arms.len() == 0 {
        out
    } else {
        arm_per_line(out, arms.drop_last(), layout, depth).push(
            (depth, arm_line(arms.last().0, arms.last().1, layout)),
        )
    }
}

/// An arm of a `match` on its line.
pub open spec fn arm_line(pattern: Seq<char>, atoms: Seq<AtomV>, layout: LayoutV) -> Seq<char> {
    if layout is Bare && atoms.len() == 1 && atoms[0] is Break {
        pattern + " => break 'l"@ + dec(atoms[0]->Break_0 as nat) + ","@
    } else if layout is Bare && atoms.len() == 1 && atoms[0] is Continue {
        pattern + " => continue 'l"@ + dec(atoms[0]->Continue_0 as nat) + ","@
    } else {
        pattern + " => { "@ + spaced(atoms) + "},"@
    }
}

/// Code written down behind `out`.
pub open spec fn written(out: Seq<LineV>, cs: Seq<CodeV>, depth: usize) -> Seq<LineV>
    decreases cs,
{
    if cs.len() == 0 {
        out
    } else {
        written_one(written(out, cs.drop_last(), depth), cs.last(), depth)
    }
}

pub open spec fn written_one(out: Seq<LineV>, c: CodeV, depth: usize) -> Seq<LineV>
    decreases c,
{
    match c {
        CodeV::Line(atoms) => out.push((depth, on_a_line(atoms))),
        CodeV::Cond { cond, yes, no } => out.push(
            (
                depth,
                "if "@ + cond + " { "@ + spaced(yes) + "}"@ + match no {
                    Some(no) => " else { "@ + spaced(no) + "}"@,
                    None => Seq::empty(),
                },
            ),
        ),
        CodeV::Table { selector, arms, layout } => if layout is Flat {
            out.push((depth, "match ("@ + selector + ") as u32 { "@ + inline_arms(arms) + "}"@))
        } else {
            arm_per_line(
                out.push((depth, "match ("@ + selector + ") as u32 {"@)),
                arms,
                layout,
                inc(depth),
            ).push((depth, "}"@))
        },
        CodeV::If { cond, body, els } => {
            let out1 = written(out.push((depth, "if "@ + cond + " {"@)), body, inc(depth));
            let out2 = match els {
                Some(els) => written(out1.push((depth, "} else {"@)), els, inc(depth)),
                None => out1,
            };
            out2.push((depth, "}"@))
        },
        CodeV::Block { label, body } => written(
            out.push((depth, "'l"@ + dec(label as nat) + ": {"@)),
            body,
            inc(depth),
        ).push((depth, "}"@)),
        CodeV::Loop { label, body } => written(
            out.push((depth, "'l"@ + dec(label as nat) + ": loop {"@)),
            body,
            inc(depth),
        ).push((depth, "}"@)),
        CodeV::Group(body) => written(out, body, depth),
    }
}

/// How code is left.
pub enum LeftV {
    Fall,
    Again,
    Break(usize),
    Continue(usize),
    Stop,
    Cut,
}

/// A run of code: how it is left, the state that comes next, and what has happened.
pub struct RunV {
    pub left: LeftV,
    pub pc: usize,
    pub h: Seq<EventV>,
}

pub open spec fn run_atom(w: WorldV, a: AtomV, pc: usize, h: Seq<EventV>) -> RunV {
    match a {
        AtomV::Do(text) => RunV {
            left: if (w.stops)(h, text) {
                LeftV::Stop
            } else {
                LeftV::Fall
            },
            pc,
            h: h.push(EventV::Did(text)),
        },
        AtomV::Goto(n) => RunV { left: LeftV::Fall, pc: n, h },
        AtomV::Again => RunV { left: LeftV::Again, pc, h },
        AtomV::Break(l) => RunV { left: LeftV::Break(l), pc, h },
        AtomV::Continue(l) => RunV { left: LeftV::Continue(l), pc, h },
    }
}

pub open spec fn run_atoms(w: WorldV, atoms: Seq<AtomV>, pc: usize, h: Seq<EventV>) -> RunV
    decreases atoms.len(),
{
    if atoms.len() == 0 {
        RunV { left: LeftV::Fall, pc, h }
    } else {
        let run = run_atoms(w, atoms.drop_last(), pc, h);
        if run.left is Fall {
            run_atom(w, atoms.last(), run.pc, run.h)
        } else {
            run
        }
    }
}

pub open spec fn arm_patterns(arms: Seq<(Seq<char>, Seq<AtomV>)>) -> Seq<Seq<char>> {
    Seq::new(arms.len(), |i: int| arms[i].0)
}

/// Code run in the state `pc`.
pub open spec fn run_codes(w: WorldV, cs: Seq<CodeV>, pc: usize, h: Seq<EventV>, fuel: nat) -> RunV
    decreases fuel, cs,
{
    if cs.len() == 0 {
        RunV { left: LeftV::Fall, pc, h }
    } else {
        let run = run_codes(w, cs.drop_last(), pc, h, fuel);
        if run.left is Fall {
            run_code(w, cs.last(), run.pc, run.h, fuel)
        } else {
            run
        }
    }
}

pub open spec fn run_code(w: WorldV, c: CodeV, pc: usize, h: Seq<EventV>, fuel: nat) -> RunV
    decreases fuel, c,
{
    match c {
        CodeV::Line(atoms) => run_atoms(w, atoms, pc, h),
        CodeV::Cond { cond, yes, no } => {
            let h1 = h.push(EventV::Asked(cond));
            if (w.truth)(h, cond) {
                run_atoms(w, yes, pc, h1)
            } else {
                match no {
                    Some(no) => run_atoms(w, no, pc, h1),
                    None => RunV { left: LeftV::Fall, pc, h: h1 },
                }
            }
        },
        CodeV::Table { selector, arms, .. } => {
            let k = (w.choice)(h, selector, arm_patterns(arms));
            let h1 = h.push(EventV::Chose(selector));
            if 0 <= k < arms.len() {
                run_atoms(w, arms[k].1, pc, h1)
            } else {
                RunV { left: LeftV::Stop, pc, h: h1 }
            }
        },
        CodeV::If { cond, body, els } => {
            let h1 = h.push(EventV::Asked(cond));
            if (w.truth)(h, cond) {
                run_codes(w, body, pc, h1, fuel)
            } else {
                match els {
                    Some(els) => run_codes(w, els, pc, h1, fuel),
                    None => RunV { left: LeftV::Fall, pc, h: h1 },
                }
            }
        },
        CodeV::Block { label, body } => {
            let run = run_codes(w, body, pc, h, fuel);
            if run.left == LeftV::Break(label) {
                RunV { left: LeftV::Fall, ..run }
            } else {
                run
            }
        },
        CodeV::Loop { label, body } => {
            let run = run_codes(w, body, pc, h, fuel);
            if run.left == LeftV::Break(label) {
                RunV { left: LeftV::Fall, ..run }
            } else if run.left is Fall || run.left == LeftV::Continue(label) {
                if fuel == 0 {
                    RunV { left: LeftV::Cut, ..run }
                } else {
                    run_code(w, c, run.pc, run.h, (fuel - 1) as nat)
                }
            } else {
                run
            }
        },
        CodeV::Group(body) => run_codes(w, body, pc, h, fuel),
    }
}

// ---------------------------------------------------------------------------
// Sound bodies
// ---------------------------------------------------------------------------
/// Whether every branch goes to an enclosing region that knows it is branched to, and
/// starts it over exactly if it is a loop; `kinds` says of the labels that can be
/// branched to whether they are those of loops. A block or loop whose end can be
/// reached is marked so. And there is no node of a `try` or a continuation.
pub open spec fn sound(ns: Seq<NodeV>, kinds: Map<usize, bool>) -> bool
    decreases ns,
{
    ns.len() == 0 || (sound(ns.drop_last(), kinds) && sound_node(ns.last(), kinds))
}

/// Whether a branch fits the region that it goes to.
pub open spec fn jump_fits(label: usize, is_loop: bool, kinds: Map<usize, bool>) -> bool {
    kinds.contains_key(label) && kinds[label] == is_loop
}

pub open spec fn sound_node(n: NodeV, kinds: Map<usize, bool>) -> bool
    decreases n,
{
    match n {
        NodeV::Line(_) => true,
        NodeV::Term(_) => true,
        NodeV::Br { label, is_loop } => jump_fits(label, is_loop, kinds),
        NodeV::BrIf { label, is_loop, .. } => jump_fits(label, is_loop, kinds),
        NodeV::BrTable { arms, .. } => forall|i: int|
            0 <= i < arms.len() ==> jump_fits((#[trigger] arms[i]).label, arms[i].is_loop, kinds),
        NodeV::Region(r) => sound_region(r, kinds),
        _ => false,
    }
}

/// The labels that can be branched to inside a region.
pub open spec fn kinds_inside(r: RegionV, kinds: Map<usize, bool>) -> Map<usize, bool> {
    if r.targeted {
        kinds.insert(r.label, r.kind == FrameKind::Loop)
    } else {
        kinds.remove(r.label)
    }
}

pub open spec fn sound_region(r: RegionV, kinds: Map<usize, bool>) -> bool
    decreases r,
{
    &&& r.kind != FrameKind::If && live_nodes(r.body).falls ==> r.reachable_at_end
    &&& sound(r.body, kinds_inside(r, kinds))
    &&& match r.els {
        Some(els) => r.kind == FrameKind::If && sound(els, kinds_inside(r, kinds)),
        None => true,
    }
}

/// Whether the world stops at every terminator of the list.
pub open spec fn terms_stop(w: WorldV, ns: Seq<NodeV>) -> bool
    decreases ns,
{
    ns.len() == 0 || (terms_stop(w, ns.drop_last()) && node_stops(w, ns.last()))
}

pub open spec fn node_stops(w: WorldV, n: NodeV) -> bool
    decreases n,
{
    match n {
        NodeV::Term(text) => forall|h: Seq<EventV>| #[trigger] (w.stops)(h, text),
        NodeV::Region(r) => region_stops(w, r),
        _ => true,
    }
}

pub open spec fn region_stops(w: WorldV, r: RegionV) -> bool
    decreases r,
{
    terms_stop(w, r.body) && match r.els {
        Some(els) => terms_stop(w, els),
        None => true,
    }
}

/// What a run leaves behind its end can be reached.
#[verifier::rlimit(40)]
pub proof fn lemma_run_live(w: WorldV, ns: Seq<NodeV>, h: Seq<EventV>, fuel: nat)
    ensures
        run_nodes(w, ns, h, fuel).0 is Fall ==> live_nodes(ns).falls,
        run_nodes(w, ns, h, fuel).0 matches EndV::To(l) ==> live_nodes(ns).labels.contains(l),
    decreases fuel, nodes_size(ns), 3nat, ns.len(),
{
    if ns.len() > 0 {
        lemma_node_size(ns, ns.len() - 1);
        let n = ns.last();
        lemma_run_live(w, ns.drop_last(), h, fuel);
        let (end, h1) = run_nodes(w, ns.drop_last(), h, fuel);
        if end is Fall {
            match n {
                NodeV::BrIf { cond, label, is_loop, assigns } => {
                    lemma_assigns_end(w, assigns, h1.push(EventV::Asked(cond)));
                },
                NodeV::BrTable { selector, arms } => {
                    let k = (w.choice)(h1, selector, patterns(arms));
                    if 0 <= k < arms.len() {
                        lemma_assigns_end(w, arms[k].assigns, h1.push(EventV::Chose(selector)));
                        assert(arms[k].label == arms[k].label);
                    }
                },
                NodeV::Region(r) => {
                    lemma_region_live(w, r, h1, fuel);
                },
                _ => {},
            }
            let (end2, h2) = run_node(w, n, h1, fuel);
            assert(end2 is Fall ==> live_node(n).falls);
            assert(end2 matches EndV::To(l) ==> live_node(n).labels.contains(l));
        }
    }
}

/// Assigning neither branches nor uses fuel.
pub proof fn lemma_assigns_end(
    w: WorldV,
    assigns: Seq<(Seq<char>, Seq<char>)>,
    h: Seq<EventV>,
)
    ensures
        did_assigns(w, assigns, h).0 is Fall || did_assigns(w, assigns, h).0 is Stop,
    decreases assigns.len(),
{
    if assigns.len() > 0 {
        lemma_assigns_end(w, assigns.drop_last(), h);
    }
}

#[verifier::rlimit(40)]
pub proof fn lemma_region_live(w: WorldV, r: RegionV, h: Seq<EventV>, fuel: nat)
    ensures
        run_region(w, r, h, fuel).0 is Fall ==> live_region(r).falls,
        run_region(w, r, h, fuel).0 matches EndV::To(l) ==> live_region(r).labels.contains(l),
    decreases fuel, region_size(r), 2nat, 0nat,
{
    let (end, h1) = run_inside(w, r, h, fuel);
    if r.kind == FrameKind::If {
        let h2 = h.push(EventV::Asked(cond_text(r.cond)));
        lemma_run_live(w, r.body, h2, fuel);
        if let Some(els) = r.els {
            lemma_run_live(w, els, h2, fuel);
        }
    } else {
        lemma_run_live(w, r.body, h, fuel);
    }
    if end == EndV::To(r.label) && r.kind == FrameKind::Loop && fuel > 0 {
        lemma_region_live(w, r, h1, (fuel - 1) as nat);
    }
}

} // verus!
