//! Lowering a structured body to the arms of a flat `match pc { … }` dispatch.

use std::collections::HashMap;
use vstd::prelude::*;

use crate::codegen::ir::{
    assigns_stmt, assigns_text, br_arms_view, breaks_at_end, cond_text, flattenable,
    flattenable_node, flattenable_region, is_structurable_loop, lemma_node_size, node_size,
    node_view, nodes_size, nodes_view, plain_node, plain_nodes, plain_region, plain_try, put_try,
    region_header, region_size, region_view, render_try_into, structurable, BrArm, BrArmV,
    FrameKind, Node, NodeV, RegionNode, RegionV,
};
use crate::codegen::scan::{pair_texts, trimmed_end, without_trailing_space};
use crate::text::{dec, inc, lit, next_of, Buf};

verus! {

/// One statement of a dispatch arm: its indent *relative to the arm body* (0 for
/// an ordinary flat statement; >0 for lines nested inside a structured loop) and
/// the statement text.
pub type ArmLine = (usize, String);

/// One dispatch arm: its state and its statements.
pub type Arm = (usize, Vec<ArmLine>);

/// The model of an [`ArmLine`].
pub type LineV = (usize, Seq<char>);

/// The model of an [`Arm`].
pub type ArmV = (usize, Seq<LineV>);

pub open spec fn lines_view(v: Seq<ArmLine>) -> Seq<LineV> {
    Seq::new(v.len(), |i: int| (v[i].0, v[i].1@))
}

pub open spec fn arm_view(a: Arm) -> ArmV {
    (a.0, lines_view(a.1@))
}

pub open spec fn arms_view(v: Seq<Arm>) -> Seq<ArmV> {
    Seq::new(v.len(), |i: int| arm_view(v[i]))
}

/// Appends one statement.
pub fn add_line(out: &mut Vec<ArmLine>, depth: usize, text: String)
    ensures
        lines_view(final(out)@) == lines_view(old(out)@).push((depth, text@)),
{
    out.push((depth, text));
    assert(lines_view(out@) =~= lines_view(old(out)@).push((depth, text@)));
}

/// Appends one arm.
pub fn add_arm(out: &mut Vec<Arm>, state: usize, stmts: Vec<ArmLine>)
    ensures
        arms_view(final(out)@) == arms_view(old(out)@).push((state, lines_view(stmts@))),
{
    out.push((state, stmts));
    assert(arms_view(out@) =~= arms_view(old(out)@).push((state, lines_view(stmts@))));
}

/// The enclosing function's signature, threaded into the flattener so a split
/// dispatch can synthesise the shared state struct, the part functions and the
/// trampoline driver that match it.
pub struct SplitPlan {
    /// Cap on match arms per part function (`0` disables the split).
    pub max_arms: usize,
    /// The function index `N`, naming `S{N}` / `func{N}_part{k}`.
    pub func_index: usize,
    /// Whether the function is a `&mut self` method (its parts take `&mut self`
    /// and the state struct lives at module scope) or a free function.
    pub is_method: bool,
    /// The function parameters as `(local index, Rust type)`; each becomes a
    /// state-struct field `l{index}` the driver initialises from its argument.
    pub params: Vec<(usize, String)>,
    /// The Rust return type (`None` for a unit-returning function), wrapped as
    /// `Option<_>` in each part's signature.
    pub ret: Option<String>,
}

/// Builds the flat `match pc { … }` arms while linearising a structured body.
pub struct Flattener {
    /// Completed dispatch arms: `(state id, its statements)`.
    pub arms: Vec<Arm>,
    /// Next unused state id.
    pub next_state: usize,
    /// wasm region label → the state a branch to it jumps to (a loop's header,
    /// a block's continuation).
    pub labels: HashMap<usize, usize>,
    /// Whether any arm uses `continue 'sm` (emitted for `br_if`), so the
    /// dispatch loop needs its `'sm` label. Without it the label is unused.
    pub uses_continue: bool,
    /// Whether a back-edge loop may be emitted as a structured `'lN: loop { … }`
    /// (the [`is_structurable_loop`] specialisation). The continuation flattener
    /// disables it: a `suspend` inside a loop must return out of the whole step
    /// function and re-enter through the `pc` dispatch, which a structured Rust
    /// loop cannot express, so continuation loops always flatten.
    pub allow_structured_loop: bool,
    /// When set (and the flattened dispatch has more arms than
    /// [`SplitPlan::max_arms`]), split the dispatch into sibling part functions
    /// over a shared state struct instead of rendering one giant function. The
    /// continuation flattener leaves this `None` (its step functions are already
    /// bounded and resume through `__frame.pc`).
    pub split: Option<SplitPlan>,
}

/// The model of a [`Flattener`] while it lowers.
pub struct FlatV {
    pub arms: Seq<ArmV>,
    pub next_state: usize,
    pub labels: Map<usize, usize>,
    pub uses_continue: bool,
    pub allow_structured_loop: bool,
}

impl View for Flattener {
    type V = FlatV;

    open spec fn view(&self) -> FlatV {
        FlatV {
            arms: arms_view(self.arms@),
            next_state: self.next_state,
            labels: self.labels@,
            uses_continue: self.uses_continue,
            allow_structured_loop: self.allow_structured_loop,
        }
    }
}

impl FlatV {
    /// One more state taken.
    pub open spec fn allocated(self) -> FlatV {
        FlatV { next_state: inc(self.next_state), ..self }
    }

    /// One more arm.
    pub open spec fn with_arm(self, state: usize, lines: Seq<LineV>) -> FlatV {
        FlatV { arms: self.arms.push((state, lines)), ..self }
    }

    /// One more label bound to a state.
    pub open spec fn bound(self, label: usize, state: usize) -> FlatV {
        FlatV { labels: self.labels.insert(label, state), ..self }
    }

    /// The `'sm` label needed, if it was or if `b` says so.
    pub open spec fn continuing(self, b: bool) -> FlatV {
        FlatV { uses_continue: self.uses_continue || b, ..self }
    }
}

// ---------------------------------------------------------------------------
// Structured loops
// ---------------------------------------------------------------------------
/// Whether the list holds, at any depth, neither a `try` nor a node of a
/// continuation body.
pub open spec fn straight(ns: Seq<NodeV>) -> bool
    decreases ns,
{
    ns.len() == 0 || (straight(ns.drop_last()) && straight_node(ns.last()))
}

pub open spec fn straight_node(n: NodeV) -> bool
    decreases n,
{
    match n {
        NodeV::Try(_) => false,
        NodeV::Suspend { .. } => false,
        NodeV::Checkpoint { .. } => false,
        NodeV::Switch { .. } => false,
        NodeV::Region(r) => straight_region(r),
        _ => true,
    }
}

pub open spec fn straight_region(r: RegionV) -> bool
    decreases r,
{
    straight(r.body) && match r.els {
        Some(els) => straight(els),
        None => true,
    }
}

proof fn lemma_straight_node(ns: Seq<NodeV>, i: int)
    requires
        straight(ns),
        0 <= i < ns.len(),
    ensures
        straight_node(ns[i]),
    decreases ns.len(),
{
    if i < ns.len() - 1 {
        lemma_straight_node(ns.drop_last(), i);
    }
}

/// What can be flattened outside a continuation body is straight.
proof fn lemma_flattenable_straight(ns: Seq<NodeV>)
    requires
        plain_nodes(ns),
        flattenable(ns),
    ensures
        straight(ns),
    decreases nodes_size(ns), ns.len(),
{
    if ns.len() > 0 {
        lemma_node_size(ns, ns.len() - 1);
        lemma_flattenable_straight(ns.drop_last());
        assert(plain_node(ns.last()) && flattenable_node(ns.last()));
        if let NodeV::Region(r) = ns.last() {
            assert(plain_region(r) && flattenable_region(r));
            lemma_flattenable_straight(r.body);
            if let Some(els) = r.els {
                lemma_flattenable_straight(els);
            }
            assert(straight_region(r));
        }
        assert(straight_node(ns.last()));
    }
}

/// A structured subtree under construction: its lines so far, and whether one of
/// them continues the dispatch loop.
pub struct StructV {
    pub out: Seq<LineV>,
    pub escapes: bool,
}

impl StructV {
    pub open spec fn line(self, depth: usize, text: Seq<char>) -> StructV {
        StructV { out: self.out.push((depth, text)), ..self }
    }

    pub open spec fn branching(self, labels: Map<usize, usize>, label: usize) -> StructV {
        StructV { escapes: self.escapes || labels.contains_key(label), ..self }
    }
}

/// A branch out of or within a structured subtree: to a state of the dispatch
/// where the label is bound to one, to a Rust label otherwise.
pub open spec fn structured_branch_text(
    labels: Map<usize, usize>,
    label: usize,
    is_loop: bool,
    assigns: Seq<char>,
) -> Seq<char> {
    if labels.contains_key(label) {
        (assigns + "pc = "@ + dec(labels[label] as nat) + "; continue 'sm;"@)
    } else if is_loop {
        (assigns + "continue 'l"@ + dec(label as nat) + ";"@)
    } else {
        (assigns + "break 'l"@ + dec(label as nat) + ";"@)
    }
}

pub open spec fn structured_assigns(
    s: StructV,
    assigns: Seq<(Seq<char>, Seq<char>)>,
    depth: usize,
) -> StructV
    decreases assigns.len(),
{
    if assigns.len() == 0 {
        s
    } else {
        structured_assigns(s, assigns.drop_last(), depth).line(
            depth,
            (assigns.last().0 + " = "@ + assigns.last().1 + ";"@),
        )
    }
}

pub open spec fn structured_arms(
    s: StructV,
    labels: Map<usize, usize>,
    arms: Seq<BrArmV>,
    depth: usize,
) -> StructV
    decreases arms.len(),
{
    if arms.len() == 0 {
        s
    } else {
        let a = arms.last();
        let br = structured_branch_text(labels, a.label, a.is_loop, assigns_text(a.assigns));
        structured_arms(s, labels, arms.drop_last(), depth).branching(labels, a.label).line(
            depth,
            (a.pattern + " => { "@ + br + " },"@),
        )
    }
}

/// A list of nodes rendered as structured Rust at `depth`.
pub open spec fn structured_nodes(
    s: StructV,
    labels: Map<usize, usize>,
    ns: Seq<NodeV>,
    depth: usize,
) -> StructV
    decreases ns,
{
    if ns.len() == 0 {
        s
    } else {
        structured_node(structured_nodes(s, labels, ns.drop_last(), depth), labels, ns.last(),
            depth)
    }
}

pub open spec fn structured_node(
    s: StructV,
    labels: Map<usize, usize>,
    n: NodeV,
    depth: usize,
) -> StructV
    decreases n,
{
    match n {
        NodeV::Line(text) => s.line(depth, text),
        NodeV::Term(text) => s.line(depth, text),
        NodeV::Br { label, is_loop } => s.branching(labels, label).line(
            depth,
            structured_branch_text(labels, label, is_loop, ""@),
        ),
        NodeV::BrIf { cond, label, is_loop, assigns } => {
            let br = structured_branch_text(labels, label, is_loop, ""@);
            if assigns.len() == 0 {
                s.branching(labels, label).line(depth, ("if "@ + cond + " { "@ + br + " }"@))
            } else {
                structured_assigns(s.line(depth, ("if "@ + cond
                    + " {"@)), assigns, inc(depth)).branching(
                    labels,
                    label,
                ).line(inc(depth), br).line(depth, "}"@)
            }
        },
        NodeV::BrTable { selector, arms } => structured_arms(
            s.line(depth, ("match ("@ + selector + ") as u32 {"@)),
            labels,
            arms,
            inc(depth),
        ).line(depth, "}"@),
        NodeV::Region(r) => structured_region(s, labels, r, depth),
        _ => s,
    }
}

pub open spec fn structured_inner(
    s: StructV,
    labels: Map<usize, usize>,
    r: RegionV,
    depth: usize,
) -> StructV
    decreases r, 0nat,
{
    match r.kind {
        FrameKind::If => {
            let s1 = s.line(depth, ("if "@ + cond_text(r.cond) + " {"@));
            let s2 = structured_nodes(s1, labels, r.body, inc(depth));
            let s3 = match r.els {
                Some(els) => structured_nodes(s2.line(depth, "} else {"@), labels, els, inc(depth)),
                None => s2,
            };
            s3.line(depth, "}"@)
        },
        _ => structured_nodes(s, labels, r.body, depth),
    }
}

/// A region rendered as structured Rust at `depth`.
pub open spec fn structured_region(
    s: StructV,
    labels: Map<usize, usize>,
    r: RegionV,
    depth: usize,
) -> StructV
    decreases r, 1nat,
{
    if r.targeted {
        let s1 = structured_inner(s.line(depth, region_header(r.kind, r.label)), labels, r,
            inc(depth));
        let s2 = if breaks_at_end(r) {
            s1.line(inc(depth), ("break 'l"@ + dec(r.label as nat) + ";"@))
        } else {
            s1
        };
        s2.line(depth, "}"@)
    } else {
        structured_inner(s, labels, r, depth)
    }
}

/// The arm of a structured loop: the loop, and the way on when it falls through.
pub open spec fn structured_loop(labels: Map<usize, usize>, r: RegionV, cont: usize) -> StructV {
    let s = structured_region(StructV { out: Seq::empty(), escapes: false }, labels, r, 0);
    if r.reachable_at_end {
        s.line(0, ("pc = "@ + dec(cont as nat) + ";"@))
    } else {
        s
    }
}

impl Flattener {
    /// The next unused state.
    pub fn alloc_state(&mut self) -> (id: usize)
        ensures
            id == old(self)@.next_state,
            final(self)@ == old(self)@.allocated(),
            final(self).split == old(self).split,
    {
        let id: usize = self.next_state;
        self.next_state = next_of(self.next_state);
        id
    }

    /// A structured branch to `label`: `continue`/`break 'l{label}` when the
    /// target is a region in this subtree, or `pc = <state>; continue 'sm` when it
    /// is an enclosing flattened region (a state in `self.labels`). `assigns` is a
    /// prebuilt run of `var = value; ` statements that must precede the branch.
    pub fn structured_branch(&mut self, label: usize, is_loop: bool, assigns: &str) -> (r: String)
        ensures
            r@ == structured_branch_text(old(self)@.labels, label, is_loop, assigns@),
            final(self)@ == old(self)@.continuing(old(self)@.labels.contains_key(label)),
            final(self).split == old(self).split,
    {
        broadcast use vstd::std_specs::hash::group_hash_axioms;

        let target = match self.labels.get(&label) {
            Some(state) => Some(*state),
            None => None,
        };
        match target {
            Some(state) => {
                self.uses_continue = true;
                Buf::lit(assigns).s("pc = ").n(state as u64).s("; continue 'sm;").end()
            },
            None => if is_loop {
                Buf::lit(assigns).s("continue 'l").n(label as u64).s(";").end()
            } else {
                Buf::lit(assigns).s("break 'l").n(label as u64).s(";").end()
            },
        }
    }

    fn structured_arms_into(&mut self, arms: &Vec<BrArm>, depth: usize, out: &mut Vec<ArmLine>)
        ensures
            ({
                let s = structured_arms(
                    StructV { out: lines_view(old(out)@), escapes: old(self)@.uses_continue },
                    old(self)@.labels,
                    br_arms_view(arms@),
                    depth,
                );
                &&& lines_view(final(out)@) == s.out
                &&& final(self)@ == old(self)@.continuing(s.escapes)
                &&& final(self)@.uses_continue == s.escapes
            }),
            final(self).split == old(self).split,
    {
        let ghost all = br_arms_view(arms@);
        let ghost labels = self@.labels;
        let ghost start = StructV { out: lines_view(out@), escapes: self@.uses_continue };
        let mut i: usize = 0;
        while i < arms.len()
            invariant
                i <= arms@.len(),
                all == br_arms_view(arms@),
                labels == self@.labels,
                labels == old(self)@.labels,
                self@ == old(self)@.continuing(self@.uses_continue),
                old(self)@.uses_continue ==> self@.uses_continue,
                self.split == old(self).split,
                structured_arms(start, labels, all.take(i as int), depth) == (StructV {
                    out: lines_view(out@),
                    escapes: self@.uses_continue,
                }),
            decreases arms@.len() - i,
        {
            proof {
                assert(all.take(i + 1).drop_last() =~= all.take(i as int));
                assert(all[i as int] == arms@[i as int]@);
            }
            let assigns = assigns_stmt(&arms[i].assigns);
            let br = self.structured_branch(arms[i].label, arms[i].is_loop, assigns.as_str());
            add_line(out, depth, Buf::lit(&arms[i].pattern).s(" => { ").s(&br).s(" },").end());
            i += 1;
        }
        assert(all.take(all.len() as int) =~= all);
    }

    /// Render a structured node list at `depth` (indent relative to the arm
    /// body). Branch targets inside this subtree resolve to structured
    /// `break`/`continue 'lN`; a target that is a flattened state (present in
    /// `self.labels`) becomes `pc = <state>; continue 'sm`.
    pub fn render_structured(&mut self, nodes: &Vec<Node>, depth: usize, out: &mut Vec<ArmLine>)
        requires
            straight(nodes_view(nodes@)),
        ensures
            ({
                let s = structured_nodes(
                    StructV { out: lines_view(old(out)@), escapes: old(self)@.uses_continue },
                    old(self)@.labels,
                    nodes_view(nodes@),
                    depth,
                );
                &&& lines_view(final(out)@) == s.out
                &&& final(self)@ == old(self)@.continuing(s.escapes)
                &&& final(self)@.uses_continue == s.escapes
            }),
            final(self).split == old(self).split,
        decreases nodes_size(nodes_view(nodes@)), 2nat,
    {
        let ghost all = nodes_view(nodes@);
        let ghost labels = self@.labels;
        let ghost start = StructV { out: lines_view(out@), escapes: self@.uses_continue };
        let mut i: usize = 0;
        while i < nodes.len()
            invariant
                i <= nodes@.len(),
                all == nodes_view(nodes@),
                straight(all),
                labels == self@.labels,
                labels == old(self)@.labels,
                self@ == old(self)@.continuing(self@.uses_continue),
                old(self)@.uses_continue ==> self@.uses_continue,
                self.split == old(self).split,
                structured_nodes(start, labels, all.take(i as int), depth) == (StructV {
                    out: lines_view(out@),
                    escapes: self@.uses_continue,
                }),
            decreases nodes@.len() - i,
        {
            let ghost before = StructV { out: lines_view(out@), escapes: self@.uses_continue };
            proof {
                assert(all.take(i + 1).drop_last() =~= all.take(i as int));
                assert(all[i as int] == node_view(nodes@[i as int]));
                lemma_straight_node(all, i as int);
                lemma_node_size(all, i as int);
            }
            match &nodes[i] {
                Node::Line(text) => add_line(out, depth, text.clone()),
                Node::Term(text) => add_line(out, depth, text.clone()),
                Node::Br { label, is_loop } => {
                    let br = self.structured_branch(*label, *is_loop, "");
                    add_line(out, depth, br);
                },
                Node::BrIf { cond, label, is_loop, assigns } => {
                    if assigns.len() == 0 {
                        let br = self.structured_branch(*label, *is_loop, "");
                        add_line(out, depth, Buf::lit("if ").s(cond).s(" { ").s(&br).s(" }").end());
                    } else {
                        add_line(out, depth, Buf::lit("if ").s(cond).s(" {").end());
                        assigns_into(assigns, next_of(depth), out, Ghost(self@.uses_continue));
                        let br = self.structured_branch(*label, *is_loop, "");
                        add_line(out, next_of(depth), br);
                        add_line(out, depth, lit("}"));
                    }
                },
                Node::BrTable { selector, arms } => {
                    add_line(out, depth, Buf::lit("match (").s(selector).s(") as u32 {").end());
                    self.structured_arms_into(arms, next_of(depth), out);
                    add_line(out, depth, lit("}"));
                },
                Node::Region(region) => self.render_structured_region(region, depth, out),
                _ => {},
            }
            assert(structured_node(before, labels, all[i as int], depth) == (StructV {
                out: lines_view(out@),
                escapes: self@.uses_continue,
            }));
            i += 1;
        }
        assert(all.take(all.len() as int) =~= all);
    }

    fn structured_inner_into(&mut self, region: &RegionNode, depth: usize, out: &mut Vec<ArmLine>)
        requires
            straight_region(region_view(*region)),
        ensures
            ({
                let s = structured_inner(
                    StructV { out: lines_view(old(out)@), escapes: old(self)@.uses_continue },
                    old(self)@.labels,
                    region_view(*region),
                    depth,
                );
                &&& lines_view(final(out)@) == s.out
                &&& final(self)@ == old(self)@.continuing(s.escapes)
                &&& final(self)@.uses_continue == s.escapes
            }),
            final(self).split == old(self).split,
        decreases region_size(region_view(*region)), 0nat,
    {
        match region.kind {
            FrameKind::If => {
                let cond = match &region.cond {
                    Some(c) => c.clone(),
                    None => String::new(),
                };
                add_line(out, depth, Buf::lit("if ").s(&cond).s(" {").end());
                self.render_structured(&region.body, next_of(depth), out);
                match &region.els {
                    Some(els) => {
                        add_line(out, depth, lit("} else {"));
                        self.render_structured(els, next_of(depth), out);
                    },
                    None => {},
                }
                add_line(out, depth, lit("}"));
            },
            _ => self.render_structured(&region.body, depth, out),
        }
    }

    /// Render one region as structured Rust at `depth`, mirroring
    /// [`render_region_into`](crate::codegen::ir::render_region_into) but emitting arm
    /// lines and routing escaping branches through [`Self::structured_branch`].
    pub fn render_structured_region(
        &mut self,
        region: &RegionNode,
        depth: usize,
        out: &mut Vec<ArmLine>,
    )
        requires
            straight_region(region_view(*region)),
        ensures
            ({
                let s = structured_region(
                    StructV { out: lines_view(old(out)@), escapes: old(self)@.uses_continue },
                    old(self)@.labels,
                    region_view(*region),
                    depth,
                );
                &&& lines_view(final(out)@) == s.out
                &&& final(self)@ == old(self)@.continuing(s.escapes)
                &&& final(self)@.uses_continue == s.escapes
            }),
            final(self).split == old(self).split,
        decreases region_size(region_view(*region)), 1nat,
    {
        // A targeted region is wrapped in a label so a branch to it can
        // `break`/`continue` here; its content renders one level deeper.
        if region.targeted {
            let is_loop = region.kind != FrameKind::If;
            let header = if is_loop {
                Buf::lit("'l").n(region.label as u64).s(": loop {").end()
            } else {
                Buf::lit("'l").n(region.label as u64).s(": {").end()
            };
            add_line(out, depth, header);
            self.structured_inner_into(region, next_of(depth), out);
            // A `block`/`loop` falling through its end needs a trailing `break` to
            // leave it; an `if` falls through its labelled scope naturally.
            if is_loop && region.reachable_at_end {
                add_line(out, next_of(depth), Buf::lit("break 'l").n(region.label as u64).s(";")
                    .end());
            }
            add_line(out, depth, lit("}"));
        } else {
            self.structured_inner_into(region, depth, out);
        }
    }

    /// Render a structurable loop (checked by [`is_structurable_loop`]) as a real
    /// `'l{label}: loop { … }` occupying one dispatch arm. The body — including
    /// any nested `if`/`block`/`loop` — is emitted as structured Rust, so
    /// back-edges and in-loop branches are direct `break`/`continue`s. A branch
    /// that leaves the whole structured subtree (its target is an enclosing
    /// flattened region, hence a state in `self.labels`) becomes `pc = <state>;
    /// continue 'sm`, exiting both the loop and the dispatch. A natural
    /// fall-through off the loop's end `break`s and resumes the dispatch at `cont`.
    pub fn render_structured_loop(&mut self, region: &RegionNode, cont: usize) -> (r: Vec<ArmLine>)
        requires
            straight_region(region_view(*region)),
        ensures
            ({
                let s = structured_loop(
                    old(self)@.labels,
                    region_view(*region),
                    cont,
                );
                &&& lines_view(r@) == s.out
                &&& final(self)@ == old(self)@.continuing(s.escapes)
            }),
            final(self).split == old(self).split,
    {
        let mut out: Vec<ArmLine> = Vec::new();
        assert(lines_view(out@) =~= Seq::<LineV>::empty());
        proof {
            lemma_region_escapes(
                Seq::empty(),
                false,
                self@.uses_continue,
                self@.labels,
                region_view(*region),
                0,
            );
        }
        // The loop and its subtree render structurally; only the trailing
        // dispatch resumption (`pc = cont`) links back to the flat machine.
        self.render_structured_region(region, 0, &mut out);
        // A loop that can fall through its end exits to `cont`; one that only ever
        // back-edges or diverges has no `break`, so the `loop` is `!` and nothing
        // may follow it (an unreachable `pc = cont` would fail `-D warnings`).
        if region.reachable_at_end {
            add_line(&mut out, 0, Buf::lit("pc = ").n(cont as u64).s(";").end());
        }
        out
    }
}

fn assigns_into(
    assigns: &Vec<(String, String)>,
    depth: usize,
    out: &mut Vec<ArmLine>,
    escapes: Ghost<bool>,
)
    ensures
        ({
            let s = structured_assigns(
                StructV { out: lines_view(old(out)@), escapes: escapes@ },
                pair_texts(assigns@),
                depth,
            );
            lines_view(final(out)@) == s.out && s.escapes == escapes@
        }),
{
    let ghost all = pair_texts(assigns@);
    let ghost start = StructV { out: lines_view(out@), escapes: escapes@ };
    let mut i: usize = 0;
    while i < assigns.len()
        invariant
            i <= assigns@.len(),
            all == pair_texts(assigns@),
            structured_assigns(start, all.take(i as int), depth) == (StructV {
                out: lines_view(out@),
                escapes: escapes@,
            }),
        decreases assigns@.len() - i,
    {
        assert(all.take(i + 1).drop_last() =~= all.take(i as int));
        add_line(out, depth, Buf::lit(&assigns[i].0).s(" = ").s(&assigns[i].1).s(";").end());
        i += 1;
    }
    assert(all.take(all.len() as int) =~= all);
}

// What a structured subtree escapes to does not depend on what was rendered
// before it.
proof fn lemma_assigns_escapes(
    out: Seq<LineV>,
    a: bool,
    b: bool,
    assigns: Seq<(Seq<char>, Seq<char>)>,
    depth: usize,
)
    ensures
        ({
            let x = structured_assigns(StructV { out, escapes: a }, assigns, depth);
            let y = structured_assigns(StructV { out, escapes: a || b }, assigns, depth);
            y.out == x.out && x.escapes == a && y.escapes == (a || b)
        }),
    decreases assigns.len(),
{
    if assigns.len() > 0 {
        lemma_assigns_escapes(out, a, b, assigns.drop_last(), depth);
    }
}

proof fn lemma_arms_escapes(
    out: Seq<LineV>,
    a: bool,
    b: bool,
    labels: Map<usize, usize>,
    arms: Seq<BrArmV>,
    depth: usize,
)
    ensures
        ({
            let x = structured_arms(StructV { out, escapes: a }, labels, arms, depth);
            let y = structured_arms(StructV { out, escapes: a || b }, labels, arms, depth);
            y.out == x.out && y.escapes == (x.escapes || b)
        }),
    decreases arms.len(),
{
    if arms.len() > 0 {
        lemma_arms_escapes(out, a, b, labels, arms.drop_last(), depth);
    }
}

proof fn lemma_nodes_escapes(
    out: Seq<LineV>,
    a: bool,
    b: bool,
    labels: Map<usize, usize>,
    ns: Seq<NodeV>,
    depth: usize,
)
    ensures
        ({
            let x = structured_nodes(StructV { out, escapes: a }, labels, ns, depth);
            let y = structured_nodes(StructV { out, escapes: a || b }, labels, ns, depth);
            y.out == x.out && y.escapes == (x.escapes || b)
        }),
    decreases nodes_size(ns), 2nat, ns.len(),
{
    if ns.len() > 0 {
        lemma_node_size(ns, ns.len() - 1);
        lemma_nodes_escapes(out, a, b, labels, ns.drop_last(), depth);
        let x = structured_nodes(StructV { out, escapes: a }, labels, ns.drop_last(), depth);
        let y = structured_nodes(StructV { out, escapes: a || b }, labels, ns.drop_last(), depth);
        assert(y == (StructV { out: x.out, escapes: x.escapes || b }));
        match ns.last() {
            NodeV::BrIf { cond, label, is_loop, assigns } => {
                let head = x.line(depth, ("if "@ + cond + " {"@)).out;
                lemma_assigns_escapes(head, x.escapes, b, assigns, inc(depth));
            },
            NodeV::BrTable { selector, arms } => {
                let head = x.line(depth, ("match ("@ + selector + ") as u32 {"@)).out;
                lemma_arms_escapes(head, x.escapes, b, labels, arms, inc(depth));
            },
            NodeV::Region(r) => {
                lemma_region_escapes(x.out, x.escapes, b, labels, r, depth);
            },
            _ => {},
        }
        let x1 = structured_node(x, labels, ns.last(), depth);
        let y1 = structured_node(y, labels, ns.last(), depth);
        assert(y1.out == x1.out && y1.escapes == (x1.escapes || b));
    }
}

proof fn lemma_inner_escapes(
    out: Seq<LineV>,
    a: bool,
    b: bool,
    labels: Map<usize, usize>,
    r: RegionV,
    depth: usize,
)
    ensures
        ({
            let x = structured_inner(StructV { out, escapes: a }, labels, r, depth);
            let y = structured_inner(StructV { out, escapes: a || b }, labels, r, depth);
            y.out == x.out && y.escapes == (x.escapes || b)
        }),
    decreases region_size(r), 0nat, 0nat,
{
    match r.kind {
        FrameKind::If => {
            let x1 = (StructV { out, escapes: a }).line(depth, ("if "@ + cond_text(r.cond)
                + " {"@));
            lemma_nodes_escapes(x1.out, a, b, labels, r.body, inc(depth));
            let x2 = structured_nodes(x1, labels, r.body, inc(depth));
            if let Some(els) = r.els {
                lemma_nodes_escapes(
                    x2.line(depth, "} else {"@).out,
                    x2.escapes,
                    b,
                    labels,
                    els,
                    inc(depth),
                );
            }
        },
        _ => {
            lemma_nodes_escapes(out, a, b, labels, r.body, depth);
        },
    }
}

proof fn lemma_region_escapes(
    out: Seq<LineV>,
    a: bool,
    b: bool,
    labels: Map<usize, usize>,
    r: RegionV,
    depth: usize,
)
    ensures
        ({
            let x = structured_region(StructV { out, escapes: a }, labels, r, depth);
            let y = structured_region(StructV { out, escapes: a || b }, labels, r, depth);
            y.out == x.out && y.escapes == (x.escapes || b)
        }),
    decreases region_size(r), 1nat, 0nat,
{
    if r.targeted {
        lemma_inner_escapes(
            out.push((depth, region_header(r.kind, r.label))),
            a,
            b,
            labels,
            r,
            inc(depth),
        );
    } else {
        lemma_inner_escapes(out, a, b, labels, r, depth);
    }
}

// ---------------------------------------------------------------------------
// Lowering
// ---------------------------------------------------------------------------
/// A list of nodes still to be lowered, with the state that enters it and the
/// state it falls through to.
pub struct TaskV {
    pub nodes: Seq<NodeV>,
    pub entry: usize,
    pub after: usize,
}

/// The walk over one list of nodes: the state whose arm is being filled, its
/// statements so far, and whether control can get here.
pub struct WalkV {
    pub flat: FlatV,
    pub work: Seq<TaskV>,
    pub state: usize,
    pub stmts: Seq<LineV>,
    pub reachable: bool,
}

impl WalkV {
    /// One more statement of the current arm.
    pub open spec fn stmt(self, text: Seq<char>) -> WalkV {
        WalkV { stmts: self.stmts.push((0usize, text)), ..self }
    }

    /// The current arm finished; the next one is that of `next`.
    pub open spec fn closed(self, next: usize) -> WalkV {
        WalkV {
            flat: self.flat.with_arm(self.state, self.stmts),
            state: next,
            stmts: Seq::empty(),
            ..self
        }
    }

    pub open spec fn dead(self) -> WalkV {
        WalkV { reachable: false, ..self }
    }

    pub open spec fn with_flat(self, flat: FlatV) -> WalkV {
        WalkV { flat, ..self }
    }

    pub open spec fn task(self, nodes: Seq<NodeV>, entry: usize, after: usize) -> WalkV {
        WalkV { work: self.work.push(TaskV { nodes, entry, after }), ..self }
    }
}

/// The arms of a `br_table` in a flat dispatch.
pub open spec fn table_arms_text(arms: Seq<BrArmV>, labels: Map<usize, usize>) -> Seq<char>
    decreases arms.len(),
{
    if arms.len() == 0 {
        Seq::empty()
    } else {
        let a = arms.last();
        table_arms_text(arms.drop_last(), labels)
            + (a.pattern + " => { "@ + assigns_text(a.assigns) + "pc = "@
                + dec(labels[a.label] as nat) + "; } "@)
    }
}

pub open spec fn suspend_text(tag: u32, payload: Seq<char>, save: Seq<char>, resume: usize) -> Seq<
    char,
> {
    (save + "__frame.pc = "@ + dec(resume as nat) + "u32; return StepResult::Suspend { tag: "@
        + dec(tag as nat) + "u32, payload: vec!["@ + payload + "] };"@)
}

pub open spec fn switch_text(
    tag: u32,
    target: Seq<char>,
    payload: Seq<char>,
    save: Seq<char>,
    resume: usize,
) -> Seq<char> {
    (save + "__frame.pc = "@ + dec(resume as nat) + "u32; return StepResult::Switch { tag: "@
        + dec(tag as nat) + "u32, target: "@ + target + ", args: vec!["@ + payload + "] };"@)
}

/// The single statement of a checkpoint's state: it drives the callee once,
/// passes a suspension or a switch up with this state pinned, and goes on to
/// `resume` with the callee's results.
pub open spec fn checkpoint_text(callee: u32, save: Seq<char>, call: usize, resume: usize) -> Seq<
    char,
> {
    ("match self.cont_step_func"@ + dec(callee as nat)
        + "(&mut __frame.sub, __args) { StepResult::Suspend { tag: __t, payload: __p } => { "@
        + save + "__frame.pc = "@ + dec(call as nat)
        + "u32; return StepResult::Suspend { tag: __t, payload: __p }; } StepResult::Switch { tag: __t, target: __tgt, args: __a } => { "@
        + save + "__frame.pc = "@ + dec(call as nat)
        + "u32; return StepResult::Switch { tag: __t, target: __tgt, args: __a }; } StepResult::Return(__cret) => { __frame.ostack = __cret; pc = "@
        + dec(resume as nat) + "; } }"@)
}

/// One node lowered. An `if` dispatches to the entries of its arms and rejoins
/// behind them; a structurable loop becomes one arm of its own; any other region
/// is entered through a fresh state, and so are the points at which a
/// continuation parks. Nodes behind a terminator are skipped.
pub open spec fn lower_step(w: WalkV, n: NodeV) -> WalkV {
    if !w.reachable {
        w
    } else {
        match n {
            NodeV::Line(text) => w.stmt(text),
            NodeV::Term(text) => w.stmt(text).closed(w.state).dead(),
            NodeV::Br { label, .. } => w.stmt(("pc = "@ + dec(w.flat.labels[label] as nat)
                + ";"@)).closed(
                w.state,
            ).dead(),
            NodeV::BrIf { cond, label, assigns, .. } => w.with_flat(w.flat.continuing(true)).stmt(
                ("if "@ + cond + " { "@ + assigns_text(assigns) + "pc = "@
                    + dec(w.flat.labels[label] as nat) + "; continue 'sm; }"@),
            ),
            NodeV::BrTable { selector, arms } => w.stmt(
                ("match ("@ + selector + ") as u32 { "@ + table_arms_text(arms, w.flat.labels)
                    + "}"@),
            ).closed(w.state).dead(),
            NodeV::Region(r) => lower_region(w, r),
            NodeV::Try(t) => w.stmt(trimmed_end(put_try(Seq::empty(), t, 0, ""@))),
            NodeV::Suspend { tag, payload, save } => {
                let resume = w.flat.next_state;
                w.with_flat(w.flat.allocated()).stmt(
                    suspend_text(tag, payload, save, resume),
                ).closed(resume)
            },
            NodeV::Switch { tag, target, payload, save } => {
                let resume = w.flat.next_state;
                w.with_flat(w.flat.allocated()).stmt(
                    switch_text(tag, target, payload, save, resume),
                ).closed(resume)
            },
            NodeV::Checkpoint { callee, save } => {
                let call = w.flat.next_state;
                let resume = inc(call);
                let w1 = w.with_flat(w.flat.allocated().allocated()).stmt(
                    ("pc = "@ + dec(call as nat) + ";"@),
                ).closed(resume);
                w1.with_flat(
                    w1.flat.with_arm(
                        call,
                        Seq::empty().push((0usize, checkpoint_text(callee, save, call, resume))),
                    ),
                )
            },
        }
    }
}

pub open spec fn lower_region(w: WalkV, r: RegionV) -> WalkV {
    let first = w.flat.next_state;
    let second = inc(first);
    let f2 = w.flat.allocated().allocated();
    if r.kind == FrameKind::If {
        let cont = first;
        let then_e = second;
        let f3 = f2.bound(r.label, cont);
        match r.els {
            Some(els) => {
                let else_e = f3.next_state;
                w.with_flat(f3.allocated()).stmt(
                    ("if "@ + cond_text(r.cond) + " { pc = "@ + dec(then_e as nat)
                        + "; } else { pc = "@ + dec(else_e as nat) + "; }"@),
                ).closed(cont).task(r.body, then_e, cont).task(els, else_e, cont)
            },
            None => w.with_flat(f3).stmt(
                ("if "@ + cond_text(r.cond) + " { pc = "@ + dec(then_e as nat)
                    + "; } else { pc = "@ + dec(cont as nat) + "; }"@),
            ).closed(cont).task(r.body, then_e, cont),
        }
    } else if w.flat.allow_structured_loop && structurable(r) {
        let header = first;
        let cont = second;
        let s = structured_loop(w.flat.labels, r, cont);
        let w1 = w.with_flat(f2).stmt(("pc = "@ + dec(header as nat) + ";"@)).closed(cont);
        w1.with_flat(w1.flat.continuing(s.escapes).with_arm(header, s.out))
    } else {
        let inner = first;
        let cont = second;
        let target = if r.kind == FrameKind::Loop {
            inner
        } else {
            cont
        };
        w.with_flat(f2.bound(r.label, target)).stmt(("pc = "@ + dec(inner as nat)
            + ";"@)).closed(cont).task(
            r.body,
            inner,
            cont,
        )
    }
}

/// A list of nodes lowered one after another.
pub open spec fn lower_nodes(w: WalkV, ns: Seq<NodeV>) -> WalkV
    decreases ns.len(),
{
    if ns.len() == 0 {
        w
    } else {
        lower_step(lower_nodes(w, ns.drop_last()), ns.last())
    }
}

pub open spec fn work_size(work: Seq<TaskV>) -> nat
    decreases work.len(),
{
    if work.len() == 0 {
        0
    } else {
        work_size(work.drop_last()) + 1 + nodes_size(work.last().nodes)
    }
}

/// The walk that the last task of `work` starts.
pub open spec fn started(f: FlatV, work: Seq<TaskV>) -> WalkV {
    WalkV {
        flat: f,
        work: work.drop_last(),
        state: work.last().entry,
        stmts: Seq::empty(),
        reachable: true,
    }
}

/// The flattener after a walk whose fall-through goes to `after`.
pub open spec fn finished(w: WalkV, after: usize) -> FlatV {
    if w.reachable {
        w.flat.with_arm(w.state, w.stmts.push((0usize, ("pc = "@ + dec(after as nat) + ";"@))))
    } else {
        w.flat
    }
}

/// All tasks of `work` lowered, the last one first. A nested region adds its
/// body as a task of its own.
pub open spec fn lower_work(f: FlatV, work: Seq<TaskV>) -> FlatV
    decreases work_size(work),
{
    if work.len() == 0 {
        f
    } else {
        let w = lower_nodes(started(f, work), work.last().nodes);
        if work_size(w.work) < work_size(work) {
            lower_work(finished(w, work.last().after), w.work)
        } else {
            f
        }
    }
}

/// `nodes` lowered so that execution enters at `entry` and falls through to
/// `after`.
pub open spec fn lowered(f: FlatV, nodes: Seq<NodeV>, entry: usize, after: usize) -> FlatV {
    lower_work(f, Seq::empty().push(TaskV { nodes, entry, after }))
}

/// Whether every branch of the list goes to a label in `bound` or to an
/// enclosing region of the list itself, and only an `if` has an `else` arm. Where
/// loops may be structured (`structured`) the list holds no continuation nodes,
/// and a `try` never does.
pub open spec fn lowerable(ns: Seq<NodeV>, bound: Set<usize>, structured: bool) -> bool
    decreases ns,
{
    ns.len() == 0 || (lowerable(ns.drop_last(), bound, structured) && lowerable_node(
        ns.last(),
        bound,
        structured,
    ))
}

pub open spec fn lowerable_node(n: NodeV, bound: Set<usize>, structured: bool) -> bool
    decreases n,
{
    match n {
        NodeV::Br { label, .. } => bound.contains(label),
        NodeV::BrIf { label, .. } => bound.contains(label),
        NodeV::BrTable { arms, .. } => arms_bound(arms, bound),
        NodeV::Region(r) => lowerable_region(r, bound, structured),
        NodeV::Try(t) => plain_try(t),
        NodeV::Suspend { .. } => !structured,
        NodeV::Checkpoint { .. } => !structured,
        NodeV::Switch { .. } => !structured,
        _ => true,
    }
}

/// Whether every arm of a `br_table` branches to a label in `bound`.
pub open spec fn arms_bound(arms: Seq<BrArmV>, bound: Set<usize>) -> bool {
    forall|i: int| 0 <= i < arms.len() ==> bound.contains((#[trigger] arms[i]).label)
}

pub open spec fn lowerable_region(r: RegionV, bound: Set<usize>, structured: bool) -> bool
    decreases r,
{
    lowerable(r.body, bound.insert(r.label), structured) && match r.els {
        Some(els) => r.kind == FrameKind::If && lowerable(els, bound.insert(r.label), structured),
        None => true,
    }
}

pub proof fn lemma_lowerable_node(ns: Seq<NodeV>, bound: Set<usize>, structured: bool, i: int)
    requires
        lowerable(ns, bound, structured),
        0 <= i < ns.len(),
    ensures
        lowerable_node(ns[i], bound, structured),
    decreases ns.len(),
{
    if i < ns.len() - 1 {
        lemma_lowerable_node(ns.drop_last(), bound, structured, i);
    }
}

/// More bound labels never hurt.
pub proof fn lemma_lowerable_grows(
    ns: Seq<NodeV>,
    a: Set<usize>,
    b: Set<usize>,
    structured: bool,
)
    requires
        lowerable(ns, a, structured),
        a.subset_of(b),
    ensures
        lowerable(ns, b, structured),
    decreases nodes_size(ns), ns.len(),
{
    if ns.len() > 0 {
        lemma_node_size(ns, ns.len() - 1);
        lemma_lowerable_grows(ns.drop_last(), a, b, structured);
        assert(lowerable_node(ns.last(), a, structured));
        if let NodeV::Region(r) = ns.last() {
            assert(lowerable_region(r, a, structured));
            lemma_lowerable_grows(r.body, a.insert(r.label), b.insert(r.label), structured);
            if let Some(els) = r.els {
                lemma_lowerable_grows(els, a.insert(r.label), b.insert(r.label), structured);
            }
            assert(lowerable_region(r, b, structured));
        }
        assert(lowerable_node(ns.last(), b, structured));
    }
}

/// Where loops may be structured, there are no continuation nodes.
pub proof fn lemma_lowerable_plain(ns: Seq<NodeV>, bound: Set<usize>)
    requires
        lowerable(ns, bound, true),
    ensures
        plain_nodes(ns),
    decreases nodes_size(ns), ns.len(),
{
    if ns.len() > 0 {
        lemma_node_size(ns, ns.len() - 1);
        lemma_lowerable_plain(ns.drop_last(), bound);
        assert(lowerable_node(ns.last(), bound, true));
        if let NodeV::Region(r) = ns.last() {
            assert(lowerable_region(r, bound, true));
            lemma_lowerable_plain(r.body, bound.insert(r.label));
            if let Some(els) = r.els {
                lemma_lowerable_plain(els, bound.insert(r.label));
            }
            assert(plain_region(r));
        }
        assert(plain_node(ns.last()));
    }
}

/// Whether every task can be lowered with the labels of `bound`.
pub open spec fn work_lowerable(work: Seq<TaskV>, bound: Set<usize>, structured: bool) -> bool {
    forall|i: int| 0 <= i < work.len() ==> lowerable((#[trigger] work[i]).nodes, bound, structured)
}

/// One list still to be lowered.
pub type Task<'a> = (&'a Vec<Node>, usize, usize);

pub open spec fn work_view(work: Seq<Task>) -> Seq<TaskV> {
    Seq::new(
        work.len(),
        |i: int| TaskV { nodes: nodes_view(work[i].0@), entry: work[i].1, after: work[i].2 },
    )
}

/// The walk over one list of nodes, next to the flattener itself.
pub struct Walk<'a> {
    pub work: Vec<Task<'a>>,
    pub state: usize,
    pub stmts: Vec<ArmLine>,
    pub reachable: bool,
}

impl<'a> Walk<'a> {
    pub open spec fn with(&self, flat: FlatV) -> WalkV {
        WalkV {
            flat,
            work: work_view(self.work@),
            state: self.state,
            stmts: lines_view(self.stmts@),
            reachable: self.reachable,
        }
    }

    fn stmt(&mut self, text: String)
        ensures
            forall|f: FlatV| #[trigger]
                final(self).with(f) == old(self).with(f).stmt(text@),
    {
        add_line(&mut self.stmts, 0, text);
    }

    fn task(&mut self, nodes: &'a Vec<Node>, entry: usize, after: usize)
        ensures
            forall|f: FlatV| #[trigger]
                final(self).with(f) == old(self).with(f).task(nodes_view(nodes@), entry, after),
    {
        self.work.push((nodes, entry, after));
        assert(work_view(self.work@) =~= work_view(old(self).work@).push(
            TaskV { nodes: nodes_view(nodes@), entry, after },
        ));
    }
}

impl Flattener {
    /// Finishes the current arm; the next one is that of `next`.
    fn close(&mut self, w: &mut Walk, next: usize)
        ensures
            final(w).with(final(self)@) == old(w).with(old(self)@).closed(next),
            final(self).split == old(self).split,
    {
        let mut stmts: Vec<ArmLine> = Vec::new();
        assert(lines_view(stmts@) =~= Seq::<LineV>::empty());
        std::mem::swap(&mut stmts, &mut w.stmts);
        add_arm(&mut self.arms, w.state, stmts);
        w.state = next;
    }

    /// The state a branch to `label` jumps to.
    fn target(&self, label: usize) -> (r: usize)
        requires
            self@.labels.contains_key(label),
        ensures
            r == self@.labels[label],
    {
        broadcast use vstd::std_specs::hash::group_hash_axioms;

        match self.labels.get(&label) {
            Some(state) => *state,
            None => 0,
        }
    }

    /// Makes a branch to `label` jump to `state`.
    fn bind(&mut self, label: usize, state: usize)
        ensures
            final(self)@ == old(self)@.bound(label, state),
            final(self).split == old(self).split,
    {
        broadcast use vstd::std_specs::hash::group_hash_axioms;

        self.labels.insert(label, state);
    }

    fn table_arms(&self, arms: &Vec<BrArm>) -> (r: String)
        requires
            forall|i: int|
                0 <= i < arms@.len() ==> self@.labels.contains_key((#[trigger] arms@[i]).label),
        ensures
            r@ == table_arms_text(br_arms_view(arms@), self@.labels),
    {
        let ghost all = br_arms_view(arms@);
        let mut out = String::new();
        let mut i: usize = 0;
        while i < arms.len()
            invariant
                i <= arms@.len(),
                all == br_arms_view(arms@),
                forall|i: int|
                    0 <= i < arms@.len() ==> self@.labels.contains_key((#[trigger] arms@[i]).label),
                out@ == table_arms_text(all.take(i as int), self@.labels),
            decreases arms@.len() - i,
        {
            proof {
                assert(all.take(i + 1).drop_last() =~= all.take(i as int));
                assert(all[i as int] == arms@[i as int]@);
            }
            let target: usize = self.target(arms[i].label);
            let assigns = assigns_stmt(&arms[i].assigns);
            let piece = Buf::lit(&arms[i].pattern).s(" => { ").s(&assigns).s("pc = ")
                .n(target as u64).s("; } ").end();
            out.append(piece.as_str());
            i += 1;
        }
        assert(all.take(all.len() as int) =~= all);
        out
    }

    fn lower_region_into<'a>(&mut self, region: &'a RegionNode, w: &mut Walk<'a>)
        requires
            old(w).reachable,
            lowerable_region(
                region_view(*region),
                old(self)@.labels.dom(),
                old(self)@.allow_structured_loop,
            ),
        ensures
            final(w).with(final(self)@) == lower_region(
                old(w).with(old(self)@),
                region_view(*region),
            ),
            final(self).split == old(self).split,
    {
        let first: usize = self.alloc_state();
        let second: usize = self.alloc_state();
        if region.kind == FrameKind::If {
            // Dispatch to the `then`/`else` entry, then rejoin at `cont`. A
            // branch to the `if` exits to `cont`.
            let cont: usize = first;
            let then_e: usize = second;
            self.bind(region.label, cont);
            let cond = match &region.cond {
                Some(c) => c.clone(),
                None => String::new(),
            };
            match &region.els {
                Some(els) => {
                    let else_e: usize = self.alloc_state();
                    w.stmt(Buf::lit("if ").s(&cond).s(" { pc = ").n(then_e as u64)
                        .s("; } else { pc = ").n(else_e as u64).s("; }").end());
                    self.close(w, cont);
                    w.task(&region.body, then_e, cont);
                    w.task(els, else_e, cont);
                },
                None => {
                    w.stmt(Buf::lit("if ").s(&cond).s(" { pc = ").n(then_e as u64)
                        .s("; } else { pc = ").n(cont as u64).s("; }").end());
                    self.close(w, cont);
                    w.task(&region.body, then_e, cont);
                },
            }
        } else if self.allow_structured_loop && is_structurable_loop(region) {
            // A back-edge loop shallow enough to structure: emit a real
            // `'lN: loop { … }` (its nested `if`/`block`/`loop` also
            // structured) in one arm, so the hot back-edge is a direct
            // `continue 'lN` and per-iteration branches are direct, instead of
            // `pc = …; continue 'sm` back through the jump-table dispatch. The
            // enclosing block nest still flattens, so rendered nesting grows
            // only by the loop's own bounded depth. The loop's label stays out
            // of `self.labels` so a branch to it resolves structurally, not to
            // a state.
            let header: usize = first;
            let cont: usize = second;
            w.stmt(Buf::lit("pc = ").n(header as u64).s(";").end());
            self.close(w, cont);
            proof {
                let r = region_view(*region);
                let dom = old(self)@.labels.dom();
                lemma_lowerable_plain(r.body, dom.insert(r.label));
                lemma_flattenable_straight(r.body);
            }
            let loop_arm = self.render_structured_loop(region, cont);
            add_arm(&mut self.arms, header, loop_arm);
        } else {
            let inner: usize = first;
            let cont: usize = second;
            // A branch to a loop resumes its header; to a block it exits to the
            // continuation.
            let branch_target: usize = match region.kind {
                FrameKind::Loop => inner,
                _ => cont,
            };
            self.bind(region.label, branch_target);
            w.stmt(Buf::lit("pc = ").n(inner as u64).s(";").end());
            self.close(w, cont);
            w.task(&region.body, inner, cont);
        }
    }
}

impl Flattener {
    fn lower_node<'a>(&mut self, node: &'a Node, w: &mut Walk<'a>)
        requires
            lowerable_node(
                node_view(*node),
                old(self)@.labels.dom(),
                old(self)@.allow_structured_loop,
            ),
        ensures
            final(w).with(final(self)@) == lower_step(old(w).with(old(self)@), node_view(*node)),
            final(self).split == old(self).split,
    {
        if !w.reachable {
            // The generator does not emit past a terminator within a region, but
            // skip defensively so a stray node cannot start a dead arm.
            return;
        }
        match node {
            Node::Line(text) => w.stmt(text.clone()),
            Node::Term(text) => {
                w.stmt(text.clone());
                let state: usize = w.state;
                self.close(w, state);
                w.reachable = false;
            },
            Node::Br { label, .. } => {
                let target: usize = self.target(*label);
                w.stmt(Buf::lit("pc = ").n(target as u64).s(";").end());
                let state: usize = w.state;
                self.close(w, state);
                w.reachable = false;
            },
            Node::BrIf { cond, label, assigns, .. } => {
                let target: usize = self.target(*label);
                let assigns = assigns_stmt(assigns);
                self.uses_continue = true;
                w.stmt(Buf::lit("if ").s(cond).s(" { ").s(&assigns).s("pc = ").n(target as u64)
                    .s("; continue 'sm; }").end());
            },
            Node::BrTable { selector, arms } => {
                // Each arm assigns its target's carried variables then sets `pc`;
                // the whole `match` ends the current arm.
                assert(arms_bound(br_arms_view(arms@), self@.labels.dom()));
                assert forall|i: int| 0 <= i < arms@.len() implies self@.labels.contains_key(
                    (#[trigger] arms@[i]).label,
                ) by {
                    assert(br_arms_view(arms@)[i] == arms@[i]@);
                }
                let arms = self.table_arms(arms);
                w.stmt(Buf::lit("match (").s(selector).s(") as u32 { ").s(&arms).s("}").end());
                let state: usize = w.state;
                self.close(w, state);
                w.reachable = false;
            },
            Node::Region(region) => self.lower_region_into(region, w),
            Node::Try(t) => {
                // A body with a `try` is not flattened; a stray one is kept as one
                // opaque statement so it is still emitted correctly rather than
                // dropped.
                let mut buf = String::new();
                render_try_into(t, 0, "", &mut buf);
                w.stmt(without_trailing_space(buf.as_str()));
            },
            Node::Suspend { tag, payload, save } => {
                // Split the state machine at the suspend: save the mutated locals,
                // park the resume state in `__frame.pc`, and hand the suspension
                // up. The code after the suspend continues in `resume`, entered on
                // the next step call (whose `__args` are the values the resumer
                // injected).
                let resume: usize = self.alloc_state();
                w.stmt(
                    Buf::lit(save).s("__frame.pc = ").n(resume as u64)
                        .s("u32; return StepResult::Suspend { tag: ").n(*tag as u64)
                        .s("u32, payload: vec![").s(payload).s("] };").end(),
                );
                self.close(w, resume);
            },
            Node::Switch { tag, target, payload, save } => {
                // Like a suspend, but transfers control to `target` rather than
                // parking with a payload. The code after the switch continues in
                // `resume`, whose `__args` are the self-continuation parameters
                // injected when control switches back.
                let resume: usize = self.alloc_state();
                w.stmt(
                    Buf::lit(save).s("__frame.pc = ").n(resume as u64)
                        .s("u32; return StepResult::Switch { tag: ").n(*tag as u64)
                        .s("u32, target: ").s(target).s(", args: vec![").s(payload).s("] };").end(),
                );
                self.close(w, resume);
            },
            Node::Checkpoint { callee, save } => {
                // The callee drive is re-entered on every callee-suspend, so it
                // must occupy its own state with nothing before it — otherwise the
                // statements accumulated ahead of it in this arm would re-run each
                // time. Close the current state with a jump to a fresh `call` state
                // that holds only the callee `match`.
                let call: usize = self.alloc_state();
                let resume: usize = self.alloc_state();
                w.stmt(Buf::lit("pc = ").n(call as u64).s(";").end());
                self.close(w, resume);
                // In the `call` state: drive the callee once, forwarding this
                // step's `__args`. On the callee's suspend, save this frame's
                // mutated locals and propagate up, leaving `__frame.pc` pinned to
                // `call` so the next resume re-drives the callee. On its return,
                // move the callee's results into `__frame.ostack` (the code after
                // the call reads them back from there) and advance to `resume`.
                let mut drive: Vec<ArmLine> = Vec::new();
                assert(lines_view(drive@) =~= Seq::<LineV>::empty());
                add_line(
                    &mut drive,
                    0,
                    Buf::lit("match self.cont_step_func").n(*callee as u64)
                        .s("(&mut __frame.sub, __args) { StepResult::Suspend { tag: __t, payload: __p } => { ")
                        .s(save).s("__frame.pc = ").n(call as u64)
                        .s("u32; return StepResult::Suspend { tag: __t, payload: __p }; } StepResult::Switch { tag: __t, target: __tgt, args: __a } => { ")
                        .s(save).s("__frame.pc = ").n(call as u64)
                        .s("u32; return StepResult::Switch { tag: __t, target: __tgt, args: __a }; } StepResult::Return(__cret) => { __frame.ostack = __cret; pc = ")
                        .n(resume as u64).s("; } }").end(),
                );
                add_arm(&mut self.arms, call, drive);
            },
        }
    }

    /// Linearise `nodes` so execution enters at state `entry` and, on
    /// fall-through, transfers to state `after`.
    ///
    /// A nested region does not recurse: its body is pushed onto a worklist as a
    /// `(nodes, entry, after)` task and lowered in a later iteration, so the
    /// nesting depth becomes worklist length rather than call-stack depth and a
    /// deeply nested module cannot overflow the stack. Order across tasks is
    /// irrelevant because arms are sorted by state id when they are assembled; a
    /// region's label is bound before its body task is pushed, and a branch only
    /// ever targets an enclosing region (never a sibling or descendant), so every
    /// label a task reads is already present.
    pub fn lower(&mut self, nodes: &Vec<Node>, entry: usize, after: usize)
        requires
            lowerable(
                nodes_view(nodes@),
                old(self)@.labels.dom(),
                old(self)@.allow_structured_loop,
            ),
        ensures
            final(self)@ == lowered(old(self)@, nodes_view(nodes@), entry, after),
            final(self).split == old(self).split,
    {
        let mut w = Walk { work: Vec::new(), state: entry, stmts: Vec::new(), reachable: true };
        assert(work_view(w.work@) =~= Seq::<TaskV>::empty());
        w.task(nodes, entry, after);
        proof {
            let now = w.with(self@);
            assert(now.work == Seq::<TaskV>::empty().push(
                TaskV { nodes: nodes_view(nodes@), entry, after },
            ));
            assert(work_view(w.work@) == now.work);
        }
        let ghost goal = lowered(self@, nodes_view(nodes@), entry, after);
        while w.work.len() > 0
            invariant
                lower_work(self@, work_view(w.work@)) == goal,
                work_lowerable(
                    work_view(w.work@),
                    self@.labels.dom(),
                    self@.allow_structured_loop,
                ),
                self.split == old(self).split,
            decreases work_size(work_view(w.work@)),
        {
            let ghost f0 = self@;
            let ghost work0 = work_view(w.work@);
            let (list, entry, after) = w.work[w.work.len() - 1];
            w.work.pop();
            w.state = entry;
            w.stmts = Vec::new();
            w.reachable = true;
            let ghost all = nodes_view(list@);
            let ghost w0 = started(f0, work0);
            proof {
                assert(work_view(w.work@) =~= work0.drop_last());
                assert(lines_view(w.stmts@) =~= Seq::<LineV>::empty());
                assert(work0.last() == (TaskV { nodes: all, entry, after }));
                assert(w.with(self@) == w0);
                assert(lowerable(work0.last().nodes, f0.labels.dom(), f0.allow_structured_loop));
            }
            let mut i: usize = 0;
            while i < list.len()
                invariant
                    i <= list@.len(),
                    all == nodes_view(list@),
                    w.with(self@) == lower_nodes(w0, all.take(i as int)),
                    w0 == started(f0, work0),
                    lowerable(all, self@.labels.dom(), self@.allow_structured_loop),
                    work_lowerable(
                        work_view(w.work@),
                        self@.labels.dom(),
                        self@.allow_structured_loop,
                    ),
                    self.split == old(self).split,
                    work_size(work_view(w.work@)) <= work_size(w0.work) + nodes_size(
                        all.take(i as int),
                    ),
                decreases list@.len() - i,
            {
                let ghost w1 = w.with(self@);
                proof {
                    assert(all.take(i + 1).drop_last() =~= all.take(i as int));
                    assert(all[i as int] == node_view(list@[i as int]));
                    lemma_lowerable_node(
                        all,
                        self@.labels.dom(),
                        self@.allow_structured_loop,
                        i as int,
                    );
                    lemma_step_keeps(w1, all[i as int], all);
                }
                self.lower_node(&list[i], &mut w);
                proof {
                    assert(w.with(self@).work == work_view(w.work@));
                    assert(w.with(self@).flat == self@);
                }
                i += 1;
            }
            proof {
                assert(all.take(all.len() as int) =~= all);
                assert(w.with(self@) == lower_nodes(w0, all));
                assert(w.with(self@).work == work_view(w.work@));
            }
            let ghost w2 = w.with(self@);
            if w.reachable {
                w.stmt(Buf::lit("pc = ").n(after as u64).s(";").end());
                assert(w.with(self@) == w2.stmt(("pc = "@ + dec(after as nat) + ";"@)));
                assert(w.with(self@).work == work_view(w.work@));
                assert(w.with(self@).stmts == lines_view(w.stmts@));
                let mut stmts: Vec<ArmLine> = Vec::new();
                std::mem::swap(&mut stmts, &mut w.stmts);
                add_arm(&mut self.arms, w.state, stmts);
            }
            proof {
                assert(work_view(w.work@) == w2.work);
                assert(self@ == finished(w2, after));
                assert(work_size(w2.work) < work_size(work0));
            }
        }
    }
}

/// One step binds labels only by adding them, keeps every task lowerable, and
/// adds no more work than the node it lowers.
pub proof fn lemma_step_keeps(w: WalkV, n: NodeV, rest: Seq<NodeV>)
    requires
        lowerable_node(n, w.flat.labels.dom(), w.flat.allow_structured_loop),
        lowerable(rest, w.flat.labels.dom(), w.flat.allow_structured_loop),
        work_lowerable(w.work, w.flat.labels.dom(), w.flat.allow_structured_loop),
    ensures
        lower_step(w, n).flat.allow_structured_loop == w.flat.allow_structured_loop,
        lowerable(rest, lower_step(w, n).flat.labels.dom(), w.flat.allow_structured_loop),
        work_lowerable(
            lower_step(w, n).work,
            lower_step(w, n).flat.labels.dom(),
            w.flat.allow_structured_loop,
        ),
        work_size(lower_step(w, n).work) <= work_size(w.work) + node_size(n),
{
    let w2 = lower_step(w, n);
    let a = w.flat.labels.dom();
    let b = w2.flat.labels.dom();
    let s = w.flat.allow_structured_loop;
    assert(a.subset_of(b));
    lemma_lowerable_grows(rest, a, b, s);
    assert forall|i: int| 0 <= i < w.work.len() implies lowerable(
        (#[trigger] w.work[i]).nodes,
        b,
        s,
    ) by {
        lemma_lowerable_grows(w.work[i].nodes, a, b, s);
    }
    if let NodeV::Region(r) = n {
        if w.reachable {
            assert(lowerable_region(r, a, s));
            assert(node_size(n) == region_size(r));
            if r.kind == FrameKind::If || !(s && structurable(r)) {
                assert(b =~= a.insert(r.label));
                let body = TaskV {
                    nodes: r.body,
                    entry: if r.kind == FrameKind::If {
                        inc(w.flat.next_state)
                    } else {
                        w.flat.next_state
                    },
                    after: if r.kind == FrameKind::If {
                        w.flat.next_state
                    } else {
                        inc(w.flat.next_state)
                    },
                };
                let one = w.work.push(body);
                assert(one.drop_last() =~= w.work);
                assert(work_size(one) == work_size(w.work) + 1 + nodes_size(r.body));
                if r.kind == FrameKind::If && r.els is Some {
                    let els = TaskV {
                        nodes: r.els->0,
                        entry: inc(inc(w.flat.next_state)),
                        after: w.flat.next_state,
                    };
                    assert(w2.work == one.push(els));
                    assert(one.push(els).drop_last() =~= one);
                    assert(work_size(one.push(els)) == work_size(one) + 1 + nodes_size(els.nodes));
                } else {
                    assert(w2.work == one);
                }
            }
        }
    }
}

} // verus!
