//! The structured body of a function under translation, and how it is rendered
//! as nested Rust.

use vstd::prelude::*;

use crate::codegen::scan::{found_at, occurs_at, pair_texts};
use crate::text::{
    byte_len, chars_of, clamp, dec, inc, lit, next_of, opt_text, repeated, sat_sum, texts, Buf,
};
use crate::wasm::ValType;

verus! {

/// A value on the simulated operand stack.
pub struct Val {
    /// The Rust expression that produces this value.
    pub code: String,
    pub ty: ValType,
    /// Whether re-evaluating `code` is guaranteed to yield the same result.
    pub stable: bool,
}

/// The model of a [`Val`].
pub struct ValV {
    pub code: Seq<char>,
    pub ty: ValType,
    pub stable: bool,
}

impl View for Val {
    type V = ValV;

    open spec fn view(&self) -> ValV {
        ValV { code: self.code@, ty: self.ty, stable: self.stable }
    }
}

/// The kind of a structured control-flow region.
#[derive(Clone, Copy, PartialEq, Eq, Structural, Debug)]
pub enum FrameKind {
    Block,
    Loop,
    If,
}

/// The kind of one arm of a `try` region.
#[derive(Clone, Copy, PartialEq, Eq, Structural, Debug)]
pub enum CatchKind {
    /// The protected body.
    Body,
    /// A `catch $tag` handler.
    Tag(u32),
    /// A `catch_all` handler.
    All,
}

/// One finished arm of a `try` region: the body or a catch handler.
pub struct CatchArm {
    pub kind: CatchKind,
    /// Prebuilt `let` statements that extract the exception payload into the
    /// handler's operand variables, run before the handler body. Empty for the
    /// body and `catch_all`.
    pub binds: Vec<String>,
    pub body: Vec<Node>,
    /// Whether control can fall through this arm's end (so it needs a trailing
    /// `break 'lN;` when the try is targeted).
    pub reachable_at_end: bool,
}

/// One element of a function body, captured structurally so a whole function can
/// be rendered lazily as either nested Rust (the default) or a flat dispatch
/// loop. Rendering is deferred because the choice depends on the function's peak
/// control-flow nesting, which is only known once the whole body has been
/// generated.
pub enum Node {
    /// An opaque straight-line statement, already formatted at its region's own
    /// base indentation (region nesting is applied when rendered).
    Line(String),
    /// A statement after which control does not fall through (`return`, a
    /// trapping `panic!`).
    Term(String),
    /// An unconditional branch: `break`/`continue` to region `label`. Any
    /// value-carrying assignments precede it as `Line`s.
    Br { label: usize, is_loop: bool },
    /// A conditional branch (`br_if`): when `cond` is non-zero, run `assigns`
    /// then `break`/`continue` to `label`; otherwise fall through.
    BrIf { cond: String, label: usize, is_loop: bool, assigns: Vec<(String, String)> },
    /// A `br_table`: dispatch on `selector` to one of several branch arms.
    BrTable { selector: String, arms: Vec<BrArm> },
    /// A nested control-flow region (block/loop/if).
    Region(RegionNode),
    /// A legacy-exception `try` region, rendered as a `catch_unwind` over the
    /// protected body with a landing pad dispatching on the caught tag.
    Try(TryRegionNode),
    /// A continuation `suspend` point. Splits the `pc` state machine: the arm
    /// saves the mutated locals (`save`), advances `__frame.pc` to the resume
    /// state, and returns `StepResult::Suspend` with the encoded `payload`. Only
    /// the continuation flattener produces and consumes it.
    Suspend { tag: u32, payload: String, save: String },
    /// A cross-call checkpoint: a tail `call` to another step function `callee`.
    /// Splits the `pc` state machine into a state that drives
    /// `self.cont_step_func{callee}` once — on the callee's suspend it saves the
    /// mutated locals (`save`), leaves `__frame.pc` pinned to this state (so the
    /// next resume re-drives the callee), and propagates the suspension up; on
    /// the callee's return it moves the callee's results into `__frame.ostack`
    /// and advances to the resume state. Only the continuation flattener produces
    /// and consumes it.
    Checkpoint { callee: u32, save: String },
    /// A continuation `switch` point. Like [`Node::Suspend`] it splits the `pc`
    /// state machine, but it returns `StepResult::Switch`, transferring control
    /// directly to `target` with the encoded `payload`. Only the continuation
    /// flattener produces and consumes it.
    Switch { tag: u32, target: String, payload: String, save: String },
}

/// A finished `try` region: the protected body plus its catch handlers.
pub struct TryRegionNode {
    /// Numeric label; the body is wrapped in `'lN: loop { … }` when `targeted`
    /// so a `br` to the try becomes a `break` out of the protected body.
    pub label: usize,
    pub targeted: bool,
    /// The variable the caught exception box binds to in the landing pad.
    pub exc_var: String,
    /// The protected body.
    pub body: Vec<Node>,
    /// Whether the body can fall through its end (needs a trailing `break`).
    pub body_reachable_at_end: bool,
    /// The catch handlers, in source order.
    pub catches: Vec<CatchArm>,
}

/// One arm of a [`Node::BrTable`]: a match pattern that assigns its target's
/// value-carrying variables then `break`/`continue`s to `label`.
pub struct BrArm {
    pub pattern: String,
    pub label: usize,
    pub is_loop: bool,
    pub assigns: Vec<(String, String)>,
}

/// A finished control-flow region, retained structurally (rather than eagerly
/// flattened to indented text) so it can be rendered nested or flattened.
pub struct RegionNode {
    pub kind: FrameKind,
    /// Numeric label; only rendered as `'lN` when `targeted`.
    pub label: usize,
    /// Whether some `br`/`br_if`/`br_table` targets this region.
    pub targeted: bool,
    /// Whether control could fall through the region's end (so a targeted
    /// block/loop needs a trailing `break 'lN;`).
    pub reachable_at_end: bool,
    /// For an `if`: its Rust condition expression; `None` for block/loop.
    pub cond: Option<String>,
    /// For block/loop: the whole body. For `if`: the `then` arm.
    pub body: Vec<Node>,
    /// For an `if` with an explicit or implicit `else`: the `else` arm.
    pub els: Option<Vec<Node>>,
}

// ---------------------------------------------------------------------------
// Models
// ---------------------------------------------------------------------------
/// The model of a [`BrArm`].
pub struct BrArmV {
    pub pattern: Seq<char>,
    pub label: usize,
    pub is_loop: bool,
    pub assigns: Seq<(Seq<char>, Seq<char>)>,
}

/// The model of a [`CatchArm`].
pub struct CatchV {
    pub kind: CatchKind,
    pub binds: Seq<Seq<char>>,
    pub body: Seq<NodeV>,
    pub reachable_at_end: bool,
}

/// The model of a [`RegionNode`].
pub struct RegionV {
    pub kind: FrameKind,
    pub label: usize,
    pub targeted: bool,
    pub reachable_at_end: bool,
    pub cond: Option<Seq<char>>,
    pub body: Seq<NodeV>,
    pub els: Option<Seq<NodeV>>,
}

/// The model of a [`TryRegionNode`].
pub struct TryV {
    pub label: usize,
    pub targeted: bool,
    pub exc_var: Seq<char>,
    pub body: Seq<NodeV>,
    pub body_reachable_at_end: bool,
    pub catches: Seq<CatchV>,
}

/// The model of a [`Node`].
pub enum NodeV {
    Line(Seq<char>),
    Term(Seq<char>),
    Br { label: usize, is_loop: bool },
    BrIf {
        cond: Seq<char>,
        label: usize,
        is_loop: bool,
        assigns: Seq<(Seq<char>, Seq<char>)>,
    },
    BrTable { selector: Seq<char>, arms: Seq<BrArmV> },
    Region(RegionV),
    Try(TryV),
    Suspend { tag: u32, payload: Seq<char>, save: Seq<char> },
    Checkpoint { callee: u32, save: Seq<char> },
    Switch { tag: u32, target: Seq<char>, payload: Seq<char>, save: Seq<char> },
}

impl View for BrArm {
    type V = BrArmV;

    open spec fn view(&self) -> BrArmV {
        BrArmV {
            pattern: self.pattern@,
            label: self.label,
            is_loop: self.is_loop,
            assigns: pair_texts(self.assigns@),
        }
    }
}

pub open spec fn br_arms_view(arms: Seq<BrArm>) -> Seq<BrArmV> {
    Seq::new(arms.len(), |i: int| arms[i]@)
}

/// The model of one node.
pub open spec fn node_view(n: Node) -> NodeV
    decreases n,
{
    match n {
        Node::Line(t) => NodeV::Line(t@),
        Node::Term(t) => NodeV::Term(t@),
        Node::Br { label, is_loop } => NodeV::Br { label, is_loop },
        Node::BrIf { cond, label, is_loop, assigns } => NodeV::BrIf {
            cond: cond@,
            label,
            is_loop,
            assigns: pair_texts(assigns@),
        },
        Node::BrTable { selector, arms } => NodeV::BrTable {
            selector: selector@,
            arms: br_arms_view(arms@),
        },
        Node::Region(r) => NodeV::Region(region_view(r)),
        Node::Try(t) => NodeV::Try(try_view(t)),
        Node::Suspend { tag, payload, save } => NodeV::Suspend {
            tag,
            payload: payload@,
            save: save@,
        },
        Node::Checkpoint { callee, save } => NodeV::Checkpoint { callee, save: save@ },
        Node::Switch { tag, target, payload, save } => NodeV::Switch {
            tag,
            target: target@,
            payload: payload@,
            save: save@,
        },
    }
}

pub open spec fn region_view(r: RegionNode) -> RegionV
    decreases r,
{
    RegionV {
        kind: r.kind,
        label: r.label,
        targeted: r.targeted,
        reachable_at_end: r.reachable_at_end,
        cond: opt_text(r.cond),
        body: nodes_view(r.body@),
        els: match r.els {
            Some(els) => Some(nodes_view(els@)),
            None => None,
        },
    }
}

pub open spec fn try_view(t: TryRegionNode) -> TryV
    decreases t,
{
    TryV {
        label: t.label,
        targeted: t.targeted,
        exc_var: t.exc_var@,
        body: nodes_view(t.body@),
        body_reachable_at_end: t.body_reachable_at_end,
        catches: catches_view(t.catches@),
    }
}

pub open spec fn catch_view(c: CatchArm) -> CatchV
    decreases c,
{
    CatchV {
        kind: c.kind,
        binds: texts(c.binds@),
        body: nodes_view(c.body@),
        reachable_at_end: c.reachable_at_end,
    }
}

pub open spec fn catches_view(cs: Seq<CatchArm>) -> Seq<CatchV>
    decreases cs,
{
    Seq::new(
        cs.len(),
        |i: int|
            if 0 <= i < cs.len() {
                catch_view(cs[i])
            } else {
                arbitrary()
            },
    )
}

/// The model of a list of nodes.
pub open spec fn nodes_view(ns: Seq<Node>) -> Seq<NodeV>
    decreases ns,
{
    Seq::new(
        ns.len(),
        |i: int|
            if 0 <= i < ns.len() {
                node_view(ns[i])
            } else {
                arbitrary()
            },
    )
}

pub proof fn lemma_nodes_push(ns: Seq<Node>, n: Node)
    ensures
        nodes_view(ns.push(n)) == nodes_view(ns).push(node_view(n)),
{
    assert(nodes_view(ns.push(n)) =~= nodes_view(ns).push(node_view(n)));
}

// ---------------------------------------------------------------------------
// Sizes
// ---------------------------------------------------------------------------
/// A measure of a node that exceeds the measures of the lists inside it.
pub open spec fn node_size(n: NodeV) -> nat
    decreases n,
{
    match n {
        NodeV::Region(r) => region_size(r),
        NodeV::Try(t) => try_size(t),
        _ => 1,
    }
}

pub open spec fn region_size(r: RegionV) -> nat
    decreases r,
{
    3 + nodes_size(r.body) + match r.els {
        Some(els) => nodes_size(els),
        None => 0,
    }
}

pub open spec fn try_size(t: TryV) -> nat
    decreases t,
{
    3 + nodes_size(t.body) + catches_size(t.catches)
}

pub open spec fn catches_size(cs: Seq<CatchV>) -> nat
    decreases cs,
{
    if cs.len() == 0 {
        0
    } else {
        catches_size(cs.drop_last()) + 1 + nodes_size(cs.last().body)
    }
}

/// The measure of a list of nodes.
pub open spec fn nodes_size(ns: Seq<NodeV>) -> nat
    decreases ns,
{
    if ns.len() == 0 {
        0
    } else {
        nodes_size(ns.drop_last()) + node_size(ns.last())
    }
}

/// A node measures no more than the list it is in.
pub proof fn lemma_node_size(ns: Seq<NodeV>, i: int)
    requires
        0 <= i < ns.len(),
    ensures
        node_size(ns[i]) <= nodes_size(ns),
    decreases ns.len(),
{
    if i < ns.len() - 1 {
        lemma_node_size(ns.drop_last(), i);
    }
}

pub proof fn lemma_catch_size(cs: Seq<CatchV>, i: int)
    requires
        0 <= i < cs.len(),
    ensures
        nodes_size(cs[i].body) < catches_size(cs),
    decreases cs.len(),
{
    if i < cs.len() - 1 {
        lemma_catch_size(cs.drop_last(), i);
    }
}

// ---------------------------------------------------------------------------
// Nested rendering
// ---------------------------------------------------------------------------
/// Whether no node of the list, at any depth, belongs to a continuation body.
pub open spec fn plain_nodes(ns: Seq<NodeV>) -> bool
    decreases ns,
{
    ns.len() == 0 || (plain_nodes(ns.drop_last()) && plain_node(ns.last()))
}

pub open spec fn plain_node(n: NodeV) -> bool
    decreases n,
{
    match n {
        NodeV::Suspend { .. } => false,
        NodeV::Checkpoint { .. } => false,
        NodeV::Switch { .. } => false,
        NodeV::Region(r) => plain_region(r),
        NodeV::Try(t) => plain_try(t),
        _ => true,
    }
}

pub open spec fn plain_region(r: RegionV) -> bool
    decreases r,
{
    plain_nodes(r.body) && match r.els {
        Some(els) => plain_nodes(els),
        None => true,
    }
}

pub open spec fn plain_try(t: TryV) -> bool
    decreases t,
{
    plain_nodes(t.body) && plain_catches(t.catches)
}

pub open spec fn plain_catches(cs: Seq<CatchV>) -> bool
    decreases cs,
{
    cs.len() == 0 || (plain_catches(cs.drop_last()) && plain_catch(cs.last()))
}

pub open spec fn plain_catch(c: CatchV) -> bool
    decreases c,
{
    plain_nodes(c.body)
}

/// Every node of a plain list is plain.
pub proof fn lemma_plain_node(ns: Seq<NodeV>, i: int)
    requires
        plain_nodes(ns),
        0 <= i < ns.len(),
    ensures
        plain_node(ns[i]),
    decreases ns.len(),
{
    if i < ns.len() - 1 {
        lemma_plain_node(ns.drop_last(), i);
    }
}

pub proof fn lemma_plain_catch(cs: Seq<CatchV>, i: int)
    requires
        plain_catches(cs),
        0 <= i < cs.len(),
    ensures
        plain_catch(cs[i]),
    decreases cs.len(),
{
    if i < cs.len() - 1 {
        lemma_plain_catch(cs.drop_last(), i);
    }
}

/// The output `out` with one more line at control-nesting `depth`: the prefix,
/// the indentation and the text. An empty line stays bare.
pub open spec fn put(out: Seq<char>, text: Seq<char>, depth: usize, prefix: Seq<char>) -> Seq<
    char,
> {
    if text.len() == 0 {
        out + "\n"@
    } else {
        out + prefix + repeated("    "@, (depth + 1) as nat) + text + "\n"@
    }
}

/// The keyword of a branch: back to a loop's header, or out of a block.
pub open spec fn branch_word(is_loop: bool) -> Seq<char> {
    if is_loop {
        "continue"@
    } else {
        "break"@
    }
}

/// The branch statement itself, without its semicolon.
pub open spec fn branch_text(label: usize, is_loop: bool) -> Seq<char> {
    (branch_word(is_loop) + " 'l"@ + dec(label as nat))
}

/// The assignments of the carried values on one line.
pub open spec fn assigns_text(assigns: Seq<(Seq<char>, Seq<char>)>) -> Seq<char>
    decreases assigns.len(),
{
    if assigns.len() == 0 {
        Seq::empty()
    } else {
        assigns_text(assigns.drop_last()) + (assigns.last().0 + " = "@ + assigns.last().1 + "; "@)
    }
}

/// `out` with the assignments of the carried values, one per line.
pub open spec fn put_assigns(
    out: Seq<char>,
    assigns: Seq<(Seq<char>, Seq<char>)>,
    depth: usize,
    prefix: Seq<char>,
) -> Seq<char>
    decreases assigns.len(),
{
    if assigns.len() == 0 {
        out
    } else {
        put(
            put_assigns(out, assigns.drop_last(), depth, prefix),
            ("    "@ + assigns.last().0 + " = "@ + assigns.last().1 + ";"@),
            depth,
            prefix,
        )
    }
}

/// `out` with a `br_if` as nested Rust: a one-line `if` when it carries no
/// values, or a multi-line `if` whose body assigns the carried values before
/// branching.
pub open spec fn put_br_if(
    out: Seq<char>,
    cond: Seq<char>,
    label: usize,
    is_loop: bool,
    assigns: Seq<(Seq<char>, Seq<char>)>,
    depth: usize,
    prefix: Seq<char>,
) -> Seq<char> {
    if assigns.len() == 0 {
        put(out, ("if "@ + cond + " { "@ + branch_text(label, is_loop) + "; }"@), depth, prefix)
    } else {
        let o1 = put(out, ("if "@ + cond + " {"@), depth, prefix);
        let o2 = put_assigns(o1, assigns, depth, prefix);
        let o3 = put(o2, ("    "@ + branch_text(label, is_loop) + ";"@), depth, prefix);
        put(o3, "}"@, depth, prefix)
    }
}

/// One arm of a `br_table` as nested Rust.
pub open spec fn br_arm_text(arm: BrArmV) -> Seq<char> {
    if arm.assigns.len() == 0 {
        ("    "@ + arm.pattern + " => "@ + branch_text(arm.label, arm.is_loop) + ","@)
    } else {
        ("    "@ + arm.pattern + " => { "@ + assigns_text(arm.assigns)
            + branch_text(arm.label, arm.is_loop) + "; },"@)
    }
}

pub open spec fn put_br_arms(
    out: Seq<char>,
    arms: Seq<BrArmV>,
    depth: usize,
    prefix: Seq<char>,
) -> Seq<char>
    decreases arms.len(),
{
    if arms.len() == 0 {
        out
    } else {
        put(
            put_br_arms(out, arms.drop_last(), depth, prefix),
            br_arm_text(arms.last()),
            depth,
            prefix,
        )
    }
}

/// `out` with a `br_table` as nested Rust.
pub open spec fn put_br_table(
    out: Seq<char>,
    selector: Seq<char>,
    arms: Seq<BrArmV>,
    depth: usize,
    prefix: Seq<char>,
) -> Seq<char> {
    let o1 = put(out, ("match ("@ + selector + ") as u32 {"@), depth, prefix);
    let o2 = put_br_arms(o1, arms, depth, prefix);
    put(o2, "}"@, depth, prefix)
}

/// `out` with a list of nodes as nested Rust at control-nesting `depth`.
pub open spec fn put_nodes(
    out: Seq<char>,
    ns: Seq<NodeV>,
    depth: usize,
    prefix: Seq<char>,
) -> Seq<char>
    decreases ns,
{
    if ns.len() == 0 {
        out
    } else {
        put_node(put_nodes(out, ns.drop_last(), depth, prefix), ns.last(), depth, prefix)
    }
}

pub open spec fn put_node(out: Seq<char>, n: NodeV, depth: usize, prefix: Seq<char>) -> Seq<char>
    decreases n,
{
    match n {
        NodeV::Line(text) => put(out, text, depth, prefix),
        NodeV::Term(text) => put(out, text, depth, prefix),
        NodeV::Br { label, is_loop } => put(
            out,
            (branch_text(label, is_loop) + ";"@),
            depth,
            prefix,
        ),
        NodeV::BrIf { cond, label, is_loop, assigns } => put_br_if(
            out,
            cond,
            label,
            is_loop,
            assigns,
            depth,
            prefix,
        ),
        NodeV::BrTable { selector, arms } => put_br_table(out, selector, arms, depth, prefix),
        NodeV::Region(r) => put_region(out, r, depth, prefix),
        NodeV::Try(t) => put_try(out, t, depth, prefix),
        _ => out,
    }
}

/// The text of an optional condition; none is the empty text.
pub open spec fn cond_text(cond: Option<Seq<char>>) -> Seq<char> {
    match cond {
        Some(c) => c,
        None => Seq::empty(),
    }
}

/// `out` with what stands inside a region: its body, or an `if` with its arms.
pub open spec fn put_inner(out: Seq<char>, r: RegionV, depth: usize, prefix: Seq<char>) -> Seq<char>
    decreases r, 0nat,
{
    match r.kind {
        FrameKind::If => {
            let o1 = put(out, ("if "@ + cond_text(r.cond) + " {"@), depth, prefix);
            let o2 = put_nodes(o1, r.body, inc(depth), prefix);
            let o3 = match r.els {
                Some(els) => {
                    put_nodes(put(o2, "} else {"@, depth, prefix), els, inc(depth), prefix)
                },
                None => o2,
            };
            put(o3, "}"@, depth, prefix)
        },
        _ => put_nodes(out, r.body, depth, prefix),
    }
}

/// The opening line of a targeted region.
pub open spec fn region_header(kind: FrameKind, label: usize) -> Seq<char> {
    if kind == FrameKind::If {
        ("'l"@ + dec(label as nat) + ": {"@)
    } else {
        ("'l"@ + dec(label as nat) + ": loop {"@)
    }
}

/// Whether a targeted region ends in a `break` out of its loop.
pub open spec fn breaks_at_end(r: RegionV) -> bool {
    r.kind != FrameKind::If && r.reachable_at_end
}

/// `out` with a region as nested Rust. A targeted block or loop is a labelled
/// `loop` that a trailing `break` leaves when its body falls through; a targeted
/// `if` is a labelled block.
pub open spec fn put_region(out: Seq<char>, r: RegionV, depth: usize, prefix: Seq<char>) -> Seq<
    char,
>
    decreases r, 1nat,
{
    if r.targeted {
        let o1 = put(out, region_header(r.kind, r.label), depth, prefix);
        let o2 = put_inner(o1, r, inc(depth), prefix);
        let o3 = if breaks_at_end(r) {
            put(o2, ("break 'l"@ + dec(r.label as nat) + ";"@), inc(depth), prefix)
        } else {
            o2
        };
        put(o3, "}"@, depth, prefix)
    } else {
        put_inner(out, r, depth, prefix)
    }
}

/// `out` with the protected body of a `try`, in a labelled loop when something
/// branches to the `try`.
pub open spec fn put_protected(out: Seq<char>, t: TryV, depth: usize, prefix: Seq<char>) -> Seq<
    char,
>
    decreases t, 0nat,
{
    if t.targeted {
        let o1 = put(out, ("'l"@ + dec(t.label as nat) + ": loop {"@), inc(depth), prefix);
        let o2 = put_nodes(o1, t.body, inc(inc(depth)), prefix);
        let o3 = if t.body_reachable_at_end {
            put(o2, ("break 'l"@ + dec(t.label as nat) + ";"@), inc(inc(depth)), prefix)
        } else {
            o2
        };
        put(o3, "}"@, inc(depth), prefix)
    } else {
        put_nodes(out, t.body, inc(depth), prefix)
    }
}

/// `out` with a `try` as a `catch_unwind` over the protected body and a landing
/// pad.
pub open spec fn put_try(out: Seq<char>, t: TryV, depth: usize, prefix: Seq<char>) -> Seq<char>
    decreases t, 1nat,
{
    let o1 = put(
        out,
        "match ::std::panic::catch_unwind(::std::panic::AssertUnwindSafe(|| {"@,
        depth,
        prefix,
    );
    let o2 = put_protected(o1, t, depth, prefix);
    let o3 = put(o2, "})) {"@, depth, prefix);
    let o4 = put(o3, "Ok(()) => {}"@, inc(depth), prefix);
    let o5 = put(o4, ("Err("@ + t.exc_var + ") => {"@), inc(depth), prefix);
    let o6 = put_landing_pad(o5, t.catches, t.exc_var, inc(inc(depth)), prefix);
    let o7 = put(o6, "}"@, inc(depth), prefix);
    put(o7, "}"@, depth, prefix)
}

pub open spec fn put_binds(
    out: Seq<char>,
    binds: Seq<Seq<char>>,
    depth: usize,
    prefix: Seq<char>,
) -> Seq<char>
    decreases binds.len(),
{
    if binds.len() == 0 {
        out
    } else {
        put(put_binds(out, binds.drop_last(), depth, prefix), binds.last(), depth, prefix)
    }
}

/// The pattern of a handler in the landing pad's `match`.
pub open spec fn handler_head(kind: CatchKind) -> Seq<char> {
    match kind {
        CatchKind::Tag(tag) => (dec(tag as nat) + "u32 => {"@),
        _ => "_ => {"@,
    }
}

/// `out` with one handler of a landing pad.
pub open spec fn put_handler(out: Seq<char>, c: CatchV, depth: usize, prefix: Seq<char>) -> Seq<
    char,
>
    decreases c,
{
    if c.kind == CatchKind::Body {
        out
    } else {
        let o1 = put(out, handler_head(c.kind), inc(depth), prefix);
        let o2 = put_binds(o1, c.binds, inc(inc(depth)), prefix);
        let o3 = put_nodes(o2, c.body, inc(inc(depth)), prefix);
        put(o3, "}"@, inc(depth), prefix)
    }
}

pub open spec fn put_handlers(
    out: Seq<char>,
    cs: Seq<CatchV>,
    depth: usize,
    prefix: Seq<char>,
) -> Seq<char>
    decreases cs, 0nat,
{
    if cs.len() == 0 {
        out
    } else {
        put_handler(put_handlers(out, cs.drop_last(), depth, prefix), cs.last(), depth, prefix)
    }
}

pub open spec fn catches_everything(cs: Seq<CatchV>) -> bool {
    exists|i: int| 0 <= i < cs.len() && (#[trigger] cs[i]).kind == CatchKind::All
}

/// `out` with the `Err` arm of a try's `catch_unwind`: it resolves the caught tag
/// and goes to the matching handler, raising anything unmatched again.
pub open spec fn put_landing_pad(
    out: Seq<char>,
    cs: Seq<CatchV>,
    exc_var: Seq<char>,
    depth: usize,
    prefix: Seq<char>,
) -> Seq<char>
    decreases cs, 1nat,
{
    if cs.len() == 0 {
        put(out, ("::std::panic::resume_unwind("@ + exc_var + ");"@), depth, prefix)
    } else {
        let o1 = put(
            out,
            ("let __tag = match "@ + exc_var + ".downcast_ref::<Wasm2RsException>() {"@),
            depth,
            prefix,
        );
        let o2 = put(o1, "Some(__e) => __e.tag,"@, inc(depth), prefix);
        let o3 = put(o2, ("None => ::std::panic::resume_unwind("@ + exc_var
            + "),"@), inc(depth), prefix);
        let o4 = put(o3, "};"@, depth, prefix);
        let o5 = put(o4, "match __tag {"@, depth, prefix);
        let o6 = put_handlers(o5, cs, depth, prefix);
        let o7 = if catches_everything(cs) {
            o6
        } else {
            put(o6, ("_ => ::std::panic::resume_unwind("@ + exc_var + "),"@), inc(depth), prefix)
        };
        put(o7, "}"@, depth, prefix)
    }
}

impl BrArm {
    /// The keyword of this arm's branch.
    pub fn keyword(&self) -> (r: &'static str)
        ensures
            r@ == branch_word(self.is_loop),
    {
        if self.is_loop {
            "continue"
        } else {
            "break"
        }
    }
}

/// The branch statement to `label`, without its semicolon.
pub fn branch_stmt(label: usize, is_loop: bool) -> (r: String)
    ensures
        r@ == branch_text(label, is_loop),
{
    let keyword = if is_loop {
        "continue"
    } else {
        "break"
    };
    Buf::lit(keyword).s(" 'l").n(label as u64).end()
}

/// The assignments of the carried values on one line.
pub fn assigns_stmt(assigns: &Vec<(String, String)>) -> (r: String)
    ensures
        r@ == assigns_text(pair_texts(assigns@)),
{
    let mut out = String::new();
    let ghost all = pair_texts(assigns@);
    let mut i: usize = 0;
    while i < assigns.len()
        invariant
            i <= assigns@.len(),
            all == pair_texts(assigns@),
            out@ == assigns_text(all.take(i as int)),
        decreases assigns@.len() - i,
    {
        assert(all.take(i + 1).drop_last() =~= all.take(i as int));
        let piece = Buf::lit(&assigns[i].0).s(" = ").s(&assigns[i].1).s("; ").end();
        out.append(piece.as_str());
        i += 1;
    }
    assert(all.take(all.len() as int) =~= all);
    out
}

/// Write one body line at control-nesting `depth`. Empty lines stay bare.
pub fn push_body_line(out: &mut String, text: &str, depth: usize, line_prefix: &str)
    ensures
        final(out)@ == put(old(out)@, text@, depth, line_prefix@),
{
    if !text.is_empty() {
        out.append(line_prefix);
        let ghost start = out@;
        // Base function-body indent, then one level per enclosing region.
        out.append("    ");
        assert(repeated("    "@, 1) =~= "    "@) by {
            reveal_with_fuel(repeated, 2);
        }
        let mut i: usize = 0;
        while i < depth
            invariant
                i <= depth,
                out@ == start + repeated("    "@, (i + 1) as nat),
            decreases depth - i,
        {
            let ghost before = out@;
            out.append("    ");
            assert(out@ =~= start + repeated("    "@, (i + 2) as nat));
            i += 1;
        }
        out.append(text);
    }
    out.append("\n");
    assert(out@ =~= put(old(out)@, text@, depth, line_prefix@));
}

/// Render a `br_if` node as nested Rust: a one-line `if` when it carries no
/// values, or a multi-line `if` whose body assigns the carried values (with a
/// four-space inner indent baked into the statement) before branching.
pub fn render_br_if_nested(
    cond: &str,
    label: usize,
    is_loop: bool,
    assigns: &Vec<(String, String)>,
    depth: usize,
    line_prefix: &str,
    out: &mut String,
)
    ensures
        final(out)@ == put_br_if(old(out)@, cond@,
            label,
            is_loop,
            pair_texts(assigns@),
            depth,
            line_prefix@,
        ),
{
    let branch = branch_stmt(label, is_loop);
    let ghost all = pair_texts(assigns@);
    if assigns.len() == 0 {
        push_body_line(out, Buf::lit("if ").s(cond).s(" { ").s(&branch).s("; }")
            .end().as_str(), depth, line_prefix);
    } else {
        push_body_line(out, Buf::lit("if ").s(cond).s(" {").end().as_str(), depth, line_prefix);
        let ghost head = out@;
        let mut i: usize = 0;
        while i < assigns.len()
            invariant
                i <= assigns@.len(),
                all == pair_texts(assigns@),
                out@ == put_assigns(head, all.take(i as int), depth, line_prefix@),
            decreases assigns@.len() - i,
        {
            assert(all.take(i + 1).drop_last() =~= all.take(i as int));
            let line = Buf::lit("    ").s(&assigns[i].0).s(" = ").s(&assigns[i].1).s(";").end();
            push_body_line(out, line.as_str(), depth, line_prefix);
            i += 1;
        }
        assert(all.take(all.len() as int) =~= all);
        push_body_line(out, Buf::lit("    ").s(&branch).s(";").end().as_str(), depth, line_prefix);
        push_body_line(out, "}", depth, line_prefix);
    }
}

/// Render a `br_table` node as nested Rust (`match (sel) as u32 { … }`).
pub fn render_br_table_nested(
    selector: &str,
    arms: &Vec<BrArm>,
    depth: usize,
    line_prefix: &str,
    out: &mut String,
)
    ensures
        final(out)@ == put_br_table(old(out)@, selector@,
            br_arms_view(arms@),
            depth,
            line_prefix@,
        ),
{
    push_body_line(out, Buf::lit("match (").s(selector).s(") as u32 {")
        .end().as_str(), depth, line_prefix);
    let ghost all = br_arms_view(arms@);
    let ghost head = out@;
    let mut i: usize = 0;
    while i < arms.len()
        invariant
            i <= arms@.len(),
            all == br_arms_view(arms@),
            out@ == put_br_arms(head, all.take(i as int), depth, line_prefix@),
        decreases arms@.len() - i,
    {
        let arm = &arms[i];
        assert(all.take(i + 1).drop_last() =~= all.take(i as int));
        assert(all[i as int] == arm@);
        let branch = branch_stmt(arm.label, arm.is_loop);
        let line = if arm.assigns.len() == 0 {
            Buf::lit("    ").s(&arm.pattern).s(" => ").s(&branch).s(",").end()
        } else {
            let assigns = assigns_stmt(&arm.assigns);
            Buf::lit("    ").s(&arm.pattern).s(" => { ").s(&assigns).s(&branch).s("; },").end()
        };
        push_body_line(out, line.as_str(), depth, line_prefix);
        i += 1;
    }
    assert(all.take(all.len() as int) =~= all);
    push_body_line(out, "}", depth, line_prefix);
}

/// Render a function body (its deferred [`Node`] list) into `out`. Each non-empty
/// line is written as `line_prefix` + the four-space function-body indent + four
/// spaces per control-nesting level + the statement; blank lines stay bare.
pub fn render_body_into(nodes: &Vec<Node>, line_prefix: &str, out: &mut String)
    requires
        plain_nodes(nodes_view(nodes@)),
    ensures
        final(out)@ == put_nodes(old(out)@, nodes_view(nodes@), 0, line_prefix@),
{
    render_nodes_into(nodes, 0, line_prefix, out);
}

/// Render a node list at control-nesting `depth` into `out`.
pub fn render_nodes_into(nodes: &Vec<Node>, depth: usize, line_prefix: &str, out: &mut String)
    requires
        plain_nodes(nodes_view(nodes@)),
    ensures
        final(out)@ == put_nodes(old(out)@, nodes_view(nodes@), depth, line_prefix@),
    decreases nodes_size(nodes_view(nodes@)), 2nat,
{
    let ghost all = nodes_view(nodes@);
    let ghost head = out@;
    let mut i: usize = 0;
    while i < nodes.len()
        invariant
            i <= nodes@.len(),
            all == nodes_view(nodes@),
            plain_nodes(all),
            out@ == put_nodes(head, all.take(i as int), depth, line_prefix@),
        decreases nodes@.len() - i,
    {
        proof {
            assert(all.take(i + 1).drop_last() =~= all.take(i as int));
            lemma_node_size(all, i as int);
            assert(all[i as int] == node_view(nodes@[i as int]));
            lemma_plain_node(all, i as int);
        }
        let ghost before = out@;
        match &nodes[i] {
            Node::Line(text) => push_body_line(out, text.as_str(), depth, line_prefix),
            Node::Term(text) => push_body_line(out, text.as_str(), depth, line_prefix),
            Node::Br { label, is_loop } => {
                let branch = branch_stmt(*label, *is_loop);
                push_body_line(out, Buf::lit(&branch).s(";").end().as_str(), depth, line_prefix);
            },
            Node::BrIf { cond, label, is_loop, assigns } => render_br_if_nested(
                cond.as_str(),
                *label,
                *is_loop,
                assigns,
                depth,
                line_prefix,
                out,
            ),
            Node::BrTable { selector, arms } => render_br_table_nested(
                selector.as_str(),
                arms,
                depth,
                line_prefix,
                out,
            ),
            Node::Region(region) => render_region_into(region, depth, line_prefix, out),
            Node::Try(try_node) => render_try_into(try_node, depth, line_prefix, out),
            Node::Suspend { .. } | Node::Checkpoint { .. } | Node::Switch { .. } => {},
        }
        assert(out@ == put_node(before, all[i as int], depth, line_prefix@));
        i += 1;
    }
    assert(all.take(all.len() as int) =~= all);
}

fn render_inner_into(region: &RegionNode, depth: usize, line_prefix: &str, out: &mut String)
    requires
        plain_region(region_view(*region)),
    ensures
        final(out)@ == put_inner(old(out)@, region_view(*region), depth, line_prefix@),
    decreases region_size(region_view(*region)), 0nat,
{
    match region.kind {
        FrameKind::If => {
            let cond = match &region.cond {
                Some(c) => c.clone(),
                None => String::new(),
            };
            push_body_line(out, Buf::lit("if ").s(&cond).s(" {")
                .end().as_str(), depth, line_prefix);
            render_nodes_into(&region.body, next_of(depth), line_prefix, out);
            match &region.els {
                Some(els) => {
                    push_body_line(out, "} else {", depth, line_prefix);
                    render_nodes_into(els, next_of(depth), line_prefix, out);
                },
                None => {},
            }
            push_body_line(out, "}", depth, line_prefix);
        },
        _ => {
            render_nodes_into(&region.body, depth, line_prefix, out);
        },
    }
}

/// Render one region as nested Rust at control-nesting `depth`.
pub fn render_region_into(region: &RegionNode, depth: usize, line_prefix: &str, out: &mut String)
    requires
        plain_region(region_view(*region)),
    ensures
        final(out)@ == put_region(old(out)@, region_view(*region), depth, line_prefix@),
    decreases region_size(region_view(*region)), 1nat,
{
    if region.targeted {
        // A `block` or `loop` that is branched to becomes a labelled `loop` (with
        // `break`/`continue` for `br`), which needs a trailing `break` to leave it
        // when the body falls through. An `if` is a labelled block that a `br`
        // `break`s out of and that falls through its end — no trailing break.
        let is_loop = region.kind != FrameKind::If;
        let header = if is_loop {
            Buf::lit("'l").n(region.label as u64).s(": loop {").end()
        } else {
            Buf::lit("'l").n(region.label as u64).s(": {").end()
        };
        push_body_line(out, header.as_str(), depth, line_prefix);
        render_inner_into(region, next_of(depth), line_prefix, out);
        if is_loop && region.reachable_at_end {
            push_body_line(out, Buf::lit("break 'l").n(region.label as u64).s(";")
                .end().as_str(), next_of(depth), line_prefix);
        }
        push_body_line(out, "}", depth, line_prefix);
    } else {
        render_inner_into(region, depth, line_prefix, out);
    }
}

/// Render a `try` region as a `catch_unwind` over the protected body followed by
/// a landing pad that dispatches on the caught exception's tag. A thrown wasm
/// exception is a `panic_any` of the exception type; any other payload (a trap,
/// or a foreign panic) is re-raised so only wasm exceptions are caught.
pub fn render_try_into(node: &TryRegionNode, depth: usize, line_prefix: &str, out: &mut String)
    requires
        plain_try(try_view(*node)),
    ensures
        final(out)@ == put_try(old(out)@, try_view(*node), depth, line_prefix@),
    decreases try_size(try_view(*node)), 1nat,
{
    push_body_line(
        out,
        "match ::std::panic::catch_unwind(::std::panic::AssertUnwindSafe(|| {",
        depth,
        line_prefix,
    );
    // The protected body. A targeted try wraps it in a labelled loop so a `br`
    // to the try is a `break` that leaves the body (returning `()` normally).
    let inner: usize = next_of(depth);
    let ghost head = out@;
    if node.targeted {
        push_body_line(out, Buf::lit("'l").n(node.label as u64).s(": loop {")
            .end().as_str(), inner, line_prefix);
        render_nodes_into(&node.body, next_of(inner), line_prefix, out);
        if node.body_reachable_at_end {
            push_body_line(out, Buf::lit("break 'l").n(node.label as u64).s(";")
                .end().as_str(), next_of(inner), line_prefix);
        }
        push_body_line(out, "}", inner, line_prefix);
    } else {
        render_nodes_into(&node.body, inner, line_prefix, out);
    }
    push_body_line(out, "})) {", depth, line_prefix);
    push_body_line(out, "Ok(()) => {}", inner, line_prefix);
    push_body_line(out, Buf::lit("Err(").s(&node.exc_var).s(") => {")
        .end().as_str(), inner, line_prefix);
    render_landing_pad(
        &node.catches,
        node.exc_var.as_str(),
        next_of(inner),
        line_prefix,
        out,
    );
    push_body_line(out, "}", inner, line_prefix);
    push_body_line(out, "}", depth, line_prefix);
}

/// Whether some handler is a `catch_all`.
fn has_catch_all(catches: &Vec<CatchArm>) -> (r: bool)
    ensures
        r == catches_everything(catches_view(catches@)),
{
    let ghost all = catches_view(catches@);
    let mut i: usize = 0;
    while i < catches.len()
        invariant
            i <= catches@.len(),
            all == catches_view(catches@),
            forall|k: int| 0 <= k < i ==> (#[trigger] all[k]).kind != CatchKind::All,
        decreases catches@.len() - i,
    {
        assert(all[i as int] == catch_view(catches@[i as int]));
        if catches[i].kind == CatchKind::All {
            return true;
        }
        i += 1;
    }
    false
}

fn render_handler_into(arm: &CatchArm, depth: usize, line_prefix: &str, out: &mut String)
    requires
        plain_catch(catch_view(*arm)),
    ensures
        final(out)@ == put_handler(old(out)@, catch_view(*arm), depth, line_prefix@),
    decreases nodes_size(nodes_view(arm.body@)), 3nat,
{
    let inner: usize = next_of(depth);
    match arm.kind {
        CatchKind::Tag(tag) => {
            push_body_line(out, Buf::num(tag as u64).s("u32 => {")
                .end().as_str(), inner, line_prefix);
        },
        CatchKind::All => {
            push_body_line(out, "_ => {", inner, line_prefix);
        },
        // The body arm is never part of a landing pad.
        CatchKind::Body => {
            assert(out@ =~= old(out)@ + Seq::<char>::empty());
            return;
        },
    }
    let ghost head = out@;
    let ghost all = texts(arm.binds@);
    let mut i: usize = 0;
    while i < arm.binds.len()
        invariant
            i <= arm.binds@.len(),
            all == texts(arm.binds@),
            out@ == put_binds(head, all.take(i as int), inc(inner), line_prefix@),
        decreases arm.binds@.len() - i,
    {
        assert(all.take(i + 1).drop_last() =~= all.take(i as int));
        push_body_line(out, arm.binds[i].as_str(), next_of(inner), line_prefix);
        i += 1;
    }
    assert(all.take(all.len() as int) =~= all);
    render_nodes_into(&arm.body, next_of(inner), line_prefix, out);
    push_body_line(out, "}", inner, line_prefix);
}

/// Render the `Err` arm of a try's `catch_unwind`: resolve the caught tag and
/// dispatch to the matching handler, re-raising anything unmatched.
pub fn render_landing_pad(
    catches: &Vec<CatchArm>,
    exc_var: &str,
    depth: usize,
    line_prefix: &str,
    out: &mut String,
)
    requires
        plain_catches(catches_view(catches@)),
    ensures
        final(out)@ == put_landing_pad(old(out)@, catches_view(catches@),
            exc_var@,
            depth,
            line_prefix@,
        ),
    decreases catches_size(catches_view(catches@)), 2nat,
{
    let ghost all = catches_view(catches@);
    if catches.len() == 0 {
        // Nothing this try catches, so always re-raise.
        let line = Buf::lit("::std::panic::resume_unwind(").s(exc_var).s(");").end();
        push_body_line(out, line.as_str(), depth, line_prefix);
        return;
    }
    // A `catch_all` present makes the wildcard arm run its handler; otherwise an
    // unmatched wasm exception is re-raised.
    let has_all = has_catch_all(catches);
    let inner: usize = next_of(depth);
    let line = Buf::lit("let __tag = match ").s(exc_var).s(".downcast_ref::<Wasm2RsException>() {")
        .end();
    push_body_line(out, line.as_str(), depth, line_prefix);
    push_body_line(out, "Some(__e) => __e.tag,", inner, line_prefix);
    let line = Buf::lit("None => ::std::panic::resume_unwind(").s(exc_var).s("),").end();
    push_body_line(out, line.as_str(), inner, line_prefix);
    push_body_line(out, "};", depth, line_prefix);
    push_body_line(out, "match __tag {", depth, line_prefix);
    let ghost head = out@;
    let mut i: usize = 0;
    while i < catches.len()
        invariant
            i <= catches@.len(),
            all == catches_view(catches@),
            plain_catches(all),
            out@ == put_handlers(head, all.take(i as int), depth, line_prefix@),
        decreases catches@.len() - i,
    {
        proof {
            assert(all.take(i + 1).drop_last() =~= all.take(i as int));
            assert(all[i as int] == catch_view(catches@[i as int]));
            lemma_plain_catch(all, i as int);
            lemma_catch_size(all, i as int);
        }
        render_handler_into(&catches[i], depth, line_prefix, out);
        i += 1;
    }
    assert(all.take(all.len() as int) =~= all);
    if !has_all {
        let line = Buf::lit("_ => ::std::panic::resume_unwind(").s(exc_var).s("),").end();
        push_body_line(out, line.as_str(), inner, line_prefix);
    }
    push_body_line(out, "}", depth, line_prefix);
}

// ---------------------------------------------------------------------------
// Conditions
// ---------------------------------------------------------------------------
/// Whether every bracket from `i` on is closed in order, `depth` of them being
/// open before `i`.
pub open spec fn balanced_from(t: Seq<char>, i: int, depth: int) -> bool
    decreases t.len() - i,
{
    if i < 0 || i >= t.len() {
        depth == 0
    } else if t[i] == '(' {
        balanced_from(t, i + 1, depth + 1)
    } else if t[i] == ')' {
        depth > 0 && balanced_from(t, i + 1, depth - 1)
    } else {
        balanced_from(t, i + 1, depth)
    }
}

/// The boolean expression `b` of a text `i32::from(b)` whose brackets match.
pub open spec fn bool_text(code: Seq<char>) -> Option<Seq<char>> {
    if code.len() >= 11 && occurs_at(code, 0, "i32::from("@) && code.last() == ')'
        && balanced_from(code.subrange(10, code.len() - 1), 0, 0) {
        Some(code.subrange(10, code.len() - 1))
    } else {
        None
    }
}

/// The Rust condition for the i32 value `code`.
pub open spec fn condition_text(code: Seq<char>) -> Seq<char> {
    match bool_text(code) {
        Some(inner) => inner,
        None => code + " != 0"@,
    }
}

/// If `code` is exactly `i32::from(<balanced>)` — the shape a comparison emits —
/// return the inner boolean expression; otherwise `None`. The balance check
/// ensures the stripped parentheses are the outermost pair, so a compound like
/// `(i32::from(a) & i32::from(b))` (which does not start with `i32::from(`) or a
/// truncated match is never unwrapped.
pub fn bool_inner(code: &str) -> (r: Option<&str>)
    ensures
        match bool_text(code@) {
            Some(inner) => r is Some && r->0@ == inner,
            None => r is None,
        },
{
    proof {
        reveal_strlit("i32::from(");
    }
    let t = chars_of(code);
    let head = chars_of("i32::from(");
    if t.len() < 11 || !found_at(&t, 0, &head) || t[t.len() - 1] != ')' {
        return None;
    }
    let n: usize = t.len();
    let ghost inner = code@.subrange(10, n - 1);
    let mut depth: usize = 0;
    let mut i: usize = 10;
    while i < n - 1
        invariant
            t@ == code@,
            n == t@.len(),
            10 <= i <= n - 1,
            depth <= i,
            inner == code@.subrange(10, n - 1),
            balanced_from(inner, i - 10, depth as int) == balanced_from(inner, 0, 0),
        decreases n - i,
    {
        assert(inner[i - 10] == t@[i as int]);
        if t[i] == '(' {
            depth = depth + 1;
        } else if t[i] == ')' {
            if depth == 0 {
                return None;
            }
            depth = depth - 1;
        }
        i += 1;
    }
    if depth == 0 {
        Some(code.substring_char(10, n - 1))
    } else {
        None
    }
}

/// Render a wasm i32 condition value as a Rust `bool`. A comparison is emitted
/// as `i32::from(<cmp>)`, so a branch condition's `i32::from(<cmp>) != 0`
/// collapses to just `<cmp>`; any other value keeps an explicit `!= 0`.
pub fn condition_code(code: &str) -> (r: String)
    ensures
        r@ == condition_text(code@),
{
    match bool_inner(code) {
        Some(inner) => lit(inner),
        None => Buf::lit(code).s(" != 0").end(),
    }
}

// ---------------------------------------------------------------------------
// Measures of a body
// ---------------------------------------------------------------------------
/// The lengths of all pairs, with `extra` for each of them.
pub open spec fn pairs_len(pairs: Seq<(Seq<char>, Seq<char>)>, extra: nat) -> nat
    decreases pairs.len(),
{
    if pairs.len() == 0 {
        0
    } else {
        pairs_len(pairs.drop_last(), extra) + byte_len(pairs.last().0) as nat + byte_len(
            pairs.last().1,
        ) as nat + extra
    }
}

pub open spec fn br_arms_len(arms: Seq<BrArmV>) -> nat
    decreases arms.len(),
{
    if arms.len() == 0 {
        0
    } else {
        br_arms_len(arms.drop_last()) + byte_len(arms.last().pattern) as nat + pairs_len(
            arms.last().assigns,
            6,
        ) + 24
    }
}

pub open spec fn binds_len(binds: Seq<Seq<char>>) -> nat
    decreases binds.len(),
{
    if binds.len() == 0 {
        0
    } else {
        binds_len(binds.drop_last()) + byte_len(binds.last()) as nat + 5
    }
}

/// The estimated byte length of a rendered node.
pub open spec fn node_len(n: NodeV) -> nat
    decreases n,
{
    match n {
        NodeV::Line(text) => (byte_len(text) + 5) as nat,
        NodeV::Term(text) => (byte_len(text) + 5) as nat,
        NodeV::Br { .. } => 24,
        NodeV::BrIf { cond, assigns, .. } => byte_len(cond) as nat + pairs_len(assigns, 8) + 32,
        NodeV::BrTable { selector, arms } => byte_len(selector) as nat + br_arms_len(arms) + 32,
        NodeV::Region(r) => region_len(r),
        NodeV::Try(t) => try_len(t),
        NodeV::Suspend { payload, save, .. } => (byte_len(payload) + byte_len(save) + 48) as nat,
        NodeV::Checkpoint { save, .. } => (byte_len(save) + 160) as nat,
        NodeV::Switch { target, payload, save, .. } => (byte_len(target) + byte_len(payload)
            + byte_len(save) + 64) as nat,
    }
}

pub open spec fn region_len(r: RegionV) -> nat
    decreases r,
{
    body_len(r.body) + (match r.els {
        Some(els) => body_len(els),
        None => 0,
    }) + 32
}

pub open spec fn try_len(t: TryV) -> nat
    decreases t,
{
    body_len(t.body) + catches_len(t.catches) + 160
}

pub open spec fn catches_len(cs: Seq<CatchV>) -> nat
    decreases cs,
{
    if cs.len() == 0 {
        0
    } else {
        catches_len(cs.drop_last()) + body_len(cs.last().body) + binds_len(cs.last().binds) + 32
    }
}

/// The estimated byte length of a rendered body.
pub open spec fn body_len(ns: Seq<NodeV>) -> nat
    decreases ns,
{
    if ns.len() == 0 {
        0
    } else {
        body_len(ns.drop_last()) + node_len(ns.last())
    }
}

fn pairs_estimate(pairs: &Vec<(String, String)>, extra: usize) -> (r: usize)
    ensures
        r == clamp(pairs_len(pair_texts(pairs@), extra as nat)),
{
    let ghost all = pair_texts(pairs@);
    let mut sum: usize = 0;
    let mut i: usize = 0;
    while i < pairs.len()
        invariant
            i <= pairs@.len(),
            all == pair_texts(pairs@),
            sum == clamp(pairs_len(all.take(i as int), extra as nat)),
        decreases pairs@.len() - i,
    {
        assert(all.take(i + 1).drop_last() =~= all.take(i as int));
        let pair = sat_sum(pairs[i].0.as_str().len(), pairs[i].1.as_str().len());
        sum = sat_sum(sum, sat_sum(pair, extra));
        i += 1;
    }
    assert(all.take(all.len() as int) =~= all);
    sum
}

fn br_arms_estimate(arms: &Vec<BrArm>) -> (r: usize)
    ensures
        r == clamp(br_arms_len(br_arms_view(arms@))),
{
    let ghost all = br_arms_view(arms@);
    let mut sum: usize = 0;
    let mut i: usize = 0;
    while i < arms.len()
        invariant
            i <= arms@.len(),
            all == br_arms_view(arms@),
            sum == clamp(br_arms_len(all.take(i as int))),
        decreases arms@.len() - i,
    {
        assert(all.take(i + 1).drop_last() =~= all.take(i as int));
        assert(all[i as int] == arms@[i as int]@);
        let carried = pairs_estimate(&arms[i].assigns, 6);
        let arm = sat_sum(sat_sum(arms[i].pattern.as_str().len(), carried), 24);
        sum = sat_sum(sum, arm);
        i += 1;
    }
    assert(all.take(all.len() as int) =~= all);
    sum
}

fn binds_estimate(binds: &Vec<String>) -> (r: usize)
    ensures
        r == clamp(binds_len(texts(binds@))),
{
    let ghost all = texts(binds@);
    let mut sum: usize = 0;
    let mut i: usize = 0;
    while i < binds.len()
        invariant
            i <= binds@.len(),
            all == texts(binds@),
            sum == clamp(binds_len(all.take(i as int))),
        decreases binds@.len() - i,
    {
        assert(all.take(i + 1).drop_last() =~= all.take(i as int));
        sum = sat_sum(sum, sat_sum(binds[i].as_str().len(), 5));
        i += 1;
    }
    assert(all.take(all.len() as int) =~= all);
    sum
}

fn catches_estimate(catches: &Vec<CatchArm>) -> (r: usize)
    ensures
        r == clamp(catches_len(catches_view(catches@))),
    decreases catches_size(catches_view(catches@)), 1nat,
{
    let ghost all = catches_view(catches@);
    let mut sum: usize = 0;
    let mut i: usize = 0;
    while i < catches.len()
        invariant
            i <= catches@.len(),
            all == catches_view(catches@),
            sum == clamp(catches_len(all.take(i as int))),
        decreases catches@.len() - i,
    {
        proof {
            assert(all.take(i + 1).drop_last() =~= all.take(i as int));
            assert(all[i as int] == catch_view(catches@[i as int]));
            lemma_catch_size(all, i as int);
        }
        let body = estimate_body_len(&catches[i].body);
        let arm = sat_sum(sat_sum(body, binds_estimate(&catches[i].binds)), 32);
        sum = sat_sum(sum, arm);
        i += 1;
    }
    assert(all.take(all.len() as int) =~= all);
    sum
}

/// The estimated byte length of a rendered body, used to pre-reserve the output
/// buffer so appending a huge function never triggers repeated `String`
/// doublings. Indentation is ignored; the statement text dominates.
pub fn estimate_body_len(nodes: &Vec<Node>) -> (r: usize)
    ensures
        r == clamp(body_len(nodes_view(nodes@))),
    decreases nodes_size(nodes_view(nodes@)), 2nat,
{
    let ghost all = nodes_view(nodes@);
    let mut sum: usize = 0;
    let mut i: usize = 0;
    while i < nodes.len()
        invariant
            i <= nodes@.len(),
            all == nodes_view(nodes@),
            sum == clamp(body_len(all.take(i as int))),
        decreases nodes@.len() - i,
    {
        proof {
            assert(all.take(i + 1).drop_last() =~= all.take(i as int));
            assert(all[i as int] == node_view(nodes@[i as int]));
            lemma_node_size(all, i as int);
        }
        let one: usize = match &nodes[i] {
            Node::Line(text) => sat_sum(text.as_str().len(), 5),
            Node::Term(text) => sat_sum(text.as_str().len(), 5),
            Node::Br { .. } => 24,
            Node::BrIf { cond, assigns, .. } => sat_sum(
                sat_sum(cond.as_str().len(), pairs_estimate(assigns, 8)),
                32,
            ),
            Node::BrTable { selector, arms } => sat_sum(
                sat_sum(selector.as_str().len(), br_arms_estimate(arms)),
                32,
            ),
            Node::Region(region) => {
                let els: usize = match &region.els {
                    Some(els) => estimate_body_len(els),
                    None => 0,
                };
                sat_sum(sat_sum(estimate_body_len(&region.body), els), 32)
            },
            // The `catch_unwind`/landing-pad scaffolding takes the rest.
            Node::Try(t) => sat_sum(
                sat_sum(estimate_body_len(&t.body), catches_estimate(&t.catches)),
                160,
            ),
            Node::Suspend { payload, save, .. } => sat_sum(
                sat_sum(payload.as_str().len(), save.as_str().len()),
                48,
            ),
            Node::Checkpoint { save, .. } => sat_sum(save.as_str().len(), 160),
            Node::Switch { target, payload, save, .. } => sat_sum(
                sat_sum(
                    sat_sum(target.as_str().len(), payload.as_str().len()),
                    save.as_str().len(),
                ),
                64,
            ),
        };
        assert(one == clamp(node_len(all[i as int])));
        sum = sat_sum(sum, one);
        i += 1;
    }
    assert(all.take(all.len() as int) =~= all);
    sum
}

/// Peak control-flow nesting above which a function is emitted as a flat
/// dispatch loop instead of nested Rust, so its rendered nesting cannot overflow
/// rustc's recursive-descent parser. Chosen well above any hand-written nesting
/// (so ordinary functions keep their readable nested form) yet far below the
/// parser's stack limit.
pub const FLATTEN_DEPTH_THRESHOLD: usize = 40;

/// Depth budget for structuring a loop: a back-edge loop whose body nests no
/// deeper than this is emitted as a real `'lN: loop { … }` (with its nested
/// `if`/`block`/`loop` also structured) instead of state-machine arms. A
/// structured loop sits on the flat dispatch's shallow base, so its rendered
/// nesting is at most a small constant plus this budget — kept comfortably under
/// the parser limit that [`FLATTEN_DEPTH_THRESHOLD`] guards. Loops deeper than
/// this stay on the generic flat path.
pub const STRUCT_BUDGET: usize = 32;

/// Whether a body can be lowered to a flat dispatch loop: it holds no `try` and
/// no `if` without a condition, at any depth of its regions.
pub open spec fn flattenable(ns: Seq<NodeV>) -> bool
    decreases ns,
{
    ns.len() == 0 || (flattenable(ns.drop_last()) && flattenable_node(ns.last()))
}

pub open spec fn flattenable_node(n: NodeV) -> bool
    decreases n,
{
    match n {
        NodeV::Try(_) => false,
        NodeV::Region(r) => flattenable_region(r),
        _ => true,
    }
}

pub open spec fn flattenable_region(r: RegionV) -> bool
    decreases r,
{
    !(r.kind == FrameKind::If && r.cond is None) && flattenable(r.body) && match r.els {
        Some(els) => flattenable(els),
        None => true,
    }
}

pub proof fn lemma_flattenable_node(ns: Seq<NodeV>, i: int)
    requires
        flattenable(ns),
        0 <= i < ns.len(),
    ensures
        flattenable_node(ns[i]),
    decreases ns.len(),
{
    if i < ns.len() - 1 {
        lemma_flattenable_node(ns.drop_last(), i);
    }
}

/// The lists still to be looked at.
pub open spec fn lists_view(v: Seq<&Vec<Node>>) -> Seq<Seq<NodeV>> {
    Seq::new(v.len(), |i: int| nodes_view(v[i]@))
}

pub open spec fn lists_size(ls: Seq<Seq<NodeV>>) -> nat
    decreases ls.len(),
{
    if ls.len() == 0 {
        0
    } else {
        lists_size(ls.drop_last()) + 1 + nodes_size(ls.last())
    }
}

pub open spec fn all_flattenable(ls: Seq<Seq<NodeV>>) -> bool
    decreases ls.len(),
{
    ls.len() == 0 || (all_flattenable(ls.drop_last()) && flattenable(ls.last()))
}

fn push_list<'a>(stack: &mut Vec<&'a Vec<Node>>, list: &'a Vec<Node>)
    ensures
        lists_view(final(stack)@) == lists_view(old(stack)@).push(nodes_view(list@)),
        all_flattenable(lists_view(final(stack)@)) == (all_flattenable(lists_view(old(stack)@))
            && flattenable(nodes_view(list@))),
        lists_size(lists_view(final(stack)@)) == lists_size(lists_view(old(stack)@)) + 1
            + nodes_size(nodes_view(list@)),
{
    let ghost before = lists_view(stack@);
    stack.push(list);
    proof {
        let now = lists_view(stack@);
        assert(now =~= before.push(nodes_view(list@)));
        assert(now.drop_last() =~= before);
    }
}

/// Whether a body can be lowered to a flat dispatch loop: a `try` region relies
/// on Rust's `catch_unwind` scaffolding, which has no flat-dispatch lowering, and
/// neither has an `if` without a condition.
///
/// Walked with an explicit stack rather than by recursion, so a deeply nested
/// module (the very case that triggers flattening) cannot overflow the thread's
/// stack while deciding whether to flatten.
pub fn can_flatten(nodes: &Vec<Node>) -> (r: bool)
    ensures
        r == flattenable(nodes_view(nodes@)),
{
    let ghost whole = flattenable(nodes_view(nodes@));
    let mut stack: Vec<&Vec<Node>> = Vec::new();
    push_list(&mut stack, nodes);
    while stack.len() > 0
        invariant
            whole == flattenable(nodes_view(nodes@)),
            whole == all_flattenable(lists_view(stack@)),
        decreases lists_size(lists_view(stack@)),
    {
        let ghost entry = lists_view(stack@);
        let list = stack[stack.len() - 1];
        stack.pop();
        let ghost rest = lists_view(stack@);
        let ghost all = nodes_view(list@);
        proof {
            assert(rest =~= entry.drop_last());
            assert(entry.last() == all);
        }
        let mut i: usize = 0;
        while i < list.len()
            invariant
                i <= list@.len(),
                all == nodes_view(list@),
                whole == flattenable(nodes_view(nodes@)),
                whole == (all_flattenable(rest) && flattenable(all)),
                all_flattenable(lists_view(stack@)) == (all_flattenable(rest) && flattenable(
                    all.take(i as int),
                )),
                lists_size(lists_view(stack@)) <= lists_size(rest) + nodes_size(
                    all.take(i as int),
                ),
            decreases list@.len() - i,
        {
            proof {
                assert(all.take(i + 1).drop_last() =~= all.take(i as int));
                assert(all[i as int] == node_view(list@[i as int]));
            }
            match &list[i] {
                Node::Try(_) => {
                    proof {
                        if whole {
                            lemma_flattenable_node(all, i as int);
                        }
                    }
                    return false;
                },
                Node::Region(region) => {
                    if region.kind == FrameKind::If && region.cond.is_none() {
                        proof {
                            if whole {
                                lemma_flattenable_node(all, i as int);
                            }
                        }
                        return false;
                    }
                    push_list(&mut stack, &region.body);
                    match &region.els {
                        Some(els) => push_list(&mut stack, els),
                        None => {},
                    }
                    assert(flattenable_node(all[i as int]) == flattenable_region(
                        region_view(*region),
                    ));
                    assert(node_size(all[i as int]) == region_size(region_view(*region)));
                },
                _ => {
                    assert(flattenable_node(all[i as int]));
                },
            }
            i += 1;
        }
        assert(all.take(all.len() as int) =~= all);
    }
    true
}

/// The deepest nesting of regions in a list of nodes.
pub open spec fn depth_of(ns: Seq<NodeV>) -> nat
    decreases ns,
{
    if ns.len() == 0 {
        0
    } else {
        larger(depth_of(ns.drop_last()), node_depth(ns.last()))
    }
}

pub open spec fn larger(a: nat, b: nat) -> nat {
    if a < b {
        b
    } else {
        a
    }
}

pub open spec fn node_depth(n: NodeV) -> nat
    decreases n,
{
    match n {
        NodeV::Region(r) => region_depth(r),
        NodeV::Try(t) => try_depth(t),
        _ => 0,
    }
}

pub open spec fn region_depth(r: RegionV) -> nat
    decreases r,
{
    1 + larger(
        depth_of(r.body),
        match r.els {
            Some(els) => depth_of(els),
            None => 0,
        },
    )
}

pub open spec fn try_depth(t: TryV) -> nat
    decreases t,
{
    1 + depth_of(t.body)
}

/// Max region-nesting depth within `nodes` (0 if nothing nested). Bounds how
/// deep a structured loop would render; [`is_structurable_loop`] uses it to keep
/// the specialised nesting well under rustc's parser limit.
pub fn subtree_depth(nodes: &Vec<Node>) -> (r: usize)
    ensures
        r == clamp(depth_of(nodes_view(nodes@))),
    decreases nodes_size(nodes_view(nodes@)),
{
    let ghost all = nodes_view(nodes@);
    let mut max: usize = 0;
    let mut i: usize = 0;
    while i < nodes.len()
        invariant
            i <= nodes@.len(),
            all == nodes_view(nodes@),
            max == clamp(depth_of(all.take(i as int))),
        decreases nodes@.len() - i,
    {
        proof {
            assert(all.take(i + 1).drop_last() =~= all.take(i as int));
            assert(all[i as int] == node_view(nodes@[i as int]));
            lemma_node_size(all, i as int);
        }
        let d: usize = match &nodes[i] {
            Node::Region(r) => {
                let els: usize = match &r.els {
                    Some(els) => subtree_depth(els),
                    None => 0,
                };
                let body: usize = subtree_depth(&r.body);
                next_of(
                    if body < els {
                        els
                    } else {
                        body
                    },
                )
            },
            Node::Try(t) => next_of(subtree_depth(&t.body)),
            _ => 0,
        };
        assert(d == clamp(node_depth(all[i as int])));
        if max < d {
            max = d;
        }
        i += 1;
    }
    assert(all.take(all.len() as int) =~= all);
    max
}

/// Whether the flattener renders a region as a structured loop.
pub open spec fn structurable(r: RegionV) -> bool {
    r.kind == FrameKind::Loop && r.targeted && depth_of(r.body) <= STRUCT_BUDGET && flattenable(
        r.body,
    )
}

/// Whether the flattener can emit `region` as a structured `'lN: loop { … }`
/// rather than dispatch arms: a `loop` that is actually branched back to
/// (`targeted`), whose body nests within [`STRUCT_BUDGET`], and whose subtree
/// the structured renderer can emit (no `try`, no condition-less `if` — the same
/// constructs [`can_flatten`] rejects). Requiring a real back-edge guarantees
/// the structured loop's `'lN` label and `continue 'lN` are used (an unused
/// label would fail `-D warnings`) and keeps the specialisation to loops that
/// actually repeat.
pub fn is_structurable_loop(region: &RegionNode) -> (r: bool)
    ensures
        r == structurable(region_view(*region)),
{
    region.kind == FrameKind::Loop && region.targeted && subtree_depth(&region.body)
        <= STRUCT_BUDGET && can_flatten(&region.body)
}

} // verus!
