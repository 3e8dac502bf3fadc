//! The control-flow regions that are open while a function is translated.

use vstd::prelude::*;

use crate::codegen::ir::{
    catches_view, nodes_view, CatchArm, CatchKind, CatchV, FrameKind, Node, NodeV, Val, ValV,
};
use crate::text::{opt_text, texts, Lines};
use crate::wasm::ValType;

verus! {

/// One active control-flow region.
pub struct Frame {
    pub kind: FrameKind,
    /// Numeric label; only rendered as `'lN` if the frame is branched to.
    pub label: usize,
    /// Set when some `br`/`br_if`/`br_table` targets this frame.
    pub targeted: bool,
    /// One `(variable, type)` per result the region yields, in source order.
    pub results: Vec<(String, ValType)>,
    /// The region's entry parameters (stable operands left on the stack), kept
    /// so an `if`'s `else` arm can restore them after the `then` arm consumes
    /// them.
    pub entry_params: Vec<Val>,
    /// For a `loop`: one `(variable, type)` per parameter. A `br` back to the
    /// header reassigns these loop-carried variables before `continue`. Empty
    /// for blocks and `if`s.
    pub loop_params: Vec<(String, ValType)>,
    /// Operand-stack height of the enclosing scope (values below this frame).
    pub parent_height: usize,
    /// The output buffer of the enclosing scope, restored when the frame ends.
    pub parent_buffer: Vec<Node>,
    /// For `if`: the `then` branch nodes, captured when `else` is reached.
    pub then_buffer: Option<Vec<Node>>,
    /// For `if`: whether the `then` branch could fall through to `else`.
    pub then_reachable: bool,
    /// For `if`: the Rust condition expression.
    pub cond: Option<String>,
    /// For a legacy-exception `try`: the accumulating handler state. A try frame
    /// reuses [`FrameKind::Block`] (a branch to it behaves like a block exit) but
    /// carries this so `end` renders it as a `catch_unwind` region instead.
    pub try_state: Option<TryState>,
}

/// The state accumulated while translating a `try` region, between its opening
/// and its `end`.
pub struct TryState {
    /// The variable the caught exception box is bound to in the `Err` arm.
    pub exc_var: String,
    /// Finished arms, in order: the body first, then each catch handler.
    pub arms: Vec<CatchArm>,
    /// The kind of the arm currently being emitted.
    pub cur_kind: CatchKind,
    /// The exception-payload extraction statements of the currently-open catch
    /// handler.
    pub cur_binds: Vec<String>,
    /// Distinct branch targets that escape this try's body, in discovery order.
    /// The try's outcome variable holds `index + 1` for the branch that fired,
    /// so the post-`match` dispatch can re-issue it outside the closure.
    pub escapes: Vec<BranchEscape>,
    /// Whether a `return` escapes this try's body (routed through the
    /// function-wide return signal rather than the outcome variable).
    pub has_ret_escape: bool,
}

/// A branch that leaves a `try` body, recorded so the try's post-`match`
/// dispatch can re-issue it outside the `catch_unwind` closure (as a direct
/// `break`/`continue`, or — when it also escapes an enclosing try — as another
/// closure-outcome signal).
#[derive(Clone, Copy, PartialEq, Eq, Structural, Debug)]
pub struct BranchEscape {
    /// The frame the branch targets (below the try that it escapes).
    pub target_idx: usize,
    pub is_loop: bool,
    pub label: usize,
}

/// Which part of a `try` is being translated.
#[derive(Clone, Copy, PartialEq, Eq, Structural, Debug)]
pub enum CatchPhase {
    Body,
    Handler,
}

/// An enclosing `try` region. A `try` lowers to a `catch_unwind` closure (the
/// body) plus a landing-pad `match` (the handlers), so a branch or `return` that
/// leaves the body has to be re-issued from outside it.
#[derive(Clone, Copy, PartialEq, Eq, Structural, Debug)]
pub struct TryBarrier {
    pub frame_idx: usize,
    pub phase: CatchPhase,
}

/// The model of a [`TryState`].
pub struct TryStateV {
    pub exc_var: Seq<char>,
    pub arms: Seq<CatchV>,
    pub cur_kind: CatchKind,
    pub cur_binds: Seq<Seq<char>>,
    pub escapes: Seq<BranchEscape>,
    pub has_ret_escape: bool,
}

/// The model of a [`Frame`].
pub struct FrameV {
    pub kind: FrameKind,
    pub label: usize,
    pub targeted: bool,
    pub results: Seq<(Seq<char>, ValType)>,
    pub entry_params: Seq<ValV>,
    pub loop_params: Seq<(Seq<char>, ValType)>,
    pub parent_height: usize,
    pub parent_buffer: Seq<NodeV>,
    pub then_buffer: Option<Seq<NodeV>>,
    pub then_reachable: bool,
    pub cond: Option<Seq<char>>,
    pub try_state: Option<TryStateV>,
}

/// The model of typed names.
pub open spec fn typed(v: Seq<(String, ValType)>) -> Seq<(Seq<char>, ValType)> {
    Seq::new(v.len(), |i: int| (v[i].0@, v[i].1))
}

/// The model of operands.
pub open spec fn vals(v: Seq<Val>) -> Seq<ValV> {
    Seq::new(v.len(), |i: int| v[i]@)
}

impl View for TryState {
    type V = TryStateV;

    open spec fn view(&self) -> TryStateV {
        TryStateV {
            exc_var: self.exc_var@,
            arms: catches_view(self.arms@),
            cur_kind: self.cur_kind,
            cur_binds: texts(self.cur_binds@),
            escapes: self.escapes@,
            has_ret_escape: self.has_ret_escape,
        }
    }
}

impl View for Frame {
    type V = FrameV;

    open spec fn view(&self) -> FrameV {
        FrameV {
            kind: self.kind,
            label: self.label,
            targeted: self.targeted,
            results: typed(self.results@),
            entry_params: vals(self.entry_params@),
            loop_params: typed(self.loop_params@),
            parent_height: self.parent_height,
            parent_buffer: nodes_view(self.parent_buffer@),
            then_buffer: match self.then_buffer {
                Some(b) => Some(nodes_view(b@)),
                None => None,
            },
            then_reachable: self.then_reachable,
            cond: opt_text(self.cond),
            try_state: match self.try_state {
                Some(t) => Some(t@),
                None => None,
            },
        }
    }
}

pub open spec fn frames_view(v: Seq<Frame>) -> Seq<FrameV> {
    Seq::new(v.len(), |i: int| v[i]@)
}

/// The names of typed names.
pub open spec fn names(v: Seq<(Seq<char>, ValType)>) -> Seq<Seq<char>> {
    Seq::new(v.len(), |i: int| v[i].0)
}

/// The names of typed names.
pub fn name_list(v: &Vec<(String, ValType)>) -> (r: Vec<String>)
    ensures
        texts(r@) == names(typed(v@)),
{
    let mut out = Lines::new();
    let mut i: usize = 0;
    while i < v.len()
        invariant
            i <= v@.len(),
            out@ =~= names(typed(v@)).take(i as int),
        decreases v@.len() - i,
    {
        out.add(v[i].0.clone());
        i += 1;
    }
    assert(out@ =~= names(typed(v@)));
    out.v
}

impl Frame {
    /// The result variable names, in source order.
    pub fn result_vars(&self) -> (r: Vec<String>)
        ensures
            texts(r@) == names(self@.results),
    {
        name_list(&self.results)
    }

    /// The loop-carried parameter variable names, in source order.
    pub fn loop_param_vars(&self) -> (r: Vec<String>)
        ensures
            texts(r@) == names(self@.loop_params),
    {
        name_list(&self.loop_params)
    }
}

/// Whether control can reach the code behind a finished frame. A loop is only
/// exited by falling through its end; a block or `if` is exited by fall-through or
/// by a branch that targets it; and an `if` without an `else` always has the
/// condition-false fall-through.
pub open spec fn goes_on(frame: FrameV, reachable_at_end: bool) -> bool {
    match frame.kind {
        FrameKind::Loop => reachable_at_end,
        FrameKind::Block => reachable_at_end || frame.targeted,
        FrameKind::If => frame.then_buffer is None || reachable_at_end || frame.then_reachable
            || frame.targeted,
    }
}

/// Whether control can reach the code following a finished frame.
pub fn reachable_after(frame: &Frame, reachable_at_end: bool) -> (r: bool)
    ensures
        r == goes_on(frame@, reachable_at_end),
{
    match frame.kind {
        // A loop is only exited by falling through its end.
        FrameKind::Loop => reachable_at_end,
        // A block/if is exited by fall-through or by a `br` that targets it. An
        // `if` without an `else` always has the condition-false fall-through.
        FrameKind::Block => reachable_at_end || frame.targeted,
        FrameKind::If => {
            if frame.then_buffer.is_none() {
                return true;
            }
            reachable_at_end || frame.then_reachable || frame.targeted
        },
    }
}

} // verus!
