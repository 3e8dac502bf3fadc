//! Branches and returns, with those that leave a `try` body.

use vstd::prelude::*;

use crate::codegen::common::{index32, index_u32};
use crate::codegen::flatten::arms_bound;
use crate::codegen::frame::{names, BranchEscape, CatchPhase, FrameV, TryBarrier, TryStateV};
use crate::codegen::func::control::lemma_assigned_keeps;
use crate::codegen::func::keeps::lemma_survivors;
use crate::codegen::func::state::{
    gen_result, labels_of, lemma_frame_label, lemma_update_frame, FuncGen, GenR, GenV,
};
use crate::codegen::ir::{
    br_arms_view, condition_code, condition_text, BrArm, BrArmV, FrameKind, Node, NodeV,
};
use crate::codegen::scan::pair_texts;
use crate::error::{no_support, unsupported, FailV, TranspileError};
use crate::text::{dec, join, joined, lit, opt_text, texts, Buf, Lines};

verus! {

/// A resolved branch target: a plain `break`/`continue` to an enclosing region,
/// or (`escape`) one that leaves an enclosing `try` body and must be re-issued
/// from outside the `catch_unwind` closure.
pub struct BranchTarget {
    pub target_idx: usize,
    pub is_loop: bool,
    pub label: usize,
    pub vars: Vec<String>,
    pub escape: bool,
}

/// The model of a [`BranchTarget`].
pub struct TargetV {
    pub target_idx: usize,
    pub is_loop: bool,
    pub label: usize,
    pub vars: Seq<Seq<char>>,
    pub escape: bool,
}

impl View for BranchTarget {
    type V = TargetV;

    open spec fn view(&self) -> TargetV {
        TargetV {
            target_idx: self.target_idx,
            is_loop: self.is_loop,
            label: self.label,
            vars: texts(self.vars@),
            escape: self.escape,
        }
    }
}

/// The frame of the innermost `try` whose body is being translated. A catch
/// handler runs in the landing pad, outside its own try's closure, so it does not
/// count.
pub open spec fn body_of(barriers: Seq<TryBarrier>) -> Option<usize>
    decreases barriers.len(),
{
    if barriers.len() == 0 {
        None
    } else if barriers.last().phase == CatchPhase::Body {
        Some(barriers.last().frame_idx)
    } else {
        body_of(barriers.drop_last())
    }
}

/// The position of the escape to the frame `target`, the number of escapes where
/// none goes there.
pub open spec fn escape_position(escapes: Seq<BranchEscape>, target: usize) -> nat
    decreases escapes.len(),
{
    if escapes.len() == 0 {
        0
    } else if escapes.first().target_idx == target {
        0
    } else {
        1 + escape_position(escapes.skip(1), target)
    }
}

/// The word of a branch.
pub open spec fn jump_word(is_loop: bool) -> Seq<char> {
    if is_loop {
        "continue"@
    } else {
        "break"@
    }
}

/// The word of a branch.
pub fn jump_keyword(is_loop: bool) -> (r: &'static str)
    ensures
        r@ == jump_word(is_loop),
{
    if is_loop {
        "continue"
    } else {
        "break"
    }
}

/// The names of the `n` holders of a function's results.
pub open spec fn holders(n: nat) -> Seq<Seq<char>> {
    Seq::new(n, |i: int| ("__rv"@ + dec(i as nat)))
}

/// The function's results read from their holders: nothing, a holder, or a tuple.
pub open spec fn holder_text(n: nat) -> Seq<char> {
    if n == 0 {
        Seq::empty()
    } else if n == 1 {
        joined(holders(n), ", "@)
    } else {
        ("("@ + joined(holders(n), ", "@) + ")"@)
    }
}

impl GenV {
    /// Whether a branch to the frame `idx` leaves the innermost `try` body.
    pub open spec fn escapes_try(self, idx: int) -> bool {
        match body_of(self.try_barriers) {
            Some(t) => idx < t,
            None => false,
        }
    }

    /// The target of a branch of the given depth, marked as branched to.
    pub open spec fn resolved(self, depth: u32) -> Result<(GenV, TargetV), FailV> {
        if self.frames.len() < 1 + depth {
            Err(unsupported("branch depth out of range"@))
        } else {
            let idx = self.frames.len() - 1 - depth;
            let f = self.frames[idx];
            let is_loop = f.kind == FrameKind::Loop;
            if self.try_barriers.len() > 0 && self.try_barriers.last() == (TryBarrier {
                frame_idx: idx as usize,
                phase: CatchPhase::Handler,
            }) {
                Err(unsupported("branch out of a try handler"@))
            } else {
                Ok(
                    (
                        self.with_frame(idx, FrameV { targeted: true, ..f }),
                        TargetV {
                            target_idx: idx as usize,
                            is_loop,
                            label: f.label,
                            vars: names(
                                if is_loop {
                                    f.loop_params
                                } else {
                                    f.results
                                },
                            ),
                            escape: self.escapes_try(idx),
                        },
                    ),
                )
            }
        }
    }

    /// The first `n` of the carried variables, each with the operand it receives.
    pub open spec fn carried_upto(self, vars: Seq<Seq<char>>, n: nat) -> Result<
        Seq<(Seq<char>, Seq<char>)>,
        FailV,
    >
        decreases n,
    {
        if n == 0 {
            Ok(Seq::empty())
        } else {
            match self.carried_upto(vars, (n - 1) as nat) {
                Err(e) => Err(e),
                Ok(front) => match self.moved(self.stack[self.stack.len() - vars.len() + n - 1]) {
                    Err(e) => Err(e),
                    Ok(value) => Ok(front.push((vars[n - 1], value))),
                },
            }
        }
    }

    /// Each carried variable with the operand it receives.
    pub open spec fn carried(self, vars: Seq<Seq<char>>) -> Result<
        Seq<(Seq<char>, Seq<char>)>,
        FailV,
    > {
        if self.stack.len() < vars.len() {
            Err(FailV::StackUnderflow)
        } else {
            self.carried_upto(vars, vars.len())
        }
    }

    /// A branch that stays inside the innermost `try` body.
    pub open spec fn direct(self, t: TargetV, cond: Option<Seq<char>>) -> GenR {
        match cond {
            None => match self.assigned(t.vars) {
                Err(e) => Err(e),
                Ok(s) => Ok(s.node(NodeV::Br { label: t.label, is_loop: t.is_loop }).dead()),
            },
            Some(c) => if t.vars.len() == 0 {
                Ok(
                    self.node(
                        NodeV::BrIf {
                            cond: condition_text(c),
                            label: t.label,
                            is_loop: t.is_loop,
                            assigns: Seq::empty(),
                        },
                    ),
                )
            } else {
                match self.spilled() {
                    Err(e) => Err(e),
                    Ok(s) => match s.carried(t.vars) {
                        Err(e) => Err(e),
                        Ok(assigns) => Ok(
                            s.node(
                                NodeV::BrIf {
                                    cond: condition_text(c),
                                    label: t.label,
                                    is_loop: t.is_loop,
                                    assigns,
                                },
                            ),
                        ),
                    },
                }
            },
        }
    }

    /// A branch out of the innermost `try` body recorded: the state behind it, its
    /// code, and the label of the `try`. Escapes to one target share a code.
    pub open spec fn escape_recorded(self, target_idx: usize, is_loop: bool, label: usize) -> Result<
        (GenV, u32, usize),
        FailV,
    > {
        match body_of(self.try_barriers) {
            None => Err(unsupported("branch escape outside a try body"@)),
            Some(t) => if t >= self.frames.len() || self.frames[t as int].try_state is None {
                Err(unsupported("branch escape outside a try"@))
            } else {
                let f = self.frames[t as int];
                let ts = f.try_state->0;
                let pos = escape_position(ts.escapes, target_idx);
                let s = if pos < ts.escapes.len() {
                    self
                } else {
                    self.with_frame(
                        t as int,
                        FrameV {
                            try_state: Some(
                                TryStateV {
                                    escapes: ts.escapes.push(
                                        BranchEscape { target_idx, is_loop, label },
                                    ),
                                    ..ts
                                },
                            ),
                            ..f
                        },
                    )
                };
                match index32(pos as int + 1) {
                    Err(e) => Err(e),
                    Ok(code) => Ok((s, code, f.label)),
                }
            },
        }
    }

    /// One assignment line per pair.
    pub open spec fn assign_lines(self, pairs: Seq<(Seq<char>, Seq<char>)>) -> GenV
        decreases pairs.len(),
    {
        if pairs.len() == 0 {
            self
        } else {
            self.assign_lines(pairs.drop_last()).line(
                (pairs.last().0 + " = "@ + pairs.last().1 + ";"@),
            )
        }
    }

    /// A branch that leaves the innermost `try` body: it sets the outcome and
    /// returns from the closure.
    pub open spec fn escaping(self, t: TargetV, cond: Option<Seq<char>>) -> GenR {
        match cond {
            None => match self.assigned(t.vars) {
                Err(e) => Err(e),
                Ok(s) => match s.escape_recorded(t.target_idx, t.is_loop, t.label) {
                    Err(e) => Err(e),
                    Ok((s2, code, l)) => Ok(
                        s2.line(("__out"@ + dec(l as nat) + " = "@ + dec(code as nat)
                            + "u32;"@)).term("return;"@).dead(),
                    ),
                },
            },
            Some(c) => match self.spilled() {
                Err(e) => Err(e),
                Ok(s) => match s.carried(t.vars) {
                    Err(e) => Err(e),
                    Ok(assigns) => match s.escape_recorded(t.target_idx, t.is_loop, t.label) {
                        Err(e) => Err(e),
                        Ok((s2, code, l)) => Ok(
                            s2.line(("if "@ + condition_text(c)
                                + " {"@)).assign_lines(assigns).line(
                                ("__out"@ + dec(l as nat) + " = "@ + dec(code as nat) + "u32;"@),
                            ).line("return;"@).line("}"@),
                        ),
                    },
                },
            },
        }
    }

    /// `br` (no condition) or `br_if`.
    pub open spec fn branch(self, depth: u32, cond: Option<Seq<char>>) -> GenR {
        match self.resolved(depth) {
            Err(e) => Err(e),
            Ok((s, t)) => if t.escape {
                s.escaping(t, cond)
            } else {
                s.direct(t, cond)
            },
        }
    }

    /// `br_if`: the condition is popped first.
    pub open spec fn branch_if(self, depth: u32) -> GenR {
        if !self.has(1) {
            Err(FailV::StackUnderflow)
        } else {
            self.drop(1).branch(depth, Some(self.top().code))
        }
    }

    /// The first `n` arms of a `br_table`: one per listed target, then the default.
    pub open spec fn table_arms(self, targets: Seq<u32>, default: u32, n: nat) -> Result<
        (GenV, Seq<BrArmV>),
        FailV,
    >
        decreases n,
    {
        if n == 0 {
            Ok((self, Seq::empty()))
        } else {
            match self.table_arms(targets, default, (n - 1) as nat) {
                Err(e) => Err(e),
                Ok((s, front)) => {
                    let depth = if n - 1 < targets.len() {
                        targets[n - 1]
                    } else {
                        default
                    };
                    let pattern = if n - 1 < targets.len() {
                        (dec((n - 1) as nat) + "u32"@)
                    } else {
                        "_"@
                    };
                    match s.resolved(depth) {
                        Err(e) => Err(e),
                        Ok((s2, t)) => if t.escape {
                            Err(unsupported("br_table out of a try region"@))
                        } else {
                            match s2.carried(t.vars) {
                                Err(e) => Err(e),
                                Ok(assigns) => Ok(
                                    (
                                        s2,
                                        front.push(
                                            BrArmV {
                                                pattern,
                                                label: t.label,
                                                is_loop: t.is_loop,
                                                assigns,
                                            },
                                        ),
                                    ),
                                ),
                            }
                        },
                    }
                },
            }
        }
    }

    pub open spec fn branch_table(self, targets: Seq<u32>, default: u32) -> GenR {
        if !self.has(1) {
            Err(FailV::StackUnderflow)
        } else {
            match self.drop(1).spilled() {
                Err(e) => Err(e),
                Ok(s) => if targets.len() > u32::MAX + 1 {
                    Err(unsupported("index too large"@))
                } else {
                    match s.table_arms(targets, default, targets.len() + 1) {
                        Err(e) => Err(e),
                        Ok((s2, arms)) => Ok(
                            s2.node(NodeV::BrTable { selector: self.top().code, arms }).dead(),
                        ),
                    }
                },
            }
        }
    }

    /// The innermost `try` body told to re-issue the function's return.
    pub open spec fn return_marked(self) -> GenV {
        match body_of(self.try_barriers) {
            Some(t) => if t < self.frames.len() && self.frames[t as int].try_state is Some {
                let f = self.frames[t as int];
                self.with_frame(
                    t as int,
                    FrameV {
                        try_state: Some(TryStateV { has_ret_escape: true, ..f.try_state->0 }),
                        ..f
                    },
                )
            } else {
                self
            },
            None => self,
        }
    }

    /// `n` results popped into their holders, the last first.
    pub open spec fn held(self, n: nat) -> GenR
        decreases n,
    {
        if n == 0 {
            Ok(self)
        } else if !self.has(1) {
            Err(FailV::StackUnderflow)
        } else {
            self.drop(1).line(("__rv"@ + dec((n - 1) as nat) + " = "@ + self.top().code
                + ";"@)).held((n - 1) as nat)
        }
    }

    /// A return that leaves a `try` body.
    pub open spec fn return_escaped(self) -> GenR {
        match (GenV { uses_ret_escape: true, ..self }).held(self.results.len()) {
            Err(e) => Err(e),
            Ok(s) => Ok(s.line("__returning = true;"@).term("return;"@).return_marked().dead()),
        }
    }

    pub open spec fn returned(self) -> GenR {
        if body_of(self.try_barriers) is Some {
            self.return_escaped()
        } else {
            let n = self.results.len();
            match self.results_text(n) {
                Err(e) => Err(e),
                Ok(Some(code)) => Ok(self.drop(n as int).term(("return "@ + code + ";"@)).dead()),
                Ok(None) => Ok(self.drop(n as int).term("return;"@).dead()),
            }
        }
    }

    /// The return of a `try`'s dispatch: out of the enclosing closure, or the
    /// function's own.
    pub open spec fn return_dispatched(self) -> GenV {
        let s = self.line("if __returning {"@);
        let n = self.results.len();
        let s2 = if body_of(self.try_barriers) is Some {
            s.return_marked().line("return;"@)
        } else if n == 0 {
            s.line("return;"@)
        } else {
            s.line(("return "@ + holder_text(n) + ";"@))
        };
        s2.line("}"@)
    }

    /// The first `n` recorded outcomes of a `try` turned back into transfers.
    pub open spec fn outcomes_dispatched(self, label: usize, escapes: Seq<BranchEscape>, n: nat) -> GenR
        decreases n,
    {
        if n == 0 {
            Ok(self)
        } else {
            match self.outcomes_dispatched(label, escapes, (n - 1) as nat) {
                Err(e) => Err(e),
                Ok(s) => match index32(n as int) {
                    Err(e) => Err(e),
                    Ok(code) => {
                        let esc = escapes[n - 1];
                        let s2 = s.line(("if __out"@ + dec(label as nat) + " == "@
                            + dec(code as nat) + "u32 {"@));
                        if s2.escapes_try(esc.target_idx as int) {
                            match s2.escape_recorded(esc.target_idx, esc.is_loop, esc.label) {
                                Err(e) => Err(e),
                                Ok((s3, code2, l)) => Ok(
                                    s3.line(("__out"@ + dec(l as nat) + " = "@ + dec(code2 as nat)
                                        + "u32;"@)).line("return;"@).line("}"@),
                                ),
                            }
                        } else {
                            Ok(
                                s2.line((jump_word(esc.is_loop) + " 'l"@ + dec(esc.label as nat)
                                    + ";"@)).line("}"@),
                            )
                        }
                    },
                },
            }
        }
    }

    /// A `try`'s dispatch behind its `match`.
    pub open spec fn try_dispatched(
        self,
        label: usize,
        escapes: Seq<BranchEscape>,
        has_ret_escape: bool,
    ) -> GenR {
        let s = if has_ret_escape {
            self.return_dispatched()
        } else {
            self
        };
        s.outcomes_dispatched(label, escapes, escapes.len())
    }
}

proof fn lemma_carried_fails(s: GenV, vars: Seq<Seq<char>>, i: nat, n: nat)
    requires
        i <= n,
        s.carried_upto(vars, i) is Err,
    ensures
        s.carried_upto(vars, n) == s.carried_upto(vars, i),
    decreases n - i,
{
    if i < n {
        lemma_carried_fails(s, vars, i, (n - 1) as nat);
    }
}

proof fn lemma_arms_fail(s: GenV, targets: Seq<u32>, default: u32, i: nat, n: nat)
    requires
        i <= n,
        s.table_arms(targets, default, i) is Err,
    ensures
        s.table_arms(targets, default, n) == s.table_arms(targets, default, i),
    decreases n - i,
{
    if i < n {
        lemma_arms_fail(s, targets, default, i, (n - 1) as nat);
    }
}

proof fn lemma_outcomes_fail(s: GenV, label: usize, escapes: Seq<BranchEscape>, i: nat, n: nat)
    requires
        i <= n,
        s.outcomes_dispatched(label, escapes, i) is Err,
    ensures
        s.outcomes_dispatched(label, escapes, n) == s.outcomes_dispatched(label, escapes, i),
    decreases n - i,
{
    if i < n {
        lemma_outcomes_fail(s, label, escapes, i, (n - 1) as nat);
    }
}

/// The position of the escape to the frame `target`, or their number.
fn escape_index(escapes: &Vec<BranchEscape>, target: usize) -> (r: usize)
    ensures
        r == escape_position(escapes@, target),
        r <= escapes@.len(),
{
    let mut i: usize = 0;
    assert(escapes@.skip(0) =~= escapes@);
    while i < escapes.len() && escapes[i].target_idx != target
        invariant
            i <= escapes@.len(),
            escape_position(escapes@, target) == i + escape_position(
                escapes@.skip(i as int),
                target,
            ),
        decreases escapes@.len() - i,
    {
        assert(escapes@.skip(i as int).skip(1) =~= escapes@.skip(i + 1));
        i += 1;
    }
    i
}

impl<'a> FuncGen<'a> {
    /// The frame index of the innermost enclosing `try` *body* around the current
    /// point, i.e. the innermost `catch_unwind` closure a branch would sit inside.
    /// A catch handler runs in the landing pad, *outside* its own try's closure,
    /// so a barrier in the catch phase does not count as an enclosing body.
    pub fn enclosing_try_body(&self) -> (r: Option<usize>)
        ensures
            r == body_of(self@.try_barriers),
    {
        let barriers = self.barriers();
        let mut i: usize = barriers.len();
        assert(barriers@.take(i as int) =~= barriers@);
        while i > 0
            invariant
                i <= barriers@.len(),
                barriers@ == self@.try_barriers,
                body_of(barriers@) == body_of(barriers@.take(i as int)),
            decreases i,
        {
            if barriers[i - 1].phase == CatchPhase::Body {
                return Some(barriers[i - 1].frame_idx);
            }
            assert(barriers@.take(i as int).drop_last() =~= barriers@.take(i - 1));
            i -= 1;
        }
        None
    }

    /// Whether a branch to `target_idx` would leave the innermost enclosing `try`
    /// body — crossing its `catch_unwind` closure, which a `break`/`continue`
    /// cannot do, so it must be re-issued via the closure-outcome signal. A
    /// target at or inside that body stays within the closure (a plain branch).
    pub fn branch_escapes_try(&self, target_idx: usize) -> (r: bool)
        ensures
            r == self@.escapes_try(target_idx as int),
    {
        match self.enclosing_try_body() {
            Some(body_idx) => target_idx < body_idx,
            None => false,
        }
    }

    /// Resolve a branch target depth to a [`BranchTarget`] and mark the target
    /// frame as branched to (shared by `br`/`br_if`/`br_table`). The `vars` are
    /// the target's value-carrying variables (a block/if's results, or a loop's
    /// parameters), which the caller assigns before the branch. A branch that
    /// leaves an enclosing `try` *body* is an escape; one leaving a `try`
    /// *handler* has no lowering (the landing pad is not a breakable region) and
    /// is rejected.
    pub fn resolve_target(&mut self, depth: u32) -> (r: Result<BranchTarget, TranspileError>)
        requires
            old(self).wf(),
        ensures
            match old(self)@.resolved(depth) {
                Ok((s, t)) => r is Ok && r->Ok_0@ == t && final(self)@ == s && labels_of(
                    s.frames,
                ).contains(t.label) && labels_of(s.frames) == labels_of(old(self)@.frames),
                Err(e) => r is Err && r->Err_0@ == e,
            },
            r is Ok ==> final(self).wf(),
    {
        let n: usize = self.depth();
        if n == 0 || n - 1 < depth as usize {
            return Err(no_support("branch depth out of range"));
        }
        let idx: usize = n - 1 - depth as usize;
        let is_loop = self.frame(idx).kind == FrameKind::Loop;
        let vars = if is_loop {
            self.frame(idx).loop_param_vars()
        } else {
            self.frame(idx).result_vars()
        };
        let label: usize = self.frame(idx).label;
        proof {
            lemma_frame_label(self@.frames, idx as int);
            lemma_update_frame(
                self@.frames,
                idx as int,
                FrameV { targeted: true, ..self@.frames[idx as int] },
                self@.in_continuation,
            );
        }
        self.mark_targeted(idx);

        // A branch to the try whose *handler* we are directly in has no lowering:
        // that try's body loop lives inside its `catch_unwind` closure, which the
        // landing pad (where the handler runs) sits outside of. A branch to any
        // other target from a handler is an ordinary break/continue.
        let m: usize = self.barriers().len();
        if m > 0 && self.barriers()[m - 1].phase == CatchPhase::Handler
            && self.barriers()[m - 1].frame_idx == idx {
            return Err(no_support("branch out of a try handler"));
        }
        // A branch leaving the innermost enclosing try *body* crosses that
        // closure and must be re-issued from outside it via the outcome signal.
        let escape = self.branch_escapes_try(idx);
        Ok(BranchTarget { target_idx: idx, is_loop, label, vars, escape })
    }

    /// Pair each carried variable with the operand-stack value it receives (the
    /// top `vars.len()` operands, which `spill_nonstable` has already made
    /// stable so they can be referenced across arms).
    pub fn carried_assigns(&self, vars: &Vec<String>) -> (r: Result<
        Vec<(String, String)>,
        TranspileError,
    >)
        ensures
            match self@.carried(texts(vars@)) {
                Ok(p) => r is Ok && pair_texts(r->Ok_0@) == p,
                Err(e) => r is Err && r->Err_0@ == e,
            },
    {
        let height: usize = self.height();
        if height < vars.len() {
            return Err(TranspileError::StackUnderflow);
        }
        let base: usize = height - vars.len();
        let mut out: Vec<(String, String)> = Vec::new();
        assert(pair_texts(out@) =~= Seq::<(Seq<char>, Seq<char>)>::empty());
        let mut i: usize = 0;
        while i < vars.len()
            invariant
                i <= vars@.len(),
                base + vars@.len() == self@.stack.len(),
                height == self@.stack.len(),
                self@.carried_upto(texts(vars@), i as nat) == Ok::<
                    Seq<(Seq<char>, Seq<char>)>,
                    FailV,
                >(pair_texts(out@)),
            decreases vars@.len() - i,
        {
            let value = match self.move_val(self.operand(base + i)) {
                Ok(v) => v,
                Err(e) => {
                    proof {
                        lemma_carried_fails(self@, texts(vars@), (i + 1) as nat, vars@.len());
                    }
                    return Err(e);
                },
            };
            let ghost was = pair_texts(out@);
            out.push((vars[i].clone(), value));
            assert(pair_texts(out@) =~= was.push((texts(vars@)[i as int], value@)));
            i += 1;
        }
        Ok(out)
    }

    /// Emit a branch that stays within the current `catch_unwind` closure (if
    /// any): a plain `break`/`continue`, optionally guarded by `br_if`'s
    /// condition.
    fn emit_direct_branch(&mut self, t: &BranchTarget, cond: Option<String>) -> (r: Result<
        (),
        TranspileError,
    >)
        requires
            old(self).wf(),
            labels_of(old(self)@.frames).contains(t.label),
        ensures
            gen_result(r, final(self)@, old(self)@.direct(t@, opt_text(cond))),
            r is Ok ==> final(self).wf(),
    {
        let label: usize = t.label;
        let is_loop = t.is_loop;
        match cond {
            None => {
                proof {
                    lemma_assigned_keeps(self@, texts(t.vars@));
                }
                self.assign_results(&t.vars)?;
                self.node(Node::Br { label, is_loop });
                self.die();
            },
            Some(cond) => if t.vars.len() == 0 {
                let assigns: Vec<(String, String)> = Vec::new();
                assert(pair_texts(assigns@) =~= Seq::<(Seq<char>, Seq<char>)>::empty());
                self.node(
                    Node::BrIf { cond: condition_code(cond.as_str()), label, is_loop, assigns },
                );
            } else {
                // The result values stay on the stack for the fall-through
                // path, so materialise them and reference the temporaries.
                proof {
                    lemma_survivors(self@, 0);
                }
                self.spill_nonstable()?;
                let assigns = self.carried_assigns(&t.vars)?;
                self.node(
                    Node::BrIf { cond: condition_code(cond.as_str()), label, is_loop, assigns },
                );
            },
        }
        Ok(())
    }

    /// Record a branch that escapes the innermost enclosing `try` body, returning
    /// the `(outcome code, outcome variable)` to signal from the closure. Escapes
    /// to the same target share a code so one dispatch arm re-issues them all.
    pub fn record_branch_escape(&mut self, target_idx: usize, is_loop: bool, label: usize) -> (r:
        Result<(u32, String), TranspileError>)
        requires
            old(self).wf(),
        ensures
            match old(self)@.escape_recorded(target_idx, is_loop, label) {
                Ok((s, code, l)) => r matches Ok((c, v)) && c == code && v@ == ("__out"@
                    + dec(l as nat))
                    && final(self)@ == s,
                Err(e) => r is Err && r->Err_0@ == e,
            },
            r is Ok ==> final(self).wf(),
    {
        let try_idx: usize = match self.enclosing_try_body() {
            Some(i) => i,
            None => return Err(no_support("branch escape outside a try body")),
        };
        if try_idx >= self.depth() {
            return Err(no_support("branch escape outside a try"));
        }
        let try_label: usize = self.frame(try_idx).label;
        let (pos, fresh): (usize, bool) = match &self.frame(try_idx).try_state {
            Some(ts) => {
                let pos: usize = escape_index(&ts.escapes, target_idx);
                assert(ts.escapes@ == self@.frames[try_idx as int].try_state->0.escapes);
                (pos, pos == ts.escapes.len())
            },
            None => return Err(no_support("branch escape outside a try")),
        };
        if fresh {
            self.add_escape(try_idx, BranchEscape { target_idx, is_loop, label });
        }
        if pos == usize::MAX {
            return Err(no_support("index too large"));
        }
        let code: u32 = index_u32(pos + 1)?;
        Ok((code, Buf::lit("__out").n(try_label as u64).end()))
    }

    /// One assignment line per pair.
    fn assign_all(&mut self, pairs: &Vec<(String, String)>)
        requires
            old(self).wf(),
        ensures
            final(self)@ == old(self)@.assign_lines(pair_texts(pairs@)),
            final(self).wf(),
    {
        let ghost all = pair_texts(pairs@);
        let ghost start = self@;
        let mut i: usize = 0;
        while i < pairs.len()
            invariant
                i <= pairs@.len(),
                start == old(self)@,
                all == pair_texts(pairs@),
                self.wf(),
                self@ == start.assign_lines(all.take(i as int)),
            decreases pairs@.len() - i,
        {
            assert(all.take(i + 1).drop_last() =~= all.take(i as int));
            self.line(Buf::lit(&pairs[i].0).s(" = ").s(&pairs[i].1).s(";").end());
            i += 1;
        }
        assert(all.take(all.len() as int) =~= all);
    }

    /// Emit a branch that leaves an enclosing `try` body: carry its values into
    /// the (outer) target's variables, then set the try's outcome variable and
    /// `return` from the closure. The try's post-`match` dispatch turns the
    /// outcome back into the real branch.
    fn emit_escaping_branch(&mut self, t: &BranchTarget, cond: Option<String>) -> (r: Result<
        (),
        TranspileError,
    >)
        requires
            old(self).wf(),
        ensures
            gen_result(r, final(self)@, old(self)@.escaping(t@, opt_text(cond))),
            r is Ok ==> final(self).wf(),
    {
        match cond {
            None => {
                self.assign_results(&t.vars)?;
                let (code, out_var) = self.record_branch_escape(t.target_idx, t.is_loop, t.label)?;
                self.line(Buf::lit(&out_var).s(" = ").n(code as u64).s("u32;").end());
                self.term(lit("return;"));
                self.die();
            },
            Some(cond) => {
                // Only the taken path escapes; the values are carried inside the
                // guard so the fall-through leaves them on the stack untouched.
                self.spill_nonstable()?;
                let assigns = self.carried_assigns(&t.vars)?;
                let (code, out_var) = self.record_branch_escape(t.target_idx, t.is_loop, t.label)?;
                let test = condition_code(cond.as_str());
                self.line(Buf::lit("if ").s(&test).s(" {").end());
                self.assign_all(&assigns);
                self.line(Buf::lit(&out_var).s(" = ").n(code as u64).s("u32;").end());
                self.line_lit("return;");
                self.line_lit("}");
            },
        }
        Ok(())
    }

    /// `br` (no condition) or `br_if`.
    pub fn branch(&mut self, depth: u32, cond: Option<String>) -> (r: Result<(), TranspileError>)
        requires
            old(self).wf(),
        ensures
            gen_result(r, final(self)@, old(self)@.branch(depth, opt_text(cond))),
            r is Ok ==> final(self).wf(),
    {
        let target = self.resolve_target(depth)?;
        if target.escape {
            self.emit_escaping_branch(&target, cond)
        } else {
            self.emit_direct_branch(&target, cond)
        }
    }

    /// `br_if`.
    pub fn branch_if(&mut self, depth: u32) -> (r: Result<(), TranspileError>)
        requires
            old(self).wf(),
        ensures
            gen_result(r, final(self)@, old(self)@.branch_if(depth)),
            r is Ok ==> final(self).wf(),
    {
        let cond = self.pop()?;
        self.branch(depth, Some(cond.code))
    }

    /// `br_table`.
    ///
    /// Every target has the same arity, so the carried operands are the same
    /// top-of-stack values for every arm; each arm just assigns them to its own
    /// target's variables. After spilling they are stable, so they can be
    /// referenced repeatedly across the arms.
    pub fn branch_table(&mut self, targets: &Vec<u32>, default: u32) -> (r: Result<
        (),
        TranspileError,
    >)
        requires
            old(self).wf(),
        ensures
            gen_result(r, final(self)@, old(self)@.branch_table(targets@, default)),
            r is Ok ==> final(self).wf(),
    {
        let selector = self.pop()?;
        self.spill_nonstable()?;
        if targets.len() > 0 {
            let highest: u32 = index_u32(targets.len() - 1)?;
        }
        let ghost start = self@;
        let ghost bound = labels_of(start.frames);
        let mut arms: Vec<BrArm> = Vec::new();
        assert(br_arms_view(arms@) =~= Seq::<BrArmV>::empty());
        let n: usize = targets.len();
        let mut i: usize = 0;
        let mut done = false;
        while !done
            invariant
                n == targets@.len(),
                i <= n,
                done ==> i == n,
                n <= u32::MAX + 1,
                self.wf(),
                bound == labels_of(self@.frames),
                old(self)@.has(1),
                old(self)@.drop(1).spilled() == Ok::<GenV, FailV>(start),
                arms_bound(br_arms_view(arms@), bound),
                start.table_arms(
                    targets@,
                    default,
                    if done {
                        n as nat + 1
                    } else {
                        i as nat
                    },
                ) == Ok::<(GenV, Seq<BrArmV>), FailV>((self@, br_arms_view(arms@))),
            decreases n - i, if done { 0int } else { 1int },
        {
            let last = i == n;
            let depth: u32 = if last {
                default
            } else {
                targets[i]
            };
            let ghost before = self@;
            // A `br_table` whose arms leave a `try` body (mixing escaping and
            // non-escaping targets) is not lowered; only plain targets are.
            let t = match self.resolve_target(depth) {
                Ok(t) => t,
                Err(e) => {
                    proof {
                        lemma_arms_fail(start, targets@, default, i as nat + 1, n as nat + 1);
                    }
                    return Err(e);
                },
            };
            if t.escape {
                proof {
                    lemma_arms_fail(start, targets@, default, i as nat + 1, n as nat + 1);
                }
                return Err(no_support("br_table out of a try region"));
            }
            let pattern = if last {
                lit("_")
            } else {
                Buf::num(i as u64).s("u32").end()
            };
            let assigns = match self.carried_assigns(&t.vars) {
                Ok(a) => a,
                Err(e) => {
                    proof {
                        lemma_arms_fail(start, targets@, default, i as nat + 1, n as nat + 1);
                    }
                    return Err(e);
                },
            };
            let arm = BrArm { pattern, label: t.label, is_loop: t.is_loop, assigns };
            let ghost was = br_arms_view(arms@);
            arms.push(arm);
            assert(br_arms_view(arms@) =~= was.push(arm@));
            if last {
                done = true;
            } else {
                i += 1;
            }
        }
        self.node(Node::BrTable { selector: selector.code, arms });
        self.die();
        Ok(())
    }

    /// Flag the innermost enclosing `try` body so its dispatch re-issues the
    /// function return — used when a return escape leaves that closure too.
    fn mark_enclosing_ret_escape(&mut self)
        requires
            old(self).wf(),
        ensures
            final(self)@ == old(self)@.return_marked(),
            final(self).wf(),
    {
        match self.enclosing_try_body() {
            Some(idx) => if idx < self.depth() && self.frame(idx).try_state.is_some() {
                self.mark_ret_escape(idx);
            },
            None => {},
        }
    }

    /// Emit a `return` that escapes an enclosing `try` body: stash the results in
    /// the function-wide holders, raise the return signal, and leave the closure.
    /// Each enclosing try's dispatch re-issues it until the real function return.
    pub fn emit_return_escape(&mut self) -> (r: Result<(), TranspileError>)
        requires
            old(self).wf(),
        ensures
            gen_result(r, final(self)@, old(self)@.return_escaped()),
            r is Ok ==> final(self).wf(),
    {
        let n: usize = self.result_types().len();
        self.use_return_escape();
        let ghost start = self@;
        // Pop the results highest-index first (as `assign_results` does) so holder
        // `__rv{i}` receives the i-th source-order operand.
        let mut i: usize = n;
        while i > 0
            invariant
                i <= n,
                self.wf(),
                n == old(self)@.results.len(),
                start == (GenV { uses_ret_escape: true, ..old(self)@ }),
                start.held(n as nat) == self@.held(i as nat),
            decreases i,
        {
            let val = self.pop()?;
            self.line(Buf::lit("__rv").n((i - 1) as u64).s(" = ").s(&val.code).s(";").end());
            i -= 1;
        }
        self.line_lit("__returning = true;");
        self.term(lit("return;"));
        // The innermost enclosing try body owns the closure this return leaves;
        // its dispatch must re-issue the function return.
        self.mark_enclosing_ret_escape();
        self.die();
        Ok(())
    }

    /// `return`.
    ///
    /// A `return` from inside a `try` body cannot leave its `catch_unwind`
    /// closure directly; it is routed through the function-wide return signal
    /// that each enclosing try's dispatch re-issues. A handler runs in the
    /// landing pad, so a `return` there is a plain return unless it sits in an
    /// outer try's body.
    pub fn emit_return(&mut self) -> (r: Result<(), TranspileError>)
        requires
            old(self).wf(),
        ensures
            gen_result(r, final(self)@, old(self)@.returned()),
            r is Ok ==> final(self).wf(),
    {
        if self.enclosing_try_body().is_some() {
            return self.emit_return_escape();
        }
        let n: usize = self.result_types().len();
        match self.pop_results(n)? {
            Some(code) => self.term(Buf::lit("return ").s(&code).s(";").end()),
            None => self.term(lit("return;")),
        }
        self.die();
        Ok(())
    }

    /// The expression yielding the function's result(s) from the return holders
    /// (`__rv{i}`): empty for no results, a bare holder for one, a tuple for more.
    fn return_holder_expr(&self) -> (r: String)
        ensures
            r@ == holder_text(self@.results.len()),
    {
        let n: usize = self.result_types().len();
        if n == 0 {
            return String::new();
        }
        let mut parts = Lines::new();
        let mut i: usize = 0;
        while i < n
            invariant
                i <= n,
                parts@ =~= holders(n as nat).take(i as int),
            decreases n - i,
        {
            parts.add(Buf::lit("__rv").n(i as u64).end());
            i += 1;
        }
        assert(parts@ =~= holders(n as nat));
        let all = join(&parts.v, ", ");
        if n == 1 {
            all
        } else {
            Buf::lit("(").s(&all).s(")").end()
        }
    }

    /// Emit the return-escape arm of a `try`'s dispatch: if the dispatch itself
    /// sits in an enclosing try body, leave that closure too (marking it so it
    /// re-dispatches); otherwise perform the real function `return`.
    fn emit_return_dispatch(&mut self)
        requires
            old(self).wf(),
        ensures
            final(self)@ == old(self)@.return_dispatched(),
            final(self).wf(),
    {
        let enclosing = self.enclosing_try_body();
        self.line_lit("if __returning {");
        if enclosing.is_some() {
            self.mark_enclosing_ret_escape();
            self.line_lit("return;");
        } else if self.result_types().len() == 0 {
            self.line_lit("return;");
        } else {
            let expr = self.return_holder_expr();
            self.line(Buf::lit("return ").s(&expr).s(";").end());
        }
        self.line_lit("}");
    }

    /// Emit a `try`'s post-`match` dispatch: turn each recorded outcome back into
    /// the real control transfer, outside the `catch_unwind` closure. A target
    /// still inside an enclosing try body becomes another closure-outcome signal
    /// (propagating the escape outward); otherwise it is a plain `break`/
    /// `continue`. A return escape is re-issued the same way.
    pub fn emit_try_dispatch(
        &mut self,
        label: usize,
        escapes: &Vec<BranchEscape>,
        has_ret_escape: bool,
    ) -> (r: Result<(), TranspileError>)
        requires
            old(self).wf(),
        ensures
            gen_result(r, final(self)@, old(self)@.try_dispatched(label, escapes@, has_ret_escape)),
            r is Ok ==> final(self).wf(),
    {
        // At most one signal is set per closure exit, so the checks are
        // independent and their order does not matter.
        if has_ret_escape {
            self.emit_return_dispatch();
        }
        let ghost start = self@;
        let mut i: usize = 0;
        while i < escapes.len()
            invariant
                i <= escapes@.len(),
                self.wf(),
                old(self)@.try_dispatched(label, escapes@, has_ret_escape)
                    == start.outcomes_dispatched(label, escapes@, escapes@.len()),
                start.outcomes_dispatched(label, escapes@, i as nat) == Ok::<GenV, FailV>(self@),
            decreases escapes@.len() - i,
        {
            let esc = escapes[i];
            let code: u32 = match index_u32(i + 1) {
                Ok(c) => c,
                Err(e) => {
                    proof {
                        lemma_outcomes_fail(start, label, escapes@, i as nat + 1, escapes@.len());
                    }
                    return Err(e);
                },
            };
            self.line(Buf::lit("if __out").n(label as u64).s(" == ").n(code as u64).s("u32 {")
                .end());
            if self.branch_escapes_try(esc.target_idx) {
                // Still inside an enclosing try body: re-signal that closure. The
                // carried values already sit in the target's variables.
                match self.record_branch_escape(esc.target_idx, esc.is_loop, esc.label) {
                    Ok((code2, out2)) => {
                        self.line(Buf::lit(&out2).s(" = ").n(code2 as u64).s("u32;").end());
                        self.line_lit("return;");
                    },
                    Err(e) => {
                        proof {
                            lemma_outcomes_fail(
                                start,
                                label,
                                escapes@,
                                i as nat + 1,
                                escapes@.len(),
                            );
                        }
                        return Err(e);
                    },
                }
            } else {
                let keyword = jump_keyword(esc.is_loop);
                self.line(Buf::lit(keyword).s(" 'l").n(esc.label as u64).s(";").end());
            }
            self.line_lit("}");
            i += 1;
        }
        Ok(())
    }
}

} // verus!
