//! Legacy exception handling: `try`, `catch`, `throw` and `rethrow`.

use vstd::prelude::*;

use crate::codegen::common::{
    decode_exc_value, decoded_exc, encode_exc_value, encoded_exc, EXC_TYPE,
};
use crate::codegen::flatten::{lemma_lowerable_plain, lowerable, lowerable_node};
use crate::codegen::frame::{typed, CatchPhase, Frame, FrameV, TryBarrier, TryState, TryStateV};
use crate::codegen::func::control::{add_typed, copy_types, lemma_assigned_frames};
use crate::codegen::func::keeps::lemma_survivors;
use crate::codegen::func::state::{
    arms_ok, gen_result, labels_of, lemma_push_arm, FuncGen, GenR, GenV,
};
use crate::codegen::ir::{
    catch_view, catches_view, node_view, plain_catch, plain_catches, plain_nodes, plain_try,
    try_view, CatchArm, CatchKind, CatchV, FrameKind, Node, NodeV, TryRegionNode, TryV,
};
use crate::error::{no_support, unsupported, FailV, TranspileError};
use crate::text::{dec, join, joined, lit, texts, Buf, Lines};
use crate::wasm::{BlockType, ValType};

verus! {

/// The exception payload's `i`-th slot, as the landing pad reads it.
pub open spec fn payload_slot(exc_var: Seq<char>, i: nat) -> Seq<char> {
    (exc_var + ".downcast_ref::<"@ + EXC_TYPE@ + ">().unwrap().values["@ + dec(i as nat) + "]"@)
}

/// The variables that a handler of the `try` with this label binds its first `n`
/// payload values to.
pub open spec fn handler_vars(label: usize, params: Seq<ValType>, n: nat) -> Seq<
    (Seq<char>, ValType),
> {
    Seq::new(n, |i: int| (("__hv"@ + dec(label as nat) + "_"@ + dec(i as nat)), params[i]))
}

/// Whether some arm falls through its end.
pub open spec fn some_arm_ends(arms: Seq<CatchV>) -> bool {
    exists|i: int| 0 <= i < arms.len() && (#[trigger] arms[i]).reachable_at_end
}

/// The region of a finished `try`: its first arm is the protected body, the others
/// are the handlers.
pub open spec fn try_of(
    label: usize,
    targeted: bool,
    exc_var: Seq<char>,
    arms: Seq<CatchV>,
) -> TryV {
    TryV {
        label,
        targeted,
        exc_var,
        body: arms[0].body,
        body_reachable_at_end: arms[0].reachable_at_end,
        catches: arms.skip(1),
    }
}

impl GenV {
    pub open spec fn open_try(self, blockty: BlockType) -> GenR {
        match (GenV { uses_eh: true, ..self }).push_frame(FrameKind::Block, blockty, None) {
            Err(e) => Err(e),
            Ok(s) => {
                let f = s.frames.last();
                Ok(
                    GenV {
                        frames: s.frames.update(
                            s.frames.len() - 1,
                            FrameV {
                                try_state: Some(
                                    TryStateV {
                                        exc_var: ("__exc"@ + dec(f.label as nat)),
                                        arms: Seq::empty(),
                                        cur_kind: CatchKind::Body,
                                        cur_binds: Seq::empty(),
                                        escapes: Seq::empty(),
                                        has_ret_escape: false,
                                    },
                                ),
                                ..f
                            },
                        ),
                        try_barriers: s.try_barriers.push(
                            TryBarrier {
                                frame_idx: (s.frames.len() - 1) as usize,
                                phase: CatchPhase::Body,
                            },
                        ),
                        ..s
                    },
                )
            },
        }
    }

    /// The statements that bind a handler's first `n` payload values.
    pub open spec fn payload_binds(
        self,
        label: usize,
        exc_var: Seq<char>,
        params: Seq<ValType>,
        n: nat,
    ) -> Result<Seq<Seq<char>>, FailV>
        decreases n,
    {
        if n == 0 {
            Ok(Seq::empty())
        } else {
            match self.payload_binds(label, exc_var, params, (n - 1) as nat) {
                Err(e) => Err(e),
                Ok(front) => match self.rust_type(params[n - 1]) {
                    Err(e) => Err(e),
                    Ok(rty) => match decoded_exc(
                        params[n - 1],
                        payload_slot(exc_var, (n - 1) as nat),
                    ) {
                        Err(e) => Err(e),
                        Ok(value) => Ok(
                            front.push(
                                ("let "@ + handler_vars(label, params, n)[n - 1].0 + ": "@ + rty
                                    + " = "@ + value + ";"@),
                            ),
                        ),
                    },
                },
            }
        }
    }

    /// `catch $tag`, or `catch_all` where there is no tag.
    pub open spec fn handle_catch(self, tag: Option<u32>) -> GenR {
        match self.fell_through() {
            Err(e) => Err(e),
            Ok(s) => if s.frames.len() == 0 {
                Err(FailV::StackUnderflow)
            } else if s.frames.last().try_state is None {
                Err(unsupported("catch without try"@))
            } else {
                let f = s.frames.last();
                match tag {
                    None => Ok(
                        GenV {
                            reachable: true,
                            ..s.arm_ended(CatchKind::All, Seq::empty()).cut(f.parent_height)
                        },
                    ),
                    Some(t) => if t >= s.ctx.tag_params.len() {
                        Err(unsupported("catch of an unknown tag"@))
                    } else {
                        let params = s.ctx.tag_params[t as int];
                        match s.payload_binds(
                            f.label,
                            f.try_state->0.exc_var,
                            params,
                            params.len(),
                        ) {
                            Err(e) => Err(e),
                            Ok(binds) => Ok(
                                GenV {
                                    reachable: true,
                                    ..s.arm_ended(CatchKind::Tag(t), binds).cut(
                                        f.parent_height,
                                    ).pushed(handler_vars(f.label, params, params.len()))
                                },
                            ),
                        }
                    },
                }
            },
        }
    }

    /// The `try` of frame `f` with the given arms put into the enclosing buffer,
    /// with its dispatch behind it.
    pub open spec fn try_placed(self, f: FrameV, arms: Seq<CatchV>) -> GenR {
        let ts = f.try_state->0;
        let goes_on = f.targeted || some_arm_ends(arms);
        let node = NodeV::Try(try_of(f.label, f.targeted, ts.exc_var, arms));
        let s = GenV { cur: f.parent_buffer, ..self };
        let s2 = if ts.escapes.len() > 0 {
            s.line(("let mut __out"@ + dec(f.label as nat) + ": u32 = 0;"@)).node(node)
        } else {
            s.node(node)
        };
        match s2.try_dispatched(f.label, ts.escapes, ts.has_ret_escape) {
            Err(e) => Err(e),
            Ok(s3) => {
                let s4 = if goes_on {
                    s3
                } else {
                    s3.term("unreachable!();"@)
                };
                Ok(s4.cut(f.parent_height).pushed(f.results).going_on(goes_on))
            },
        }
    }

    /// The innermost frame and barrier left.
    pub open spec fn try_left(self) -> GenV {
        GenV {
            try_barriers: if self.try_barriers.len() > 0 {
                self.try_barriers.drop_last()
            } else {
                self.try_barriers
            },
            ..self.frame_ended()
        }
    }

    /// The innermost `try` ended.
    pub open spec fn try_ended(self) -> GenR {
        match self.fell_through() {
            Err(e) => Err(e),
            Ok(s) => {
                let ts = s.frames.last().try_state->0;
                s.try_left().try_placed(
                    s.frames.last(),
                    ts.arms.push(
                        CatchV {
                            kind: ts.cur_kind,
                            binds: ts.cur_binds,
                            body: s.cur,
                            reachable_at_end: s.reachable,
                        },
                    ),
                )
            },
        }
    }

    /// `end`: of a `try`, of another region, or of the function.
    pub open spec fn handle_end(self) -> GenR {
        if self.frames.len() == 0 {
            self.end_function()
        } else if self.frames.last().try_state is Some {
            self.try_ended()
        } else {
            self.region_ended()
        }
    }

    /// The last `n` payload operands popped and encoded; `back` are those behind
    /// them.
    pub open spec fn payload_encoded(
        self,
        params: Seq<ValType>,
        n: nat,
        back: Seq<Seq<char>>,
    ) -> Result<(GenV, Seq<Seq<char>>), FailV>
        decreases n,
    {
        if n == 0 {
            Ok((self, back))
        } else if !self.has(1) {
            Err(FailV::StackUnderflow)
        } else {
            match encoded_exc(params[n - 1], self.top().code) {
                Err(e) => Err(e),
                Ok(value) => self.drop(1).payload_encoded(
                    params,
                    (n - 1) as nat,
                    Seq::empty().push(value) + back,
                ),
            }
        }
    }

    /// `throw $tag`.
    pub open spec fn emit_throw(self, tag_index: u32) -> GenR {
        let s = GenV { uses_eh: true, ..self };
        if tag_index >= self.ctx.tag_params.len() {
            Err(unsupported("throw of an unknown tag"@))
        } else {
            let params = self.ctx.tag_params[tag_index as int];
            match s.payload_encoded(params, params.len(), Seq::empty()) {
                Err(e) => Err(e),
                Ok((s2, encoded)) => Ok(
                    s2.term(
                        ("::std::panic::panic_any("@ + EXC_TYPE@ + " { tag: "@
                            + dec(tag_index as nat) + "u32, values: vec!["@
                            + joined(encoded, ", "@) + "] });"@),
                    ).dead(),
                ),
            }
        }
    }

    /// `rethrow`.
    pub open spec fn emit_rethrow(self, relative_depth: u32) -> GenR {
        if self.frames.len() < 1 + relative_depth {
            Err(unsupported("rethrow depth out of range"@))
        } else {
            match self.frames[self.frames.len() - 1 - relative_depth].try_state {
                None => Err(unsupported("rethrow target is not a try"@)),
                Some(ts) => Ok(
                    self.term(("::std::panic::resume_unwind("@ + ts.exc_var + ");"@)).dead(),
                ),
            }
        }
    }
}

proof fn lemma_declared_keeps(s: GenV, tys: Seq<ValType>)
    ensures
        s.declared(tys) matches Ok((t, vars)) ==> t.in_continuation == s.in_continuation
            && t.frames == s.frames,
    decreases tys.len(),
{
    if tys.len() > 0 {
        lemma_declared_keeps(s, tys.drop_last());
    }
}

proof fn lemma_looped_keeps(s: GenV, h: int, tys: Seq<ValType>)
    ensures
        s.looped(h, tys) matches Ok((t, vars)) ==> t.in_continuation == s.in_continuation
            && t.frames == s.frames,
    decreases tys.len(),
{
    if tys.len() > 0 {
        lemma_looped_keeps(s, h, tys.drop_last());
    }
}

/// A region opened is one more region, and nothing becomes a continuation.
pub proof fn lemma_push_frame_keeps(s: GenV, kind: FrameKind, blockty: BlockType,
    cond: Option<Seq<char>>)
    ensures
        s.push_frame(kind, blockty, cond) matches Ok(t) ==> t.in_continuation == s.in_continuation
            && t.frames.len() == s.frames.len() + 1 && t.frames.drop_last() == s.frames,
{
    lemma_survivors(s, 0);
    if let Ok(sig) = s.block_signature(blockty) {
        if let Ok(s1) = s.spilled() {
            if s1.stack.len() >= sig.params.len() {
                let h = s1.stack.len() - sig.params.len();
                lemma_looped_keeps(s1, h, sig.params);
                let carried = if kind == FrameKind::Loop {
                    s1.looped(h, sig.params)
                } else {
                    Ok((s1, Seq::empty()))
                };
                if let Ok((s2, loop_params)) = carried {
                    lemma_declared_keeps(s2, sig.results);
                    if let Ok(t) = s.push_frame(kind, blockty, cond) {
                        assert(t.frames.drop_last() =~= s.frames);
                    }
                }
            }
        }
    }
}

proof fn lemma_binds_fail(
    s: GenV,
    label: usize,
    exc_var: Seq<char>,
    params: Seq<ValType>,
    i: nat,
    n: nat,
)
    requires
        i <= n,
        s.payload_binds(label, exc_var, params, i) is Err,
    ensures
        s.payload_binds(label, exc_var, params, n) == s.payload_binds(label, exc_var, params, i),
    decreases n - i,
{
    if i < n {
        lemma_binds_fail(s, label, exc_var, params, i, (n - 1) as nat);
    }
}

/// The arms of a `try` hold no continuation nodes.
proof fn lemma_arms_plain(arms: Seq<CatchV>, bound: Set<usize>)
    requires
        arms_ok(arms, bound),
    ensures
        plain_catches(arms),
    decreases arms.len(),
{
    if arms.len() > 0 {
        lemma_arms_plain(arms.drop_last(), bound);
        lemma_lowerable_plain(arms.last().body, bound);
        assert(plain_catch(arms.last()));
    }
}

proof fn lemma_plain_tail(cs: Seq<CatchV>)
    requires
        plain_catches(cs),
        cs.len() > 0,
    ensures
        plain_catches(cs.skip(1)),
        plain_nodes(cs[0].body),
    decreases cs.len(),
{
    assert(plain_catch(cs.last()));
    if cs.len() > 1 {
        lemma_plain_tail(cs.drop_last());
        assert(cs.skip(1).drop_last() =~= cs.drop_last().skip(1));
        assert(cs.skip(1).last() == cs.last());
    }
}

/// Whether some arm falls through its end.
fn any_arm_ends(arms: &Vec<CatchArm>) -> (r: bool)
    ensures
        r == some_arm_ends(catches_view(arms@)),
{
    let ghost all = catches_view(arms@);
    let mut i: usize = 0;
    while i < arms.len()
        invariant
            i <= arms@.len(),
            all == catches_view(arms@),
            forall|k: int| 0 <= k < i ==> !(#[trigger] all[k]).reachable_at_end,
        decreases arms@.len() - i,
    {
        assert(all[i as int] == catch_view(arms@[i as int]));
        if arms[i].reachable_at_end {
            return true;
        }
        i += 1;
    }
    false
}

/// The node of a finished `try`.
fn try_node(label: usize, targeted: bool, exc_var: String, arms: Vec<CatchArm>) -> (r: Node)
    requires
        arms@.len() > 0,
        plain_catches(catches_view(arms@)),
    ensures
        node_view(r) == NodeV::Try(try_of(label, targeted, exc_var@, catches_view(arms@))),
        plain_try(try_of(label, targeted, exc_var@, catches_view(arms@))),
{
    let ghost all = catches_view(arms@);
    let ghost arms0 = arms@;
    proof {
        lemma_plain_tail(all);
    }
    let mut arms = arms;
    let body_arm = arms.remove(0);
    assert(catches_view(arms@) =~= all.skip(1)) by {
        assert(arms@ =~= arms0.skip(1));
    }
    assert(catch_view(body_arm) == all[0]);
    let region = TryRegionNode {
        label,
        targeted,
        exc_var,
        body: body_arm.body,
        body_reachable_at_end: body_arm.reachable_at_end,
        catches: arms,
    };
    assert(try_view(region) == try_of(label, targeted, exc_var@, all));
    Node::Try(region)
}

impl<'a> FuncGen<'a> {
    /// Open a `try` region. It reuses a block frame (a `br` to it exits like a
    /// block) but carries [`TryState`] so `end` lowers it to a `catch_unwind`,
    /// and registers a barrier so branches leaving its body are re-issued from
    /// outside the closure.
    pub fn open_try(&mut self, blockty: BlockType) -> (r: Result<(), TranspileError>)
        requires
            old(self).wf(),
            !old(self)@.in_continuation,
        ensures
            gen_result(r, final(self)@, old(self)@.open_try(blockty)),
            r is Ok ==> final(self).wf(),
    {
        self.use_exceptions();
        proof {
            lemma_push_frame_keeps(self@, FrameKind::Block, blockty, None);
        }
        self.push_frame(FrameKind::Block, blockty, None)?;
        let idx: usize = self.depth() - 1;
        let label: usize = self.frame(idx).label;
        // The barrier starts in the body phase; the first catch flips it so the
        // handler no longer counts as inside this try's closure (only a branch to
        // the try itself from its handler is then rejected).
        self.begin_try(Buf::lit("__exc").n(label as u64).end());
        Ok(())
    }

    /// The payload bindings of a handler for values of the given types, with the
    /// variables they bind.
    fn bind_payload(&self, label: usize, exc_var: &str, params: &Vec<ValType>) -> (r: Result<
        (Vec<String>, Vec<(String, ValType)>),
        TranspileError,
    >)
        ensures
            match self@.payload_binds(label, exc_var@, params@, params@.len()) {
                Ok(b) => r matches Ok((p, q)) && texts(p@) == b && typed(q@) == handler_vars(
                    label,
                    params@,
                    params@.len(),
                ),
                Err(e) => r is Err && r->Err_0@ == e,
            },
    {
        let mut binds = Lines::new();
        let mut pushed: Vec<(String, ValType)> = Vec::new();
        assert(typed(pushed@) =~= handler_vars(label, params@, 0));
        let mut i: usize = 0;
        while i < params.len()
            invariant
                i <= params@.len(),
                self@.payload_binds(label, exc_var@, params@, i as nat) == Ok::<
                    Seq<Seq<char>>,
                    FailV,
                >(binds@),
                typed(pushed@) == handler_vars(label, params@, i as nat),
            decreases params@.len() - i,
        {
            let ty = params[i];
            let rty = match self.rust_type(ty) {
                Ok(t) => t,
                Err(e) => {
                    proof {
                        lemma_binds_fail(
                            self@,
                            label,
                            exc_var@,
                            params@,
                            (i + 1) as nat,
                            params@.len(),
                        );
                    }
                    return Err(e);
                },
            };
            let source = Buf::lit(exc_var).s(".downcast_ref::<").s(EXC_TYPE)
                .s(">().unwrap().values[").n(i as u64).s("]").end();
            let value = match decode_exc_value(ty, source.as_str()) {
                Ok(v) => v,
                Err(e) => {
                    proof {
                        lemma_binds_fail(
                            self@,
                            label,
                            exc_var@,
                            params@,
                            (i + 1) as nat,
                            params@.len(),
                        );
                    }
                    return Err(e);
                },
            };
            let var = Buf::lit("__hv").n(label as u64).s("_").n(i as u64).end();
            binds.add(Buf::lit("let ").s(&var).s(": ").s(rty).s(" = ").s(&value).s(";").end());
            add_typed(&mut pushed, var, ty);
            assert(handler_vars(label, params@, (i + 1) as nat) =~= handler_vars(
                label,
                params@,
                i as nat,
            ).push((var@, ty)));
            i += 1;
        }
        Ok((binds.v, pushed))
    }

    /// Handle a `catch $tag` (`tag` is `Some`) or `catch_all` (`None`): close the
    /// current arm, reset the operand stack, bind the exception payload (for a
    /// tagged catch) and start the handler.
    pub fn handle_catch(&mut self, tag: Option<u32>) -> (r: Result<(), TranspileError>)
        requires
            old(self).wf(),
        ensures
            gen_result(r, final(self)@, old(self)@.handle_catch(tag)),
            r is Ok ==> final(self).wf(),
    {
        // The falling-through arm produces the try's results before it ends.
        if self.is_reachable() {
            self.assign_fallthrough_result()?;
        }
        proof {
            lemma_assigned_frames(old(self)@);
        }
        let n: usize = self.depth();
        if n == 0 {
            return Err(TranspileError::StackUnderflow);
        }
        let exc_var = match &self.frame(n - 1).try_state {
            Some(ts) => ts.exc_var.clone(),
            None => return Err(no_support("catch without try")),
        };
        let parent_height: usize = self.frame(n - 1).parent_height;
        let label: usize = self.frame(n - 1).label;

        // Build the new handler's payload bindings and the operands it pushes,
        // then close the previous arm and start the new one.
        match tag {
            Some(t) => {
                let tags = &self.context().tags.params;
                if t as usize >= tags.len() {
                    return Err(no_support("catch of an unknown tag"));
                }
                let params = &tags[t as usize];
                assert(params@ == self@.ctx.tag_params[t as int]);
                let (binds, pushed) = self.bind_payload(label, exc_var.as_str(), params)?;
                self.end_arm(CatchKind::Tag(t), binds);
                self.truncate(parent_height);
                self.push_temps(&pushed);
            },
            None => {
                let binds: Vec<String> = Vec::new();
                assert(texts(binds@) =~= Seq::<Seq<char>>::empty());
                self.end_arm(CatchKind::All, binds);
                self.truncate(parent_height);
            },
        }
        self.set_reachable(true);
        Ok(())
    }

    /// Puts a finished `try` into the enclosing buffer, with its dispatch.
    #[verifier::rlimit(60)]
    #[verifier::spinoff_prover]
    fn place_try(&mut self, frame: Frame, ts: TryState) -> (r: Result<(), TranspileError>)
        requires
            old(self).wf(),
            ts@.arms.len() > 0,
            plain_catches(ts@.arms),
            lowerable(
                frame@.parent_buffer,
                labels_of(old(self)@.frames),
                !old(self)@.in_continuation,
            ),
        ensures
            gen_result(
                r,
                final(self)@,
                old(self)@.try_placed((FrameV { try_state: Some(ts@), ..frame@ }), ts@.arms),
            ),
            r is Ok ==> final(self).wf(),
    {
        let label: usize = frame.label;
        // The try continues if any arm falls through, or a `br` targets it.
        let next_reachable = frame.targeted || any_arm_ends(&ts.arms);
        let node = try_node(label, frame.targeted, ts.exc_var, ts.arms);
        assert(lowerable_node(
            node_view(node),
            labels_of(self@.frames),
            !self@.in_continuation,
        ));
        self.resume_buffer(frame.parent_buffer);
        // Branches escaping the body signal an outcome; declare its variable
        // before the `match` (so a try inside a loop re-initialises it each
        // iteration), then dispatch the recorded outcomes after it.
        if ts.escapes.len() > 0 {
            self.line(Buf::lit("let mut __out").n(label as u64).s(": u32 = 0;").end());
        }
        self.node(node);
        self.emit_try_dispatch(label, &ts.escapes, ts.has_ret_escape)?;
        // The try lowers to a `()`-typed `match`. When it never falls through
        // (its body and every handler diverge), the following wasm code is dead
        // and not emitted, so a diverging guard stands in for it — otherwise the
        // `match` would be a `()` tail where a value is expected. It is never
        // reached, since every path through the `match` diverges.
        if !next_reachable {
            self.term(lit("unreachable!();"));
        }
        self.truncate(frame.parent_height);
        self.push_temps(&frame.results);
        self.set_reachable(next_reachable);
        Ok(())
    }

    /// Finish a `try` region, assembling its body and handlers into a
    /// [`Node::Try`] emitted into the enclosing buffer.
    pub fn handle_try_end(&mut self) -> (r: Result<(), TranspileError>)
        requires
            old(self).wf(),
            old(self)@.frames.len() > 0,
            old(self)@.frames.last().try_state is Some,
        ensures
            gen_result(r, final(self)@, old(self)@.try_ended()),
            r is Ok ==> final(self).wf(),
    {
        if self.is_reachable() {
            self.assign_fallthrough_result()?;
        }
        proof {
            lemma_assigned_frames(old(self)@);
        }
        let reachable_at_end = self.is_reachable();
        let (frame, body) = self.end_region();
        // This try's barrier (pushed on open, flipped at its first catch) is on
        // top since every nested try has already ended.
        self.pop_barrier();
        let ghost outer = labels_of(self@.frames);
        let ghost f = frame@;
        let mut frame = frame;
        let mut state: Option<TryState> = None;
        std::mem::swap(&mut state, &mut frame.try_state);
        match state {
            Some(ts) => {
                let mut ts = ts;
                let ghost was = ts@;
                let mut kind = CatchKind::Body;
                let mut binds: Vec<String> = Vec::new();
                std::mem::swap(&mut kind, &mut ts.cur_kind);
                std::mem::swap(&mut binds, &mut ts.cur_binds);
                let arm = CatchArm { kind, binds, body, reachable_at_end };
                let ghost arm_v = catch_view(arm);
                let ghost arms0 = ts.arms@;
                ts.arms.push(arm);
                proof {
                    assert(catches_view(ts.arms@) =~= was.arms.push(arm_v));
                    lemma_push_arm(was.arms, arm_v, outer.insert(f.label));
                    lemma_arms_plain(ts@.arms, outer.insert(f.label));
                }
                self.place_try(frame, ts)
            },
            None => Err(no_support("try end without try")),
        }
    }

    /// `end`. A `try` region ends into a `catch_unwind` node, not the generic
    /// block/loop/if lowering; with no region open the function ends.
    pub fn handle_end(&mut self) -> (r: Result<(), TranspileError>)
        requires
            old(self).wf(),
        ensures
            gen_result(r, final(self)@, old(self)@.handle_end()),
            r is Ok ==> final(self).wf(),
    {
        let n: usize = self.depth();
        if n == 0 {
            self.end_function()
        } else if self.frame(n - 1).try_state.is_some() {
            self.handle_try_end()
        } else {
            self.close_region()
        }
    }

    /// Emit a `throw $tag`: pop the payload operands, bit-encode them, and raise
    /// the exception as a `panic_any` so an enclosing `try` can catch it. Shared
    /// with `resume_throw` (which first pops and consumes the continuation it
    /// abandons).
    pub fn emit_throw(&mut self, tag_index: u32) -> (r: Result<(), TranspileError>)
        requires
            old(self).wf(),
        ensures
            gen_result(r, final(self)@, old(self)@.emit_throw(tag_index)),
            r is Ok ==> final(self).wf(),
    {
        self.use_exceptions();
        let tags = &self.context().tags.params;
        if tag_index as usize >= tags.len() {
            return Err(no_support("throw of an unknown tag"));
        }
        let params = copy_types(&tags[tag_index as usize]);
        assert(params@ == self@.ctx.tag_params[tag_index as int]);
        let ghost start = self@;
        // Operands are popped top-first, so the payload fills back to front.
        let mut encoded: Vec<String> = Vec::new();
        let mut i: usize = params.len();
        assert(texts(encoded@) =~= Seq::<Seq<char>>::empty());
        while i > 0
            invariant
                i <= params@.len(),
                self.wf(),
                start == (GenV { uses_eh: true, ..old(self)@ }),
                tag_index < start.ctx.tag_params.len(),
                params@ == start.ctx.tag_params[tag_index as int],
                start.payload_encoded(params@, params@.len(), Seq::empty())
                    == self@.payload_encoded(params@, i as nat, texts(encoded@)),
            decreases i,
        {
            let ghost before = self@;
            let value = self.pop()?;
            let code = encode_exc_value(params[i - 1], value.code.as_str())?;
            let ghost was = texts(encoded@);
            encoded.insert(0, code);
            assert(texts(encoded@) =~= Seq::empty().push(code@) + was);
            i -= 1;
        }
        let all = join(&encoded, ", ");
        self.term(
            Buf::lit("::std::panic::panic_any(").s(EXC_TYPE).s(" { tag: ").n(tag_index as u64)
                .s("u32, values: vec![").s(&all).s("] });").end(),
        );
        self.die();
        Ok(())
    }

    /// Emit a `rethrow`: re-raise the exception caught by the targeted enclosing
    /// `try`'s handler.
    pub fn emit_rethrow(&mut self, relative_depth: u32) -> (r: Result<(), TranspileError>)
        requires
            old(self).wf(),
        ensures
            gen_result(r, final(self)@, old(self)@.emit_rethrow(relative_depth)),
            r is Ok ==> final(self).wf(),
    {
        let n: usize = self.depth();
        if n == 0 || n - 1 < relative_depth as usize {
            return Err(no_support("rethrow depth out of range"));
        }
        let exc_var = match &self.frame(n - 1 - relative_depth as usize).try_state {
            Some(ts) => ts.exc_var.clone(),
            None => return Err(no_support("rethrow target is not a try")),
        };
        self.term(Buf::lit("::std::panic::resume_unwind(").s(&exc_var).s(");").end());
        self.die();
        Ok(())
    }
}

} // verus!
