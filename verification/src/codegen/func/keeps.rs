//! What the operators leave alone, and how they nest.

use vstd::prelude::*;

use crate::codegen::frame::BranchEscape;
use crate::codegen::func::state::{GenR, GenV};
use crate::codegen::ir::FrameKind;
use crate::ops::{ConvertOp, FloatOp, FloatTy, Handle, IntOp, IntTy, LaneOp, Operator};
use crate::text::{dec, joined};
use crate::wasm::{BlockType, ValType};

verus! {

/// Whether two states belong to the same function of the same module.
pub open spec fn same_function(s: GenV, t: GenV) -> bool {
    &&& t.ctx == s.ctx
    &&& t.local_types == s.local_types
    &&& t.mutable_locals == s.mutable_locals
    &&& t.results == s.results
    &&& t.in_continuation == s.in_continuation
}

/// Whether moreover the same regions are open.
pub open spec fn same_regions(s: GenV, t: GenV) -> bool {
    &&& same_function(s, t)
    &&& t.frames == s.frames
    &&& t.try_barriers == s.try_barriers
    &&& t.label_counter == s.label_counter
    &&& t.max_depth == s.max_depth
    &&& t.reachable == s.reachable
    &&& t.dead_nesting == s.dead_nesting
}

/// Whether a step that succeeds leaves the regions alone.
pub open spec fn in_place(s: GenV, r: GenR) -> bool {
    match r {
        Ok(t) => same_regions(s, t),
        Err(_) => true,
    }
}

pub proof fn lemma_frozen(s: GenV, n: nat)
    requires
        n <= s.stack.len(),
    ensures
        in_place(s, s.frozen(n)),
        s.frozen(n) matches Ok(t) ==> t.stack.len() == s.stack.len(),
    decreases n,
{
    if n > 0 {
        lemma_frozen(s, (n - 1) as nat);
    }
}

/// Freezing operands leaves the regions and the number of operands alone.
pub broadcast proof fn lemma_survivors(s: GenV, keep: nat)
    ensures
        in_place(s, #[trigger] s.survivors_frozen(keep)),
        s.survivors_frozen(keep) matches Ok(t) ==> t.stack.len() == s.stack.len(),
{
    reveal(GenV::survivors_frozen);
    if s.stack.len() > keep {
        lemma_frozen(s, (s.stack.len() - keep) as nat);
    }
}

/// Binding a value leaves the regions alone.
pub broadcast proof fn lemma_materialized(s: GenV, code: Seq<char>, ty: ValType)
    ensures
        in_place(s, #[trigger] s.materialized(code, ty)),
{
    reveal(GenV::materialized);
}

/// Pushing an expression leaves the regions alone.
pub broadcast proof fn lemma_combined(s: GenV, code: Seq<char>, ty: ValType, stable: bool)
    ensures
        in_place(s, #[trigger] s.combined(code, ty, stable)),
{
    reveal(GenV::materialized);
    reveal(GenV::combined);
}

broadcast group group_in_place {
    lemma_survivors,
    lemma_materialized,
    lemma_combined,
}

pub proof fn lemma_temps_taken(s: GenV, n: nat)
    ensures
        same_regions(s, s.temps_taken(n)),
    decreases n,
{
    if n > 0 {
        lemma_temps_taken(s, (n - 1) as nat);
    }
}

pub proof fn lemma_pushed(s: GenV, vars: Seq<(Seq<char>, ValType)>)
    ensures
        same_regions(s, s.pushed(vars)),
    decreases vars.len(),
{
    if vars.len() > 0 {
        lemma_pushed(s, vars.drop_last());
    }
}

/// Constants, locals and globals leave the regions alone; only `unreachable` ends
/// the reachable code.
pub proof fn law_basic_in_place(s: GenV, op: Operator, text: Seq<char>)
    requires
        !(op is Unreachable),
    ensures
        in_place(s, s.lowered_basic(op, text)),
{
    broadcast use group_in_place;

    reveal(GenV::lowered_basic);
}

proof fn lemma_integer(s: GenV, ty: IntTy, op: IntOp)
    ensures
        in_place(s, s.integer(ty, op)),
{
    broadcast use group_in_place;

    reveal(GenV::integer);
}

proof fn lemma_floating(s: GenV, ty: FloatTy, op: FloatOp)
    ensures
        in_place(s, s.floating(ty, op)),
{
    broadcast use group_in_place;

    reveal(GenV::floating);
}

proof fn lemma_converted(s: GenV, op: ConvertOp)
    ensures
        in_place(s, s.converted(op)),
{
    broadcast use group_in_place;

    reveal(GenV::converted);
}

proof fn lemma_lane_wise(s: GenV, op: LaneOp)
    ensures
        in_place(s, s.lane_wise(op)),
{
    broadcast use group_in_place;

    reveal(GenV::lane_wise);
}

/// Operators over numbers and vectors leave the regions alone.
pub proof fn law_numeric_in_place(s: GenV, op: Operator, text: Seq<char>)
    ensures
        in_place(s, s.lowered_numeric(op, text)),
{
    broadcast use group_in_place;

    reveal(GenV::lowered_numeric);
    match op {
        Operator::Int { ty, op } => lemma_integer(s, ty, op),
        Operator::Float { ty, op } => lemma_floating(s, ty, op),
        Operator::Convert { op } => lemma_converted(s, op),
        Operator::Lane { op } => lemma_lane_wise(s, op),
        _ => {},
    }
}

/// Memory accesses leave the regions alone.
pub proof fn law_access_in_place(s: GenV, op: Operator, text: Seq<char>)
    ensures
        in_place(s, s.lowered_access(op, text)),
{
    broadcast use group_in_place;

    reveal(GenV::lowered_access);
}

/// Operators on whole memories leave the regions alone.
pub proof fn law_memory_in_place(s: GenV, op: Operator, text: Seq<char>)
    ensures
        in_place(s, s.lowered_memory(op, text)),
{
    broadcast use group_in_place;

    reveal(GenV::lowered_memory);
}

/// Operators on tables and references leave the regions alone.
pub proof fn law_table_in_place(s: GenV, op: Operator, text: Seq<char>)
    ensures
        in_place(s, s.lowered_table(op, text)),
{
    broadcast use group_in_place;

    reveal(GenV::lowered_table);
}

/// Operators on managed objects leave the regions alone.
pub proof fn law_object_in_place(s: GenV, op: Operator, text: Seq<char>)
    ensures
        in_place(s, s.lowered_object(op, text)),
{
    broadcast use group_in_place;

    reveal(GenV::lowered_object);
}

// ---------------------------------------------------------------------------
// Control flow
// ---------------------------------------------------------------------------
/// Whether the greatest depth so far grew at most to that of `t`.
pub open spec fn deepened(s: GenV, t: GenV) -> bool {
    t.max_depth <= s.max_depth || t.max_depth <= t.frames.len()
}

/// Whether two states of the same function have as many regions open, and both
/// are as reachable.
pub open spec fn same_shape(s: GenV, t: GenV) -> bool {
    &&& same_function(s, t)
    &&& t.frames.len() == s.frames.len()
    &&& t.max_depth == s.max_depth
    &&& t.reachable == s.reachable
    &&& t.dead_nesting == s.dead_nesting
}

/// Whether a step that succeeds keeps the shape.
pub open spec fn shaped(s: GenV, r: GenR) -> bool {
    match r {
        Ok(t) => same_shape(s, t),
        Err(_) => true,
    }
}

/// Whether a step that succeeds leaves `n` regions open, behind it either
/// reachable or skipping nothing yet.
pub open spec fn leaves_open(s: GenV, r: GenR, n: int) -> bool {
    match r {
        Ok(t) => same_function(s, t) && t.frames.len() == n && t.max_depth == s.max_depth && (
        t.reachable || t.dead_nesting == 0),
        Err(_) => true,
    }
}

proof fn lemma_assigned(s: GenV, vars: Seq<Seq<char>>)
    ensures
        shaped(s, s.assigned(vars)),
        s.assigned(vars) matches Ok(t) ==> t.frames == s.frames,
    decreases vars.len(),
{
    if vars.len() > 0 && s.has(1) {
        if let Ok(value) = s.moved(s.top()) {
            lemma_assigned(s.drop(1).line((vars.last() + " = "@ + value + ";"@)), vars.drop_last());
        }
    }
}

proof fn lemma_fell_through(s: GenV)
    ensures
        shaped(s, s.fell_through()),
        s.fell_through() matches Ok(t) ==> t.frames == s.frames,
{
    if s.frames.len() > 0 {
        lemma_assigned(s, crate::codegen::frame::names(s.frames.last().results));
    }
}

proof fn lemma_declared(s: GenV, tys: Seq<ValType>)
    ensures
        s.declared(tys) matches Ok((t, vars)) ==> same_shape(s, t),
    decreases tys.len(),
{
    if tys.len() > 0 {
        lemma_declared(s, tys.drop_last());
    }
}

proof fn lemma_looped(s: GenV, h: int, tys: Seq<ValType>)
    ensures
        s.looped(h, tys) matches Ok((t, vars)) ==> same_shape(s, t),
    decreases tys.len(),
{
    if tys.len() > 0 {
        lemma_looped(s, h, tys.drop_last());
    }
}

proof fn lemma_push_frame(s: GenV, kind: FrameKind, blockty: BlockType, cond: Option<Seq<char>>)
    ensures
        s.push_frame(kind, blockty, cond) matches Ok(t) ==> same_function(s, t) && t.frames.len()
            == s.frames.len() + 1 && t.reachable == s.reachable && t.dead_nesting == s.dead_nesting
            && deepened(s, t),
{
    lemma_survivors(s, 0);
    if let Ok(sig) = s.block_signature(blockty) {
        if let Ok(s1) = s.spilled() {
            if s1.stack.len() >= sig.params.len() {
                let h = s1.stack.len() - sig.params.len();
                lemma_looped(s1, h, sig.params);
                let carried = if kind == FrameKind::Loop {
                    s1.looped(h, sig.params)
                } else {
                    Ok((s1, Seq::empty()))
                };
                if let Ok((s2, loop_params)) = carried {
                    lemma_declared(s2, sig.results);
                }
            }
        }
    }
}

proof fn lemma_handle_else(s: GenV)
    ensures
        leaves_open(s, s.handle_else(), s.frames.len() as int),
{
    lemma_fell_through(s);
}

proof fn lemma_region_ended(s: GenV)
    requires
        s.frames.len() > 0,
    ensures
        leaves_open(s, s.region_ended(), s.frames.len() - 1),
{
    lemma_fell_through(s);
    let f = s.frames.last();
    if let Ok(s1) = s.fell_through() {
        if let Ok((body, els)) = s1.region_arms(f, s1.cur) {
            if let Ok(t) = s.region_ended() {
                let region = crate::codegen::ir::RegionV {
                    kind: f.kind,
                    label: f.label,
                    targeted: f.targeted,
                    reachable_at_end: s.reachable,
                    cond: f.cond,
                    body,
                    els,
                };
                let s2 = GenV {
                    cur: f.parent_buffer.push(crate::codegen::ir::NodeV::Region(region)),
                    ..s1.frame_ended()
                };
                lemma_pushed(s2.cut(f.parent_height), f.results);
            }
        }
    }
}

proof fn lemma_assign_lines(s: GenV, pairs: Seq<(Seq<char>, Seq<char>)>)
    ensures
        same_shape(s, s.assign_lines(pairs)),
    decreases pairs.len(),
{
    if pairs.len() > 0 {
        lemma_assign_lines(s, pairs.drop_last());
    }
}

proof fn lemma_branch(s: GenV, depth: u32, cond: Option<Seq<char>>)
    requires
        s.reachable,
    ensures
        leaves_open(s, s.branch(depth, cond), s.frames.len() as int),
{
    if let Ok((s1, t)) = s.resolved(depth) {
        lemma_assigned(s1, t.vars);
        lemma_survivors(s1, 0);
        if let Ok(s2) = s1.spilled() {
            if let Ok(assigns) = s2.carried(t.vars) {
                if let Ok((s3, code, l)) = s2.escape_recorded(t.target_idx, t.is_loop, t.label) {
                    if let Some(c) = cond {
                        lemma_assign_lines(
                            s3.line(("if "@ + crate::codegen::ir::condition_text(c) + " {"@)),
                            assigns,
                        );
                    }
                }
            }
        }
    }
}

proof fn lemma_table_arms(s: GenV, targets: Seq<u32>, default: u32, n: nat)
    ensures
        s.table_arms(targets, default, n) matches Ok((t, arms)) ==> same_shape(s, t),
    decreases n,
{
    if n > 0 {
        lemma_table_arms(s, targets, default, (n - 1) as nat);
    }
}

proof fn lemma_branch_table(s: GenV, targets: Seq<u32>, default: u32)
    requires
        s.reachable,
    ensures
        leaves_open(s, s.branch_table(targets, default), s.frames.len() as int),
{
    lemma_survivors(s.drop(1), 0);
    if let Ok(s1) = s.drop(1).spilled() {
        lemma_table_arms(s1, targets, default, targets.len() + 1);
    }
}

proof fn lemma_held(s: GenV, n: nat)
    ensures
        shaped(s, s.held(n)),
    decreases n,
{
    if n > 0 && s.has(1) {
        lemma_held(s.drop(1).line(("__rv"@ + dec((n - 1) as nat) + " = "@ + s.top().code
            + ";"@)), (n - 1) as nat);
    }
}

proof fn lemma_returned(s: GenV)
    requires
        s.reachable,
    ensures
        leaves_open(s, s.returned(), s.frames.len() as int),
{
    lemma_held((GenV { uses_ret_escape: true, ..s }), s.results.len());
}

proof fn lemma_outcomes(s: GenV, label: usize, escapes: Seq<BranchEscape>, n: nat)
    ensures
        shaped(s, s.outcomes_dispatched(label, escapes, n)),
    decreases n,
{
    if n > 0 {
        lemma_outcomes(s, label, escapes, (n - 1) as nat);
    }
}

proof fn lemma_try_dispatched(
    s: GenV,
    label: usize,
    escapes: Seq<BranchEscape>,
    has_ret_escape: bool,
)
    ensures
        shaped(s, s.try_dispatched(label, escapes, has_ret_escape)),
{
    let s1 = if has_ret_escape {
        s.return_dispatched()
    } else {
        s
    };
    lemma_outcomes(s1, label, escapes, escapes.len());
}

proof fn lemma_try_placed(s: GenV, f: crate::codegen::frame::FrameV,
    arms: Seq<crate::codegen::ir::CatchV>)
    ensures
        leaves_open(s, s.try_placed(f, arms), s.frames.len() as int),
{
    let ts = f.try_state->0;
    let goes_on = f.targeted || crate::codegen::func::exceptions::some_arm_ends(arms);
    let node = crate::codegen::ir::NodeV::Try(
        crate::codegen::func::exceptions::try_of(f.label, f.targeted, ts.exc_var, arms),
    );
    let s1 = GenV { cur: f.parent_buffer, ..s };
    let s2 = if ts.escapes.len() > 0 {
        s1.line(("let mut __out"@ + dec(f.label as nat) + ": u32 = 0;"@)).node(node)
    } else {
        s1.node(node)
    };
    lemma_try_dispatched(s2, f.label, ts.escapes, ts.has_ret_escape);
    if let Ok(s3) = s2.try_dispatched(f.label, ts.escapes, ts.has_ret_escape) {
        let s4 = if goes_on {
            s3
        } else {
            s3.term("unreachable!();"@)
        };
        lemma_pushed(s4.cut(f.parent_height), f.results);
    }
}

proof fn lemma_handle_end(s: GenV)
    requires
        s.reachable || s.dead_nesting == 0,
    ensures
        leaves_open(
            s,
            s.handle_end(),
            if s.frames.len() > 0 {
                s.frames.len() - 1
            } else {
                0
            },
        ),
{
    if s.frames.len() > 0 {
        if s.frames.last().try_state is Some {
            lemma_fell_through(s);
            if let Ok(s1) = s.fell_through() {
                let ts = s1.frames.last().try_state->0;
                lemma_try_placed(
                    s1.try_left(),
                    s1.frames.last(),
                    ts.arms.push(
                        crate::codegen::ir::CatchV {
                            kind: ts.cur_kind,
                            binds: ts.cur_binds,
                            body: s1.cur,
                            reachable_at_end: s1.reachable,
                        },
                    ),
                );
            }
        } else {
            lemma_region_ended(s);
        }
    }
}

proof fn lemma_handle_catch(s: GenV, tag: Option<u32>)
    ensures
        leaves_open(s, s.handle_catch(tag), s.frames.len() as int),
{
    lemma_fell_through(s);
    if let Ok(s1) = s.fell_through() {
        if s1.frames.len() > 0 && s1.frames.last().try_state is Some {
            let f = s1.frames.last();
            if let Some(t) = tag {
                if t < s1.ctx.tag_params.len() {
                    let params = s1.ctx.tag_params[t as int];
                    if let Ok(binds) = s1.payload_binds(
                        f.label,
                        f.try_state->0.exc_var,
                        params,
                        params.len(),
                    ) {
                        lemma_pushed(
                            s1.arm_ended(crate::codegen::ir::CatchKind::Tag(t), binds).cut(
                                f.parent_height,
                            ),
                            crate::codegen::func::exceptions::handler_vars(
                                f.label,
                                params,
                                params.len(),
                            ),
                        );
                    }
                }
            }
        }
    }
}

proof fn lemma_payload_encoded(s: GenV, params: Seq<ValType>, n: nat, back: Seq<Seq<char>>)
    ensures
        s.payload_encoded(params, n, back) matches Ok((t, all)) ==> same_shape(s, t),
    decreases n,
{
    if n > 0 && s.has(1) {
        if let Ok(value) = crate::codegen::common::encoded_exc(params[n - 1], s.top().code) {
            lemma_payload_encoded(
                s.drop(1),
                params,
                (n - 1) as nat,
                Seq::empty().push(value) + back,
            );
        }
    }
}

proof fn lemma_emit_throw(s: GenV, tag_index: u32)
    ensures
        leaves_open(s, s.emit_throw(tag_index), s.frames.len() as int),
{
    if tag_index < s.ctx.tag_params.len() {
        let params = s.ctx.tag_params[tag_index as int];
        lemma_payload_encoded(
            (GenV { uses_eh: true, ..s }),
            params,
            params.len(),
            Seq::empty(),
        );
    }
}

proof fn lemma_result_bound(s: GenV, results: Seq<ValType>)
    ensures
        s.result_bound(results) matches Ok((t, prefix, temps)) ==> same_shape(s, t),
{
    lemma_temps_taken(s, results.len());
}

proof fn lemma_called(s: GenV, f: u32, tail: bool)
    ensures
        shaped(s, s.called(f, tail)),
{
    if let Some(sig) = s.ctx.sig(f as int) {
        let n = sig.params.len();
        lemma_survivors(s, n);
        let frozen = if tail {
            Ok(s)
        } else {
            s.survivors_frozen(n)
        };
        if let Ok(s1) = frozen {
            if s1.has(n as int) {
                lemma_result_bound(s1.drop(n as int), sig.results);
                if let Ok((s2, prefix, temps)) = s1.drop(n as int).result_bound(sig.results) {
                    let args = joined(
                        crate::codegen::func::state::codes(s1.tail(n as int)),
                        ", "@,
                    );
                    lemma_pushed(
                        s2.line((prefix + s.ctx.call_text(f as int, args) + ";"@)),
                        temps,
                    );
                }
            }
        }
    }
}

proof fn lemma_called_indirect(s: GenV, type_index: u32, table_index: u32, tail: bool)
    requires
        s.reachable,
    ensures
        leaves_open(
            s,
            s.called_indirect(type_index, table_index, tail),
            s.frames.len() as int,
        ),
{
    if s.ctx.has_table && table_index == 0 && type_index < s.ctx.types.len() {
        let sig = s.ctx.types[type_index as int];
        let n = sig.params.len();
        lemma_survivors(s, 1);
        let frozen = if tail {
            Ok(s)
        } else {
            s.survivors_frozen(1)
        };
        if let Ok(s0) = frozen {
            if s0.has(1) && s0.drop(1).has(n as int) {
                let args = joined(
                    crate::codegen::func::state::codes(s0.drop(1).tail(n as int)),
                    ", "@,
                );
                let s1 = s0.drop(1).drop(n as int);
                if s.ctx.has_target(sig) || s.ctx.has_imports {
                    let s2 = s1.temp_taken().line(
                        ("let "@ + s1.temp() + " = self.table()[("@ + s0.top().code
                            + ") as u32 as usize];"@),
                    ).dispatching(type_index);
                    lemma_result_bound(s2, sig.results);
                    if let Ok((s3, prefix, temps)) = s2.result_bound(sig.results) {
                        let sep = if args.len() == 0 {
                            ""@
                        } else {
                            ", "@
                        };
                        let s4 = s3.line(
                            (prefix + "self.call_ref_t"@ + dec(type_index as nat) + "("@
                                + s1.temp() + sep + args + ");"@),
                        );
                        lemma_pushed(s4, temps);
                        lemma_returned(s4.pushed(temps));
                    }
                }
            }
        }
    }
}

proof fn lemma_decoded_assigned(
    s: GenV,
    targets: Seq<Seq<char>>,
    tys: Seq<ValType>,
    src: Seq<char>,
    n: nat,
)
    ensures
        shaped(s, s.decoded_assigned(targets, tys, src, n)),
    decreases n,
{
    if n > 0 {
        lemma_decoded_assigned(s, targets, tys, src, (n - 1) as nat);
    }
}

proof fn lemma_holders_declared(s: GenV, tys: Seq<ValType>)
    ensures
        s.holders_declared(tys) matches Ok((t, vars)) ==> same_shape(s, t),
    decreases tys.len(),
{
    if tys.len() > 0 {
        lemma_holders_declared(s, tys.drop_last());
    }
}

proof fn lemma_on_label(s: GenV, tag: u32, depth: u32, handle_var: Seq<char>)
    ensures
        shaped(s, s.resumed_on_label(tag, depth, handle_var)),
{
    if tag < s.ctx.tag_params.len() {
        let tys = s.ctx.tag_params[tag as int];
        if let Ok((s1, t)) = s.resolved(depth) {
            let pat = if tys.len() == 0 {
                "_"@
            } else {
                "__pl"@
            };
            lemma_decoded_assigned(
                s1.line(
                    ("StepResult::Suspend { tag: __t, payload: "@ + pat + " } if __t == "@
                        + dec(tag as nat) + "u32 => {"@),
                ),
                t.vars,
                tys,
                "__pl"@,
                tys.len(),
            );
        }
    }
}

proof fn lemma_resume_handled(
    s: GenV,
    handlers: Seq<Handle>,
    n: nat,
    handle_var: Seq<char>,
    cur_var: Seq<char>,
    args_var: Seq<char>,
)
    ensures
        shaped(s, s.resume_handled(handlers, n, handle_var, cur_var, args_var)),
    decreases n,
{
    if n > 0 {
        lemma_resume_handled(s, handlers, (n - 1) as nat, handle_var, cur_var, args_var);
        if let Ok(s1) = s.resume_handled(
            handlers,
            (n - 1) as nat,
            handle_var,
            cur_var,
            args_var,
        ) {
            if let Handle::OnLabel { tag, label } = handlers[n - 1] {
                lemma_on_label(s1, tag, label, handle_var);
            }
        }
    }
}

proof fn lemma_step_matched(
    s: GenV,
    handle_var: Seq<char>,
    args_var: Seq<char>,
    holders: Seq<(Seq<char>, ValType)>,
    results: Seq<ValType>,
    has_switch: bool,
)
    ensures
        shaped(s, s.step_matched(handle_var, args_var, holders, results, has_switch)),
{
    let cur_var = s.temp();
    let s1 = s.temp_taken();
    let opened = if has_switch {
        s1.line(("let mut "@ + cur_var + ": u32 = "@ + handle_var
            + ";"@)).line("'drive: loop {"@).line(
            ("match self.cont_step("@ + cur_var + ", &"@ + args_var + ") {"@),
        )
    } else {
        s1.line(("match self.cont_step("@ + handle_var + ", &"@ + args_var + ") {"@))
    };
    let pat = if results.len() == 0 {
        "_"@
    } else {
        "__vals"@
    };
    lemma_decoded_assigned(
        opened.line(("StepResult::Return("@ + pat + ") => {"@)),
        crate::codegen::frame::names(holders),
        results,
        "__vals"@,
        results.len(),
    );
}

proof fn lemma_resume_operands(s: GenV, params: Seq<ValType>, has_switch: bool)
    ensures
        s.resume_operands(params, has_switch) matches Ok((t, v)) ==> same_shape(s, t),
{
    broadcast use group_in_place;

}

proof fn lemma_resumed(s: GenV, cont_type_index: u32, handlers: Seq<Handle>)
    ensures
        shaped(s, s.resumed(cont_type_index, handlers)),
{
    let has_switch = crate::codegen::func::resume::some_switch(handlers);
    if s.has(1) {
        let s0 = s.drop(1);
        let handle_var = s0.temp();
        if let Ok(sig) = s.ctx.cont_sig(cont_type_index) {
            let s1 = s0.temp_taken().line(("let "@ + handle_var + ": u32 = "@ + s.top().code
                + ";"@));
            lemma_resume_operands(s1, sig.params, has_switch);
            if let Ok((s2, args_var)) = s1.resume_operands(sig.params, has_switch) {
                lemma_holders_declared(s2, sig.results);
                if let Ok((s3, holders)) = s2.holders_declared(sig.results) {
                    lemma_step_matched(
                        s3,
                        handle_var,
                        args_var,
                        holders,
                        sig.results,
                        has_switch,
                    );
                    if let Ok(s4) = s3.step_matched(
                        handle_var,
                        args_var,
                        holders,
                        sig.results,
                        has_switch,
                    ) {
                        lemma_resume_handled(
                            s4,
                            handlers,
                            handlers.len(),
                            handle_var,
                            s3.temp(),
                            args_var,
                        );
                        if let Ok(s5) = s4.resume_handled(
                            handlers,
                            handlers.len(),
                            handle_var,
                            s3.temp(),
                            args_var,
                        ) {
                            let s6 = s5.line(
                                "_ => panic!(\"resume: unhandled continuation suspend tag\"),"@,
                            ).line("}"@);
                            let s7 = if has_switch {
                                s6.line("}"@)
                            } else {
                                s6
                            };
                            lemma_pushed(s7, holders);
                        }
                    }
                }
            }
        }
    }
}

proof fn lemma_resume_thrown(
    s: GenV,
    cont_type_index: u32,
    tag_index: u32,
    handlers: Seq<Handle>,
)
    ensures
        leaves_open(
            s,
            s.resume_thrown(cont_type_index, tag_index, handlers),
            s.frames.len() as int,
        ),
{
    let s1 = s.drop(1);
    lemma_emit_throw(
        s1.temp_taken().line(("let "@ + s1.temp() + ": u32 = "@ + s.top().code + ";"@)).line(
            ("let _ = self.conts["@ + s1.temp() + " as usize].take();"@),
        ),
        tag_index,
    );
}

proof fn lemma_br_on_cast(s: GenV, op: Operator, text: Seq<char>)
    requires
        s.reachable,
        op is BrOnCast || op is BrOnCastFail,
    ensures
        leaves_open(s, s.lowered_control(op, text), s.frames.len() as int),
{
    reveal(GenV::lowered_control);
    let (depth, from_ref_type, to_ref_type, on_success) = match op {
        Operator::BrOnCast { relative_depth, from_ref_type, to_ref_type } => (
            relative_depth,
            from_ref_type,
            to_ref_type,
            true,
        ),
        Operator::BrOnCastFail { relative_depth, from_ref_type, to_ref_type } => (
            relative_depth,
            from_ref_type,
            to_ref_type,
            false,
        ),
        _ => arbitrary(),
    };
    if let Some(target) = s.ctx.object_type(to_ref_type.heap) {
        if s.has(1) {
            let s1 = s.drop(1);
            let test = s.ctx.cast_test(s1.temp(), target, to_ref_type.nullable);
            lemma_branch(
                s1.temp_taken().line(("let "@ + s1.temp() + ": GcRef = "@ + s.top().code
                    + ";"@)).push(
                    s1.temp(),
                    ValType::Ref(
                        if on_success {
                            from_ref_type
                        } else {
                            to_ref_type
                        },
                    ),
                    true,
                ),
                depth,
                Some(
                    if on_success {
                        ("i32::from("@ + test + ")"@)
                    } else {
                        ("i32::from(!("@ + test + "))"@)
                    },
                ),
            );
        }
    }
}

/// The number of open regions behind an instruction, `d` being open before it.
pub open spec fn nested(d: nat, op: Operator) -> nat {
    match op {
        Operator::Block { .. }
        | Operator::Loop { .. }
        | Operator::If { .. }
        | Operator::Try { .. } => d + 1,
        Operator::End => if d > 0 {
            (d - 1) as nat
        } else {
            0
        },
        _ => d,
    }
}

impl GenV {
    /// The number of regions the program point is in, those of skipped code
    /// included.
    pub open spec fn nesting(self) -> nat {
        self.frames.len() + if self.reachable {
            0
        } else {
            self.dead_nesting as nat
        }
    }
}

proof fn lemma_control(s: GenV, op: Operator, text: Seq<char>)
    requires
        s.reachable,
        !(op is BrOnCast || op is BrOnCastFail),
    ensures
        s.lowered_control(op, text) matches Ok(t) ==> same_function(s, t) && deepened(
            s,
            t,
        ) && t.nesting() == nested(s.nesting(), op),
{
    reveal(GenV::lowered_control);
    match op {
        Operator::Block { blockty } => lemma_push_frame(s, FrameKind::Block, blockty, None),
        Operator::Loop { blockty } => lemma_push_frame(s, FrameKind::Loop, blockty, None),
        Operator::If { blockty } => {
            if s.has(1) {
                lemma_push_frame(
                    s.drop(1),
                    FrameKind::If,
                    blockty,
                    Some(crate::codegen::ir::condition_text(s.top().code)),
                );
            }
        },
        Operator::Else => lemma_handle_else(s),
        Operator::End => lemma_handle_end(s),
        Operator::Br { relative_depth } => lemma_branch(s, relative_depth, None),
        Operator::BrIf { relative_depth } => {
            if s.has(1) {
                lemma_branch(s.drop(1), relative_depth, Some(s.top().code));
            }
        },
        Operator::BrTable { targets, default } => lemma_branch_table(s, targets@, default),
        Operator::Return => lemma_returned(s),
        _ => {},
    }
}

proof fn lemma_transfer(s: GenV, op: Operator, text: Seq<char>)
    requires
        s.reachable,
    ensures
        s.lowered_transfer(op, text) matches Ok(t) ==> same_function(s, t) && deepened(
            s,
            t,
        ) && t.nesting() == nested(s.nesting(), op),
{
    reveal(GenV::lowered_transfer);
    match op {
        Operator::Call { function_index } => lemma_called(s, function_index, false),
        Operator::ReturnCall { function_index } => {
            lemma_called(s, function_index, true);
            if let Ok(t) = s.called(function_index, true) {
                lemma_returned(t);
            }
        },
        Operator::CallIndirect { type_index, table_index } => {
            lemma_called_indirect(s, type_index, table_index, false)
        },
        Operator::ReturnCallIndirect { type_index, table_index } => {
            lemma_called_indirect(s, type_index, table_index, true)
        },
        Operator::Try { blockty } => {
            lemma_push_frame(
                (GenV { uses_eh: true, ..s }),
                FrameKind::Block,
                blockty,
                None,
            )
        },
        Operator::Catch { tag_index } => lemma_handle_catch(s, Some(tag_index)),
        Operator::CatchAll => lemma_handle_catch(s, None),
        Operator::Throw { tag_index } => lemma_emit_throw(s, tag_index),
        Operator::Resume { cont_type_index, handlers } => {
            lemma_resumed(s, cont_type_index, handlers@)
        },
        Operator::ResumeThrow { cont_type_index, tag_index, handlers } => {
            lemma_resume_thrown(s, cont_type_index, tag_index, handlers@)
        },
        _ => {},
    }
}

proof fn lemma_skipped(s: GenV, op: Operator)
    requires
        !s.reachable,
    ensures
        s.skipped(op) matches Ok(t) ==> same_function(s, t) && deepened(s, t) && (s.dead_nesting
            < usize::MAX
            ==> t.nesting() == nested(s.nesting(), op)),
{
    if s.dead_nesting == 0 {
        match op {
            Operator::End => lemma_handle_end(s),
            Operator::Else => lemma_handle_else(s),
            Operator::Catch { tag_index } => lemma_handle_catch(s, Some(tag_index)),
            Operator::CatchAll => lemma_handle_catch(s, None),
            _ => {},
        }
    }
}

/// The regions of the generated code follow the nesting of the instructions: each
/// instruction, reachable or skipped, opens or ends the region that it opens or
/// ends in the source, and none other. The function itself (its locals, results
/// and module) stays the same, and the greatest depth grows with the open regions
/// only.
pub proof fn law_nesting(s: GenV, op: Operator, text: Seq<char>)
    ensures
        s.emitted(op, text) matches Ok(t) ==> {
            &&& same_function(s, t)
            &&& deepened(s, t)
            &&& s.reachable || s.dead_nesting < usize::MAX ==> t.nesting() == nested(
                s.nesting(),
                op,
            )
        },
{
    if s.reachable {
        if op is BrOnCast || op is BrOnCastFail {
            lemma_br_on_cast(s, op, text);
        } else {
            lemma_control(s, op, text);
        }
        lemma_transfer(s, op, text);
        if op is Unreachable {
            reveal(GenV::lowered_basic);
        } else {
            law_basic_in_place(s, op, text);
        }
        law_numeric_in_place(s, op, text);
        law_access_in_place(s, op, text);
        law_memory_in_place(s, op, text);
        law_table_in_place(s, op, text);
        law_object_in_place(s, op, text);
    } else {
        lemma_skipped(s, op);
    }
}

} // verus!
