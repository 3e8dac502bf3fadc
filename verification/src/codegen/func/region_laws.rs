//! What enters and leaves the regions of a body.

use vstd::prelude::*;

use crate::codegen::call_laws::topmost;
use crate::codegen::common::{decoded_exc, encoded_exc, EXC_TYPE};
use crate::codegen::frame::BranchEscape;
use crate::codegen::func::branch::{body_of, escape_position, jump_word};
use crate::codegen::func::branch_laws::{
    gives, hands_over, law_conditions_test_for_zero, lemma_hands_over, lemma_pushed_codes, reads,
    tests,
};
use crate::codegen::func::exceptions::{handler_vars, payload_slot};
use crate::codegen::func::keeps::lemma_survivors;
use crate::codegen::func::state::{codes, GenV};
use crate::codegen::func::value_laws::law_freezing_keeps_values;
use crate::codegen::ir::{condition_text, FrameKind, NodeV, RegionV, ValV};
use crate::error::FailV;
use crate::ops::Operator;
use crate::text::{dec, joined};
use crate::wasm::{BlockType, ValType};

verus! {

// ---------------------------------------------------------------------------
// Loops
// ---------------------------------------------------------------------------
/// Whether the node declares the variable `name` with the value of `code`.
pub open spec fn declares_with(n: NodeV, name: Seq<char>, code: Seq<char>) -> bool {
    exists|ty: Seq<char>|
        n == NodeV::Line(#[trigger] ("let mut "@ + name + ": "@ + ty + " = "@ + code + ";"@))
}

/// Whether one of the nodes from `from` on declares the variable so.
pub open spec fn declared_from(
    nodes: Seq<NodeV>,
    from: nat,
    name: Seq<char>,
    code: Seq<char>,
) -> bool {
    exists|k: int| from <= k < nodes.len() && declares_with(#[trigger] nodes[k], name, code)
}

#[verifier::rlimit(40)]
proof fn lemma_looped(s: GenV, h: int, tys: Seq<ValType>)
    requires
        0 <= h,
        h + tys.len() <= s.stack.len(),
    ensures
        s.looped(h, tys) matches Ok((t, vars)) ==> {
            &&& vars.len() == tys.len()
            &&& t.stack.len() == s.stack.len()
            &&& s.cur.is_prefix_of(t.cur)
            &&& t.frames == s.frames
            &&& forall|i: int|
                0 <= i < tys.len() ==> t.stack[h + i].code == (#[trigger] vars[i]).0
                    && declared_from(t.cur, s.cur.len(), vars[i].0, s.stack[h + i].code)
            &&& forall|i: int|
                0 <= i < s.stack.len() && !(h <= i < h + tys.len()) ==> #[trigger] t.stack[i]
                    == s.stack[i]
        },
    decreases tys.len(),
{
    if tys.len() > 0 {
        let front = tys.drop_last();
        lemma_looped(s, h, front);
        if let Ok((t, vars)) = s.looped(h, tys) {
            let (u, before) = s.looped(h, front)->Ok_0;
            let i = h + tys.len() - 1;
            let rty = u.rust_type(tys.last())->Ok_0;
            let k = u.cur.len() as int;
            assert(u.stack[i] == s.stack[i]);
            assert(t.cur[k] == NodeV::Line(
                "let mut "@ + vars.last().0 + ": "@ + rty + " = "@ + s.stack[i].code + ";"@,
            ));
            assert(declares_with(t.cur[k], vars.last().0, s.stack[i].code));
            assert(t.cur.take(s.cur.len() as int) =~= u.cur.take(s.cur.len() as int));
            assert forall|j: int| 0 <= j < tys.len() implies t.stack[h + j].code == (
            #[trigger] vars[j]).0 && declared_from(
                t.cur,
                s.cur.len(),
                vars[j].0,
                s.stack[h + j].code,
            ) by {
                if j < tys.len() - 1 {
                    assert(vars[j] == before[j]);
                    assert(t.stack[h + j] == u.stack[h + j]);
                    let m = choose|m: int|
                        s.cur.len() <= m < u.cur.len() && declares_with(
                            #[trigger] u.cur[m],
                            before[j].0,
                            s.stack[h + j].code,
                        );
                    assert(t.cur[m] == u.cur[m]);
                }
            }
        }
    }
}

proof fn lemma_declared_frames(s: GenV, tys: Seq<ValType>)
    ensures
        s.declared(tys) matches Ok((t, vars)) ==> {
            &&& vars.len() == tys.len()
            &&& s.cur.is_prefix_of(t.cur)
            &&& t.stack == s.stack
            &&& t.frames == s.frames
        },
    decreases tys.len(),
{
    if tys.len() > 0 {
        lemma_declared_frames(s, tys.drop_last());
    }
}

/// A loop starts with its operands: each of its parameters is a variable that is
/// declared in front of the loop with the value of the operand at its place, and that
/// is the operand inside the loop.
#[verifier::rlimit(40)]
pub proof fn law_loops_start_with_their_operands(
    s: GenV,
    blockty: BlockType,
    text: Seq<char>,
    t: GenV,
)
    requires
        s.reachable,
        s.emitted(Operator::Loop { blockty }, text) == Ok::<GenV, FailV>(t),
    ensures
        s.spilled() matches Ok(u) && {
            let f = t.frames.last();
            let n = f.loop_params.len();
            &&& t.frames.len() == s.frames.len() + 1
            &&& f.kind == FrameKind::Loop
            &&& t.cur.len() == 0
            &&& u.stack.len() >= n
            &&& t.stack.len() == u.stack.len()
            &&& s.block_signature(blockty) matches Ok(sig) && n == sig.params.len()
            &&& forall|i: int|
                0 <= i < n ==> t.stack[t.stack.len() - n + i].code == (
                #[trigger] f.loop_params[i]).0 && declared_from(
                    f.parent_buffer,
                    u.cur.len(),
                    f.loop_params[i].0,
                    u.stack[u.stack.len() - n + i].code,
                )
            &&& forall|i: int|
                0 <= i < t.stack.len() - n ==> #[trigger] t.stack[i] == u.stack[i]
        },
{
    reveal(GenV::lowered_control);
    law_freezing_keeps_values(s, 0);
    lemma_survivors(s, 0);
    let sig = s.block_signature(blockty)->Ok_0;
    let u = s.spilled()->Ok_0;
    let h = u.stack.len() - sig.params.len();
    lemma_looped(u, h, sig.params);
    let (v, params) = u.looped(h, sig.params)->Ok_0;
    lemma_declared_frames(v, sig.results);
    let (w, results) = v.declared(sig.results)->Ok_0;
    assert(t == w.opened(
        FrameKind::Loop,
        results,
        u.stack.skip(h),
        params,
        h as usize,
        None,
    ));
    let f = t.frames.last();
    let n = params.len();
    assert(f.loop_params == params && f.parent_buffer == w.cur);
    assert forall|i: int| 0 <= i < n implies t.stack[t.stack.len() - n + i].code == (
    #[trigger] f.loop_params[i]).0 && declared_from(
        f.parent_buffer,
        u.cur.len(),
        f.loop_params[i].0,
        u.stack[u.stack.len() - n + i].code,
    ) by {
        let m = choose|m: int|
            u.cur.len() <= m < v.cur.len() && declares_with(
                #[trigger] v.cur[m],
                params[i].0,
                u.stack[h + i].code,
            );
        assert(w.cur[m] == v.cur[m]);
    }
}

// ---------------------------------------------------------------------------
// Conditionals
// ---------------------------------------------------------------------------
/// `if` asks whether the top operand is not zero, and both of its arms start with the
/// operands below.
#[verifier::rlimit(40)]
pub proof fn law_if_asks_its_operand(s: GenV, blockty: BlockType, text: Seq<char>, t: GenV)
    requires
        s.reachable,
        s.emitted(Operator::If { blockty }, text) == Ok::<GenV, FailV>(t),
        s.stack.len() <= usize::MAX,
    ensures
        s.stack.len() > 0,
        t.frames.len() == s.frames.len() + 1,
        t.frames.last().kind == FrameKind::If,
        t.frames.last().then_buffer is None,
        t.frames.last().cond matches Some(c) && tests(c, s.stack.last().code),
        t.stack.len() == s.stack.len() - 1,
        t.frames.last().parent_height + t.frames.last().entry_params.len() == t.stack.len(),
        t.stack == t.stack.take(t.frames.last().parent_height as int)
            + t.frames.last().entry_params,
{
    lemma_unfold_if(s, blockty, text);
    let d = s.drop(1);
    let c = condition_text(s.top().code);
    law_conditions_test_for_zero(s.top().code);
    law_freezing_keeps_values(d, 0);
    lemma_survivors(d, 0);
    let u = d.spilled()->Ok_0;
    let sig = d.block_signature(blockty)->Ok_0;
    lemma_declared_frames(u, sig.results);
    let h = u.stack.len() - sig.params.len();
    let (w, results) = u.declared(sig.results)->Ok_0;
    assert(t == w.opened(
        FrameKind::If,
        results,
        u.stack.skip(h),
        Seq::empty(),
        h as usize,
        Some(c),
    ));
    assert(u.stack =~= u.stack.take(h) + u.stack.skip(h));
}

proof fn lemma_unfold_if(s: GenV, blockty: BlockType, text: Seq<char>)
    requires
        s.reachable,
    ensures
        s.emitted(Operator::If { blockty }, text) == s.open_if(blockty),
{
    reveal(GenV::lowered_control);
}

/// `else` ends the first arm, which hands its topmost operands to the results, and
/// begins the second one with the operands that the `if` began with.
pub proof fn law_else_begins_the_other_arm(s: GenV, text: Seq<char>, t: GenV)
    requires
        s.reachable,
        s.frames.len() > 0,
        s.emitted(Operator::Else, text) == Ok::<GenV, FailV>(t),
        s.frames.last().parent_height <= s.stack.len() - s.frames.last().results.len(),
    ensures
        t.frames.len() == s.frames.len(),
        t.frames.last().then_buffer matches Some(nodes) && hands_over(
            s,
            GenV { cur: nodes, ..s },
            s.frames.last().results,
            0,
        ),
        t.frames.last().cond == s.frames.last().cond,
        t.cur.len() == 0,
        t.reachable,
        t.stack == s.stack.take(s.frames.last().parent_height as int)
            + s.frames.last().entry_params,
{
    reveal(GenV::lowered_control);
    let f = s.frames.last();
    lemma_hands_over(s, f.results);
    let u = s.fell_through()->Ok_0;
    assert(u.stack == s.stack.take(s.stack.len() - f.results.len()));
    assert(u.stack.take(f.parent_height as int) =~= s.stack.take(f.parent_height as int));
}

#[verifier::rlimit(40)]
proof fn lemma_forwarded(
    s: GenV,
    results: Seq<(Seq<char>, ValType)>,
    params: Seq<ValV>,
    n: nat,
)
    requires
        n <= results.len(),
        n <= params.len(),
    ensures
        s.forwarded(results, params, n) matches Ok(els) ==> els.len() == n && forall|i: int|
            0 <= i < n ==> gives(#[trigger] els[i], results[i].0, params[i]),
    decreases n,
{
    if n > 0 {
        lemma_forwarded(s, results, params, (n - 1) as nat);
        if let Ok(els) = s.forwarded(results, params, n) {
            let front = s.forwarded(results, params, (n - 1) as nat)->Ok_0;
            let value = s.moved(params[n - 1])->Ok_0;
            assert(reads(value, params[n - 1]));
            assert forall|i: int| 0 <= i < n implies gives(
                #[trigger] els[i],
                results[i].0,
                params[i],
            ) by {
                if i < n - 1 {
                    assert(els[i] == front[i]);
                }
            }
        }
    }
}

/// The end of an `if` puts its arms where its condition leads: the nodes in front of
/// `else` are run where the condition holds, those behind it where it does not. Without
/// an `else`, the results are the parameters.
#[verifier::rlimit(40)]
pub proof fn law_if_arms_are_in_place(s: GenV, t: GenV)
    requires
        s.frames.len() > 0,
        s.reachable,
        s.frames.last().kind == FrameKind::If,
        s.region_ended() == Ok::<GenV, FailV>(t),
    ensures
        t.cur.len() == s.frames.last().parent_buffer.len() + 1,
        t.cur.take(s.frames.last().parent_buffer.len() as int) == s.frames.last().parent_buffer,
        t.cur.last() matches NodeV::Region(r) && {
            let f = s.frames.last();
            let own = if f.then_buffer is Some {
                r.els
            } else {
                Some(r.body)
            };
            &&& r.kind == FrameKind::If
            &&& r.label == f.label
            &&& r.targeted == f.targeted
            &&& r.cond == f.cond
            &&& f.then_buffer matches Some(nodes) ==> r.body == nodes
            &&& own matches Some(nodes) && hands_over(s, GenV { cur: nodes, ..s }, f.results, 0)
            &&& f.then_buffer is None && f.results.len() == f.entry_params.len()
                && f.results.len() > 0 ==> (r.els matches Some(els) && els.len() == f.results.len()
                && forall|i: int|
                0 <= i < els.len() ==> gives(
                    #[trigger] els[i],
                    f.results[i].0,
                    f.entry_params[i],
                ))
        },
        forall|i: int|
            0 <= i < s.frames.last().results.len() ==> t.stack[t.stack.len()
                - s.frames.last().results.len() + i].code == (
            #[trigger] s.frames.last().results[i]).0,
{
    let f = s.frames.last();
    lemma_hands_over(s, f.results);
    let u = s.fell_through()->Ok_0;
    let n = if f.results.len() < f.entry_params.len() {
        f.results.len()
    } else {
        f.entry_params.len()
    };
    lemma_forwarded(u, f.results, f.entry_params, n);
    let (body, els) = u.region_arms(f, u.cur)->Ok_0;
    let region = RegionV {
        kind: f.kind,
        label: f.label,
        targeted: f.targeted,
        reachable_at_end: true,
        cond: f.cond,
        body,
        els,
    };
    let w = GenV {
        cur: f.parent_buffer.push(NodeV::Region(region)),
        ..u.frame_ended()
    }.cut(f.parent_height);
    lemma_pushed_codes(w, f.results);
    assert(t.cur == w.cur);
    assert(t.cur.take(f.parent_buffer.len() as int) =~= f.parent_buffer);
}

// ---------------------------------------------------------------------------
// Exceptions
// ---------------------------------------------------------------------------
#[verifier::rlimit(40)]
proof fn lemma_payload(s: GenV, params: Seq<ValType>, n: nat, back: Seq<Seq<char>>)
    requires
        n <= params.len(),
    ensures
        s.payload_encoded(params, n, back) matches Ok((t, all)) ==> {
            &&& s.stack.len() >= n
            &&& t.cur == s.cur
            &&& all.len() == n + back.len()
            &&& all.skip(n as int) == back
            &&& forall|i: int|
                0 <= i < n ==> encoded_exc(params[i], s.stack[s.stack.len() - n + i].code) == Ok::<
                    Seq<char>,
                    FailV,
                >(#[trigger] all[i])
        },
    decreases n,
{
    if n > 0 && s.has(1) {
        if let Ok(value) = encoded_exc(params[n - 1], s.top().code) {
            let d = s.drop(1);
            let more = Seq::empty().push(value) + back;
            lemma_payload(d, params, (n - 1) as nat, more);
            if let Ok((t, all)) = s.payload_encoded(params, n, back) {
                assert(all.skip(n - 1)[0] == all[n - 1]);
                assert(all.skip(n as int) =~= all.skip(n - 1).skip(1));
                assert(more.skip(1) =~= back);
                assert forall|i: int| 0 <= i < n implies encoded_exc(
                    params[i],
                    s.stack[s.stack.len() - n + i].code,
                ) == Ok::<Seq<char>, FailV>(#[trigger] all[i]) by {
                    if i < n - 1 {
                        assert(d.stack[d.stack.len() - (n - 1) + i] == s.stack[s.stack.len() - n
                            + i]);
                    }
                }
            }
        }
    } else if n == 0 {
        assert(back.skip(0) =~= back);
    }
}

/// `throw` carries the topmost operands, in their order and with the tag it names.
pub proof fn law_throw_carries_operands(s: GenV, tag: u32, text: Seq<char>, t: GenV)
    requires
        s.reachable,
        s.emitted(Operator::Throw { tag_index: tag }, text) == Ok::<GenV, FailV>(t),
    ensures
        tag < s.ctx.tag_params.len(),
        !t.reachable,
        exists|values: Seq<Seq<char>>|
            {
                &&& t.cur == s.cur.push(
                    NodeV::Term(
                        "::std::panic::panic_any("@ + EXC_TYPE@ + " { tag: "@ + dec(tag as nat)
                            + "u32, values: vec!["@ + #[trigger] joined(values, ", "@) + "] });"@,
                    ),
                )
                &&& values.len() == s.ctx.tag_params[tag as int].len()
                &&& s.stack.len() >= values.len()
                &&& forall|i: int|
                    0 <= i < values.len() ==> encoded_exc(
                        s.ctx.tag_params[tag as int][i],
                        s.stack[s.stack.len() - values.len() + i].code,
                    ) == Ok::<Seq<char>, FailV>(#[trigger] values[i])
            },
{
    reveal(GenV::lowered_transfer);
    let params = s.ctx.tag_params[tag as int];
    let u = GenV { uses_eh: true, ..s };
    lemma_payload(u, params, params.len(), Seq::empty());
    let (v, values) = u.payload_encoded(params, params.len(), Seq::empty())->Ok_0;
    assert(t.cur == s.cur.push(
        NodeV::Term(
            "::std::panic::panic_any("@ + EXC_TYPE@ + " { tag: "@ + dec(tag as nat)
                + "u32, values: vec!["@ + joined(values, ", "@) + "] });"@,
        ),
    ));
}

#[verifier::rlimit(40)]
proof fn lemma_binds(
    s: GenV,
    label: usize,
    exc_var: Seq<char>,
    params: Seq<ValType>,
    n: nat,
)
    requires
        n <= params.len(),
    ensures
        s.payload_binds(label, exc_var, params, n) matches Ok(binds) ==> binds.len() == n
            && forall|i: int|
            0 <= i < n ==> binds_slot(
                #[trigger] binds[i],
                handler_vars(label, params, params.len())[i].0,
                params[i],
                payload_slot(exc_var, i as nat),
            ),
    decreases n,
{
    if n > 0 {
        lemma_binds(s, label, exc_var, params, (n - 1) as nat);
        if let Ok(binds) = s.payload_binds(label, exc_var, params, n) {
            let front = s.payload_binds(label, exc_var, params, (n - 1) as nat)->Ok_0;
            let i = n - 1;
            let rty = s.rust_type(params[i])->Ok_0;
            let value = decoded_exc(params[i], payload_slot(exc_var, i as nat))->Ok_0;
            let name = handler_vars(label, params, params.len())[i].0;
            assert(handler_vars(label, params, n)[i].0 == name);
            assert(binds[i] == "let "@ + name + ": "@ + rty + " = "@ + value + ";"@);
            assert forall|j: int| 0 <= j < n implies binds_slot(
                #[trigger] binds[j],
                handler_vars(label, params, params.len())[j].0,
                params[j],
                payload_slot(exc_var, j as nat),
            ) by {
                if j < n - 1 {
                    assert(binds[j] == front[j]);
                }
            }
        }
    }
}

/// Whether the line binds the value in the slot, of the given type, to the variable.
pub open spec fn binds_slot(
    line: Seq<char>,
    name: Seq<char>,
    ty: ValType,
    slot: Seq<char>,
) -> bool {
    decoded_exc(ty, slot) matches Ok(value) && exists|rty: Seq<char>|
        line == #[trigger] ("let "@ + name + ": "@ + rty + " = "@ + value + ";"@)
}

/// `catch` receives what `throw` carries: the handler's operands are the payload's
/// values, in their order.
#[verifier::rlimit(40)]
pub proof fn law_catch_receives_operands(s: GenV, tag: u32, t: GenV)
    requires
        s.frames.len() > 0,
        s.frames.last().try_state is Some,
        s.frames.last().parent_height + s.frames.last().results.len() <= s.stack.len(),
        s.handle_catch(Some(tag)) == Ok::<GenV, FailV>(t),
    ensures
        tag < s.ctx.tag_params.len(),
        t.reachable,
        t.frames.len() == s.frames.len(),
        t.frames.last().try_state matches Some(ts) && {
            let params = s.ctx.tag_params[tag as int];
            let n = params.len();
            &&& ts.cur_kind == crate::codegen::ir::CatchKind::Tag(tag)
            &&& ts.cur_binds.len() == n
            &&& t.stack.len() == s.frames.last().parent_height + n
            &&& forall|i: int|
                0 <= i < n ==> binds_slot(
                    #[trigger] ts.cur_binds[i],
                    t.stack[t.stack.len() - n + i].code,
                    params[i],
                    payload_slot((s.frames.last().try_state->0).exc_var, i as nat),
                )
        },
{
    let f = s.frames.last();
    lemma_hands_over(s, f.results);
    let u = s.fell_through()->Ok_0;
    let params = s.ctx.tag_params[tag as int];
    let exc_var = (f.try_state->0).exc_var;
    lemma_assigned_ctx(s, crate::codegen::frame::names(f.results));
    lemma_binds(u, f.label, exc_var, params, params.len());
    let binds = u.payload_binds(f.label, exc_var, params, params.len())->Ok_0;
    let w = u.arm_ended(crate::codegen::ir::CatchKind::Tag(tag), binds).cut(f.parent_height);
    let vars = handler_vars(f.label, params, params.len());
    lemma_pushed_codes(w, vars);
    lemma_pushed_frames(w, vars);
    assert forall|i: int| 0 <= i < params.len() implies t.stack[t.stack.len() - params.len()
        + i].code == #[trigger] vars[i].0 by {}
}

proof fn lemma_assigned_ctx(s: GenV, vars: Seq<Seq<char>>)
    ensures
        s.assigned(vars) matches Ok(t) ==> t.ctx == s.ctx && t.frames == s.frames,
    decreases vars.len(),
{
    if vars.len() > 0 && s.has(1) {
        if let Ok(value) = s.moved(s.top()) {
            lemma_assigned_ctx(
                s.drop(1).line(vars.last() + " = "@ + value + ";"@),
                vars.drop_last(),
            );
        }
    }
}

proof fn lemma_pushed_frames(s: GenV, vars: Seq<(Seq<char>, ValType)>)
    ensures
        s.pushed(vars).frames == s.frames,
    decreases vars.len(),
{
    if vars.len() > 0 {
        lemma_pushed_frames(s, vars.drop_last());
    }
}

proof fn lemma_position(escapes: Seq<BranchEscape>, target: usize)
    ensures
        escape_position(escapes, target) <= escapes.len(),
        escape_position(escapes, target) < escapes.len() ==> escapes[escape_position(
            escapes,
            target,
        ) as int].target_idx == target,
    decreases escapes.len(),
{
    if escapes.len() > 0 && escapes.first().target_idx != target {
        lemma_position(escapes.skip(1), target);
        let p = escape_position(escapes.skip(1), target);
        if p < escapes.len() - 1 {
            assert(escapes.skip(1)[p as int] == escapes[p as int + 1]);
        }
    }
}

/// A branch out of a `try` body finds its target: the code by which it leaves is the
/// number of an entry for that target in the list from which the `try` issues it again.
pub proof fn law_escapes_are_recorded(
    s: GenV,
    target: usize,
    is_loop: bool,
    label: usize,
    t: GenV,
    code: u32,
    out: usize,
)
    requires
        s.escape_recorded(target, is_loop, label) == Ok::<(GenV, u32, usize), FailV>(
            (t, code, out),
        ),
    ensures
        body_of(s.try_barriers) matches Some(at) && at < t.frames.len() && out
            == t.frames[at as int].label && (t.frames[at as int].try_state matches Some(ts) && {
            &&& 0 < code <= ts.escapes.len()
            &&& ts.escapes[code - 1].target_idx == target
            &&& (s.frames[at as int].try_state->0).escapes.is_prefix_of(ts.escapes)
            &&& (s.frames[at as int].try_state->0).escapes.len() < code ==> ts.escapes[code
                - 1].label == label && ts.escapes[code - 1].is_loop == is_loop
        }),
{
    let at = body_of(s.try_barriers)->0;
    let ts = s.frames[at as int].try_state->0;
    lemma_position(ts.escapes, target);
}

/// Behind a `try`, each recorded branch is issued again: the outcome number `k` goes to
/// the region of the entry `k`.
#[verifier::rlimit(40)]
pub proof fn law_escapes_are_issued(
    s: GenV,
    label: usize,
    escapes: Seq<BranchEscape>,
    n: nat,
    t: GenV,
)
    requires
        n <= escapes.len(),
        body_of(s.try_barriers) is None,
        s.try_barriers.len() == 0,
        s.outcomes_dispatched(label, escapes, n) == Ok::<GenV, FailV>(t),
    ensures
        t.cur.len() == s.cur.len() + 3 * n,
        s.cur.is_prefix_of(t.cur),
        t.try_barriers == s.try_barriers,
        forall|k: int|
            0 <= k < n ==> issues(t.cur, s.cur.len() + 3 * k, label, k + 1, #[trigger] escapes[k]),
    decreases n,
{
    if n > 0 {
        let u = s.outcomes_dispatched(label, escapes, (n - 1) as nat)->Ok_0;
        law_escapes_are_issued(s, label, escapes, (n - 1) as nat, u);
        let from = u.cur.len() as int;
        assert(!u.escapes_try(escapes[n - 1].target_idx as int));
        assert(t.cur.take(from) =~= u.cur);
        lemma_jump_text(escapes[n - 1]);
        assert forall|k: int| 0 <= k < n implies issues(
            t.cur,
            s.cur.len() + 3 * k,
            label,
            k + 1,
            #[trigger] escapes[k],
        ) by {
            if k < n - 1 {
                let at = s.cur.len() + 3 * k;
                assert(t.cur[at] == u.cur[at] && t.cur[at + 1] == u.cur[at + 1] && t.cur[at + 2]
                    == u.cur[at + 2]);
            }
        }
    } else {
        assert(s.cur.is_prefix_of(s.cur));
    }
}

/// Whether the three nodes from `at` on test for the outcome `k` and go where the entry
/// says.
pub open spec fn issues(
    nodes: Seq<NodeV>,
    at: int,
    label: usize,
    k: int,
    esc: BranchEscape,
) -> bool {
    &&& 0 <= at && at + 3 <= nodes.len()
    &&& nodes[at] == NodeV::Line(
        "if __out"@ + dec(label as nat) + " == "@ + dec(k as nat) + "u32 {"@,
    )
    &&& nodes[at + 1] == NodeV::Line(
        if esc.is_loop {
            "continue 'l"@ + dec(esc.label as nat) + ";"@
        } else {
            "break 'l"@ + dec(esc.label as nat) + ";"@
        },
    )
    &&& nodes[at + 2] == NodeV::Line("}"@)
}

proof fn lemma_jump_text(esc: BranchEscape)
    ensures
        (jump_word(esc.is_loop) + " 'l"@ + dec(esc.label as nat) + ";"@) == if esc.is_loop {
            "continue 'l"@ + dec(esc.label as nat) + ";"@
        } else {
            "break 'l"@ + dec(esc.label as nat) + ";"@
        },
{
    reveal_strlit("continue 'l");
    reveal_strlit("break 'l");
    reveal_strlit("continue");
    reveal_strlit("break");
    reveal_strlit(" 'l");
    assert("continue 'l"@ =~= "continue"@ + " 'l"@);
    assert("break 'l"@ =~= "break"@ + " 'l"@);
}

// ---------------------------------------------------------------------------
// The end of a function
// ---------------------------------------------------------------------------
/// Where control falls off the end of a function, it gives the topmost operands, as
/// many as it has results, in order: one as it is, several as a tuple.
pub proof fn law_functions_end_with_operands(s: GenV, t: GenV)
    requires
        s.reachable,
        s.end_function() == Ok::<GenV, FailV>(t),
    ensures
        s.results.len() == 0 ==> t.trailing is None,
        s.results.len() > 0 ==> s.stack.len() >= s.results.len() && t.trailing == Some(
            if s.results.len() == 1 {
                s.stack.last().code
            } else {
                "("@ + joined(topmost(s.stack, s.results.len()), ", "@) + ")"@
            },
        ),
{
    let n = s.results.len();
    let all = codes(s.tail(n as int));
    assert(n > 0 && s.has(n as int) ==> all =~= topmost(s.stack, n));
    if n == 1 {
        assert(joined(all, ", "@) == all[0]);
    }
}

} // verus!
