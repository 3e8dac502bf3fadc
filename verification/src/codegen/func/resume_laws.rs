//! A `resume` answers each outcome of a step by the handler that names it.

use vstd::prelude::*;

use crate::codegen::frame::{names, FrameV};
use crate::codegen::func::branch_laws::{
    branch_region, lemma_pushed_codes, lemma_resolved, receivers, same_receivers,
};
use crate::codegen::func::keeps::lemma_survivors;
use crate::codegen::func::resume::{decoded64, encoded_upto, some_switch};
use crate::codegen::func::state::{codes, GenV};
use crate::codegen::func::value_laws::law_freezing_keeps_values;
use crate::codegen::ir::{FrameKind, NodeV};
use crate::codegen::scan::{is_digit, occurs_at};
use crate::codegen::text_laws::law_numbers_read_back;
use crate::error::FailV;
use crate::ops::{Handle, Operator};
use crate::text::{dec, joined};
use crate::wasm::ValType;

verus! {

/// How a step of a continuation can end.
pub enum OutcomeV {
    Return,
    Suspend(nat),
    Switch(nat),
}

/// An arm of the emitted `match`: the line that opens it, and the lines up to the one
/// that closes it.
pub struct StepArmV {
    pub head: Seq<char>,
    pub body: Seq<Seq<char>>,
}

/// The lines of arms, one behind the other.
pub open spec fn arm_lines(arms: Seq<StepArmV>) -> Seq<Seq<char>>
    decreases arms.len(),
{
    if arms.len() == 0 {
        Seq::empty()
    } else {
        arm_lines(arms.drop_last()).push(arms.last().head) + arms.last().body.push("}"@)
    }
}

/// Whether every line inside an arm is a statement, so that the arms can be told apart.
pub open spec fn plain_body(body: Seq<Seq<char>>) -> bool {
    forall|i: int|
        0 <= i < body.len() ==> (#[trigger] body[i]).len() > 0 && body[i].last() == ';'
}

/// Whether the head is the pattern, and a guard that compares the tag with a number by
/// the given operator.
pub open spec fn guarded(
    head: Seq<char>,
    pattern: Seq<char>,
    rest: Seq<char>,
    op: Seq<char>,
    n: nat,
) -> bool {
    head == pattern + rest + " if __t "@ + op + " "@ + dec(n) + "u32 => {"@
}

/// Whether the guard of a head with this pattern holds of the tag `k`.
pub open spec fn lets_in(head: Seq<char>, pattern: Seq<char>, k: nat) -> bool {
    ||| exists|rest: Seq<char>, n: nat| #[trigger]
        guarded(head, pattern, rest, "=="@, n) && k == n
    ||| exists|rest: Seq<char>, n: nat| #[trigger]
        guarded(head, pattern, rest, "!="@, n) && k != n
}

/// Whether an arm with this head takes the outcome.
pub open spec fn takes(head: Seq<char>, o: OutcomeV) -> bool {
    match o {
        OutcomeV::Return => occurs_at(head, 0, "StepResult::Return("@),
        OutcomeV::Suspend(k) => lets_in(head, "StepResult::Suspend { tag: __t, "@, k),
        OutcomeV::Switch(k) => lets_in(head, "StepResult::Switch { tag: __t, "@, k),
    }
}

/// The arm that the outcome goes to, searched from `i` on: the first that takes it.
pub open spec fn arm_taken(arms: Seq<StepArmV>, i: int, o: OutcomeV) -> Option<int>
    decreases arms.len() - i,
{
    if i < 0 || i >= arms.len() {
        None
    } else if takes(arms[i].head, o) {
        Some(i)
    } else {
        arm_taken(arms, i + 1, o)
    }
}

/// Whether the handler is meant for the outcome.
pub open spec fn names_outcome(h: Handle, o: OutcomeV) -> bool {
    match (h, o) {
        (Handle::OnLabel { tag, .. }, OutcomeV::Suspend(k)) => tag == k,
        (Handle::OnSwitch { tag }, OutcomeV::Switch(k)) => tag == k,
        _ => false,
    }
}

/// The first handler from `i` on that is meant for the outcome.
pub open spec fn handler_for(handlers: Seq<Handle>, i: int, o: OutcomeV) -> Option<int>
    decreases handlers.len() - i,
{
    if i < 0 || i >= handlers.len() {
        None
    } else if names_outcome(handlers[i], o) {
        Some(i)
    } else {
        handler_for(handlers, i + 1, o)
    }
}

/// A slot of an array of values.
pub open spec fn slot(array: Seq<char>, i: nat) -> Seq<char> {
    array + "["@ + dec(i) + "]"@
}

/// Whether the line assigns to `name` the value in the slot `i` of the array.
pub open spec fn unpacks(line: Seq<char>, name: Seq<char>, array: Seq<char>, i: nat) -> bool {
    exists|ty: ValType|
        decoded64(slot(array, i), ty) is Ok && line == name + " = "@ + (#[trigger] decoded64(
            slot(array, i),
            ty,
        ))->Ok_0 + ";"@
}

/// Whether the body of an arm hands the payload and then the continuation to the
/// variables of the region `f`, in their order, and goes there.
pub open spec fn delivers(body: Seq<Seq<char>>, f: FrameV, handle_var: Seq<char>) -> bool {
    let vars = receivers(f);
    let n = vars.len() as int;
    &&& n > 0
    &&& body.len() == n + 1
    &&& forall|i: int|
        0 <= i < n - 1 ==> unpacks(#[trigger] body[i], vars[i].0, "__pl"@, i as nat)
    &&& body[n - 1] == vars[n - 1].0 + " = "@ + handle_var + ";"@
    &&& body[n] == if f.kind == FrameKind::Loop {
        "continue 'l"@ + dec(f.label as nat) + ";"@
    } else {
        "break 'l"@ + dec(f.label as nat) + ";"@
    }
}

/// Whether the arm is that of the handler: it takes what the handler is meant for and
/// nothing else, and what it does follows the handler.
pub open spec fn arm_of(s: GenV, h: Handle, handle_var: Seq<char>, arm: StepArmV) -> bool {
    &&& forall|o: OutcomeV| takes(arm.head, o) == #[trigger] names_outcome(h, o)
    &&& plain_body(arm.body)
    &&& h matches Handle::OnLabel { tag, label } ==> label < s.frames.len() && delivers(
        arm.body,
        branch_region(s, label),
        handle_var,
    )
}

#[verifier::rlimit(40)]
proof fn lemma_number_before(a: Seq<char>, n: nat, b: Seq<char>, k: nat)
    requires
        a.len() > 0,
        b.len() > 0,
        !is_digit(a.last()),
        !is_digit(b.last()),
        a + dec(n) == b + dec(k),
    ensures
        n == k,
        a == b,
{
    law_numbers_read_back(n);
    law_numbers_read_back(k);
    let x = a + dec(n);
    let y = b + dec(k);
    assert(x.len() == a.len() + dec(n).len() && y.len() == b.len() + dec(k).len());
    if a.len() < b.len() {
        let p = b.len() - 1;
        assert(y[p] == b.last());
        assert(x[p] == dec(n)[p - a.len()]);
    } else if b.len() < a.len() {
        let p = a.len() - 1;
        assert(x[p] == a.last());
        assert(y[p] == dec(k)[p - b.len()]);
    }
    assert(dec(n) =~= x.skip(a.len() as int));
    assert(dec(k) =~= y.skip(b.len() as int));
    assert(a =~= x.take(a.len() as int));
    assert(b =~= y.take(b.len() as int));
}

#[verifier::rlimit(40)]
proof fn lemma_guards(
    p: Seq<char>,
    r: Seq<char>,
    n: nat,
    q: Seq<char>,
    r2: Seq<char>,
    op: Seq<char>,
    k: nat,
    head: Seq<char>,
)
    requires
        guarded(head, p, r, "=="@, n),
        guarded(head, q, r2, op, k),
        op == "=="@ || op == "!="@,
    ensures
        n == k,
        op == "=="@,
{
    reveal_strlit(" ");
    reveal_strlit("u32 => {");
    reveal_strlit("==");
    reveal_strlit("!=");
    let a = p + r + " if __t "@ + "=="@ + " "@;
    let b = q + r2 + " if __t "@ + op + " "@;
    let end = "u32 => {"@;
    let x = a + dec(n);
    let y = b + dec(k);
    assert(head == x + end && head == y + end);
    assert(x =~= head.take(head.len() - end.len()));
    assert(y =~= head.take(head.len() - end.len()));
    assert(a.last() == ' ' && b.last() == ' ');
    lemma_number_before(a, n, b, k);
    assert(a[a.len() - 3] == '=');
    assert(b[b.len() - 3] == op[0]);
}

/// What a head with a guard `==` takes.
#[verifier::rlimit(40)]
proof fn lemma_head_takes(head: Seq<char>, suspend: bool, rest: Seq<char>, n: nat)
    requires
        guarded(
            head,
            if suspend {
                "StepResult::Suspend { tag: __t, "@
            } else {
                "StepResult::Switch { tag: __t, "@
            },
            rest,
            "=="@,
            n,
        ),
    ensures
        forall|o: OutcomeV| #[trigger]
            takes(head, o) == (o == if suspend {
                OutcomeV::Suspend(n)
            } else {
                OutcomeV::Switch(n)
            }),
{
    let p = "StepResult::Suspend { tag: __t, "@;
    let q = "StepResult::Switch { tag: __t, "@;
    let r = "StepResult::Return("@;
    reveal_strlit("StepResult::Suspend { tag: __t, ");
    reveal_strlit("StepResult::Switch { tag: __t, ");
    reveal_strlit("StepResult::Return(");
    let own = if suspend {
        p
    } else {
        q
    };
    assert(head[12] == 'S');
    assert(head[13] == own[13]);
    assert(!occurs_at(head, 0, r)) by {
        if occurs_at(head, 0, r) {
            assert(head.subrange(0, r.len() as int)[12] == r[12]);
        }
    }
    assert forall|k: nat| #[trigger] lets_in(head, own, k) == (k == n) by {
        if lets_in(head, own, k) {
            let (rest2, m, op) = lemma_guard_of(head, own, k);
            lemma_guards(own, rest, n, own, rest2, op, m, head);
            reveal_strlit("==");
            reveal_strlit("!=");
            assert("=="@[0] == '=' && "!="@[0] == '!');
        }
        if k == n {
            assert(guarded(head, own, rest, "=="@, n) && k == n);
        }
    }
    let other = if suspend {
        q
    } else {
        p
    };
    assert forall|k: nat| !#[trigger] lets_in(head, other, k) by {
        if lets_in(head, other, k) {
            let (rest2, m, op) = lemma_guard_of(head, other, k);
            assert(head[13] == other[13]);
        }
    }
}

proof fn lemma_guard_of(head: Seq<char>, pattern: Seq<char>, k: nat) -> (r: (
    Seq<char>,
    nat,
    Seq<char>,
))
    requires
        lets_in(head, pattern, k),
    ensures
        guarded(head, pattern, r.0, r.2, r.1),
        r.2 == "=="@ && k == r.1 || r.2 == "!="@ && k != r.1,
{
    if exists|rest: Seq<char>, n: nat| #[trigger]
        guarded(head, pattern, rest, "=="@, n) && k == n {
        let (rest, n) = choose|rest: Seq<char>, n: nat| #[trigger]
            guarded(head, pattern, rest, "=="@, n) && k == n;
        (rest, n, "=="@)
    } else {
        let (rest, n) = choose|rest: Seq<char>, n: nat| #[trigger]
            guarded(head, pattern, rest, "!="@, n) && k != n;
        (rest, n, "!="@)
    }
}

#[verifier::rlimit(40)]
proof fn lemma_decoded_lines(
    s: GenV,
    targets: Seq<Seq<char>>,
    tys: Seq<ValType>,
    array: Seq<char>,
    n: nat,
) -> (body: Seq<Seq<char>>)
    requires
        n <= tys.len(),
        n <= targets.len(),
    ensures
        s.decoded_assigned(targets, tys, array, n) matches Ok(t) ==> {
            &&& body.len() == n
            &&& with_lines(s, body) == t
            &&& plain_body(body)
            &&& forall|i: int|
                0 <= i < n ==> unpacks(#[trigger] body[i], targets[i], array, i as nat)
        },
    decreases n,
{
    reveal_strlit(";");
    if n == 0 {
        Seq::empty()
    } else {
        let front = lemma_decoded_lines(s, targets, tys, array, (n - 1) as nat);
        if let Ok(t) = s.decoded_assigned(targets, tys, array, n) {
            let i = (n - 1) as nat;
            let line = targets[i as int] + " = "@ + decoded64(slot(array, i), tys[i as int])->Ok_0
                + ";"@;
            let body = front.push(line);
            assert(body.drop_last() =~= front);
            assert(line.last() == ';');
            assert(unpacks(line, targets[i as int], array, i));
            assert forall|j: int| 0 <= j < n implies unpacks(
                #[trigger] body[j],
                targets[j],
                array,
                j as nat,
            ) by {
                if j < n - 1 {
                    assert(body[j] == front[j]);
                }
            }
            body
        } else {
            front
        }
    }
}

/// The state with lines put behind.
pub open spec fn with_lines(s: GenV, lines: Seq<Seq<char>>) -> GenV
    decreases lines.len(),
{
    if lines.len() == 0 {
        s
    } else {
        with_lines(s, lines.drop_last()).line(lines.last())
    }
}

/// Lines as nodes.
pub open spec fn line_nodes(lines: Seq<Seq<char>>) -> Seq<NodeV> {
    Seq::new(lines.len(), |i: int| NodeV::Line(lines[i]))
}

proof fn lemma_line_nodes(s: GenV, lines: Seq<Seq<char>>)
    ensures
        with_lines(s, lines) == (GenV { cur: s.cur + line_nodes(lines), ..s }),
    decreases lines.len(),
{
    if lines.len() == 0 {
        assert(s.cur + line_nodes(lines) =~= s.cur);
    } else {
        lemma_line_nodes(s, lines.drop_last());
        assert(s.cur + line_nodes(lines) =~= (s.cur + line_nodes(lines.drop_last())).push(
            NodeV::Line(lines.last()),
        ));
    }
}

#[verifier::rlimit(40)]
proof fn lemma_on_label(s: GenV, tag: u32, depth: u32, handle_var: Seq<char>) -> (arm: StepArmV)
    ensures
        s.resumed_on_label(tag, depth, handle_var) matches Ok(t) ==> {
            &&& arm_of(s, Handle::OnLabel { tag, label: depth }, handle_var, arm)
            &&& t.cur == s.cur + line_nodes(
                Seq::<Seq<char>>::empty().push(arm.head) + arm.body.push("}"@),
            )
            &&& same_receivers(s.frames, t.frames)
        },
{
    let h = Handle::OnLabel { tag, label: depth };
    if let Ok(t) = s.resumed_on_label(tag, depth, handle_var) {
        let tys = s.ctx.tag_params[tag as int];
        lemma_resolved(s, depth);
        let (u, target) = s.resolved(depth)->Ok_0;
        let f = branch_region(s, depth);
        let pat = if tys.len() == 0 {
            "_"@
        } else {
            "__pl"@
        };
        let head = ("StepResult::Suspend { tag: __t, payload: "@ + pat + " } if __t == "@
            + dec(tag as nat) + "u32 => {"@);
        let rest = "payload: "@ + pat + " }"@;
        lemma_suspend_head(pat, tag as nat);
        lemma_head_takes(head, true, rest, tag as nat);
        assert forall|o: OutcomeV| takes(head, o) == #[trigger] names_outcome(h, o) by {
            assert(takes(head, o) == (o == OutcomeV::Suspend(tag as nat)));
        }
        let u1 = u.line(head);
        let front = lemma_decoded_lines(u1, target.vars, tys, "__pl"@, tys.len());
        let hand = (target.vars.last() + " = "@ + handle_var + ";"@);
        let word = crate::codegen::func::branch::jump_word(target.is_loop);
        let jump = (word + " 'l"@ + dec(target.label as nat) + ";"@);
        let body = front.push(hand).push(jump);
        let arm = StepArmV { head, body };
        reveal_strlit(";");
        assert(hand.last() == ';' && jump.last() == ';');
        assert(plain_body(body));
        let vars = receivers(f);
        let n = vars.len() as int;
        lemma_jump(f, jump, target.is_loop);
        assert(delivers(body, f, handle_var)) by {
            assert forall|i: int| 0 <= i < n - 1 implies unpacks(
                #[trigger] body[i],
                vars[i].0,
                "__pl"@,
                i as nat,
            ) by {
                assert(body[i] == front[i]);
                assert(target.vars[i] == vars[i].0);
            }
        }
        let all = Seq::<Seq<char>>::empty().push(head) + body.push("}"@);
        lemma_line_nodes(u1, front);
        assert(t.cur =~= s.cur + line_nodes(all));
        arm
    } else {
        StepArmV { head: Seq::empty(), body: Seq::empty() }
    }
}

proof fn lemma_jump(f: FrameV, jump: Seq<char>, is_loop: bool)
    requires
        is_loop == (f.kind == FrameKind::Loop),
        jump == crate::codegen::func::branch::jump_word(is_loop) + " 'l"@ + dec(f.label as nat)
            + ";"@,
    ensures
        jump == if f.kind == FrameKind::Loop {
            "continue 'l"@ + dec(f.label as nat) + ";"@
        } else {
            "break 'l"@ + dec(f.label as nat) + ";"@
        },
{
    reveal_strlit("continue 'l");
    reveal_strlit("break 'l");
    reveal_strlit("continue");
    reveal_strlit("break");
    reveal_strlit(" 'l");
    assert("continue 'l"@ =~= "continue"@ + " 'l"@);
    assert("break 'l"@ =~= "break"@ + " 'l"@);
}

#[verifier::rlimit(40)]
proof fn lemma_suspend_head(pat: Seq<char>, n: nat)
    ensures
        guarded(
            ("StepResult::Suspend { tag: __t, payload: "@ + pat + " } if __t == "@ + dec(n as nat)
                + "u32 => {"@),
            "StepResult::Suspend { tag: __t, "@,
            "payload: "@ + pat + " }"@,
            "=="@,
            n,
        ),
{
    reveal_strlit("StepResult::Suspend { tag: __t, payload: ");
    reveal_strlit("StepResult::Suspend { tag: __t, ");
    reveal_strlit("payload: ");
    reveal_strlit(" } if __t == ");
    reveal_strlit(" }");
    reveal_strlit(" if __t ");
    reveal_strlit("==");
    reveal_strlit(" ");
    assert("StepResult::Suspend { tag: __t, payload: "@ =~= "StepResult::Suspend { tag: __t, "@
        + "payload: "@);
    assert(" } if __t == "@ =~= " }"@ + " if __t "@ + "=="@ + " "@);
    assert(("StepResult::Suspend { tag: __t, payload: "@ + pat + " } if __t == "@ + dec(n as nat)
        + "u32 => {"@)
        =~= "StepResult::Suspend { tag: __t, "@ + ("payload: "@ + pat + " }"@) + " if __t "@
        + "=="@ + " "@ + dec(n) + "u32 => {"@);
}

proof fn lemma_switch_head(n: nat)
    ensures
        guarded(
            ("StepResult::Switch { tag: __t, target: __tgt, args: __sa } if __t == "@
                + dec(n as nat) + "u32 => {"@),
            "StepResult::Switch { tag: __t, "@,
            "target: __tgt, args: __sa }"@,
            "=="@,
            n,
        ),
{
    reveal_strlit("StepResult::Switch { tag: __t, target: __tgt, args: __sa } if __t == ");
    reveal_strlit("StepResult::Switch { tag: __t, ");
    reveal_strlit("target: __tgt, args: __sa }");
    reveal_strlit(" if __t ");
    reveal_strlit("==");
    reveal_strlit(" ");
    assert("StepResult::Switch { tag: __t, target: __tgt, args: __sa } if __t == "@
        =~= "StepResult::Switch { tag: __t, "@ + "target: __tgt, args: __sa }"@ + " if __t "@
        + "=="@ + " "@);
}

#[verifier::rlimit(40)]
proof fn lemma_on_switch(
    s: GenV,
    tag: u32,
    handle_var: Seq<char>,
    cur_var: Seq<char>,
    args_var: Seq<char>,
) -> (arm: StepArmV)
    ensures
        arm_of(s, Handle::OnSwitch { tag }, handle_var, arm),
        s.resumed_on_switch(tag, cur_var, args_var).cur == s.cur + line_nodes(
            Seq::<Seq<char>>::empty().push(arm.head) + arm.body.push("}"@),
        ),
        s.resumed_on_switch(tag, cur_var, args_var).frames == s.frames,
{
    let h = Handle::OnSwitch { tag };
    let head =
        ("StepResult::Switch { tag: __t, target: __tgt, args: __sa } if __t == "@ + dec(tag as nat)
            + "u32 => {"@);
    let a = ("let mut __next = __sa; __next.push("@ + cur_var + " as i64);"@);
    let b = (cur_var + " = __tgt; "@ + args_var + " = __next;"@);
    let body = Seq::empty().push(a).push(b).push("continue 'drive;"@);
    reveal_strlit(" as i64);");
    reveal_strlit(" = __next;");
    reveal_strlit("continue 'drive;");
    assert(a.last() == ';' && b.last() == ';' && "continue 'drive;"@.last() == ';');
    assert(plain_body(body));
    lemma_switch_head(tag as nat);
    lemma_head_takes(head, false, "target: __tgt, args: __sa }"@, tag as nat);
    assert forall|o: OutcomeV| takes(head, o) == #[trigger] names_outcome(h, o) by {
        assert(takes(head, o) == (o == OutcomeV::Switch(tag as nat)));
    }
    let arm = StepArmV { head, body };
    let all = Seq::<Seq<char>>::empty().push(head) + body.push("}"@);
    assert(s.resumed_on_switch(tag, cur_var, args_var).cur =~= s.cur + line_nodes(all));
    arm
}

/// Whether the arms are those of the handlers, one by one.
pub open spec fn arms_of(
    s: GenV,
    handlers: Seq<Handle>,
    handle_var: Seq<char>,
    arms: Seq<StepArmV>,
) -> bool {
    &&& arms.len() == handlers.len()
    &&& forall|i: int|
        0 <= i < handlers.len() ==> arm_of(s, handlers[i], handle_var, #[trigger] arms[i])
}

#[verifier::rlimit(40)]
proof fn lemma_handled(
    s: GenV,
    handlers: Seq<Handle>,
    n: nat,
    handle_var: Seq<char>,
    cur_var: Seq<char>,
    args_var: Seq<char>,
) -> (arms: Seq<StepArmV>)
    requires
        n <= handlers.len(),
    ensures
        s.resume_handled(handlers, n, handle_var, cur_var, args_var) matches Ok(t) ==> {
            &&& arms_of(s, handlers.take(n as int), handle_var, arms)
            &&& t.cur == s.cur + line_nodes(arm_lines(arms))
            &&& same_receivers(s.frames, t.frames)
        },
    decreases n,
{
    if n == 0 {
        let arms = Seq::<StepArmV>::empty();
        assert(s.cur + line_nodes(arm_lines(arms)) =~= s.cur);
        arms
    } else {
        let front = lemma_handled(
            s,
            handlers,
            (n - 1) as nat,
            handle_var,
            cur_var,
            args_var,
        );
        if let Ok(t) = s.resume_handled(handlers, n, handle_var, cur_var, args_var) {
            let u = s.resume_handled(
                handlers,
                (n - 1) as nat,
                handle_var,
                cur_var,
                args_var,
            )->Ok_0;
            let h = handlers[n - 1];
            let arm = match h {
                Handle::OnLabel { tag, label } => lemma_on_label(u, tag, label, handle_var),
                Handle::OnSwitch { tag } => lemma_on_switch(
                    u,
                    tag,
                    handle_var,
                    cur_var,
                    args_var,
                ),
            };
            let arms = front.push(arm);
            assert(arms.drop_last() =~= front);
            assert(arm_of(s, h, handle_var, arm)) by {
                if let Handle::OnLabel { tag, label } = h {
                    let f = branch_region(u, label);
                    let g = branch_region(s, label);
                    assert(receivers(f) == receivers(g) && f.label == g.label && f.kind == g.kind);
                }
            }
            let whole = arm_lines(arms);
            let tail = Seq::<Seq<char>>::empty().push(arm.head) + arm.body.push("}"@);
            assert(whole =~= arm_lines(front) + tail);
            assert(t.cur =~= s.cur + line_nodes(whole));
            assert forall|i: int| 0 <= i < n implies arm_of(
                s,
                handlers.take(n as int)[i],
                handle_var,
                #[trigger] arms[i],
            ) by {
                if i < n - 1 {
                    assert(handlers.take(n - 1)[i] == handlers.take(n as int)[i]);
                    assert(arms[i] == front[i]);
                }
            }
            assert(same_receivers(s.frames, t.frames)) by {
                assert(same_receivers(s.frames, u.frames));
            }
            arms
        } else {
            front
        }
    }
}

proof fn lemma_holders(s: GenV, tys: Seq<ValType>)
    ensures
        s.holders_declared(tys) matches Ok((t, vars)) ==> {
            &&& vars.len() == tys.len()
            &&& s.cur.is_prefix_of(t.cur)
            &&& t.frames == s.frames
            &&& t.stack == s.stack
        },
    decreases tys.len(),
{
    if tys.len() > 0 {
        lemma_holders(s, tys.drop_last());
    }
}

#[verifier::rlimit(40)]
proof fn lemma_operands(s: GenV, params: Seq<ValType>, has_switch: bool)
    ensures
        s.resume_operands(params, has_switch) matches Ok((t, _)) ==> {
            &&& s.cur.is_prefix_of(t.cur)
            &&& t.frames == s.frames
        },
{
    let n = params.len();
    if let Ok((t, var)) = s.resume_operands(params, has_switch) {
        let d = s.drop(n as int);
        let all = joined(encoded_upto(codes(s.tail(n as int)), params, n)->Ok_0, ", "@);
        let text = if has_switch {
            ("let mut "@ + d.temp() + ": Vec<i64> = vec!["@ + all + "];"@)
        } else {
            ("let "@ + d.temp() + ": [i64; "@ + dec(n as nat) + "] = ["@ + all + "];"@)
        };
        let u = d.temp_taken().line(text);
        law_freezing_keeps_values(u, 0);
        lemma_survivors(u, 0);
        assert(s.cur.is_prefix_of(u.cur));
        lemma_prefix(s.cur, u.cur, t.cur);
    }
}

proof fn lemma_prefix(a: Seq<NodeV>, b: Seq<NodeV>, c: Seq<NodeV>)
    requires
        a.is_prefix_of(b),
        b.is_prefix_of(c),
    ensures
        a.is_prefix_of(c),
{
    assert(a =~= c.subrange(0, a.len() as int)) by {
        assert forall|i: int| 0 <= i < a.len() implies a[i] == c[i] by {
            assert(a[i] == b[i] && b[i] == c[i]);
        }
    }
}

/// Whether the arm is that of a step that returns: it takes nothing else, and hands
/// the returned values to the variables, in their order.
pub open spec fn return_arm(arm: StepArmV, vars: Seq<Seq<char>>) -> bool {
    &&& forall|o: OutcomeV| #[trigger] takes(arm.head, o) == (o is Return)
    &&& plain_body(arm.body)
    &&& arm.body.len() >= vars.len()
    &&& forall|i: int|
        0 <= i < vars.len() ==> unpacks(#[trigger] arm.body[i], vars[i], "__vals"@, i as nat)
    &&& forall|i: int|
        vars.len() <= i < arm.body.len() ==> #[trigger] arm.body[i] == "break 'drive;"@
}

/// The lines from the `match` on the outcome of a step to its end.
pub open spec fn match_lines(opening: Seq<char>, arms: Seq<StepArmV>) -> Seq<Seq<char>> {
    (Seq::<Seq<char>>::empty().push(opening) + arm_lines(arms)).push(
        "_ => panic!(\"resume: unhandled continuation suspend tag\"),"@,
    ).push("}"@)
}

/// Whether the nodes from `k` on are a `match` on the outcome of a step with these arms
/// and, behind them, one that takes whatever is left and panics.
pub open spec fn matches_step(nodes: Seq<NodeV>, k: int, arms: Seq<StepArmV>) -> bool {
    exists|handle: Seq<char>, args: Seq<char>|
        {
            let lines = match_lines(
                #[trigger] ("match self.cont_step("@ + handle + ", &"@ + args + ") {"@),
                arms,
            );
            0 <= k && k + lines.len() <= nodes.len() && nodes.subrange(k, k + lines.len())
                == line_nodes(lines)
        }
}

#[verifier::rlimit(40)]
proof fn lemma_return_head(pat: Seq<char>)
    ensures
        forall|o: OutcomeV| #[trigger]
            takes("StepResult::Return("@ + pat + ") => {"@, o) == (o is Return),
{
    let head = "StepResult::Return("@ + pat + ") => {"@;
    reveal_strlit("StepResult::Suspend { tag: __t, ");
    reveal_strlit("StepResult::Switch { tag: __t, ");
    reveal_strlit("StepResult::Return(");
    let r = "StepResult::Return("@;
    assert(head.subrange(0, r.len() as int) =~= r);
    assert forall|o: OutcomeV| #[trigger] takes(head, o) == (o is Return) by {
        let (p, k) = match o {
            OutcomeV::Return => (r, 0nat),
            OutcomeV::Suspend(k) => ("StepResult::Suspend { tag: __t, "@, k),
            OutcomeV::Switch(k) => ("StepResult::Switch { tag: __t, "@, k),
        };
        if !(o is Return) && lets_in(head, p, k) {
            let (rest, m, op) = lemma_guard_of(head, p, k);
            assert(head[12] == p[12]);
        }
    }
}

#[verifier::rlimit(40)]
proof fn lemma_step_matched(
    s: GenV,
    handle_var: Seq<char>,
    args_var: Seq<char>,
    holders: Seq<(Seq<char>, ValType)>,
    results: Seq<ValType>,
    has_switch: bool,
) -> (r: (Seq<char>, StepArmV, Seq<char>))
    requires
        holders.len() == results.len(),
    ensures
        s.step_matched(handle_var, args_var, holders, results, has_switch) matches Ok(t) ==> {
            let lines = Seq::<Seq<char>>::empty().push(
                "match self.cont_step("@ + r.2 + ", &"@ + args_var + ") {"@,
            ) + arm_lines(seq![r.1]);
            &&& return_arm(r.1, names(holders))
            &&& t.frames == s.frames
            &&& t.stack == s.stack
            &&& t.cur.len() >= s.cur.len() + lines.len()
            &&& s.cur.is_prefix_of(t.cur)
            &&& t.cur.subrange(t.cur.len() - lines.len(), t.cur.len() as int) == line_nodes(lines)
        },
{
    let cur_var = s.temp();
    let s1 = s.temp_taken();
    let handle = if has_switch {
        cur_var
    } else {
        handle_var
    };
    let opening = "match self.cont_step("@ + handle + ", &"@ + args_var + ") {"@;
    let before = if has_switch {
        s1.line(("let mut "@ + cur_var + ": u32 = "@ + handle_var + ";"@)).line("'drive: loop {"@)
    } else {
        s1
    };
    let pat = if results.len() == 0 {
        "_"@
    } else {
        "__vals"@
    };
    let head = "StepResult::Return("@ + pat + ") => {"@;
    lemma_return_head(pat);
    let u = before.line(opening).line(head);
    let front = lemma_decoded_lines(u, names(holders), results, "__vals"@, results.len());
    let body = if has_switch {
        front.push("break 'drive;"@)
    } else {
        front
    };
    reveal_strlit("break 'drive;");
    let arm = StepArmV { head, body };
    if let Ok(t) = s.step_matched(handle_var, args_var, holders, results, has_switch) {
        let lines = Seq::<Seq<char>>::empty().push(opening) + arm_lines(seq![arm]);
        assert(seq![arm].drop_last() =~= Seq::<StepArmV>::empty());
        assert(arm_lines(seq![arm].drop_last()) == Seq::<Seq<char>>::empty());
        assert(arm_lines(seq![arm]) == Seq::<Seq<char>>::empty().push(head) + body.push("}"@));
        lemma_line_nodes(u, front);
        assert(t.cur =~= before.cur + line_nodes(lines));
        assert(t.cur.subrange(t.cur.len() - lines.len(), t.cur.len() as int)
            =~= line_nodes(lines));
        assert(s.cur.is_prefix_of(before.cur));
        assert(before.cur.is_prefix_of(t.cur));
        lemma_prefix(s.cur, before.cur, t.cur);
        assert(return_arm(arm, names(holders))) by {
            assert forall|i: int| 0 <= i < holders.len() implies unpacks(
                #[trigger] arm.body[i],
                names(holders)[i],
                "__vals"@,
                i as nat,
            ) by {
                assert(arm.body[i] == front[i]);
            }
        }
    }
    (opening, arm, handle)
}

proof fn lemma_arm_lines_cat(a: Seq<StepArmV>, b: Seq<StepArmV>)
    ensures
        arm_lines(a + b) == arm_lines(a) + arm_lines(b),
    decreases b.len(),
{
    if b.len() == 0 {
        assert(a + b =~= a);
        assert(arm_lines(a) + arm_lines(b) =~= arm_lines(a));
    } else {
        lemma_arm_lines_cat(a, b.drop_last());
        assert((a + b).drop_last() =~= a + b.drop_last());
        assert(arm_lines(a + b) =~= arm_lines(a) + arm_lines(b));
    }
}

proof fn lemma_taken(
    s: GenV,
    handlers: Seq<Handle>,
    handle_var: Seq<char>,
    ret: StepArmV,
    arms: Seq<StepArmV>,
    i: int,
    o: OutcomeV,
)
    requires
        arms_of(s, handlers, handle_var, arms),
        0 <= i <= arms.len(),
    ensures
        arm_taken(seq![ret] + arms, i + 1, o) == match handler_for(handlers, i, o) {
            Some(j) => Some(j + 1),
            None => None,
        },
    decreases arms.len() - i,
{
    let all = seq![ret] + arms;
    if i < arms.len() {
        assert(all[i + 1] == arms[i]);
        assert(arm_of(s, handlers[i], handle_var, arms[i]));
        assert(takes(arms[i].head, o) == names_outcome(handlers[i], o));
        lemma_taken(s, handlers, handle_var, ret, arms, i + 1, o);
    }
}

/// The arm that answers an outcome: the first for a return, else that of the first
/// handler that is meant for the outcome; none if there is no such handler.
pub open spec fn answer(handlers: Seq<Handle>, o: OutcomeV) -> Option<int> {
    match o {
        OutcomeV::Return => Some(0),
        _ => match handler_for(handlers, 0, o) {
            Some(i) => Some(i + 1),
            None => None,
        },
    }
}

/// The names that the topmost `n` operands have.
pub open spec fn result_names(t: GenV, n: nat) -> Seq<Seq<char>> {
    Seq::new(n, |i: int| t.stack[t.stack.len() - n + i].code)
}

/// Whether the nodes that `t` has beyond those of `s` answer the outcomes of a step of
/// the continuation on top of `s`.
pub open spec fn answers(
    s: GenV,
    t: GenV,
    handlers: Seq<Handle>,
    n_results: nat,
    handle_var: Seq<char>,
    ret: StepArmV,
    arms: Seq<StepArmV>,
    k: int,
) -> bool {
    &&& s.stack.len() > 0
    &&& s.cur.len() < k
    &&& t.cur[s.cur.len() as int] == NodeV::Line(
        "let "@ + handle_var + ": u32 = "@ + s.stack.last().code + ";"@,
    )
    &&& matches_step(t.cur, k, seq![ret] + arms)
    &&& t.stack.len() >= n_results
    &&& return_arm(ret, result_names(t, n_results))
    &&& arms_of(s, handlers, handle_var, arms)
    &&& forall|o: OutcomeV|
        #[trigger] arm_taken(seq![ret] + arms, 0, o) == answer(handlers, o)
}

/// `resume` answers every outcome of the step it makes. It emits a `match` on the
/// outcome. A suspension with some tag goes to the arm of the first handler that names
/// the tag, which hands the payload and the continuation to the variables of the
/// handler's region and goes there; a switch goes to the first switch handler of its
/// tag; a return hands the returned values on as the results; and the panic at the end
/// is left for what no handler names.
pub proof fn law_resume_answers_by_handlers(
    s: GenV,
    cont_type_index: u32,
    handlers: Vec<Handle>,
    text: Seq<char>,
    t: GenV,
)
    requires
        s.reachable,
        s.emitted(Operator::Resume { cont_type_index, handlers }, text) == Ok::<GenV, FailV>(t),
    ensures
        s.ctx.cont_sig(cont_type_index) matches Ok(sig) && exists|
            handle_var: Seq<char>,
            ret: StepArmV,
            arms: Seq<StepArmV>,
            k: int,
        | #[trigger]
            answers(s, t, handlers@, sig.results.len(), handle_var, ret, arms, k),
{
    lemma_unfold_resume(s, cont_type_index, handlers, text);
    lemma_resumed(s, cont_type_index, handlers@, t);
}

proof fn lemma_unfold_resume(
    s: GenV,
    cont_type_index: u32,
    handlers: Vec<Handle>,
    text: Seq<char>,
)
    requires
        s.reachable,
    ensures
        s.emitted(Operator::Resume { cont_type_index, handlers }, text) == s.resumed(
            cont_type_index,
            handlers@,
        ),
{
    reveal(GenV::lowered_transfer);
}

#[verifier::rlimit(40)]
proof fn lemma_resumed(s: GenV, cont_type_index: u32, handlers: Seq<Handle>, t: GenV)
    requires
        s.resumed(cont_type_index, handlers) == Ok::<GenV, FailV>(t),
    ensures
        s.ctx.cont_sig(cont_type_index) matches Ok(sig) && exists|
            handle_var: Seq<char>,
            ret: StepArmV,
            arms: Seq<StepArmV>,
            k: int,
        | #[trigger]
            answers(s, t, handlers, sig.results.len(), handle_var, ret, arms, k),
{
    let has_switch = some_switch(handlers);
    let d = s.drop(1);
    let handle_var = d.temp();
    let sig = s.ctx.cont_sig(cont_type_index)->Ok_0;
    let line = ("let "@ + handle_var + ": u32 = "@ + s.top().code + ";"@);
    let s1 = d.temp_taken().line(line);
    lemma_operands(s1, sig.params, has_switch);
    let (s2, args_var) = s1.resume_operands(sig.params, has_switch)->Ok_0;
    lemma_holders(s2, sig.results);
    let (s3, holders) = s2.holders_declared(sig.results)->Ok_0;
    let (opening, ret, handle) = lemma_step_matched(
        s3,
        handle_var,
        args_var,
        holders,
        sig.results,
        has_switch,
    );
    let s4 = s3.step_matched(handle_var, args_var, holders, sig.results, has_switch)->Ok_0;
    let arms = lemma_handled(s4, handlers, handlers.len(), handle_var, s3.temp(), args_var);
    assert(handlers.take(handlers.len() as int) =~= handlers);
    let s5 = s4.resume_handled(
        handlers,
        handlers.len(),
        handle_var,
        s3.temp(),
        args_var,
    )->Ok_0;
    let all = seq![ret] + arms;
    let opened = "match self.cont_step("@ + handle + ", &"@ + args_var + ") {"@;
    let first = Seq::<Seq<char>>::empty().push(opened) + arm_lines(seq![ret]);
    let lines = match_lines(opened, all);
    let k = s4.cur.len() - first.len();
    lemma_arm_lines_cat(seq![ret], arms);
    assert(lines =~= (first + arm_lines(arms)).push(
        "_ => panic!(\"resume: unhandled continuation suspend tag\"),"@,
    ).push("}"@));
    let s6 = s5.line("_ => panic!(\"resume: unhandled continuation suspend tag\"),"@).line("}"@);
    let s7 = if has_switch {
        s6.line("}"@)
    } else {
        s6
    };
    lemma_pushed_codes(s7, holders);
    assert(t == s7.pushed(holders));
    assert(t.cur == s7.cur);
    assert(t.cur.subrange(k, k + lines.len()) =~= line_nodes(lines)) by {
        assert forall|i: int| 0 <= i < lines.len() implies t.cur[k + i] == #[trigger] line_nodes(
            lines,
        )[i] by {
            if i < first.len() {
                assert(s4.cur.subrange(k, s4.cur.len() as int)[i] == s4.cur[k + i]);
                assert(line_nodes(first)[i] == NodeV::Line(first[i]));
            } else if i < first.len() + arm_lines(arms).len() {
                assert(t.cur[k + i] == line_nodes(arm_lines(arms))[i - first.len()]);
            }
        }
    }
    assert(matches_step(t.cur, k, all));
    assert(s1.cur.is_prefix_of(s3.cur)) by {
        lemma_prefix(s1.cur, s2.cur, s3.cur);
    }
    assert(s1.cur.is_prefix_of(s4.cur)) by {
        lemma_prefix(s1.cur, s3.cur, s4.cur);
    }
    let at = s.cur.len() as int;
    assert(s1.cur[at] == NodeV::Line(line));
    assert(s4.cur[at] == NodeV::Line(line));
    assert(t.cur[at] == NodeV::Line(line));
    assert(k >= s3.cur.len());
    assert(s3.cur.len() >= s1.cur.len());
    assert(result_names(t, sig.results.len()) =~= names(holders)) by {
        assert forall|i: int| 0 <= i < holders.len() implies #[trigger] result_names(
            t,
            sig.results.len(),
        )[i] == holders[i].0 by {
            assert(t.stack[s7.stack.len() + i].code == holders[i].0);
        }
    }
    assert(arms_of(s, handlers, handle_var, arms)) by {
        assert forall|i: int| 0 <= i < handlers.len() implies arm_of(
            s,
            handlers[i],
            handle_var,
            #[trigger] arms[i],
        ) by {
            assert(arm_of(s4, handlers[i], handle_var, arms[i]));
            assert(s4.frames == s.frames);
        }
    }
    assert forall|o: OutcomeV| #[trigger] arm_taken(all, 0, o) == answer(handlers, o) by {
        assert(all[0] == ret);
        assert(takes(ret.head, o) == (o is Return));
        lemma_taken(s4, handlers, handle_var, ret, arms, 0, o);
    }
    assert(answers(s, t, handlers, sig.results.len(), handle_var, ret, arms, k));
}

} // verus!
