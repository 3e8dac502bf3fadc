//! Calls reach the function they name.

use vstd::prelude::*;

use crate::codegen::analysis::{rust_type_text, rust_types_text};
use crate::codegen::context::CtxV;
use crate::codegen::func::branch_laws::lemma_pushed_codes;
use crate::codegen::func::calls::lemma_temps_len;
use crate::codegen::func::keeps::lemma_survivors;
use crate::codegen::func::state::{codes, GenV};
use crate::codegen::info::{KindV, SigV};
use crate::codegen::dispatch::ArtifactsV;
use crate::codegen::common::ALLOW;
use crate::codegen::func::body::{mut_word, params_text, put_head, put_lines, put_nested};
use crate::codegen::ir::{NodeV, ValV};
use crate::codegen::laws::law_freezing_pins_survivors;
use crate::codegen::render_host::import_method;
use crate::codegen::rendering::law_rendering_appends;
use crate::codegen::scan::{ident_continue, ident_start, occurs_at};
use crate::codegen::text_laws::law_numbers_read_back;
use crate::error::FailV;
use crate::ops::Operator;
use crate::text::{dec, joined};
use crate::wasm::ValType;

verus! {

/// Whether the text is a Rust identifier.
pub open spec fn is_name(t: Seq<char>) -> bool {
    &&& t.len() > 0
    &&& ident_start(t[0])
    &&& forall|i: int| 0 <= i < t.len() ==> ident_continue(#[trigger] t[i])
}

/// Whether `call` is the call of `name` with the arguments `args`, on `self` if the
/// functions are methods.
pub open spec fn calls(
    call: Seq<char>,
    is_method: bool,
    name: Seq<char>,
    args: Seq<char>,
) -> bool {
    call == if is_method {
        "self."@ + name + "("@ + args + ")"@
    } else {
        name + "("@ + args + ")"@
    }
}

/// Whether a function `name` with the parameters `params` is defined in `text`.
pub open spec fn defines(text: Seq<char>, name: Seq<char>, params: Seq<char>) -> bool {
    exists|i: int|
        0 <= i <= text.len() && #[trigger] occurs_at(
            text,
            i,
            "pub fn "@ + name + "("@ + params + ")"@,
        )
}

/// Whether `text` names the function at full index `f` by `name` where it is called.
pub open spec fn called_by(c: CtxV, f: int, name: Seq<char>) -> bool {
    is_name(name) && forall|args: Seq<char>|
        calls(#[trigger] c.call_text(f, args), c.is_method, name, args)
}

proof fn lemma_names(f: nat)
    ensures
        is_name("func"@ + dec(f)),
{
    reveal_strlit("func");
    law_numbers_read_back(f);
    let name = "func"@ + dec(f);
    assert forall|i: int| 0 <= i < name.len() implies ident_continue(#[trigger] name[i]) by {
        if i >= 4 {
            assert(name[i] == dec(f)[i - 4]);
        }
    }
}

#[verifier::rlimit(40)]
proof fn lemma_called_by(c: CtxV, f: int)
    requires
        c.imports.len() <= f,
    ensures
        called_by(c, f, "func"@ + dec(f as nat)),
{
    lemma_names(f as nat);
    let name = "func"@ + dec(f as nat);
    reveal_strlit("self.func");
    reveal_strlit("self.");
    reveal_strlit("func");
    assert forall|args: Seq<char>| calls(
        #[trigger] c.call_text(f, args),
        c.is_method,
        name,
        args,
    ) by {
        if c.is_method {
            assert("self.func"@ =~= "self."@ + "func"@);
            assert(c.call_text(f, args) =~= "self."@ + name + "("@ + args + ")"@);
        } else {
            assert(c.call_text(f, args) =~= name + "("@ + args + ")"@);
        }
    }
}

proof fn lemma_put_lines(out: Seq<char>, lines: Seq<Seq<char>>, prefix: Seq<char>)
    ensures
        out.is_prefix_of(put_lines(out, lines, prefix)),
    decreases lines.len(),
{
    if lines.len() > 0 {
        lemma_put_lines(out, lines.drop_last(), prefix);
    }
}

proof fn lemma_put_nested(
    out: Seq<char>,
    index: usize,
    is_method: bool,
    params: Seq<char>,
    ret: Option<Seq<char>>,
    prefix: Seq<char>,
    nodes: Seq<NodeV>,
    trailing: Option<Seq<char>>,
)
    ensures
        put_head(out, index, is_method, params, ret, prefix).is_prefix_of(
            put_nested(out, index, is_method, params, ret, prefix, nodes, trailing),
        ),
        out.is_prefix_of(put_head(out, index, is_method, params, ret, prefix)),
{
    law_rendering_appends(
        put_head(out, index, is_method, params, ret, prefix),
        nodes,
        0,
        prefix,
    );
}

#[verifier::rlimit(40)]
proof fn lemma_head_defines(
    out: Seq<char>,
    index: usize,
    is_method: bool,
    params: Seq<char>,
    ret: Option<Seq<char>>,
    prefix: Seq<char>,
    text: Seq<char>,
)
    requires
        put_head(out, index, is_method, params, ret, prefix).is_prefix_of(text),
    ensures
        defines(text, "func"@ + dec(index as nat), params),
{
    reveal_strlit("pub fn func");
    reveal_strlit("pub fn ");
    reveal_strlit("func");
    let head = put_head(out, index, is_method, params, ret, prefix);
    let name = "func"@ + dec(index as nat);
    let sought = "pub fn "@ + name + "("@ + params + ")"@;
    let o = if is_method {
        out
    } else {
        out + prefix + ALLOW@ + "\n"@
    };
    let at = o + prefix;
    assert("pub fn func"@ =~= "pub fn "@ + "func"@);
    let rest = head.skip((at.len() + sought.len()) as int);
    assert(head =~= at + sought + rest);
    assert forall|k: int| 0 <= k < sought.len() implies text[at.len() + k] == sought[k] by {
        assert(text[at.len() + k] == head[at.len() + k]);
    }
    assert(text.subrange(at.len() as int, (at.len() + sought.len()) as int) =~= sought);
    assert(occurs_at(text, at.len() as int, sought));
}

/// A call of a defined function reaches that function: it names the function by the
/// identifier under which the function's rendered source defines it, on the instance
/// exactly if the functions are its methods.
#[verifier::rlimit(40)]
pub proof fn law_calls_name_their_function(
    s: GenV,
    f: usize,
    params: Seq<ValType>,
    results: Seq<ValType>,
    prefix: Seq<char>,
    out: Seq<char>,
    art: ArtifactsV,
)
    requires
        s.ctx.imports.len() <= f,
    ensures
        s.finished(f, params, results, prefix, out, art) matches Ok((text, _)) ==> exists|
            name: Seq<char>,
            ps: Seq<char>,
        | #[trigger]
            called_by(s.ctx, f as int, name) && #[trigger] defines(text, name, ps),
{
    lemma_called_by(s.ctx, f as int);
    if let Ok((text, meta)) = s.finished(f, params, results, prefix, out, art) {
        let nodes = s.whole_nodes(results)->Ok_0;
        let is_method = s.ctx.is_method;
        let ps = crate::codegen::func::body::params_text(
            params,
            s.mutable_locals,
            s.ctx.kinds,
            is_method,
            params.len(),
        )->Ok_0;
        let ret = crate::codegen::func::body::return_type(results, s.ctx.kinds)->Ok_0;
        if s.is_flat(nodes) {
            let o = if !is_method && art.state_struct.len() > 0 {
                out + art.state_struct + "\n"@
            } else {
                out
            };
            lemma_put_nested(o, f, is_method, ps, ret, prefix, art.body, None);
            let inner = put_nested(o, f, is_method, ps, ret, prefix, art.body, None);
            lemma_put_lines(inner, art.siblings, prefix);
            let head = put_head(o, f, is_method, ps, ret, prefix);
            lemma_prefixes(head, inner, text);
            lemma_head_defines(o, f, is_method, ps, ret, prefix, text);
        } else {
            lemma_put_nested(out, f, is_method, ps, ret, prefix, nodes, s.trailing);
            lemma_head_defines(out, f, is_method, ps, ret, prefix, text);
        }
        assert(called_by(s.ctx, f as int, "func"@ + dec(f as nat)));
        assert(defines(text, "func"@ + dec(f as nat), ps));
    }
}

proof fn lemma_prefixes(a: Seq<char>, b: Seq<char>, c: Seq<char>)
    requires
        a.is_prefix_of(b),
        b.is_prefix_of(c),
    ensures
        a.is_prefix_of(c),
{
    assert(a =~= c.subrange(0, a.len() as int)) by {
        assert forall|i: int| 0 <= i < a.len() implies a[i] == c[i] by {
            assert(a[i] == b[i] && b[i] == c[i]);
        }
    }
}

#[verifier::rlimit(40)]
proof fn lemma_numbers_end(f: nat, a: Seq<char>, g: nat, b: Seq<char>)
    requires
        dec(f) + "("@ + a == dec(g) + "("@ + b,
    ensures
        f == g,
        a == b,
{
    reveal_strlit("(");
    law_numbers_read_back(f);
    law_numbers_read_back(g);
    let x = dec(f) + "("@ + a;
    let y = dec(g) + "("@ + b;
    let n = dec(f).len() as int;
    let m = dec(g).len() as int;
    assert(x[n] == '(' && y[m] == '(');
    if n < m {
        assert(y[n] == dec(g)[n]);
    } else if m < n {
        assert(x[m] == dec(f)[m]);
    }
    assert(dec(f) =~= x.take(n) && dec(g) =~= y.take(m));
    assert(a =~= x.skip(n + 1) && b =~= y.skip(m + 1));
}

/// Calls of different functions differ: the text of a call tells which defined
/// function it calls, and with which arguments.
#[verifier::rlimit(40)]
pub proof fn law_calls_tell_functions_apart(
    c: CtxV,
    f: int,
    a: Seq<char>,
    g: int,
    b: Seq<char>,
)
    requires
        c.imports.len() <= f,
        c.imports.len() <= g,
        c.call_text(f, a) == c.call_text(g, b),
    ensures
        f == g,
        a == b,
{
    reveal_strlit("self.func");
    reveal_strlit("func");
    reveal_strlit("(");
    reveal_strlit(")");
    let n: int = if c.is_method {
        9
    } else {
        4
    };
    let x = c.call_text(f, a);
    let y = c.call_text(g, b);
    assert(x.skip(n) =~= dec(f as nat) + "("@ + (a + ")"@));
    assert(y.skip(n) =~= dec(g as nat) + "("@ + (b + ")"@));
    lemma_numbers_end(f as nat, a + ")"@, g as nat, b + ")"@);
    assert(a =~= (a + ")"@).drop_last());
    assert(b =~= (b + ")"@).drop_last());
}

/// Calls of different imports that the host provides differ, and none of them is the
/// call of a defined function.
#[verifier::rlimit(40)]
pub proof fn law_import_calls_are_apart(
    c: CtxV,
    f: int,
    a: Seq<char>,
    g: int,
    b: Seq<char>,
)
    requires
        0 <= f < c.imports.len(),
        c.imports[f].wasi is None,
        0 <= g < c.imports.len() ==> c.imports[g].wasi is None,
        0 <= g,
        c.call_text(f, a) == c.call_text(g, b),
    ensures
        f == g,
        a == b,
{
    reveal_strlit("self.imports.import");
    reveal_strlit("self.func");
    reveal_strlit("func");
    reveal_strlit("(");
    reveal_strlit(")");
    let x = c.call_text(f, a);
    let y = c.call_text(g, b);
    if g < c.imports.len() {
        assert(x.skip(19) =~= dec(f as nat) + "("@ + (a + ")"@));
        assert(y.skip(19) =~= dec(g as nat) + "("@ + (b + ")"@));
        lemma_numbers_end(f as nat, a + ")"@, g as nat, b + ")"@);
        assert(a =~= (a + ")"@).drop_last());
        assert(b =~= (b + ")"@).drop_last());
    } else if c.is_method {
        assert(x[5] == 'i');
        assert(y[5] == 'f');
    } else {
        assert(x[0] == 's');
        assert(y[0] == 'f');
    }
}

/// Whether the line is the arm for the function number `f`, and calls that function.
pub open spec fn dispatches(c: CtxV, f: int, args: Seq<char>, line: Seq<char>) -> bool {
    line == "        "@ + dec(f as nat) + "u32 => "@ + c.call_text(f, args) + ","@
}

/// Whether the line is the arm of some function below `n` with the wanted signature.
pub open spec fn dispatches_one(
    c: CtxV,
    want: SigV,
    args: Seq<char>,
    n: nat,
    line: Seq<char>,
) -> bool {
    exists|f: int|
        0 <= f < n && c.sig(f) == Some(want) && #[trigger] dispatches(c, f, args, line)
}

/// A dispatch method calls the function whose number it is handed: the arms in it are
/// those of the functions with the wanted signature, each function's arm calls that
/// function, and none is missing.
#[verifier::rlimit(40)]
pub proof fn law_dispatch_calls_the_function(
    c: CtxV,
    out: Seq<Seq<char>>,
    want: SigV,
    args: Seq<char>,
    n: nat,
)
    ensures
        c.dispatch_arms(out, want, args, n).len() >= out.len(),
        c.dispatch_arms(out, want, args, n).take(out.len() as int) == out,
        forall|f: int|
            0 <= f < n && #[trigger] c.sig(f) == Some(want) ==> c.dispatch_arms(
                out,
                want,
                args,
                n,
            ).skip(out.len() as int).contains(
                "        "@ + dec(f as nat) + "u32 => "@ + c.call_text(f, args) + ","@,
            ),
        forall|i: int|
            out.len() <= i < c.dispatch_arms(out, want, args, n).len()
                ==> dispatches_one(c, want, args, n, #[trigger] c.dispatch_arms(
                out,
                want,
                args,
                n,
            )[i]),
    decreases n,
{
    let all = c.dispatch_arms(out, want, args, n);
    let k = out.len() as int;
    if n == 0 {
        assert(all.take(k) =~= out);
    } else {
        law_dispatch_calls_the_function(c, out, want, args, (n - 1) as nat);
        let front = c.dispatch_arms(out, want, args, (n - 1) as nat);
        if c.sig(n - 1) == Some(want) {
            let line = "        "@ + dec((n - 1) as nat) + "u32 => "@ + c.call_text(n - 1, args)
                + ","@;
            assert(all == front.push(line));
            assert(all.take(k) =~= front.take(k));
            assert(all.skip(k) =~= front.skip(k).push(line));
            assert(all.skip(k)[front.len() - k] == line);
            assert forall|f: int| 0 <= f < n && #[trigger] c.sig(f) == Some(want) implies all.skip(
                k,
            ).contains(
                "        "@ + dec(f as nat) + "u32 => "@ + c.call_text(f, args) + ","@,
            ) by {
                if f < n - 1 {
                    let sought = "        "@ + dec(f as nat) + "u32 => "@ + c.call_text(f, args)
                        + ","@;
                    let i = choose|i: int| 0 <= i < front.skip(k).len() && front.skip(k)[i] == sought;
                    assert(all.skip(k)[i] == sought);
                }
            }
            assert forall|i: int| k <= i < all.len() implies dispatches_one(
                c,
                want,
                args,
                n,
                #[trigger] all[i],
            ) by {
                if i == all.len() - 1 {
                    assert(dispatches(c, n - 1, args, all[i]));
                } else {
                    assert(dispatches_one(c, want, args, (n - 1) as nat, front[i]));
                }
            }
        } else {
            assert forall|i: int| k <= i < all.len() implies dispatches_one(
                c,
                want,
                args,
                n,
                #[trigger] all[i],
            ) by {
                assert(dispatches_one(c, want, args, (n - 1) as nat, front[i]));
            }
        }
    }
}

/// The topmost `n` operands, the lowest of them first.
pub open spec fn topmost(stack: Seq<ValV>, n: nat) -> Seq<Seq<char>> {
    Seq::new(n, |i: int| stack[stack.len() - n + i].code)
}

/// Whether `text`, in front of a call, binds the results of the call to `names`.
pub open spec fn binds(text: Seq<char>, names: Seq<Seq<char>>) -> bool {
    if names.len() == 0 {
        text.len() == 0
    } else if names.len() == 1 {
        exists|ty: Seq<char>| text == #[trigger] ("let "@ + names[0] + ": "@ + ty + " = "@)
    } else {
        exists|ty: Seq<char>|
            text == #[trigger] ("let ("@ + joined(names, ", "@) + "): ("@ + ty + ") = "@)
    }
}

/// Whether the line calls the function `f` with the topmost operands of `s`, in their
/// order, and binds the results to the topmost operands of `t`, in theirs.
pub open spec fn calls_with(line: Seq<char>, s: GenV, t: GenV, f: int, sig: SigV) -> bool {
    exists|binding: Seq<char>|
        #![trigger binds(binding, topmost(t.stack, sig.results.len()))]
        binds(binding, topmost(t.stack, sig.results.len())) && line == binding + s.ctx.call_text(
            f,
            joined(topmost(s.stack, sig.params.len()), ", "@),
        ) + ";"@
}

/// `call` hands the topmost operands, as many as the function has parameters and in
/// their order, to the function it names, and the results become the topmost operands,
/// in their order.
pub proof fn law_call_passes_operands(s: GenV, f: u32, text: Seq<char>, t: GenV)
    requires
        s.reachable,
        s.emitted(Operator::Call { function_index: f }, text) == Ok::<GenV, FailV>(t),
    ensures
        s.ctx.sig(f as int) matches Some(sig) && {
            &&& s.stack.len() >= sig.params.len()
            &&& t.stack.len() == s.stack.len() - sig.params.len() + sig.results.len()
            &&& t.cur.len() > s.cur.len()
            &&& t.cur.last() matches NodeV::Line(line) && calls_with(line, s, t, f as int, sig)
        },
{
    reveal(GenV::lowered_transfer);
    assert(s.called(f, false) == Ok::<GenV, FailV>(t));
    lemma_called(s, f, t);
}

#[verifier::rlimit(40)]
proof fn lemma_called(s: GenV, f: u32, t: GenV)
    requires
        s.called(f, false) == Ok::<GenV, FailV>(t),
    ensures
        s.ctx.sig(f as int) matches Some(sig) && {
            &&& s.stack.len() >= sig.params.len()
            &&& t.stack.len() == s.stack.len() - sig.params.len() + sig.results.len()
            &&& t.cur.len() > s.cur.len()
            &&& t.cur.last() matches NodeV::Line(line) && calls_with(line, s, t, f as int, sig)
        },
{
    let sig = s.ctx.sig(f as int)->0;
    let n = sig.params.len();
    let m = sig.results.len();
    law_freezing_pins_survivors(s, n);
    lemma_survivors(s, n);
    let u = s.survivors_frozen(n)->Ok_0;
    assert(codes(u.tail(n as int)) =~= topmost(s.stack, n));
    let (w, binding, temps) = u.drop(n as int).result_bound(sig.results)->Ok_0;
    let line = binding + s.ctx.call_text(f as int, joined(topmost(s.stack, n), ", "@)) + ";"@;
    lemma_pushed_codes(w.line(line), temps);
    assert(temps.len() == m);
    lemma_temps_len(u.drop(n as int), m);
    assert forall|i: int| 0 <= i < m implies #[trigger] topmost(t.stack, m)[i] == temps[i].0 by {
    }
    if m == 1 {
        assert(topmost(t.stack, m)[0] == temps[0].0);
        let rty = u.rust_type(sig.results[0])->Ok_0;
        assert(binding == "let "@ + topmost(t.stack, m)[0] + ": "@ + rty + " = "@);
    } else if m > 1 {
        assert(topmost(t.stack, m) =~= u.drop(n as int).temps(m));
        let tys = rust_types_text(sig.results, s.ctx.kinds)->Ok_0;
        assert(binding == "let ("@ + joined(topmost(t.stack, m), ", "@) + "): ("@ + joined(
            tys,
            ", "@,
        ) + ") = "@);
    }
    assert(binds(binding, topmost(t.stack, m)));
    lemma_frozen_lines(s, n);
    assert(t == w.line(line).pushed(temps));
    lemma_temps_keep(u.drop(n as int), m);
    assert(w.cur == u.cur);
    assert(t.cur.last() == NodeV::Line(line));
    assert(calls_with(line, s, t, f as int, sig));
}

proof fn lemma_temps_keep(s: GenV, n: nat)
    ensures
        s.temps_taken(n).cur == s.cur,
        s.temps_taken(n).stack == s.stack,
    decreases n,
{
    if n > 0 {
        lemma_temps_keep(s, (n - 1) as nat);
    }
}

proof fn lemma_frozen_lines(s: GenV, keep: nat)
    ensures
        s.survivors_frozen(keep) matches Ok(t) ==> s.cur.is_prefix_of(t.cur) && t.ctx == s.ctx,
{
    reveal(GenV::survivors_frozen);
    if s.stack.len() > keep {
        lemma_frozen_grows(s, (s.stack.len() - keep) as nat);
    }
}

proof fn lemma_frozen_grows(s: GenV, n: nat)
    ensures
        s.frozen(n) matches Ok(t) ==> s.cur.is_prefix_of(t.cur) && t.ctx == s.ctx,
    decreases n,
{
    if n > 0 {
        lemma_frozen_grows(s, (n - 1) as nat);
    }
}

/// Whether the line calls the dispatch method of the type with the function reference
/// `handle` and the arguments, and binds the results.
pub open spec fn dispatches_with(
    line: Seq<char>,
    t: GenV,
    ti: u32,
    handle: Seq<char>,
    args: Seq<Seq<char>>,
    n_results: nat,
) -> bool {
    exists|binding: Seq<char>|
        #![trigger binds(binding, topmost(t.stack, n_results))]
        binds(binding, topmost(t.stack, n_results)) && line == binding + "self.call_ref_t"@ + dec(
            ti as nat,
        ) + "("@ + handle + separator(args) + joined(args, ", "@) + ");"@
}

/// What stands between the first argument and the others.
pub open spec fn separator(args: Seq<Seq<char>>) -> Seq<char> {
    if joined(args, ", "@).len() == 0 {
        ""@
    } else {
        ", "@
    }
}

/// Whether `t` has, behind the nodes of `u`, the function reference that the table holds
/// at the top operand, and the call of it with the operands below.
pub open spec fn calls_indirectly(
    s: GenV,
    u: GenV,
    t: GenV,
    sig: SigV,
    ti: u32,
    handle: Seq<char>,
) -> bool {
    let n = sig.params.len();
    &&& s.stack.len() >= n + 1
    &&& u.stack.last() == s.stack.last()
    &&& t.cur.len() == u.cur.len() + 2
    &&& t.stack.len() == s.stack.len() - n - 1 + sig.results.len()
    &&& t.cur[u.cur.len() as int] == NodeV::Line(
        "let "@ + handle + " = self.table()[("@ + s.stack.last().code + ") as u32 as usize];"@,
    )
    &&& t.cur.last() matches NodeV::Line(line) && dispatches_with(
        line,
        t,
        ti,
        handle,
        topmost(u.stack.drop_last(), n),
        sig.results.len(),
    )
}

/// `call_indirect` calls what the table holds at the top operand, with the operands
/// below it, as many as the type has parameters and in their order; the results become
/// the topmost operands, in theirs.
pub proof fn law_call_indirect_passes_operands(
    s: GenV,
    ti: u32,
    table: u32,
    text: Seq<char>,
    t: GenV,
)
    requires
        s.reachable,
        s.emitted(Operator::CallIndirect { type_index: ti, table_index: table }, text) == Ok::<
            GenV,
            FailV,
        >(t),
        ti < s.ctx.types.len() ==> s.ctx.has_target(s.ctx.types[ti as int]) || s.ctx.has_imports,
    ensures
        ti < s.ctx.types.len(),
        s.survivors_frozen(1) matches Ok(u) && exists|handle: Seq<char>| #[trigger]
            calls_indirectly(s, u, t, s.ctx.types[ti as int], ti, handle),
{
    lemma_unfold_indirect(s, ti, table, text);
    lemma_called_indirect(s, ti, table, t);
}

proof fn lemma_unfold_indirect(s: GenV, ti: u32, table: u32, text: Seq<char>)
    requires
        s.reachable,
    ensures
        s.emitted(Operator::CallIndirect { type_index: ti, table_index: table }, text)
            == s.called_indirect(ti, table, false),
{
    reveal(GenV::lowered_transfer);
}

#[verifier::rlimit(40)]
proof fn lemma_called_indirect(s: GenV, ti: u32, table: u32, t: GenV)
    requires
        s.called_indirect(ti, table, false) == Ok::<GenV, FailV>(t),
        ti < s.ctx.types.len() ==> s.ctx.has_target(s.ctx.types[ti as int]) || s.ctx.has_imports,
    ensures
        ti < s.ctx.types.len(),
        s.survivors_frozen(1) matches Ok(u) && exists|handle: Seq<char>| #[trigger]
            calls_indirectly(s, u, t, s.ctx.types[ti as int], ti, handle),
{
    let sig = s.ctx.types[ti as int];
    let n = sig.params.len();
    let m = sig.results.len();
    law_freezing_pins_survivors(s, 1);
    lemma_survivors(s, 1);
    let u = s.survivors_frozen(1)->Ok_0;
    let d = u.drop(1);
    let all = codes(d.tail(n as int));
    assert(d.stack =~= u.stack.drop_last());
    assert(all =~= topmost(u.stack.drop_last(), n));
    let args = joined(all, ", "@);
    let s1 = d.drop(n as int);
    let handle = s1.temp();
    let s2 = s1.temp_taken().line(
        ("let "@ + handle + " = self.table()[("@ + u.top().code + ") as u32 as usize];"@),
    ).dispatching(ti);
    let (s3, binding, temps) = s2.result_bound(sig.results)->Ok_0;
    let sep = if args.len() == 0 {
        ""@
    } else {
        ", "@
    };
    let line = (binding + "self.call_ref_t"@ + dec(ti as nat) + "("@ + handle + sep + args + ");"@);
    lemma_pushed_codes(s3.line(line), temps);
    lemma_temps_len(s2, m);
    lemma_temps_keep(s2, m);
    assert(s3.cur == s2.cur && s3.stack == s2.stack);
    assert(t == s3.line(line).pushed(temps));
    assert(temps.len() == m);
    assert forall|i: int| 0 <= i < m implies #[trigger] topmost(t.stack, m)[i] == temps[i].0 by {
    }
    if m == 1 {
        assert(topmost(t.stack, m)[0] == temps[0].0);
        let rty = s2.rust_type(sig.results[0])->Ok_0;
        assert(binding == "let "@ + topmost(t.stack, m)[0] + ": "@ + rty + " = "@);
    } else if m > 1 {
        assert(topmost(t.stack, m) =~= s2.temps(m));
        let tys = rust_types_text(sig.results, s2.ctx.kinds)->Ok_0;
        assert(binding == "let ("@ + joined(topmost(t.stack, m), ", "@) + "): ("@ + joined(
            tys,
            ", "@,
        ) + ") = "@);
    }
    assert(binds(binding, topmost(t.stack, m)));
    assert(t.cur.last() == NodeV::Line(line));
    assert(dispatches_with(line, t, ti, handle, topmost(u.stack.drop_last(), n), m));
    assert(calls_indirectly(s, u, t, sig, ti, handle));
}

/// How many items come in front of the parameters of a function.
pub open spec fn receivers_of(is_method: bool) -> int {
    if is_method {
        1
    } else {
        0
    }
}

/// Whether the items are the parameters of a function: those of a method come behind its
/// instance, and each declares the variable of its local.
pub open spec fn param_items(n: nat, is_method: bool, items: Seq<Seq<char>>) -> bool {
    &&& items.len() == n + receivers_of(is_method)
    &&& is_method ==> items[0] == "&mut self"@
    &&& forall|i: int|
        receivers_of(is_method) <= i < items.len() ==> declares_local(
            #[trigger] items[i],
            (i - receivers_of(is_method)) as nat,
        )
}

/// Whether the text declares the variable of the local `i`.
pub open spec fn declares_local(item: Seq<char>, i: nat) -> bool {
    exists|word: Seq<char>, ty: Seq<char>|
        (word.len() == 0 || word == "mut "@) && item == #[trigger] (word + ("l"@ + dec(i)) + ": "@
            + ty)
}

proof fn lemma_one_more(front: Seq<char>, items: Seq<Seq<char>>, word: Seq<char>, n: nat,
    ty: Seq<char>)
    requires
        front == joined(items, ", "@),
        word.len() == 0 || word == "mut "@,
    ensures
        ({
            let item = word + ("l"@ + dec(n)) + ": "@ + ty;
            let sep = if items.len() > 0 {
                ", "@
            } else {
                ""@
            };
            &&& declares_local(item, n)
            &&& joined(items.push(item), ", "@) == (front + sep + word + "l"@ + dec(n as nat)
                + ": "@ + ty)
        }),
{
    let item = word + ("l"@ + dec(n)) + ": "@ + ty;
    assert(items.push(item).drop_last() =~= items);
    reveal_strlit("");
    if items.len() > 0 {
        assert(joined(items.push(item), ", "@) =~= (front + ", "@ + word + "l"@ + dec(n as nat)
            + ": "@ + ty));
    } else {
        assert(front =~= Seq::<char>::empty());
        assert(joined(items.push(item), ", "@) =~= (front + ""@ + word + "l"@ + dec(n as nat)
            + ": "@ + ty));
    }
}

#[verifier::rlimit(40)]
proof fn lemma_params(
    params: Seq<ValType>,
    mutable: Set<u32>,
    kinds: Seq<KindV>,
    is_method: bool,
    n: nat,
) -> (items: Seq<Seq<char>>)
    requires
        n <= params.len(),
    ensures
        params_text(params, mutable, kinds, is_method, n) matches Ok(text) ==> text == joined(
            items,
            ", "@,
        ) && param_items(n, is_method, items),
    decreases n,
{
    if n == 0 {
        let items: Seq<Seq<char>> = if is_method {
            seq!["&mut self"@]
        } else {
            Seq::empty()
        };
        assert(is_method ==> joined(items, ", "@) == items[0]);
        items
    } else {
        let before = lemma_params(params, mutable, kinds, is_method, (n - 1) as nat);
        if let Ok(text) = params_text(params, mutable, kinds, is_method, n) {
            let front = params_text(params, mutable, kinds, is_method, (n - 1) as nat)->Ok_0;
            let ty = rust_type_text(params[n - 1], kinds)->Ok_0;
            let word = mut_word(mutable, n - 1);
            reveal_strlit("");
            lemma_one_more(front, before, word, (n - 1) as nat, ty);
            let items = before.push(word + ("l"@ + dec((n - 1) as nat)) + ": "@ + ty);
            assert forall|i: int| receivers_of(is_method) <= i < items.len() implies declares_local(
                #[trigger] items[i],
                (i - receivers_of(is_method)) as nat,
            ) by {
                if i < before.len() {
                    assert(items[i] == before[i]);
                }
            }
            items
        } else {
            before
        }
    }
}

/// A function takes its parameters in their order, each as the variable that `local.get`
/// of its index reads.
pub proof fn law_parameters_are_locals(s: GenV, params: Seq<ValType>, text: Seq<char>)
    requires
        params_text(params, s.mutable_locals, s.ctx.kinds, s.ctx.is_method, params.len()) == Ok::<
            Seq<char>,
            FailV,
        >(text),
    ensures
        exists|items: Seq<Seq<char>>|
            text == #[trigger] joined(items, ", "@) && param_items(
                params.len(),
                s.ctx.is_method,
                items,
            ),
        forall|i: u32| #[trigger]
            s.local_get(i) is Ok ==> (s.local_get(i)->Ok_0).top().code == "l"@ + dec(i as nat),
{
    let items = lemma_params(
        params,
        s.mutable_locals,
        s.ctx.kinds,
        s.ctx.is_method,
        params.len(),
    );
}

/// Whether the line declares a method `name`, and the call is that method's of the host.
pub open spec fn hosts(line: Seq<char>, call: Seq<char>, name: Seq<char>, args: Seq<char>) -> bool {
    &&& is_name(name)
    &&& occurs_at(line, 0, "    fn "@ + name + "("@)
    &&& call == "self.imports."@ + name + "("@ + args + ")"@
}

/// A call of an import that the host provides reaches it: it names the method that the
/// host's trait declares for the import.
#[verifier::rlimit(40)]
pub proof fn law_import_calls_name_their_method(
    c: CtxV,
    f: int,
    args: Seq<char>,
    out: Seq<Seq<char>>,
    lines: Seq<Seq<char>>,
)
    requires
        0 <= f < c.imports.len(),
        c.imports[f].wasi is None,
        import_method(out, c.imports[f], f as nat, c.kinds) == Ok::<Seq<Seq<char>>, FailV>(lines),
    ensures
        lines.len() == out.len() + 1,
        lines.drop_last() == out,
        exists|name: Seq<char>| #[trigger]
            hosts(lines.last(), c.call_text(f, args), name, args),
{
    let name = "import"@ + dec(f as nat);
    reveal_strlit("import");
    law_numbers_read_back(f as nat);
    assert forall|i: int| 0 <= i < name.len() implies ident_continue(#[trigger] name[i]) by {
        if i >= 6 {
            assert(name[i] == dec(f as nat)[i - 6]);
        }
    }
    reveal_strlit("    fn import");
    reveal_strlit("    fn ");
    reveal_strlit("(");
    let line = lines.last();
    let sought = "    fn "@ + name + "("@;
    assert(line.subrange(0, sought.len() as int) =~= sought);
    lemma_import_call(c, f, args);
    assert(lines.drop_last() =~= out);
    assert(hosts(line, c.call_text(f, args), name, args));
}

proof fn lemma_import_call(c: CtxV, f: int, args: Seq<char>)
    requires
        0 <= f < c.imports.len(),
        c.imports[f].wasi is None,
    ensures
        c.call_text(f, args) == "self.imports."@ + ("import"@ + dec(f as nat)) + "("@ + args + ")"@,
{
    reveal_strlit("self.imports.import");
    reveal_strlit("self.imports.");
    reveal_strlit("import");
    assert(c.call_text(f, args) =~= "self.imports."@ + ("import"@ + dec(f as nat)) + "("@ + args
        + ")"@);
}

} // verus!
