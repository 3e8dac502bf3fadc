//! How rendered bodies are put together.

use vstd::prelude::*;

use crate::codegen::flatten::{
    structured_assigns, structured_branch_text, structured_inner, structured_node, structured_nodes,
    structured_region, LineV, StructV,
};
use crate::codegen::ir::{
    body_len, br_arm_text, branch_text, breaks_at_end, catches_everything, catches_len,
    catches_size, cond_text, depth_of, handler_head, lemma_catch_size, lemma_node_size, node_depth,
    node_len, node_size, nodes_size, put, put_assigns, put_binds, put_br_arms, put_br_if,
    put_handler, put_handlers, put_inner, put_landing_pad, put_node, put_nodes, put_protected,
    put_region, put_try, region_depth, region_header, region_len, region_size, try_len, try_size,
    BrArmV, CatchKind, CatchV, FrameKind, NodeV, RegionV, TryV,
};
use crate::text::{byte_len, clamp, dec, inc, repeated};

verus! {

// ---------------------------------------------------------------------------
// Rendering appends
// ---------------------------------------------------------------------------
proof fn lemma_put(a: Seq<char>, b: Seq<char>, text: Seq<char>, depth: usize, prefix: Seq<char>)
    ensures
        put(a + b, text, depth, prefix) == a + put(b, text, depth, prefix),
{
    assert(put(a + b, text, depth, prefix) =~= a + put(b, text, depth, prefix));
}

proof fn lemma_put_assigns(
    a: Seq<char>,
    b: Seq<char>,
    assigns: Seq<(Seq<char>, Seq<char>)>,
    depth: usize,
    prefix: Seq<char>,
)
    ensures
        put_assigns(a + b, assigns, depth, prefix) == a + put_assigns(b, assigns, depth, prefix),
    decreases assigns.len(),
{
    if assigns.len() > 0 {
        let front = assigns.drop_last();
        lemma_put_assigns(a, b, front, depth, prefix);
        lemma_put(
            a,
            put_assigns(b, front, depth, prefix),
            ("    "@ + assigns.last().0 + " = "@ + assigns.last().1 + ";"@),
            depth,
            prefix,
        );
    }
}

proof fn lemma_put_br_arms(
    a: Seq<char>,
    b: Seq<char>,
    arms: Seq<BrArmV>,
    depth: usize,
    prefix: Seq<char>,
)
    ensures
        put_br_arms(a + b, arms, depth, prefix) == a + put_br_arms(b, arms, depth, prefix),
    decreases arms.len(),
{
    if arms.len() > 0 {
        let front = arms.drop_last();
        lemma_put_br_arms(a, b, front, depth, prefix);
        lemma_put(
            a,
            put_br_arms(b, front, depth, prefix),
            br_arm_text(arms.last()),
            depth,
            prefix,
        );
    }
}

proof fn lemma_put_binds(
    a: Seq<char>,
    b: Seq<char>,
    binds: Seq<Seq<char>>,
    depth: usize,
    prefix: Seq<char>,
)
    ensures
        put_binds(a + b, binds, depth, prefix) == a + put_binds(b, binds, depth, prefix),
    decreases binds.len(),
{
    if binds.len() > 0 {
        let front = binds.drop_last();
        lemma_put_binds(a, b, front, depth, prefix);
        lemma_put(a, put_binds(b, front, depth, prefix), binds.last(), depth, prefix);
    }
}

proof fn lemma_put_nodes(
    a: Seq<char>,
    b: Seq<char>,
    ns: Seq<NodeV>,
    depth: usize,
    prefix: Seq<char>,
)
    ensures
        put_nodes(a + b, ns, depth, prefix) == a + put_nodes(b, ns, depth, prefix),
    decreases nodes_size(ns), 4nat, ns.len(),
{
    if ns.len() > 0 {
        lemma_node_size(ns, ns.len() - 1);
        lemma_put_nodes(a, b, ns.drop_last(), depth, prefix);
        lemma_put_node(a, put_nodes(b, ns.drop_last(), depth, prefix), ns.last(), depth, prefix);
    }
}

proof fn lemma_put_node(a: Seq<char>, b: Seq<char>, n: NodeV, depth: usize, prefix: Seq<char>)
    ensures
        put_node(a + b, n, depth, prefix) == a + put_node(b, n, depth, prefix),
    decreases node_size(n), 3nat, 0nat,
{
    match n {
        NodeV::Line(text) => {
            lemma_put(a, b, text, depth, prefix);
        },
        NodeV::Term(text) => {
            lemma_put(a, b, text, depth, prefix);
        },
        NodeV::Br { label, is_loop } => {
            lemma_put(a, b, (branch_text(label, is_loop) + ";"@), depth, prefix);
        },
        NodeV::BrIf { cond, label, is_loop, assigns } => {
            if assigns.len() == 0 {
                let text = ("if "@ + cond + " { "@ + branch_text(label, is_loop) + "; }"@);
                lemma_put(a, b, text, depth, prefix);
            } else {
                let head = ("if "@ + cond + " {"@);
                let tail = ("    "@ + branch_text(label, is_loop) + ";"@);
                let o1 = put(b, head, depth, prefix);
                let o2 = put_assigns(o1, assigns, depth, prefix);
                let o3 = put(o2, tail, depth, prefix);
                lemma_put(a, b, head, depth, prefix);
                lemma_put_assigns(a, o1, assigns, depth, prefix);
                lemma_put(a, o2, tail, depth, prefix);
                lemma_put(a, o3, "}"@, depth, prefix);
            }
        },
        NodeV::BrTable { selector, arms } => {
            let head = ("match ("@ + selector + ") as u32 {"@);
            let o1 = put(b, head, depth, prefix);
            let o2 = put_br_arms(o1, arms, depth, prefix);
            lemma_put(a, b, head, depth, prefix);
            lemma_put_br_arms(a, o1, arms, depth, prefix);
            lemma_put(a, o2, "}"@, depth, prefix);
        },
        NodeV::Region(r) => {
            lemma_put_region(a, b, r, depth, prefix);
        },
        NodeV::Try(t) => {
            lemma_put_try(a, b, t, depth, prefix);
        },
        _ => {},
    }
}

proof fn lemma_put_inner(a: Seq<char>, b: Seq<char>, r: RegionV, depth: usize, prefix: Seq<char>)
    ensures
        put_inner(a + b, r, depth, prefix) == a + put_inner(b, r, depth, prefix),
    decreases region_size(r), 1nat, 0nat,
{
    match r.kind {
        FrameKind::If => {
            let head = ("if "@ + cond_text(r.cond) + " {"@);
            let o1 = put(b, head, depth, prefix);
            let o2 = put_nodes(o1, r.body, inc(depth), prefix);
            lemma_put(a, b, head, depth, prefix);
            lemma_put_nodes(a, o1, r.body, inc(depth), prefix);
            match r.els {
                Some(els) => {
                    let o3 = put(o2, "} else {"@, depth, prefix);
                    let o4 = put_nodes(o3, els, inc(depth), prefix);
                    lemma_put(a, o2, "} else {"@, depth, prefix);
                    lemma_put_nodes(a, o3, els, inc(depth), prefix);
                    lemma_put(a, o4, "}"@, depth, prefix);
                },
                None => {
                    lemma_put(a, o2, "}"@, depth, prefix);
                },
            }
        },
        _ => {
            lemma_put_nodes(a, b, r.body, depth, prefix);
        },
    }
}

proof fn lemma_put_region(a: Seq<char>, b: Seq<char>, r: RegionV, depth: usize, prefix: Seq<char>)
    ensures
        put_region(a + b, r, depth, prefix) == a + put_region(b, r, depth, prefix),
    decreases region_size(r), 2nat, 0nat,
{
    if r.targeted {
        let head = region_header(r.kind, r.label);
        let o1 = put(b, head, depth, prefix);
        let o2 = put_inner(o1, r, inc(depth), prefix);
        lemma_put(a, b, head, depth, prefix);
        lemma_put_inner(a, o1, r, inc(depth), prefix);
        if breaks_at_end(r) {
            let end = ("break 'l"@ + dec(r.label as nat) + ";"@);
            let o3 = put(o2, end, inc(depth), prefix);
            lemma_put(a, o2, end, inc(depth), prefix);
            lemma_put(a, o3, "}"@, depth, prefix);
        } else {
            lemma_put(a, o2, "}"@, depth, prefix);
        }
    } else {
        lemma_put_inner(a, b, r, depth, prefix);
    }
}

proof fn lemma_put_protected(a: Seq<char>, b: Seq<char>, t: TryV, depth: usize, prefix: Seq<char>)
    ensures
        put_protected(a + b, t, depth, prefix) == a + put_protected(b, t, depth, prefix),
    decreases try_size(t), 1nat, 0nat,
{
    if t.targeted {
        let deep = inc(inc(depth));
        let head = ("'l"@ + dec(t.label as nat) + ": loop {"@);
        let o1 = put(b, head, inc(depth), prefix);
        let o2 = put_nodes(o1, t.body, deep, prefix);
        lemma_put(a, b, head, inc(depth), prefix);
        lemma_put_nodes(a, o1, t.body, deep, prefix);
        if t.body_reachable_at_end {
            let end = ("break 'l"@ + dec(t.label as nat) + ";"@);
            let o3 = put(o2, end, deep, prefix);
            lemma_put(a, o2, end, deep, prefix);
            lemma_put(a, o3, "}"@, inc(depth), prefix);
        } else {
            lemma_put(a, o2, "}"@, inc(depth), prefix);
        }
    } else {
        lemma_put_nodes(a, b, t.body, inc(depth), prefix);
    }
}

proof fn lemma_put_try(a: Seq<char>, b: Seq<char>, t: TryV, depth: usize, prefix: Seq<char>)
    ensures
        put_try(a + b, t, depth, prefix) == a + put_try(b, t, depth, prefix),
    decreases try_size(t), 2nat, 0nat,
{
    let head = "match ::std::panic::catch_unwind(::std::panic::AssertUnwindSafe(|| {"@;
    let caught = ("Err("@ + t.exc_var + ") => {"@);
    let deep = inc(inc(depth));
    let o1 = put(b, head, depth, prefix);
    let o2 = put_protected(o1, t, depth, prefix);
    let o3 = put(o2, "})) {"@, depth, prefix);
    let o4 = put(o3, "Ok(()) => {}"@, inc(depth), prefix);
    let o5 = put(o4, caught, inc(depth), prefix);
    let o6 = put_landing_pad(o5, t.catches, t.exc_var, deep, prefix);
    let o7 = put(o6, "}"@, inc(depth), prefix);
    lemma_put(a, b, head, depth, prefix);
    lemma_put_protected(a, o1, t, depth, prefix);
    lemma_put(a, o2, "})) {"@, depth, prefix);
    lemma_put(a, o3, "Ok(()) => {}"@, inc(depth), prefix);
    lemma_put(a, o4, caught, inc(depth), prefix);
    lemma_put_landing_pad(a, o5, t.catches, t.exc_var, deep, prefix);
    lemma_put(a, o6, "}"@, inc(depth), prefix);
    lemma_put(a, o7, "}"@, depth, prefix);
}

proof fn lemma_put_handler(a: Seq<char>, b: Seq<char>, c: CatchV, depth: usize, prefix: Seq<char>)
    ensures
        put_handler(a + b, c, depth, prefix) == a + put_handler(b, c, depth, prefix),
    decreases nodes_size(c.body), 5nat, 0nat,
{
    if c.kind != CatchKind::Body {
        let deep = inc(inc(depth));
        let o1 = put(b, handler_head(c.kind), inc(depth), prefix);
        let o2 = put_binds(o1, c.binds, deep, prefix);
        let o3 = put_nodes(o2, c.body, deep, prefix);
        lemma_put(a, b, handler_head(c.kind), inc(depth), prefix);
        lemma_put_binds(a, o1, c.binds, deep, prefix);
        lemma_put_nodes(a, o2, c.body, deep, prefix);
        lemma_put(a, o3, "}"@, inc(depth), prefix);
    }
}

proof fn lemma_put_handlers(
    a: Seq<char>,
    b: Seq<char>,
    cs: Seq<CatchV>,
    depth: usize,
    prefix: Seq<char>,
)
    ensures
        put_handlers(a + b, cs, depth, prefix) == a + put_handlers(b, cs, depth, prefix),
    decreases catches_size(cs), 0nat, cs.len(),
{
    if cs.len() > 0 {
        lemma_catch_size(cs, cs.len() - 1);
        lemma_put_handlers(a, b, cs.drop_last(), depth, prefix);
        lemma_put_handler(
            a,
            put_handlers(b, cs.drop_last(), depth, prefix),
            cs.last(),
            depth,
            prefix,
        );
    }
}

proof fn lemma_put_landing_pad(
    a: Seq<char>,
    b: Seq<char>,
    cs: Seq<CatchV>,
    exc_var: Seq<char>,
    depth: usize,
    prefix: Seq<char>,
)
    ensures
        put_landing_pad(a + b, cs, exc_var, depth, prefix) == a + put_landing_pad(
            b,
            cs,
            exc_var,
            depth,
            prefix,
        ),
    decreases catches_size(cs), 1nat, 0nat,
{
    if cs.len() == 0 {
        lemma_put(a, b, ("::std::panic::resume_unwind("@ + exc_var + ");"@), depth, prefix);
    } else {
        let t1 = ("let __tag = match "@ + exc_var + ".downcast_ref::<Wasm2RsException>() {"@);
        let t2 = "Some(__e) => __e.tag,"@;
        let t3 = ("None => ::std::panic::resume_unwind("@ + exc_var + "),"@);
        let t7 = ("_ => ::std::panic::resume_unwind("@ + exc_var + "),"@);
        let o1 = put(b, t1, depth, prefix);
        let o2 = put(o1, t2, inc(depth), prefix);
        let o3 = put(o2, t3, inc(depth), prefix);
        let o4 = put(o3, "};"@, depth, prefix);
        let o5 = put(o4, "match __tag {"@, depth, prefix);
        let o6 = put_handlers(o5, cs, depth, prefix);
        lemma_put(a, b, t1, depth, prefix);
        lemma_put(a, o1, t2, inc(depth), prefix);
        lemma_put(a, o2, t3, inc(depth), prefix);
        lemma_put(a, o3, "};"@, depth, prefix);
        lemma_put(a, o4, "match __tag {"@, depth, prefix);
        lemma_put_handlers(a, o5, cs, depth, prefix);
        if catches_everything(cs) {
            lemma_put(a, o6, "}"@, depth, prefix);
        } else {
            let o7 = put(o6, t7, inc(depth), prefix);
            lemma_put(a, o6, t7, inc(depth), prefix);
            lemma_put(a, o7, "}"@, depth, prefix);
        }
    }
}

/// Rendering only appends: what stands in the output stays, and what comes behind
/// it does not depend on it.
pub proof fn law_rendering_appends(
    out: Seq<char>,
    ns: Seq<NodeV>,
    depth: usize,
    prefix: Seq<char>,
)
    ensures
        put_nodes(out, ns, depth, prefix) == out + put_nodes(Seq::empty(), ns, depth, prefix),
        out.is_prefix_of(put_nodes(out, ns, depth, prefix)),
{
    lemma_put_nodes(out, Seq::empty(), ns, depth, prefix);
    assert(out + Seq::<char>::empty() =~= out);
}

/// One list of nodes behind another is rendered behind it.
pub proof fn law_rendering_concatenates(
    out: Seq<char>,
    a: Seq<NodeV>,
    b: Seq<NodeV>,
    depth: usize,
    prefix: Seq<char>,
)
    ensures
        put_nodes(out, a + b, depth, prefix) == put_nodes(
            put_nodes(out, a, depth, prefix),
            b,
            depth,
            prefix,
        ),
    decreases b.len(),
{
    if b.len() == 0 {
        assert(a + b =~= a);
    } else {
        assert((a + b).drop_last() =~= a + b.drop_last());
        assert((a + b).last() == b.last());
        law_rendering_concatenates(out, a, b.drop_last(), depth, prefix);
    }
}

/// A line at the top of a body stands behind the prefix and one indentation; an
/// empty one is bare.
pub proof fn law_lines_are_indented(out: Seq<char>, text: Seq<char>, prefix: Seq<char>)
    ensures
        put_nodes(out, seq![NodeV::Line(text)], 0, prefix) == if text.len() == 0 {
            out + "\n"@
        } else {
            out + prefix + "    "@ + text + "\n"@
        },
{
    let ns = seq![NodeV::Line(text)];
    assert(ns.drop_last() =~= Seq::<NodeV>::empty());
    assert(put_nodes(out, ns.drop_last(), 0, prefix) == out);
    assert(repeated("    "@, 0) =~= Seq::<char>::empty());
    assert(repeated("    "@, 1) =~= repeated("    "@, 0) + "    "@);
    assert(repeated("    "@, 1) =~= "    "@);
    assert(put_nodes(out, ns, 0, prefix) == put_node(out, NodeV::Line(text), 0, prefix));
}

// ---------------------------------------------------------------------------
// Estimates
// ---------------------------------------------------------------------------
/// The byte lengths of all statements of the list, at every depth.
pub open spec fn statements_len(ns: Seq<NodeV>) -> nat
    decreases ns,
{
    if ns.len() == 0 {
        0
    } else {
        statements_len(ns.drop_last()) + statement_len(ns.last())
    }
}

pub open spec fn statement_len(n: NodeV) -> nat
    decreases n,
{
    match n {
        NodeV::Line(text) => byte_len(text) as nat,
        NodeV::Term(text) => byte_len(text) as nat,
        NodeV::Region(r) => region_statements_len(r),
        NodeV::Try(t) => try_statements_len(t),
        _ => 0,
    }
}

pub open spec fn region_statements_len(r: RegionV) -> nat
    decreases r,
{
    statements_len(r.body) + match r.els {
        Some(els) => statements_len(els),
        None => 0,
    }
}

pub open spec fn try_statements_len(t: TryV) -> nat
    decreases t,
{
    statements_len(t.body) + handlers_statements_len(t.catches)
}

pub open spec fn handlers_statements_len(cs: Seq<CatchV>) -> nat
    decreases cs,
{
    if cs.len() == 0 {
        0
    } else {
        handlers_statements_len(cs.drop_last()) + statements_len(cs.last().body)
    }
}

proof fn lemma_statements(ns: Seq<NodeV>)
    ensures
        statements_len(ns) <= body_len(ns),
    decreases nodes_size(ns), 2nat, ns.len(),
{
    if ns.len() > 0 {
        lemma_node_size(ns, ns.len() - 1);
        lemma_statements(ns.drop_last());
        match ns.last() {
            NodeV::Region(r) => {
                lemma_statements(r.body);
                if let Some(els) = r.els {
                    lemma_statements(els);
                }
                assert(statement_len(ns.last()) == region_statements_len(r));
                assert(node_len(ns.last()) == region_len(r));
            },
            NodeV::Try(t) => {
                lemma_statements(t.body);
                lemma_handler_statements(t.catches);
                assert(statement_len(ns.last()) == try_statements_len(t));
                assert(node_len(ns.last()) == try_len(t));
            },
            NodeV::Line(text) => {
                assert(node_len(ns.last()) == byte_len(text) + 5);
            },
            NodeV::Term(text) => {
                assert(node_len(ns.last()) == byte_len(text) + 5);
            },
            _ => {
                assert(statement_len(ns.last()) == 0);
            },
        }
        assert(statement_len(ns.last()) <= node_len(ns.last()));
    }
}

proof fn lemma_handler_statements(cs: Seq<CatchV>)
    ensures
        handlers_statements_len(cs) <= catches_len(cs),
    decreases catches_size(cs), 1nat, cs.len(),
{
    if cs.len() > 0 {
        lemma_catch_size(cs, cs.len() - 1);
        lemma_handler_statements(cs.drop_last());
        lemma_statements(cs.last().body);
    }
}

proof fn lemma_len_sum(a: Seq<NodeV>, b: Seq<NodeV>)
    ensures
        body_len(a + b) == body_len(a) + body_len(b),
    decreases b.len(),
{
    if b.len() == 0 {
        assert(a + b =~= a);
    } else {
        assert((a + b).drop_last() =~= a + b.drop_last());
        assert((a + b).last() == b.last());
        lemma_len_sum(a, b.drop_last());
    }
}

/// The estimate of one list behind another is the sum of their estimates, as far
/// as it fits a machine word, and that of no nodes is zero.
pub proof fn law_estimates_add_up(a: Seq<NodeV>, b: Seq<NodeV>)
    ensures
        clamp(body_len(a + b)) == clamp(clamp(body_len(a)) as nat + clamp(body_len(b)) as nat),
        body_len(Seq::empty()) == 0,
{
    lemma_len_sum(a, b);
}

/// An estimate that fits a machine word is at least the length of all statements,
/// at every depth.
pub proof fn law_estimates_cover_statements(ns: Seq<NodeV>)
    ensures
        clamp(body_len(ns)) >= clamp(statements_len(ns)),
        body_len(ns) >= statements_len(ns),
{
    lemma_statements(ns);
}

// ---------------------------------------------------------------------------
// Structured rendering
// ---------------------------------------------------------------------------
/// `out` with all of `lines`.
pub open spec fn put_all(out: Seq<char>, lines: Seq<LineV>, prefix: Seq<char>) -> Seq<char>
    decreases lines.len(),
{
    if lines.len() == 0 {
        out
    } else {
        put(
            put_all(out, lines.drop_last(), prefix),
            lines.last().1,
            lines.last().0,
            prefix,
        )
    }
}

/// Whether the list holds statements, branches and regions only, and none of its
/// branches goes to a label that is bound to a state.
pub open spec fn self_contained(ns: Seq<NodeV>, labels: Map<usize, usize>) -> bool
    decreases ns,
{
    ns.len() == 0 || (self_contained(ns.drop_last(), labels) && match ns.last() {
        NodeV::Line(_) => true,
        NodeV::Term(_) => true,
        NodeV::Br { label, .. } => !labels.contains_key(label),
        NodeV::BrIf { label, .. } => !labels.contains_key(label),
        NodeV::Region(r) => region_self_contained(r, labels),
        _ => false,
    })
}

pub open spec fn region_self_contained(r: RegionV, labels: Map<usize, usize>) -> bool
    decreases r,
{
    self_contained(r.body, labels) && match r.els {
        Some(els) => self_contained(els, labels),
        None => true,
    }
}

proof fn lemma_put_line(o: Seq<char>, s: StructV, depth: usize, text: Seq<char>, prefix: Seq<char>)
    ensures
        put_all(o, s.line(depth, text).out, prefix) == put(
            put_all(o, s.out, prefix),
            text,
            depth,
            prefix,
        ),
        s.line(depth, text).escapes == s.escapes,
{
    assert(s.line(depth, text).out.drop_last() =~= s.out);
}

/// One more level of indentation is four more spaces.
pub proof fn lemma_put_deeper(out: Seq<char>, text: Seq<char>, depth: usize, prefix: Seq<char>)
    requires
        depth < usize::MAX,
        text.len() > 0,
    ensures
        put(out, "    "@ + text, depth, prefix) == put(out, text, inc(depth), prefix),
{
    let n = (depth + 1) as nat;
    lemma_repeated_more("    "@, n);
    assert(put(out, "    "@ + text, depth, prefix) =~= put(out, text, inc(depth), prefix));
}

proof fn lemma_repeated_more(unit: Seq<char>, n: nat)
    ensures
        repeated(unit, n + 1) == repeated(unit, n) + unit,
{
}

proof fn lemma_put_structured_assigns(
    o: Seq<char>,
    s: StructV,
    assigns: Seq<(Seq<char>, Seq<char>)>,
    depth: usize,
    prefix: Seq<char>,
)
    requires
        depth < usize::MAX,
    ensures
        put_all(o, structured_assigns(s, assigns, inc(depth)).out, prefix) == put_assigns(
            put_all(o, s.out, prefix),
            assigns,
            depth,
            prefix,
        ),
        structured_assigns(s, assigns, inc(depth)).escapes == s.escapes,
    decreases assigns.len(),
{
    if assigns.len() > 0 {
        let front = structured_assigns(s, assigns.drop_last(), inc(depth));
        let text = (assigns.last().0 + " = "@ + assigns.last().1 + ";"@);
        let wide = ("    "@ + assigns.last().0 + " = "@ + assigns.last().1 + ";"@);
        reveal_strlit(";");
        lemma_put_structured_assigns(o, s, assigns.drop_last(), depth, prefix);
        lemma_put_line(o, front, inc(depth), text, prefix);
        assert("    "@ + text =~= wide);
        lemma_put_deeper(put_all(o, front.out, prefix), text, depth, prefix);
    }
}

pub proof fn lemma_branch_texts(labels: Map<usize, usize>, label: usize, is_loop: bool)
    requires
        !labels.contains_key(label),
    ensures
        structured_branch_text(labels, label, is_loop, ""@) == (branch_text(label, is_loop) + ";"@),
{
    reveal_strlit("");
    reveal_strlit("continue 'l");
    reveal_strlit("break 'l");
    reveal_strlit("continue");
    reveal_strlit("break");
    reveal_strlit(" 'l");
    assert("continue 'l"@ =~= "continue"@ + " 'l"@);
    assert("break 'l"@ =~= "break"@ + " 'l"@);
    assert(structured_branch_text(labels, label, is_loop, ""@) =~= (branch_text(label, is_loop)
        + ";"@));
}

proof fn lemma_same_nodes(
    o: Seq<char>,
    s: StructV,
    labels: Map<usize, usize>,
    ns: Seq<NodeV>,
    depth: usize,
    prefix: Seq<char>,
)
    requires
        self_contained(ns, labels),
        depth + 2 * depth_of(ns) < usize::MAX,
    ensures
        put_all(o, structured_nodes(s, labels, ns, depth).out, prefix) == put_nodes(
            put_all(o, s.out, prefix),
            ns,
            depth,
            prefix,
        ),
        structured_nodes(s, labels, ns, depth).escapes == s.escapes,
    decreases nodes_size(ns), 2nat, ns.len(),
{
    if ns.len() > 0 {
        lemma_node_size(ns, ns.len() - 1);
        lemma_same_nodes(o, s, labels, ns.drop_last(), depth, prefix);
        let t = structured_nodes(s, labels, ns.drop_last(), depth);
        let done = put_all(o, t.out, prefix);
        match ns.last() {
            NodeV::Line(text) => {
                lemma_put_line(o, t, depth, text, prefix);
            },
            NodeV::Term(text) => {
                lemma_put_line(o, t, depth, text, prefix);
            },
            NodeV::Br { label, is_loop } => {
                lemma_branch_texts(labels, label, is_loop);
                let br = structured_branch_text(labels, label, is_loop, ""@);
                lemma_put_line(o, t.branching(labels, label), depth, br, prefix);
            },
            NodeV::BrIf { cond, label, is_loop, assigns } => {
                lemma_branch_texts(labels, label, is_loop);
                let br = structured_branch_text(labels, label, is_loop, ""@);
                if assigns.len() == 0 {
                    reveal_strlit("; }");
                    reveal_strlit(";");
                    reveal_strlit(" }");
                    let text = ("if "@ + cond + " { "@ + br + " }"@);
                    assert(text =~= ("if "@ + cond + " { "@ + branch_text(label, is_loop)
                        + "; }"@));
                    lemma_put_line(o, t.branching(labels, label), depth, text, prefix);
                } else {
                    let s1 = t.line(depth, ("if "@ + cond + " {"@));
                    let s2 = structured_assigns(s1, assigns, inc(depth)).branching(labels, label);
                    let s3 = s2.line(inc(depth), br);
                    lemma_put_line(o, t, depth, ("if "@ + cond + " {"@), prefix);
                    lemma_put_structured_assigns(o, s1, assigns, depth, prefix);
                    lemma_put_line(o, s2, inc(depth), br, prefix);
                    reveal_strlit(";");
                    lemma_put_deeper(put_all(o, s2.out, prefix), br, depth, prefix);
                    assert("    "@ + br =~= ("    "@ + branch_text(label, is_loop) + ";"@));
                    lemma_put_line(o, s3, depth, "}"@, prefix);
                    assert(structured_node(t, labels, ns.last(), depth) == s3.line(depth, "}"@));
                    assert(put_node(done, ns.last(), depth, prefix) == put_br_if(
                        done,
                        cond,
                        label,
                        is_loop,
                        assigns,
                        depth,
                        prefix,
                    ));
                }
            },
            NodeV::Region(r) => {
                assert(node_depth(ns.last()) == region_depth(r));
                lemma_same_region(o, t, labels, r, depth, prefix);
            },
            _ => {},
        }
        assert(put_all(o, structured_node(t, labels, ns.last(), depth).out, prefix) == put_node(
            done,
            ns.last(),
            depth,
            prefix,
        ));
        assert(structured_nodes(s, labels, ns, depth) == structured_node(
            t,
            labels,
            ns.last(),
            depth,
        ));
    }
}

proof fn lemma_same_inner(
    o: Seq<char>,
    s: StructV,
    labels: Map<usize, usize>,
    r: RegionV,
    depth: usize,
    prefix: Seq<char>,
)
    requires
        region_self_contained(r, labels),
        depth + 2 * region_depth(r) < usize::MAX + 1,
    ensures
        put_all(o, structured_inner(s, labels, r, depth).out, prefix) == put_inner(
            put_all(o, s.out, prefix),
            r,
            depth,
            prefix,
        ),
        structured_inner(s, labels, r, depth).escapes == s.escapes,
    decreases region_size(r), 0nat, 0nat,
{
    match r.kind {
        FrameKind::If => {
            let head = ("if "@ + cond_text(r.cond) + " {"@);
            let s1 = s.line(depth, head);
            let s2 = structured_nodes(s1, labels, r.body, inc(depth));
            lemma_put_line(o, s, depth, head, prefix);
            lemma_same_nodes(o, s1, labels, r.body, inc(depth), prefix);
            match r.els {
                Some(els) => {
                    let s3 = s2.line(depth, "} else {"@);
                    let s4 = structured_nodes(s3, labels, els, inc(depth));
                    lemma_put_line(o, s2, depth, "} else {"@, prefix);
                    lemma_same_nodes(o, s3, labels, els, inc(depth), prefix);
                    lemma_put_line(o, s4, depth, "}"@, prefix);
                },
                None => {
                    lemma_put_line(o, s2, depth, "}"@, prefix);
                },
            }
        },
        _ => {
            lemma_same_nodes(o, s, labels, r.body, depth, prefix);
        },
    }
}

proof fn lemma_same_region(
    o: Seq<char>,
    s: StructV,
    labels: Map<usize, usize>,
    r: RegionV,
    depth: usize,
    prefix: Seq<char>,
)
    requires
        region_self_contained(r, labels),
        depth + 2 * region_depth(r) < usize::MAX,
    ensures
        put_all(o, structured_region(s, labels, r, depth).out, prefix) == put_region(
            put_all(o, s.out, prefix),
            r,
            depth,
            prefix,
        ),
        structured_region(s, labels, r, depth).escapes == s.escapes,
    decreases region_size(r), 1nat, 0nat,
{
    if r.targeted {
        let head = region_header(r.kind, r.label);
        let s0 = s.line(depth, head);
        let s1 = structured_inner(s0, labels, r, inc(depth));
        lemma_put_line(o, s, depth, head, prefix);
        lemma_same_inner(o, s0, labels, r, inc(depth), prefix);
        if breaks_at_end(r) {
            let end = ("break 'l"@ + dec(r.label as nat) + ";"@);
            lemma_put_line(o, s1, inc(depth), end, prefix);
            lemma_put_line(o, s1.line(inc(depth), end), depth, "}"@, prefix);
        } else {
            lemma_put_line(o, s1, depth, "}"@, prefix);
        }
    } else {
        lemma_same_inner(o, s, labels, r, depth, prefix);
    }
}

/// The structured rendering of a region mirrors the nested one: where none of its
/// branches goes to a state of the dispatch, its lines written out are the text of
/// the nested rendering, and nothing continues the dispatch. (The indentation fits
/// a machine word.)
pub proof fn law_structured_rendering_is_nested(
    out: Seq<char>,
    labels: Map<usize, usize>,
    r: RegionV,
    depth: usize,
    prefix: Seq<char>,
    escapes: bool,
)
    requires
        region_self_contained(r, labels),
        depth + 2 * region_depth(r) < usize::MAX,
    ensures
        ({
            let s = structured_region(
                StructV { out: Seq::empty(), escapes },
                labels,
                r,
                depth,
            );
            put_all(out, s.out, prefix) == put_region(out, r, depth, prefix) && s.escapes
                == escapes
        }),
{
    lemma_same_region(out, StructV { out: Seq::empty(), escapes }, labels, r, depth, prefix);
}

} // verus!
