//! Nested rendering runs as the body that it renders.

use vstd::prelude::*;

use crate::codegen::flatten::LineV;
use crate::codegen::ir::{
    br_arm_text, branch_text, cond_text, depth_of, lemma_node_size, node_depth, nodes_size, put,
    put_assigns, put_br_arms, put_br_if, put_inner, put_node, put_nodes, put_region, region_depth,
    region_header, region_size, BrArmV, FrameKind, NodeV, RegionV,
};
use crate::codegen::rendering::{lemma_branch_texts, lemma_put_deeper, put_all};
use crate::codegen::running::{
    arm_line, arm_per_line, assign_text, on_a_line, run_codes, run_nodes, sound, sound_node,
    sound_region, kinds_inside, spaced, terms_stop, written, written_one, AtomV, CodeV, EndV,
    EventV, LayoutV, WorldV,
};
use crate::codegen::structured_runs::{
    arm_codes, assign_atoms, assign_codes, code_inside, code_node, code_nodes, code_region,
    jump_atoms, lemma_jump_text, lemma_same_nodes, lemma_spaced_assigns, lemma_spaced_cat,
    lemma_spaced_one,
};
use crate::text::{dec, inc};

verus! {

proof fn lemma_put_pushed(o: Seq<char>, out: Seq<LineV>, depth: usize, text: Seq<char>,
    prefix: Seq<char>)
    ensures
        put_all(o, out.push((depth, text)), prefix) == put(
            put_all(o, out, prefix),
            text,
            depth,
            prefix,
        ),
{
    assert(out.push((depth, text)).drop_last() =~= out);
}

/// The labels that have a state: none.
spec fn no_states() -> Map<usize, usize> {
    Map::empty()
}

proof fn lemma_jump_line(label: usize, is_loop: bool)
    ensures
        on_a_line(jump_atoms(no_states(), label, is_loop)) == (branch_text(label, is_loop) + ";"@),
        spaced(jump_atoms(no_states(), label, is_loop)) == (branch_text(label, is_loop) + ";"@)
            + " "@,
{
    lemma_jump_text(no_states(), label, is_loop);
    lemma_branch_texts(no_states(), label, is_loop);
}

#[verifier::rlimit(40)]
proof fn lemma_arm_line(a: BrArmV)
    ensures
        "    "@ + arm_line(
            a.pattern,
            assign_atoms(a.assigns) + jump_atoms(no_states(), a.label, a.is_loop),
            LayoutV::Bare,
        ) == br_arm_text(a),
        arm_line(
            a.pattern,
            assign_atoms(a.assigns) + jump_atoms(no_states(), a.label, a.is_loop),
            LayoutV::Bare,
        ).len() > 0,
{
    let jump = jump_atoms(no_states(), a.label, a.is_loop);
    let atoms = assign_atoms(a.assigns) + jump;
    let line = arm_line(a.pattern, atoms, LayoutV::Bare);
    reveal_strlit(",");
    reveal_strlit("    ");
    if a.assigns.len() == 0 {
        assert(atoms =~= jump);
        reveal_strlit(" => break 'l");
        reveal_strlit(" => continue 'l");
        reveal_strlit(" => ");
        reveal_strlit("break");
        reveal_strlit("continue");
        reveal_strlit(" 'l");
        assert("    "@ + line =~= br_arm_text(a));
    } else {
        lemma_spaced_cat(assign_atoms(a.assigns), jump);
        lemma_spaced_assigns(a.assigns);
        lemma_jump_line(a.label, a.is_loop);
        assert(atoms.len() > 1);
        reveal_strlit("; },");
        reveal_strlit(";");
        reveal_strlit(" ");
        reveal_strlit("},");
        assert("    "@ + line =~= br_arm_text(a));
    }
}

proof fn lemma_nested_arms(
    o: Seq<char>,
    out: Seq<LineV>,
    arms: Seq<BrArmV>,
    depth: usize,
    prefix: Seq<char>,
)
    requires
        depth < usize::MAX,
    ensures
        put_all(
            o,
            arm_per_line(out, arm_codes(no_states(), arms), LayoutV::Bare, inc(depth)),
            prefix,
        ) == put_br_arms(put_all(o, out, prefix), arms, depth, prefix),
    decreases arms.len(),
{
    if arms.len() > 0 {
        let a = arms.last();
        let codes = arm_codes(no_states(), arms);
        assert(codes.drop_last() =~= arm_codes(no_states(), arms.drop_last()));
        lemma_nested_arms(o, out, arms.drop_last(), depth, prefix);
        let front = arm_per_line(out, codes.drop_last(), LayoutV::Bare, inc(depth));
        let line = arm_line(codes.last().0, codes.last().1, LayoutV::Bare);
        lemma_arm_line(a);
        lemma_put_pushed(o, front, inc(depth), line, prefix);
        lemma_put_deeper(put_all(o, front, prefix), line, depth, prefix);
    }
}

#[verifier::rlimit(40)]
proof fn lemma_nested_assigns(
    o: Seq<char>,
    out: Seq<LineV>,
    assigns: Seq<(Seq<char>, Seq<char>)>,
    depth: usize,
    prefix: Seq<char>,
)
    requires
        depth < usize::MAX,
    ensures
        put_all(o, written(out, assign_codes(assigns), inc(depth)), prefix) == put_assigns(
            put_all(o, out, prefix),
            assigns,
            depth,
            prefix,
        ),
    decreases assigns.len(),
{
    if assigns.len() > 0 {
        let codes = assign_codes(assigns);
        let text = assign_text(assigns.last());
        assert(codes.drop_last() =~= assign_codes(assigns.drop_last()));
        lemma_nested_assigns(o, out, assigns.drop_last(), depth, prefix);
        let front = written(out, codes.drop_last(), inc(depth));
        lemma_spaced_one(AtomV::Do(text));
        let line = CodeV::Line(seq![AtomV::Do(text)]);
        assert(codes.last() == line);
        assert(written_one(front, line, inc(depth)) == front.push((inc(depth), text)));
        assert(written(out, codes, inc(depth)) == written_one(front, line, inc(depth)));
        lemma_put_pushed(o, front, inc(depth), text, prefix);
        reveal_strlit(";");
        lemma_put_deeper(put_all(o, front, prefix), text, depth, prefix);
        let a = assigns.last();
        assert("    "@ + text =~= ("    "@ + a.0 + " = "@ + a.1 + ";"@));
    }
}

#[verifier::rlimit(40)]
proof fn lemma_nested_simple(
    o: Seq<char>,
    out: Seq<LineV>,
    n: NodeV,
    depth: usize,
    prefix: Seq<char>,
)
    requires
        depth < usize::MAX,
        n is Line || n is Term || n is Br || n is BrIf || n is BrTable,
    ensures
        put_all(o, written_one(out, code_node(no_states(), n, LayoutV::Bare), depth), prefix)
            == put_node(put_all(o, out, prefix), n, depth, prefix),
{
    let done = put_all(o, out, prefix);
    match n {
        NodeV::Line(text) => {
            lemma_spaced_one(AtomV::Do(text));
            lemma_put_pushed(o, out, depth, text, prefix);
        },
        NodeV::Term(text) => {
            lemma_spaced_one(AtomV::Do(text));
            lemma_put_pushed(o, out, depth, text, prefix);
        },
        NodeV::Br { label, is_loop } => {
            lemma_jump_line(label, is_loop);
            lemma_put_pushed(o, out, depth, (branch_text(label, is_loop) + ";"@), prefix);
        },
        NodeV::BrIf { cond, label, is_loop, assigns } => {
            let jump = jump_atoms(no_states(), label, is_loop);
            let br = (branch_text(label, is_loop) + ";"@);
            lemma_jump_line(label, is_loop);
            reveal_strlit("; }");
            reveal_strlit(";");
            reveal_strlit(" ");
            reveal_strlit("}");
            if assigns.len() == 0 {
                let text = ("if "@ + cond + " { "@ + branch_text(label, is_loop) + "; }"@);
                assert("if "@ + cond + " { "@ + spaced(jump) + "}"@ + Seq::<char>::empty()
                    =~= text);
                lemma_put_pushed(o, out, depth, text, prefix);
            } else {
                let head = ("if "@ + cond + " {"@);
                let out1 = out.push((depth, head));
                lemma_put_pushed(o, out, depth, head, prefix);
                lemma_nested_assigns(o, out1, assigns, depth, prefix);
                let out2 = written(out1, assign_codes(assigns), inc(depth));
                let last = CodeV::Line(jump);
                let body = assign_codes(assigns).push(last);
                assert(body.drop_last() =~= assign_codes(assigns));
                assert(written_one(out2, last, inc(depth)) == out2.push((inc(depth), br)));
                assert(written(out1, body, inc(depth)) == written_one(out2, last, inc(depth)));
                let out3 = out2.push((inc(depth), br));
                lemma_put_pushed(o, out2, inc(depth), br, prefix);
                lemma_put_deeper(put_all(o, out2, prefix), br, depth, prefix);
                assert("    "@ + br =~= ("    "@ + branch_text(label, is_loop) + ";"@));
                lemma_put_pushed(o, out3, depth, "}"@, prefix);
                assert(put_node(done, n, depth, prefix) == put_br_if(
                    done,
                    cond,
                    label,
                    is_loop,
                    assigns,
                    depth,
                    prefix,
                ));
                let code = CodeV::If { cond, body, els: None };
                assert(code_node(no_states(), n, LayoutV::Bare) == code);
                assert(written_one(out, code, depth) == out3.push((depth, "}"@)));
            }
        },
        NodeV::BrTable { selector, arms } => {
            let head = ("match ("@ + selector + ") as u32 {"@);
            let out1 = out.push((depth, head));
            let out2 = arm_per_line(
                out1,
                arm_codes(no_states(), arms),
                LayoutV::Bare,
                inc(depth),
            );
            lemma_put_pushed(o, out, depth, head, prefix);
            lemma_nested_arms(o, out1, arms, depth, prefix);
            lemma_put_pushed(o, out2, depth, "}"@, prefix);
        },
        _ => {},
    }
}

/// Nested text is the code of the nodes, written down.
#[verifier::rlimit(40)]
proof fn lemma_nested_nodes(
    o: Seq<char>,
    out: Seq<LineV>,
    ns: Seq<NodeV>,
    kinds: Map<usize, bool>,
    depth: usize,
    prefix: Seq<char>,
)
    requires
        sound(ns, kinds),
        depth + 2 * depth_of(ns) < usize::MAX,
    ensures
        put_all(o, written(out, code_nodes(no_states(), ns, LayoutV::Bare), depth), prefix)
            == put_nodes(put_all(o, out, prefix), ns, depth, prefix),
    decreases nodes_size(ns), 3nat, ns.len(),
{
    if ns.len() > 0 {
        lemma_node_size(ns, ns.len() - 1);
        lemma_nested_nodes(o, out, ns.drop_last(), kinds, depth, prefix);
        let codes = code_nodes(no_states(), ns, LayoutV::Bare);
        assert(codes.drop_last() =~= code_nodes(no_states(), ns.drop_last(), LayoutV::Bare));
        let front = written(out, codes.drop_last(), depth);
        let n = ns.last();
        assert(sound_node(n, kinds));
        assert(codes.last() == code_node(no_states(), n, LayoutV::Bare));
        if let NodeV::Region(r) = n {
            assert(node_depth(n) == region_depth(r));
            lemma_nested_region(o, front, r, kinds, depth, prefix);
            assert(codes.last() == code_region(no_states(), r, LayoutV::Bare));
        } else {
            lemma_nested_simple(o, front, n, depth, prefix);
        }
        let done = put_all(o, front, prefix);
        assert(put_all(o, written_one(front, codes.last(), depth), prefix) == put_node(
            done,
            n,
            depth,
            prefix,
        ));
        assert(written(out, codes, depth) == written_one(front, codes.last(), depth));
    }
}

#[verifier::rlimit(40)]
proof fn lemma_nested_inner(
    o: Seq<char>,
    out: Seq<LineV>,
    r: RegionV,
    kinds: Map<usize, bool>,
    depth: usize,
    prefix: Seq<char>,
)
    requires
        sound_region(r, kinds),
        depth + 2 * region_depth(r) < usize::MAX + 1,
    ensures
        put_all(o, written_one(out, code_inside(no_states(), r, LayoutV::Bare), depth), prefix)
            == put_inner(put_all(o, out, prefix), r, depth, prefix),
    decreases region_size(r), 0nat, 0nat,
{
    let inner = kinds_inside(r, kinds);
    let body = code_nodes(no_states(), r.body, LayoutV::Bare);
    match r.kind {
        FrameKind::If => {
            let head = ("if "@ + cond_text(r.cond) + " {"@);
            let out1 = out.push((depth, head));
            lemma_put_pushed(o, out, depth, head, prefix);
            lemma_nested_nodes(o, out1, r.body, inner, inc(depth), prefix);
            let out2 = written(out1, body, inc(depth));
            match r.els {
                Some(els) => {
                    let out3 = out2.push((depth, "} else {"@));
                    lemma_put_pushed(o, out2, depth, "} else {"@, prefix);
                    lemma_nested_nodes(o, out3, els, inner, inc(depth), prefix);
                    let out4 = written(
                        out3,
                        code_nodes(no_states(), els, LayoutV::Bare),
                        inc(depth),
                    );
                    lemma_put_pushed(o, out4, depth, "}"@, prefix);
                },
                None => {
                    lemma_put_pushed(o, out2, depth, "}"@, prefix);
                },
            }
        },
        _ => {
            lemma_nested_nodes(o, out, r.body, inner, depth, prefix);
        },
    }
}

#[verifier::rlimit(40)]
proof fn lemma_nested_region(
    o: Seq<char>,
    out: Seq<LineV>,
    r: RegionV,
    kinds: Map<usize, bool>,
    depth: usize,
    prefix: Seq<char>,
)
    requires
        sound_region(r, kinds),
        depth + 2 * region_depth(r) < usize::MAX,
    ensures
        put_all(o, written_one(out, code_region(no_states(), r, LayoutV::Bare), depth), prefix)
            == put_region(put_all(o, out, prefix), r, depth, prefix),
    decreases region_size(r), 1nat, 0nat,
{
    let inside = code_inside(no_states(), r, LayoutV::Bare);
    if r.targeted {
        let head = region_header(r.kind, r.label);
        let out1 = out.push((depth, head));
        lemma_put_pushed(o, out, depth, head, prefix);
        lemma_nested_inner(o, out1, r, kinds, inc(depth), prefix);
        let out2 = written_one(out1, inside, inc(depth));
        let one = seq![inside];
        assert(one.drop_last() =~= Seq::<CodeV>::empty());
        assert(written(out1, one.drop_last(), inc(depth)) == out1);
        assert(written(out1, one, inc(depth)) == out2);
        if r.kind != FrameKind::If && r.reachable_at_end {
            let leave = CodeV::Line(seq![AtomV::Break(r.label)]);
            let two = seq![inside, leave];
            let end = ("break 'l"@ + dec(r.label as nat) + ";"@);
            assert(two.drop_last() =~= one);
            lemma_spaced_one(AtomV::Break(r.label));
            assert(written_one(out2, leave, inc(depth)) == out2.push((inc(depth), end)));
            assert(written(out1, two, inc(depth)) == written_one(out2, leave, inc(depth)));
            lemma_put_pushed(o, out2, inc(depth), end, prefix);
            lemma_put_pushed(o, out2.push((inc(depth), end)), depth, "}"@, prefix);
        } else {
            lemma_put_pushed(o, out2, depth, "}"@, prefix);
        }
    } else {
        lemma_nested_inner(o, out, r, kinds, depth, prefix);
    }
}

/// Whether code runs as the body does, in every world.
pub open spec fn code_runs_as_body(code: Seq<CodeV>, nodes: Seq<NodeV>) -> bool {
    forall|w: WorldV, pc: usize, h: Seq<EventV>, fuel: nat|
        terms_stop(w, nodes) ==> {
            let end = run_nodes(w, nodes, h, fuel);
            let run = #[trigger] run_codes(w, code, pc, h, fuel);
            &&& run.h == end.1
            &&& match end.0 {
                EndV::Fall => run.left is Fall,
                EndV::To(_) => false,
                EndV::Stop => run.left is Stop,
                EndV::Cut => run.left is Cut,
            }
        }
}

/// Nested rendering keeps what a body does: its text is that of code that runs as the
/// body does, whatever its conditions and selectors give each time and wherever it
/// stops. (The indentation fits a machine word.)
#[verifier::rlimit(40)]
pub proof fn law_nested_rendering_keeps_runs(
    out: Seq<char>,
    nodes: Seq<NodeV>,
    depth: usize,
    prefix: Seq<char>,
)
    requires
        sound(nodes, Map::empty()),
        depth + 2 * depth_of(nodes) < usize::MAX,
    ensures
        exists|code: Seq<CodeV>|
            put_nodes(out, nodes, depth, prefix) == put_all(
                out,
                #[trigger] written(Seq::empty(), code, depth),
                prefix,
            ) && code_runs_as_body(code, nodes),
{
    let code = code_nodes(no_states(), nodes, LayoutV::Bare);
    let kinds = Map::<usize, bool>::empty();
    lemma_nested_nodes(out, Seq::empty(), nodes, kinds, depth, prefix);
    assert(put_all(out, Seq::<LineV>::empty(), prefix) == out);
    assert forall|w: WorldV, pc: usize, h: Seq<EventV>, fuel: nat| terms_stop(w, nodes) implies {
        let end = run_nodes(w, nodes, h, fuel);
        let run = #[trigger] run_codes(w, code, pc, h, fuel);
        &&& run.h == end.1
        &&& match end.0 {
            EndV::Fall => run.left is Fall,
            EndV::To(_) => false,
            EndV::Stop => run.left is Stop,
            EndV::Cut => run.left is Cut,
        }
    } by {
        lemma_same_nodes(w, nodes, no_states(), kinds, LayoutV::Bare, pc, h, fuel);
    }
}

} // verus!
