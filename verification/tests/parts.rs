use std::collections::{HashMap, HashSet};

use wasm2rs::codegen::analysis::{
    can_suspend_functions, collect_mutated_locals, default_value, rust_type, step_functions,
};
use wasm2rs::codegen::common::{
    byte_array_literal, decode_exc_value, encode_exc_value, i32_literal, i64_literal, index_u32,
    memarg_offset,
};
use wasm2rs::codegen::const_expr::{const_expr_to_rust, const_expr_u32};
use wasm2rs::codegen::edges::{
    contract_pc_edges, fuse_linear_chains, linear_single_successor, trivial_pc_target,
};
use wasm2rs::codegen::flatten::{Arm, Flattener};
use wasm2rs::codegen::helpers::{
    base_helper_lines, helper_lines, helper_method_name, helper_name, helper_order, Helper,
};
use wasm2rs::codegen::info::CompositeKind;
use wasm2rs::codegen::ir::{
    bool_inner, condition_code, estimate_body_len, push_body_line, render_body_into,
    render_region_into, FrameKind, Node, RegionNode,
};
use wasm2rs::codegen::runtime::{render_rt_helpers, rt_name, rt_order, RtSet};
use wasm2rs::codegen::scan::{
    collect_pc_targets, hoist_decl, lone_edge_target, parse_hoisted_decl, rewrite_pc_targets, rewrite_state_refs,
    type_default, wrap_returns, NameMap,
};
use wasm2rs::codegen::simd_rt::render_simd_helpers;
use wasm2rs::decode::reader::{decode_body, decode_const};
use wasm2rs::error::TranspileError;
use wasm2rs::ops::Operator;
use wasm2rs::text::{split_lines, NameSet};
use wasm2rs::wasm::{MemArg, ValType};

fn reason<T>(r: Result<T, TranspileError>) -> String {
    match r {
        Err(TranspileError::Unsupported(m)) => m,
        _ => "none".to_string(),
    }
}

fn arm(state: usize, lines: &[&str]) -> Arm {
    (state, lines.iter().map(|l| (0, l.to_string())).collect())
}

// Text ------------------------------------------------------------------------

#[test]
fn writes_integer_literals() {
    assert_eq!(i32_literal(0), "0i32");
    assert_eq!(i32_literal(-7), "-7i32");
    assert_eq!(i32_literal(i32::MAX), "2147483647i32");
    assert_eq!(i32_literal(i32::MIN), "i32::MIN");
    assert_eq!(i64_literal(-9223372036854775807), "-9223372036854775807i64");
    assert_eq!(i64_literal(i64::MIN), "i64::MIN");
}

#[test]
fn breaks_long_byte_arrays() {
    assert_eq!(byte_array_literal(&vec![]), "");
    assert_eq!(byte_array_literal(&vec![1, 255]), "\n1u8, 255u8,");
    let text = byte_array_literal(&vec![0; 33]);
    assert_eq!(text.matches('\n').count(), 2);
    assert!(text.ends_with("\n0u8,"));
}

#[test]
fn splits_text_into_lines() {
    let lines = |t: &str| split_lines(t).v;
    assert!(lines("").is_empty());
    assert_eq!(lines("a\n\nb"), vec!["a", "", "b"]);
    assert_eq!(lines("a\n"), vec!["a"]);
}

#[test]
fn names_are_kept_once() {
    let mut names = NameSet::new();
    names.insert("a");
    names.insert("a");
    let mut more = NameSet::new();
    more.insert("b");
    names.extend(&more);
    assert!(names.contains("a") && names.contains("b") && !names.contains("c"));
}

#[test]
fn bounds_indices_and_offsets() {
    assert!(matches!(index_u32(7), Ok(7)));
    assert_eq!(reason(index_u32(1 << 32)), "index too large");
    assert!(matches!(memarg_offset(MemArg { offset: 4, memory: 0 }), Ok(4)));
    assert_eq!(reason(memarg_offset(MemArg { offset: 1 << 32, memory: 0 })), "memory offset too large");
}

#[test]
fn exception_values_come_back() {
    let both = |ty: ValType| {
        let e = encode_exc_value(ty, "x").ok();
        let d = decode_exc_value(ty, "y").ok();
        (e, d)
    };
    let pair = |a: &str, b: &str| (Some(a.to_string()), Some(b.to_string()));
    assert_eq!(both(ValType::I32), pair("(x) as u32 as u64", "y as u32 as i32"));
    assert_eq!(both(ValType::I64), pair("(x) as u64", "y as i64"));
    assert_eq!(both(ValType::F32), pair("(x).to_bits() as u64", "f32::from_bits(y as u32)"));
    assert_eq!(both(ValType::F64), pair("(x).to_bits()", "f64::from_bits(y)"));
    assert_eq!(reason(encode_exc_value(ValType::V128, "x")), "exception payload with a v128 value");
    assert_eq!(reason(decode_exc_value(ValType::V128, "x")), "exception payload with a v128 value");
}

#[test]
fn conditions_unwrap_booleans() {
    assert_eq!(condition_code("i32::from(a < b)"), "a < b");
    assert_eq!(condition_code("v0"), "v0 != 0");
    assert_eq!(bool_inner("i32::from(a)"), Some("a"));
    assert_eq!(bool_inner("i32::from(a) & i32::from(b)"), None);
}

// States ----------------------------------------------------------------------

#[test]
fn targets_read_back_what_was_written() {
    for n in [0usize, 7, 10, 123456789, usize::MAX] {
        let mut out = vec![];
        collect_pc_targets(&format!("pc = {n};"), &mut out);
        assert_eq!(out, vec![n]);
        assert_eq!(lone_edge_target(&format!("pc = {n};")), Some(n));
    }
}

#[test]
fn redirecting_changes_whole_targets() {
    let map: HashMap<usize, usize> = HashMap::from([(1, 5)]);
    assert_eq!(
        rewrite_pc_targets("if c { pc = 1; continue 'sm; } pc = 12;", &map),
        "if c { pc = 5; continue 'sm; } pc = 12;"
    );
}

#[test]
fn lines_without_return_are_kept() {
    assert_eq!(wrap_returns("l0 = returned;"), "l0 = returned;");
    assert_eq!(wrap_returns("if a { return 1i32; }"), "if a { return Some(1i32); }");
    assert_eq!(wrap_returns("return;"), "return Some(());");
}

#[test]
fn whole_returned_expressions_are_wrapped() {
    // A semicolon in a literal or inside brackets does not end the expression.
    assert_eq!(wrap_returns(r#"return f("a;b");"#), r#"return Some(f("a;b"));"#);
    assert_eq!(wrap_returns(r#"return "\";";"#), r#"return Some("\";");"#);
    assert_eq!(
        wrap_returns("return { let x = 1; x }; y"),
        "return Some({ let x = 1; x }); y"
    );
}

#[test]
fn rewriting_twice_changes_nothing_more() {
    let mut map = NameMap::new();
    map.insert("l0".to_string(), "st.l0".to_string());
    let once = rewrite_state_refs("l0 = l1 + l0;", &map);
    assert_eq!(once, "st.l0 = l1 + st.l0;");
    assert_eq!(rewrite_state_refs(&once, &map), once);
}

#[test]
fn declarations_are_hoisted() {
    assert_eq!(
        hoist_decl("let v0: i32 = l0;"),
        Some(("let mut v0: i32 = 0;".to_string(), "v0 = l0;".to_string()))
    );
    assert_eq!(hoist_decl("v0 = l0;"), None);
    assert_eq!(type_default("i32"), "0");
    assert_eq!(type_default("GcRef"), "GcRef::Null");
    assert_eq!(type_default("bool"), "false");
    assert_eq!(type_default("[i64; 3]"), "[0; 3]");
    assert_eq!(type_default("Vec<i64>"), "Vec::new()");
    assert_eq!(type_default("(GcRef, f64, i64)"), "(GcRef::Null, 0.0, 0)");
    // The declaration binds what the line bound, and is its own declaration.
    let (decl, _) = match hoist_decl("let (mut a, b): (i32, GcRef) = f();") {
        Some(h) => h,
        None => panic!("a declaration"),
    };
    assert_eq!(decl, "let (mut a, mut b): (i32, GcRef) = (0, GcRef::Null);");
    let pairs = [("a", "i32"), ("b", "GcRef")].map(|(n, t)| (n.to_string(), t.to_string()));
    assert_eq!(parse_hoisted_decl(&decl), pairs.to_vec());
    assert_eq!(hoist_decl(&decl).map(|h| h.0), Some(decl));
    let (decl, assign) = match hoist_decl("let r: &mut T = f(x);") {
        Some(h) => h,
        None => panic!("a declaration"),
    };
    assert_eq!(assign, "r = f(x);");
    assert_eq!(parse_hoisted_decl(&decl), vec![("r".to_string(), "&mut T".to_string())]);
}

#[test]
fn forwarding_states_vanish() {
    let mut arms = vec![
        arm(0, &["pc = 1;"]),
        arm(1, &["pc = 2;"]),
        arm(2, &["if l0 != 0 { pc = 0; continue 'sm; }", "return;"]),
    ];
    assert_eq!(contract_pc_edges(&mut arms, 0), 2);
    assert_eq!(arms, vec![arm(2, &["if l0 != 0 { pc = 2; continue 'sm; }", "return;"])]);
    assert_eq!(trivial_pc_target(&arm(0, &["pc = 1;"]).1), Some(1));
    assert_eq!(trivial_pc_target(&arms[0].1), None);
}

#[test]
fn fusing_keeps_all_statements() {
    let mut arms = vec![
        arm(0, &["l0 = 1;", "pc = 3;"]),
        arm(3, &["l1 = 2;", "pc = 5;"]),
        arm(5, &["return;"]),
    ];
    fuse_linear_chains(&mut arms, 0);
    assert_eq!(arms, vec![arm(0, &["l0 = 1;", "l1 = 2;", "return;"])]);
}

#[test]
fn a_circle_of_jumps_keeps_its_entry() {
    let mut arms = vec![arm(0, &["pc = 1;"]), arm(1, &["l0 = 1;", "pc = 0;"])];
    assert_eq!(contract_pc_edges(&mut arms, 0), 1);
    assert_eq!(arms, vec![arm(1, &["l0 = 1;", "pc = 1;"])]);
}

#[test]
fn a_circle_of_pure_jumps_keeps_its_least_state() {
    let mut arms = vec![
        arm(0, &["l0 = 1;", "pc = 4;"]),
        arm(4, &["pc = 3;"]),
        arm(3, &["pc = 2;"]),
        arm(2, &["pc = 4;"]),
    ];
    assert_eq!(contract_pc_edges(&mut arms, 0), 0);
    assert_eq!(arms, vec![arm(0, &["l0 = 1;", "pc = 2;"]), arm(2, &["pc = 2;"])]);
}

#[test]
fn fusing_twice_changes_nothing_more() {
    let mut arms = vec![
        arm(0, &["l0 = 1;", "pc = 1;"]),
        arm(1, &["if l0 != 0 { pc = 0; continue 'sm; }", "pc = 2;"]),
        arm(2, &["pc = 2;"]),
    ];
    fuse_linear_chains(&mut arms, 0);
    let once = arms.clone();
    fuse_linear_chains(&mut arms, 0);
    assert_eq!(arms, once);
}

#[test]
fn redirecting_twice_is_redirecting_once() {
    let f: HashMap<usize, usize> = HashMap::from([(1, 5), (2, 6)]);
    let g: HashMap<usize, usize> = HashMap::from([(5, 7), (2, 9)]);
    let h: HashMap<usize, usize> = HashMap::from([(1, 7), (2, 6), (5, 7)]);
    let line = "if c { pc = 1; } else { pc = 2; } pc = 5;";
    assert_eq!(
        rewrite_pc_targets(&rewrite_pc_targets(line, &f), &g),
        rewrite_pc_targets(line, &h)
    );
    assert_eq!(rewrite_pc_targets(line, &h), "if c { pc = 7; } else { pc = 6; } pc = 7;");
}

#[test]
fn join_points_stay() {
    let mut arms = vec![
        arm(0, &["if l0 != 0 { pc = 2; continue 'sm; }", "pc = 1;"]),
        arm(1, &["l0 = 1;", "pc = 2;"]),
        arm(2, &["return;"]),
    ];
    assert_eq!(linear_single_successor(&arms[1].1), Some(2));
    // The single mention of a state and the jump at the end are the same.
    let other = arm(7, &["if l0 != 0 { pc = 3; continue 'sm; }", "pc = +2;"]);
    assert_eq!(linear_single_successor(&other.1), None);
    fuse_linear_chains(&mut arms, 0);
    let states: Vec<usize> = arms.iter().map(|a| a.0).collect();
    assert!(states.contains(&0) && states.contains(&2));
}

// Rendering --------------------------------------------------------------------

fn line(t: &str) -> Node {
    Node::Line(t.to_string())
}

fn rendered(nodes: &Vec<Node>) -> String {
    let mut out = String::new();
    render_body_into(nodes, "  ", &mut out);
    out
}

#[test]
fn bodies_are_rendered_one_behind_the_other() {
    assert_eq!(rendered(&vec![line("")]), "\n");
    assert_eq!(rendered(&vec![line("a;")]), "      a;\n");
    let both = vec![line("a;"), line(""), line("b;")];
    let mut out = rendered(&vec![line("a;"), line("")]);
    render_body_into(&vec![line("b;")], "  ", &mut out);
    assert_eq!(rendered(&both), out);
}

fn region(kind: FrameKind, cond: Option<&str>) -> RegionNode {
    RegionNode {
        kind,
        label: 3,
        targeted: true,
        reachable_at_end: true,
        cond: cond.map(|c| c.to_string()),
        body: vec![line("a();")],
        els: None,
    }
}

#[test]
fn regions_that_are_branched_to_are_labelled() {
    let text = |r: &RegionNode| {
        let mut out = String::new();
        render_region_into(r, 0, "", &mut out);
        out
    };
    let looped = "    'l3: loop {\n        a();\n        break 'l3;\n    }\n";
    assert_eq!(text(&region(FrameKind::Block, None)), looped);
    assert_eq!(text(&region(FrameKind::Loop, None)), looped);
    assert_eq!(
        text(&region(FrameKind::If, Some("c"))),
        "    'l3: {\n        if c {\n            a();\n        }\n    }\n"
    );
    let mut open = region(FrameKind::Block, None);
    open.reachable_at_end = false;
    assert_eq!(text(&open), "    'l3: loop {\n        a();\n    }\n");
    open.targeted = false;
    assert_eq!(text(&open), "    a();\n");
}

#[test]
fn estimates_add_up() {
    let both = vec![line("ab"), Node::Term("cde".to_string())];
    assert_eq!(estimate_body_len(&vec![]), 0);
    assert_eq!(
        estimate_body_len(&both),
        estimate_body_len(&vec![line("ab")]) + estimate_body_len(&vec![line("cde")])
    );
    assert!(estimate_body_len(&both) >= 5);
}

#[test]
fn a_structured_loop_is_rendered_as_a_nested_one() {
    let nested_if = RegionNode { label: 5, targeted: false, ..region(FrameKind::If, None) };
    let region = RegionNode {
        kind: FrameKind::Loop,
        label: 4,
        targeted: true,
        reachable_at_end: true,
        cond: None,
        body: vec![
            line("l0 = 1;"),
            Node::BrIf {
                cond: "l0 != 0".to_string(),
                label: 4,
                is_loop: true,
                assigns: vec![("v0".to_string(), "l0".to_string())],
            },
            Node::Region(nested_if),
        ],
        els: None,
    };
    let mut flattener = Flattener {
        arms: vec![],
        next_state: 0,
        labels: HashMap::new(),
        uses_continue: false,
        allow_structured_loop: true,
        split: None,
    };
    let mut lines = vec![];
    flattener.render_structured_region(&region, 1, &mut lines);
    assert!(!flattener.uses_continue);
    let mut structured = String::new();
    for (depth, text) in &lines {
        push_body_line(&mut structured, text, *depth, "  ");
    }
    let mut nested = String::new();
    render_region_into(&region, 1, "  ", &mut nested);
    assert_eq!(structured, nested);
    assert_eq!(
        nested,
        "          'l4: loop {\n              l0 = 1;\n              if l0 != 0 {\n                  \
         v0 = l0;\n                  continue 'l4;\n              }\n              if  {\n                  a();\n              }\n              \
         break 'l4;\n          }\n"
    );
}

// Helpers ---------------------------------------------------------------------

#[test]
fn every_helper_is_emitted_in_order() {
    let order = helper_order();
    let names: HashSet<&str> = order.iter().map(|h| helper_name(*h)).collect();
    assert_eq!(names.len(), order.len());
    for h in order {
        assert_eq!(helper_lines(h, 0), base_helper_lines(h));
    }
    assert_eq!(helper_method_name(Helper::LoadI32, 0), "r32");
    assert_eq!(helper_method_name(Helper::LoadI32, 2), "r32_m2");
}

#[test]
fn helpers_of_a_further_memory_leave_the_first_alone() {
    for h in helper_order() {
        let base = base_helper_lines(h);
        let sig = format!("fn {}(", helper_name(h));
        let all = base.join("\n");
        assert!(all.starts_with(&sig) && all.matches(&sig).count() == 1);
        let lines = helper_lines(h, 3);
        assert_eq!(lines.len(), base.len());
        assert!(lines[0].starts_with(&format!("fn {}(", helper_method_name(h, 3))));
        assert!(lines.iter().all(|l| !l.contains("self.mem()") && !l.contains("self.mem_mut()")));
    }
}

#[test]
fn runtime_functions_appear_when_used() {
    assert_eq!(render_rt_helpers(&RtSet::new()), "");
    for rt in rt_order() {
        let mut used = RtSet::new();
        used.insert(rt);
        assert!(render_rt_helpers(&used).contains(&format!("fn {}(", rt_name(rt))));
    }
    assert_eq!(render_simd_helpers(&NameSet::new()), "");
}

// Analyses --------------------------------------------------------------------

#[test]
fn suspension_reaches_callers() {
    let calls = vec![vec![1], vec![2], vec![], vec![]];
    let can = can_suspend_functions(1, &vec![false, false, false, true], &calls);
    assert!(matches!(can, Ok(s) if s == HashSet::from([4])));
    let can = can_suspend_functions(0, &vec![false, false, true, false], &calls);
    assert!(matches!(can, Ok(s) if s == HashSet::from([0, 1, 2])));
}

#[test]
fn checkpoint_chains_end() {
    let can: HashSet<u32> = HashSet::from([0, 1]);
    let chain = step_functions(0, &vec![0], &can, &vec![vec![1], vec![]]);
    assert!(matches!(chain, Ok((s, n)) if s == vec![0, 1] && n == HashMap::from([(0, 1)])));
    assert!(step_functions(0, &vec![0], &can, &vec![vec![1], vec![0]]).is_err());
}

#[test]
fn the_last_call_is_the_checkpoint() {
    let can: HashSet<u32> = HashSet::from([0, 1, 2]);
    let steps = step_functions(0, &vec![0], &can, &vec![vec![1, 2], vec![], vec![]]);
    assert!(matches!(steps, Ok((s, n)) if s == vec![0, 1, 2] && n == HashMap::from([(0, 2)])));
}

#[test]
fn types_have_their_names_and_defaults() {
    let kinds: Vec<CompositeKind> = vec![];
    let name = |ty: ValType| rust_type(ty, &kinds).ok().map(|t| t.to_string());
    assert_eq!(name(ValType::I64).as_deref(), Some("i64"));
    assert_eq!(name(ValType::V128).as_deref(), Some("u128"));
    assert_eq!(default_value(ValType::F32, &kinds), "0.0");
}

#[test]
fn written_locals_are_found() {
    // local.get 0; local.set 2; local.get 1; local.tee 3; drop
    let body = decode_body(&vec![0, 0x20, 0, 0x21, 2, 0x20, 1, 0x22, 3, 0x1a, 0x0b]);
    assert_eq!(collect_mutated_locals(&body.ops), HashSet::from([2, 3]));
}

// Bytes -----------------------------------------------------------------------

#[test]
fn instructions_are_read_from_bytes() {
    let b = decode_body(&vec![2, 1, 0x7f, 3, 0x7e, 0x41, 0x7f, 0x1a, 0x0b]);
    assert_eq!(b.locals, vec![(1, ValType::I32), (3, ValType::I64)]);
    assert!(matches!(b.ops[0].op, Operator::I32Const { value: -1 }));
    assert!(matches!(b.ops[1].op, Operator::Drop));
    assert!(matches!(b.ops[2].op, Operator::End));
    assert_eq!(b.ops[0].text, "I32Const { value: -1 }");
    assert!(!b.ops_broken && !b.locals_broken);
}

#[test]
fn broken_bytes_are_read_as_far_as_they_go() {
    // i32.const 1; then an instruction that is cut off
    let b = decode_body(&vec![1, 2, 0x7f, 0x41, 1, 0x41]);
    assert_eq!(b.locals, vec![(2, ValType::I32)]);
    assert_eq!(b.ops.len(), 1);
    assert!(b.ops_broken && !b.locals_broken);
    // declarations that are cut off
    let b = decode_body(&vec![2, 2, 0x7f]);
    assert!(b.locals.is_empty() && b.ops.is_empty() && b.ops_broken && b.locals_broken);
    // more declarations than there are bytes
    let b = decode_body(&vec![0xff, 0xff, 0xff, 0xff, 0x0f]);
    assert!(b.ops_broken && b.locals_broken);
    let (ops, broken) = decode_const(&vec![0x41, 3, 0x41]);
    assert_eq!(ops.len(), 1);
    assert!(broken);
}

#[test]
fn offsets_are_one_constant() {
    assert!(matches!(const_expr_u32(&vec![0x41, 16, 0x0b]), Ok(16)));
    assert_eq!(reason(const_expr_u32(&vec![0x41, 0x7f, 0x0b])), "negative table offset");
    assert_eq!(reason(const_expr_u32(&vec![0x0b])), "empty element offset");
    assert!(matches!(const_expr_u32(&vec![0x41, 3, 0x41]), Err(TranspileError::Malformed)));
    // What comes before a fault in the bytes is at fault first.
    assert_eq!(reason(const_expr_u32(&vec![0x41, 0x7f, 0x41])), "negative table offset");
    assert_eq!(
        reason(const_expr_u32(&vec![0x23, 0, 0x0b])),
        "element offset: GlobalGet { global_index: 0 }"
    );
}

#[test]
fn initialisers_are_expressions() {
    let kinds = vec![CompositeKind::Func, CompositeKind::Struct(vec![])];
    let text = |b: &[u8]| const_expr_to_rust(&b.to_vec(), &kinds).ok();
    assert_eq!(text(&[0x41, 5, 0x0b]).as_deref(), Some("5i32"));
    assert_eq!(text(&[0x42, 0x7e, 0x0b]).as_deref(), Some("-2i64"));
    assert_eq!(text(&[0x43, 0, 0, 0x80, 0x3f, 0x0b]).as_deref(), Some("f32::from_bits(1065353216u32)"));
    assert_eq!(
        text(&[0x44, 0, 0, 0, 0, 0, 0, 0xf0, 0x3f, 0x0b]).as_deref(),
        Some("f64::from_bits(4607182418800017408u64)")
    );
    assert_eq!(text(&[0xd2, 3, 0x0b]).as_deref(), Some("3u32"));
    assert_eq!(text(&[0xd0, 0x70, 0x0b]).as_deref(), Some("u32::MAX"));
    assert_eq!(text(&[0xd0, 0, 0x0b]).as_deref(), Some("u32::MAX"));
    assert_eq!(text(&[0xd0, 1, 0x0b]).as_deref(), Some("GcRef::Null"));
    assert_eq!(
        reason(const_expr_to_rust(&vec![0x23, 2, 0x0b], &kinds)),
        "global initializer: GlobalGet { global_index: 2 }"
    );
    assert_eq!(reason(const_expr_to_rust(&vec![0x0b], &kinds)), "empty global initializer");
    assert!(matches!(
        const_expr_to_rust(&vec![0x41, 3, 0x41], &kinds),
        Err(TranspileError::Malformed)
    ));
    assert_eq!(
        reason(const_expr_to_rust(&vec![0x23, 2, 0x41], &kinds)),
        "global initializer: GlobalGet { global_index: 2 }"
    );
}
