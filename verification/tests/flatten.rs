use wasm2rs::codegen::edges::fuse_linear_chains;
use wasm2rs::codegen::flatten::ArmLine;
use wasm2rs::codegen::scan::{
    is_bankable, parse_hoisted_decl, rewrite_state_refs, wrap_returns, NameMap,
};

fn line(s: &str) -> ArmLine {
    (0, s.to_string())
}

/// `pc` and a parameter stay plain fields, a banked temporary becomes an array
/// index. `l3405` is a local whose textual form also appears as a `'l3405` loop
/// label below — the case the `'`-skip exists for.
fn state_repl() -> NameMap {
    let mut map = NameMap::new();
    for (k, v) in [
        ("pc", "st.pc"),
        ("l0", "st.l0"),
        ("l4", "st.bank_i32[7]"),
        ("l3405", "st.l3405"),
    ] {
        map.insert(k.to_string(), v.to_string());
    }
    map
}

fn texts(body: &[ArmLine]) -> Vec<&str> {
    body.iter().map(|(_, s)| s.as_str()).collect()
}

#[test]
fn rewrite_state_refs_rewrites_only_whole_word_state_tokens() {
    let r = state_repl();
    // Bare whole-word state names become their shared-state access; a banked
    // temp indexes its array.
    assert_eq!(
        rewrite_state_refs("pc = l4;", &r),
        "st.pc = st.bank_i32[7];"
    );
    // A lookalike that merely *contains* a state name is a different identifier
    // and is left alone; the real `l4` beside it is still rewritten.
    assert_eq!(
        rewrite_state_refs("let pcx = l4 + l40;", &r),
        "let pcx = st.bank_i32[7] + l40;"
    );
}

#[test]
fn rewrite_state_refs_skips_field_access_labels_and_string_contents() {
    let r = state_repl();
    // A token after `.` is a field access, not a state read — so rewriting is
    // idempotent (`st.pc` must not become `st.st.pc`).
    assert_eq!(rewrite_state_refs("st.pc = 3;", &r), "st.pc = 3;");
    // A `'label` that spells a state name must survive: `'l3405` is a loop
    // label, not the local `l3405`. Rewriting it would produce invalid Rust.
    assert_eq!(
        rewrite_state_refs("if c { pc = 5; continue 'l3405; }", &r),
        "if c { st.pc = 5; continue 'l3405; }"
    );
    // A state name inside a string literal is data, not code.
    assert_eq!(
        rewrite_state_refs(r#"trace("pc l4"); pc = 1;"#, &r),
        r#"trace("pc l4"); st.pc = 1;"#
    );
}

#[test]
fn wrap_returns_wraps_real_returns_and_leaves_lookalikes() {
    // A value return is wrapped for the trampoline; a bare return yields unit.
    assert_eq!(wrap_returns("return l4;"), "return Some(l4);");
    assert_eq!(wrap_returns("return f(a, b);"), "return Some(f(a, b));");
    assert_eq!(wrap_returns("return;"), "return Some(());");
    // `return` as a substring of another identifier is not the keyword.
    assert_eq!(wrap_returns("let x = __returning;"), "let x = __returning;");
    // `return` inside a string literal is data, left verbatim.
    assert_eq!(
        wrap_returns(r#"panic!("return here");"#),
        r#"panic!("return here");"#
    );
}

#[test]
fn is_bankable_covers_copy_scalars_and_excludes_gcref() {
    // Every Copy scalar lowering rides an array bank (`[x; N]` needs `Copy`).
    for ty in ["i32", "i64", "f32", "f64", "u32", "u128"] {
        assert!(is_bankable(ty), "{ty} should be bankable");
    }
    // A non-Copy `GcRef` cannot ride an array-repeat and must fall back to an
    // individual field; an unknown type is conservatively non-bankable too.
    assert!(!is_bankable("GcRef"));
    assert!(!is_bankable("bool"));
}

#[test]
fn parse_hoisted_decl_reads_single_and_batched_tuple_bindings() {
    // A single binding yields its one `(name, type)`.
    assert_eq!(
        parse_hoisted_decl("let mut l7: i32 = 0;"),
        vec![("l7".to_string(), "i32".to_string())]
    );
    // A batched tuple binding (the shape `hoist_decl` emits for grouped locals)
    // must yield every element paired with its type — regression guard for the
    // dropped-local bug where a tuple's names got no state slot and dangled.
    assert_eq!(
        parse_hoisted_decl("let (mut l3, mut l4, mut l5): (i32, i64, f32) = (0, 0, 0.0);"),
        vec![
            ("l3".to_string(), "i32".to_string()),
            ("l4".to_string(), "i64".to_string()),
            ("l5".to_string(), "f32".to_string()),
        ]
    );
    // A non-declaration line contributes nothing.
    assert!(parse_hoisted_decl("l4 = st.bank_i32[7];").is_empty());
}

#[test]
fn fuses_a_straight_line_chain_into_one_arm() {
    // 0 --(side effect)--> 1 --(side effect)--> 2 (returns). States 1 and 2
    // each have a single in-edge, so both collapse into 0.
    let mut arms = vec![
        (0, vec![line("a += 1;"), line("pc = 1;")]),
        (1, vec![line("a += 2;"), line("pc = 2;")]),
        (2, vec![line("return a;")]),
    ];
    fuse_linear_chains(&mut arms, 0);
    assert_eq!(arms.len(), 1);
    assert_eq!(arms[0].0, 0);
    assert_eq!(texts(&arms[0].1), ["a += 1;", "a += 2;", "return a;"]);
}

#[test]
fn keeps_a_join_point_with_two_predecessors() {
    // Both the branch's `else` (state 0) and the forwarder (state 1) target
    // state 2, so state 2 has in-degree 2 and must not be absorbed. State 1
    // is only reached through the branch (not a *linear* predecessor), so it
    // is not absorbable either. Nothing fuses.
    let mut arms = vec![
        (0, vec![line("if c { pc = 1; } else { pc = 2; }")]),
        (1, vec![line("a += 1;"), line("pc = 2;")]),
        (2, vec![line("return a;")]),
    ];
    fuse_linear_chains(&mut arms, 0);
    assert_eq!(arms.len(), 3);
}

#[test]
fn preserves_a_loop_entered_from_outside() {
    // 0 flows into loop header 1; 1's back-edge (`pc = 1;`) targets itself, so
    // header 1 has in-degree 2 (entry + back-edge) and is not absorbed. The
    // infinite loop survives rather than being folded away.
    let mut arms = vec![
        (0, vec![line("a = 5;"), line("pc = 1;")]),
        (1, vec![line("a += 1;"), line("pc = 1;")]),
    ];
    fuse_linear_chains(&mut arms, 0);
    assert_eq!(arms.len(), 2);
    assert_eq!(texts(&arms[1].1), ["a += 1;", "pc = 1;"]);
}

#[test]
fn never_absorbs_the_start_state() {
    // State 1 forwards to the entry (state 0). Even though 0 has a single
    // `pc = 0` in-edge, the implicit entry keeps its in-degree at 2, so it is
    // preserved (folding it would leave the machine with no entry arm).
    let mut arms = vec![
        (0, vec![line("a += 1;"), line("pc = 1;")]),
        (1, vec![line("a += 2;"), line("pc = 0;")]),
    ];
    fuse_linear_chains(&mut arms, 0);
    // 1 is absorbable (single in-edge from 0, linear), so it folds into 0;
    // the resulting self-loop keeps 0 as the sole, entry-preserving arm.
    assert_eq!(arms.len(), 1);
    assert_eq!(arms[0].0, 0);
    assert_eq!(texts(&arms[0].1), ["a += 1;", "a += 2;", "pc = 0;"]);
}
