//! Rendering the arms of a flattened body as a dispatch loop, whole or split
//! into part functions over a shared state struct.

use std::collections::HashMap;
use vstd::hash_set::StringHashSet;
use vstd::prelude::*;

use crate::codegen::common::ALLOW;
use crate::codegen::edges::{
    contract_pc_edges, contracted, copy_lines, fuse_linear_chains, fused, law_contracting_is_unique,
};
use crate::codegen::flatten::{
    add_arm, add_line, arm_view, arms_view, lines_view, lowerable, lowered, Arm, ArmLine, ArmV,
    FlatV, Flattener, LineV, SplitPlan,
};
use crate::codegen::ir::{lemma_nodes_push, nodes_view, plain_node, plain_nodes, Node, NodeV};
use crate::codegen::scan::{
    array_length_at, bankable, declared, default_text, edges_rewritten, hoist_decl, hoisted,
    is_array, is_bankable, mapped, pair_texts, parse_hoisted_decl, redirect, returns_wrapped,
    rewrite_pc_targets, rewrite_state_refs, state_refs_rewritten, type_default, wrap_returns,
    NameMap,
};
use crate::text::{
    clamp, dec, inc, lit, next_of, opt_text, repeat, repeated, same, sat_sum, texts, Buf, Lines,
};

verus! {

broadcast use vstd::std_specs::hash::group_hash_axioms;

/// The pieces a (possibly split) dispatch renders to: the driver body that goes
/// inside `func{N}`, the sibling part functions, and — when split — the shared
/// state struct's definition (emitted at module scope). For an un-split dispatch
/// `siblings` and `state_struct` are empty.
pub struct DispatchArtifacts {
    /// The driver body placed inside `func{N}` (rendered like any function body).
    pub body: Vec<Node>,
    /// The sibling part functions, each element one line at column-0-relative
    /// indentation; the caller prepends its `line_prefix` (empty for a free
    /// function, one level for a method inside its `impl`).
    pub siblings: Vec<String>,
    /// The shared state struct definition (multi-line, module scope); empty when
    /// the dispatch was not split.
    pub state_struct: String,
}

/// The model of [`DispatchArtifacts`].
pub struct ArtifactsV {
    pub body: Seq<NodeV>,
    pub siblings: Seq<Seq<char>>,
    pub state_struct: Seq<char>,
}

impl View for DispatchArtifacts {
    type V = ArtifactsV;

    open spec fn view(&self) -> ArtifactsV {
        ArtifactsV {
            body: nodes_view(self.body@),
            siblings: texts(self.siblings@),
            state_struct: self.state_struct@,
        }
    }
}

// ---------------------------------------------------------------------------
// Order of the arms
// ---------------------------------------------------------------------------
/// Where an arm of state `s` goes among sorted arms: behind the last one whose
/// state is not larger, looking only at the first `n`.
pub open spec fn place_of(arms: Seq<ArmV>, s: usize, n: nat) -> nat
    decreases n,
{
    if n == 0 || n > arms.len() || arms[n - 1].0 <= s {
        n
    } else {
        place_of(arms, s, (n - 1) as nat)
    }
}

/// The arms in order of their states; arms of one state keep their order.
pub open spec fn sorted_arms(arms: Seq<ArmV>) -> Seq<ArmV>
    decreases arms.len(),
{
    if arms.len() == 0 {
        Seq::empty()
    } else {
        let front = sorted_arms(arms.drop_last());
        front.insert(place_of(front, arms.last().0, front.len()) as int, arms.last())
    }
}

/// Sorts the arms by state.
fn sort_arms(arms: &Vec<Arm>) -> (out: Vec<Arm>)
    ensures
        arms_view(out@) == sorted_arms(arms_view(arms@)),
{
    let ghost all = arms_view(arms@);
    let mut out: Vec<Arm> = Vec::new();
    assert(arms_view(out@) =~= Seq::<ArmV>::empty());
    let mut i: usize = 0;
    while i < arms.len()
        invariant
            i <= arms@.len(),
            all == arms_view(arms@),
            arms_view(out@) == sorted_arms(all.take(i as int)),
        decreases arms@.len() - i,
    {
        let ghost front = arms_view(out@);
        let state: usize = arms[i].0;
        let mut k: usize = out.len();
        while k > 0 && out[k - 1].0 > state
            invariant
                k <= out@.len(),
                front == arms_view(out@),
                place_of(front, state, k as nat) == place_of(front, state, front.len()),
            decreases k,
        {
            assert(front[k - 1].0 == out@[k - 1].0);
            k -= 1;
        }
        proof {
            if k > 0 {
                assert(front[k - 1].0 == out@[k - 1].0);
            }
            assert(all.take(i + 1).drop_last() =~= all.take(i as int));
            assert(all.take(i + 1).last() == arm_view(arms@[i as int]));
        }
        let body = copy_lines(&arms[i].1);
        out.insert(k, (state, body));
        assert(arms_view(out@) =~= front.insert(k as int, (state, lines_view(body@))));
        i += 1;
    }
    assert(all.take(all.len() as int) =~= all);
    out
}

// ---------------------------------------------------------------------------
// Hoisting declarations
// ---------------------------------------------------------------------------
/// `decls` with `decl`, unless it is already there.
pub open spec fn with_decl(decls: Seq<Seq<char>>, decl: Seq<char>) -> Seq<Seq<char>> {
    if decls.contains(decl) {
        decls
    } else {
        decls.push(decl)
    }
}

/// What is left of a statement when its declaration is hoisted.
pub open spec fn assign_line(l: LineV) -> LineV {
    match hoisted(l.1) {
        Some(h) => (l.0, h.1),
        None => l,
    }
}

pub open spec fn assign_lines(body: Seq<LineV>) -> Seq<LineV> {
    body.map_values(|l: LineV| assign_line(l))
}

/// The arms with every typed `let` turned into an assignment.
pub open spec fn assign_arms(arms: Seq<ArmV>) -> Seq<ArmV> {
    arms.map_values(|a: ArmV| (a.0, assign_lines(a.1)))
}

/// `decls` with the declarations hoisted out of `body`, each once.
pub open spec fn body_decls(decls: Seq<Seq<char>>, body: Seq<LineV>) -> Seq<Seq<char>>
    decreases body.len(),
{
    if body.len() == 0 {
        decls
    } else {
        let front = body_decls(decls, body.drop_last());
        match hoisted(body.last().1) {
            Some(h) => with_decl(front, h.0),
            None => front,
        }
    }
}

/// The declarations hoisted out of all arms, each once, in order.
pub open spec fn arm_decls(arms: Seq<ArmV>) -> Seq<Seq<char>>
    decreases arms.len(),
{
    if arms.len() == 0 {
        Seq::empty()
    } else {
        body_decls(arm_decls(arms.drop_last()), arms.last().1)
    }
}

/// The declarations found so far, for look-up and in order.
struct Decls {
    seen: StringHashSet,
    list: Lines,
}

impl Decls {
    spec fn wf(&self) -> bool {
        forall|d: Seq<char>| #[trigger] self.seen@.contains(d) <==> self.list@.contains(d)
    }

    fn add_decl(&mut self, decl: String)
        requires
            old(self).wf(),
        ensures
            final(self).wf(),
            final(self).list@ == with_decl(old(self).list@, decl@),
    {
        if self.seen.insert(decl.clone()) {
            let ghost before = self.list@;
            self.list.add(decl);
            proof {
                assert forall|d: Seq<char>| #[trigger]
                    self.seen@.contains(d) <==> self.list@.contains(d) by {
                    if before.contains(d) {
                        let k = choose|k: int| 0 <= k < before.len() && before[k] == d;
                        assert(self.list@[k] == d);
                    }
                    if d == decl@ {
                        assert(self.list@[before.len() as int] == d);
                    }
                    if self.list@.contains(d) && d != decl@ {
                        let k = choose|k: int|
                            0 <= k < self.list@.len() && self.list@[k] == d;
                        assert(before[k] == d);
                    }
                }
            }
        }
    }
}

/// Hoists every typed `let` out of the arms: the declarations, and the arms with
/// the assignments left behind.
fn hoist_arms(arms: &Vec<Arm>) -> (r: (Vec<String>, Vec<Arm>))
    ensures
        texts(r.0@) == arm_decls(arms_view(arms@)),
        arms_view(r.1@) == assign_arms(arms_view(arms@)),
{
    let ghost all = arms_view(arms@);
    let mut decls = Decls { seen: StringHashSet::new(), list: Lines::new() };
    let mut out: Vec<Arm> = Vec::new();
    assert(arms_view(out@) =~= assign_arms(all).take(0));
    let mut i: usize = 0;
    while i < arms.len()
        invariant
            i <= arms@.len(),
            all == arms_view(arms@),
            decls.wf(),
            decls.list@ == arm_decls(all.take(i as int)),
            arms_view(out@) =~= assign_arms(all).take(i as int),
        decreases arms@.len() - i,
    {
        let stmts = &arms[i].1;
        let ghost body = lines_view(stmts@);
        let ghost before = decls.list@;
        let mut arm: Vec<ArmLine> = Vec::new();
        proof {
            assert(all.take(i + 1).drop_last() =~= all.take(i as int));
            assert(all.take(i + 1).last() == arm_view(arms@[i as int]));
            assert(body_decls(before, body.take(0)) == before);
        }
        let mut k: usize = 0;
        while k < stmts.len()
            invariant
                k <= stmts@.len(),
                body == lines_view(stmts@),
                decls.wf(),
                decls.list@ == body_decls(before, body.take(k as int)),
                lines_view(arm@) =~= assign_lines(body).take(k as int),
            decreases stmts@.len() - k,
        {
            assert(body.take(k + 1).drop_last() =~= body.take(k as int));
            match hoist_decl(stmts[k].1.as_str()) {
                Some((decl, assign)) => {
                    decls.add_decl(decl);
                    add_line(&mut arm, stmts[k].0, assign);
                },
                None => {
                    add_line(&mut arm, stmts[k].0, stmts[k].1.clone());
                },
            }
            k += 1;
        }
        assert(body.take(body.len() as int) =~= body);
        assert(lines_view(arm@) =~= assign_lines(body));
        add_arm(&mut out, arms[i].0, arm);
        i += 1;
    }
    assert(all.take(all.len() as int) =~= all);
    assert(arms_view(out@) =~= assign_arms(all));
    (decls.list.v, out)
}

// ---------------------------------------------------------------------------
// The whole dispatch in one function
// ---------------------------------------------------------------------------
/// A line of a body that carries its own indentation.
pub open spec fn body_node(depth: usize, text: Seq<char>) -> NodeV {
    NodeV::Line(repeated("    "@, depth as nat) + text)
}

/// Appends a line that carries its own indentation.
pub fn push_node_line(out: &mut Vec<Node>, depth: usize, text: String)
    ensures
        nodes_view(final(out)@) == nodes_view(old(out)@).push(body_node(depth, text@)),
{
    let line = Buf::lit(&repeat("    ", depth)).s(&text).end();
    proof {
        lemma_nodes_push(out@, Node::Line(line));
    }
    out.push(Node::Line(line));
}

/// The opening line of the dispatch loop: labelled where an arm continues it.
pub open spec fn loop_head(uses_continue: bool) -> Seq<char> {
    if uses_continue {
        "'sm: loop {"@
    } else {
        "loop {"@
    }
}

fn loop_head_str(uses_continue: bool) -> (r: &'static str)
    ensures
        r@ == loop_head(uses_continue),
{
    if uses_continue {
        "'sm: loop {"
    } else {
        "loop {"
    }
}

pub open spec fn decl_nodes(out: Seq<NodeV>, decls: Seq<Seq<char>>) -> Seq<NodeV>
    decreases decls.len(),
{
    if decls.len() == 0 {
        out
    } else {
        decl_nodes(out, decls.drop_last()).push(body_node(0, decls.last()))
    }
}

pub open spec fn stmt_nodes(out: Seq<NodeV>, body: Seq<LineV>) -> Seq<NodeV>
    decreases body.len(),
{
    if body.len() == 0 {
        out
    } else {
        stmt_nodes(out, body.drop_last()).push(
            body_node(clamp((3 + body.last().0) as nat), body.last().1),
        )
    }
}

pub open spec fn arm_nodes(out: Seq<NodeV>, arms: Seq<ArmV>) -> Seq<NodeV>
    decreases arms.len(),
{
    if arms.len() == 0 {
        out
    } else {
        let a = arms.last();
        let head = arm_nodes(out, arms.drop_last()).push(body_node(2, (dec(a.0 as nat)
            + " => {"@)));
        stmt_nodes(head, a.1).push(body_node(2, "}"@))
    }
}

/// A whole dispatch: the program counter, the hoisted declarations, and the loop
/// with one `match` arm per state, in order of the states.
pub open spec fn dispatch_nodes(arms: Seq<ArmV>, uses_continue: bool, pc_init: Seq<char>) -> Seq<
    NodeV,
> {
    let sorted = sorted_arms(arms);
    let o1 = Seq::empty().push(body_node(0, pc_init));
    let o2 = decl_nodes(o1, arm_decls(sorted));
    let o3 = o2.push(body_node(0, loop_head(uses_continue))).push(body_node(1, "match pc {"@));
    let o4 = arm_nodes(o3, assign_arms(sorted));
    o4.push(body_node(2, "_ => unreachable!(),"@)).push(body_node(1, "}"@)).push(
        body_node(0, "}"@),
    )
}

/// One more line keeps a list plain.
proof fn lemma_plain_line(out: Seq<NodeV>, depth: usize, text: Seq<char>)
    requires
        plain_nodes(out),
    ensures
        plain_nodes(out.push(body_node(depth, text))),
{
    assert(out.push(body_node(depth, text)).drop_last() =~= out);
    assert(plain_node(body_node(depth, text)));
}

proof fn lemma_plain_decls(out: Seq<NodeV>, decls: Seq<Seq<char>>)
    requires
        plain_nodes(out),
    ensures
        plain_nodes(decl_nodes(out, decls)),
    decreases decls.len(),
{
    if decls.len() > 0 {
        lemma_plain_decls(out, decls.drop_last());
        lemma_plain_line(decl_nodes(out, decls.drop_last()), 0, decls.last());
    }
}

proof fn lemma_plain_stmts(out: Seq<NodeV>, body: Seq<LineV>)
    requires
        plain_nodes(out),
    ensures
        plain_nodes(stmt_nodes(out, body)),
    decreases body.len(),
{
    if body.len() > 0 {
        lemma_plain_stmts(out, body.drop_last());
        lemma_plain_line(
            stmt_nodes(out, body.drop_last()),
            clamp((3 + body.last().0) as nat),
            body.last().1,
        );
    }
}

proof fn lemma_plain_arms(out: Seq<NodeV>, arms: Seq<ArmV>)
    requires
        plain_nodes(out),
    ensures
        plain_nodes(arm_nodes(out, arms)),
    decreases arms.len(),
{
    if arms.len() > 0 {
        let a = arms.last();
        lemma_plain_arms(out, arms.drop_last());
        let front = arm_nodes(out, arms.drop_last());
        lemma_plain_line(front, 2, (dec(a.0 as nat) + " => {"@));
        let head = front.push(body_node(2, (dec(a.0 as nat) + " => {"@)));
        lemma_plain_stmts(head, a.1);
        lemma_plain_line(stmt_nodes(head, a.1), 2, "}"@);
    }
}

/// A dispatch is made of lines.
pub proof fn lemma_plain_dispatch(arms: Seq<ArmV>, uses_continue: bool, pc_init: Seq<char>)
    ensures
        plain_nodes(dispatch_nodes(arms, uses_continue, pc_init)),
{
    let sorted = sorted_arms(arms);
    lemma_plain_line(Seq::empty(), 0, pc_init);
    let o1 = Seq::empty().push(body_node(0, pc_init));
    lemma_plain_decls(o1, arm_decls(sorted));
    let o2 = decl_nodes(o1, arm_decls(sorted));
    lemma_plain_line(o2, 0, loop_head(uses_continue));
    lemma_plain_line(o2.push(body_node(0, loop_head(uses_continue))), 1, "match pc {"@);
    let o3 = o2.push(body_node(0, loop_head(uses_continue))).push(body_node(1, "match pc {"@));
    lemma_plain_arms(o3, assign_arms(sorted));
    let o4 = arm_nodes(o3, assign_arms(sorted));
    lemma_plain_line(o4, 2, "_ => unreachable!(),"@);
    let o5 = o4.push(body_node(2, "_ => unreachable!(),"@));
    lemma_plain_line(o5, 1, "}"@);
    lemma_plain_line(o5.push(body_node(1, "}"@)), 0, "}"@);
}

fn push_stmts(out: &mut Vec<Node>, stmts: &Vec<ArmLine>)
    ensures
        nodes_view(final(out)@) == stmt_nodes(nodes_view(old(out)@), lines_view(stmts@)),
{
    let ghost body = lines_view(stmts@);
    let ghost start = nodes_view(out@);
    let mut k: usize = 0;
    while k < stmts.len()
        invariant
            k <= stmts@.len(),
            body == lines_view(stmts@),
            nodes_view(out@) == stmt_nodes(start, body.take(k as int)),
        decreases stmts@.len() - k,
    {
        assert(body.take(k + 1).drop_last() =~= body.take(k as int));
        push_node_line(out, sat_sum(3, stmts[k].0), stmts[k].1.clone());
        k += 1;
    }
    assert(body.take(body.len() as int) =~= body);
}

fn push_decls(out: &mut Vec<Node>, decls: &Vec<String>)
    ensures
        nodes_view(final(out)@) == decl_nodes(nodes_view(old(out)@), texts(decls@)),
{
    let ghost all = texts(decls@);
    let ghost start = nodes_view(out@);
    let mut i: usize = 0;
    while i < decls.len()
        invariant
            i <= decls@.len(),
            all == texts(decls@),
            nodes_view(out@) == decl_nodes(start, all.take(i as int)),
        decreases decls@.len() - i,
    {
        assert(all.take(i + 1).drop_last() =~= all.take(i as int));
        push_node_line(out, 0, decls[i].clone());
        i += 1;
    }
    assert(all.take(all.len() as int) =~= all);
}

/// One arm of the dispatch. A structured-loop arm nests lines inside `'lN: loop { …
/// }`; each line carries its indent relative to the arm body (0 for ordinary flat
/// statements).
fn push_arm(out: &mut Vec<Node>, arm: &Arm)
    ensures
        nodes_view(final(out)@) == arm_nodes(
            nodes_view(old(out)@),
            Seq::empty().push(arm_view(*arm)),
        ),
{
    let ghost start = nodes_view(out@);
    let ghost one = Seq::empty().push(arm_view(*arm));
    assert(one.drop_last() =~= Seq::<ArmV>::empty());
    assert(arm_nodes(start, one.drop_last()) == start);
    push_node_line(out, 2, Buf::num(arm.0 as u64).s(" => {").end());
    push_stmts(out, &arm.1);
    push_node_line(out, 2, lit("}"));
}

/// One more arm stands behind the others.
proof fn lemma_arm_nodes(start: Seq<NodeV>, arms: Seq<ArmV>, a: ArmV)
    ensures
        arm_nodes(arm_nodes(start, arms), Seq::empty().push(a)) == arm_nodes(start, arms.push(a)),
{
    let one = Seq::empty().push(a);
    assert(one.drop_last() =~= Seq::<ArmV>::empty());
    assert(arms.push(a).drop_last() =~= arms);
    assert(arm_nodes(arm_nodes(start, arms), one.drop_last()) == arm_nodes(start, arms));
}

fn push_arms(out: &mut Vec<Node>, arms: &Vec<Arm>)
    ensures
        nodes_view(final(out)@) == arm_nodes(nodes_view(old(out)@), arms_view(arms@)),
{
    let ghost all = arms_view(arms@);
    let ghost start = nodes_view(out@);
    let mut i: usize = 0;
    while i < arms.len()
        invariant
            i <= arms@.len(),
            all == arms_view(arms@),
            nodes_view(out@) == arm_nodes(start, all.take(i as int)),
        decreases arms@.len() - i,
    {
        push_arm(out, &arms[i]);
        proof {
            lemma_arm_nodes(start, all.take(i as int), all[i as int]);
            assert(all.take(i + 1) =~= all.take(i as int).push(all[i as int]));
        }
        i += 1;
    }
    assert(all.take(all.len() as int) =~= all);
}

impl Flattener {
    /// Shared back end of [`Self::assemble`]/[`Self::assemble_cont`]: sort the
    /// arms, hoist their typed `let`s above the loop, and render `<pc_init>;
    /// <decls>; loop { match pc { … } }`.
    pub fn render_dispatch(&self, pc_init: String) -> (r: Vec<Node>)
        ensures
            nodes_view(r@) == dispatch_nodes(self@.arms, self@.uses_continue, pc_init@),
    {
        let sorted = sort_arms(&self.arms);
        let (decls, arms) = hoist_arms(&sorted);
        let mut out: Vec<Node> = Vec::new();
        assert(nodes_view(out@) =~= Seq::<NodeV>::empty());
        push_node_line(&mut out, 0, pc_init);
        push_decls(&mut out, &decls);
        // The `'sm` label is only needed when an arm uses `continue 'sm`.
        push_node_line(&mut out, 0, lit(loop_head_str(self.uses_continue)));
        push_node_line(&mut out, 1, lit("match pc {"));
        push_arms(&mut out, &arms);
        push_node_line(&mut out, 2, lit("_ => unreachable!(),"));
        push_node_line(&mut out, 1, lit("}"));
        push_node_line(&mut out, 0, lit("}"));
        out
    }

    /// Assemble the dispatch loop of a continuation step function. Unlike
    /// [`Self::assemble`], the initial `pc` is read from the frame (so a resume
    /// re-enters the state a prior suspend parked there) and pc-edge contraction
    /// is skipped, keeping every state id exactly as allocated.
    pub fn assemble_cont(&self) -> (r: Vec<Node>)
        ensures
            nodes_view(r@) == dispatch_nodes(
                self@.arms,
                self@.uses_continue,
                "let mut pc: usize = __frame.pc as usize;"@,
            ),
    {
        self.render_dispatch(lit("let mut pc: usize = __frame.pc as usize;"))
    }
}

// ---------------------------------------------------------------------------
// A dispatch split into part functions
// ---------------------------------------------------------------------------
/// The model of a [`SplitPlan`].
pub struct SplitV {
    pub max_arms: usize,
    pub func_index: usize,
    pub is_method: bool,
    pub params: Seq<(usize, Seq<char>)>,
    pub ret: Option<Seq<char>>,
}

/// The model of numbered names.
pub open spec fn numbered(v: Seq<(usize, String)>) -> Seq<(usize, Seq<char>)> {
    Seq::new(v.len(), |i: int| (v[i].0, v[i].1@))
}

impl View for SplitPlan {
    type V = SplitV;

    open spec fn view(&self) -> SplitV {
        SplitV {
            max_arms: self.max_arms,
            func_index: self.func_index,
            is_method: self.is_method,
            params: numbered(self.params@),
            ret: opt_text(self.ret),
        }
    }
}

/// The dense numbering of the states: each state's position among the arms.
pub open spec fn renumbering(arms: Seq<ArmV>) -> Map<usize, usize>
    decreases arms.len(),
{
    if arms.len() == 0 {
        Map::empty()
    } else {
        renumbering(arms.drop_last()).insert(arms.last().0, (arms.len() - 1) as usize)
    }
}

/// Where each state name lives in the shared struct: what replaces it in an arm,
/// the fields of their own (name and type), and the number of elements in each
/// array bank.
pub struct SlotsV {
    pub repl: Map<Seq<char>, Seq<char>>,
    pub named: Seq<(Seq<char>, Seq<char>)>,
    pub banks: BanksV,
}

/// How many temporaries of each Copy type are banked.
#[derive(Clone, Copy)]
pub struct BanksV {
    pub f32s: usize,
    pub f64s: usize,
    pub i32s: usize,
    pub i64s: usize,
    pub u128s: usize,
    pub u32s: usize,
}

impl BanksV {
    /// The number of elements in the bank of `ty`.
    pub open spec fn count(self, ty: Seq<char>) -> usize {
        if ty == "f32"@ {
            self.f32s
        } else if ty == "f64"@ {
            self.f64s
        } else if ty == "i32"@ {
            self.i32s
        } else if ty == "i64"@ {
            self.i64s
        } else if ty == "u128"@ {
            self.u128s
        } else {
            self.u32s
        }
    }

    /// One more element in the bank of `ty`.
    pub open spec fn grown(self, ty: Seq<char>) -> BanksV {
        if ty == "f32"@ {
            BanksV { f32s: inc(self.f32s), ..self }
        } else if ty == "f64"@ {
            BanksV { f64s: inc(self.f64s), ..self }
        } else if ty == "i32"@ {
            BanksV { i32s: inc(self.i32s), ..self }
        } else if ty == "i64"@ {
            BanksV { i64s: inc(self.i64s), ..self }
        } else if ty == "u128"@ {
            BanksV { u128s: inc(self.u128s), ..self }
        } else {
            BanksV { u32s: inc(self.u32s), ..self }
        }
    }

    /// Adds an element to the bank of `ty`; returns its index.
    fn take_slot(&mut self, ty: &str) -> (idx: usize)
        ensures
            idx == old(self).count(ty@),
            *final(self) == old(self).grown(ty@),
    {
        let idx: usize;
        if same(ty, "f32") {
            idx = self.f32s;
            self.f32s = next_of(idx);
        } else if same(ty, "f64") {
            idx = self.f64s;
            self.f64s = next_of(idx);
        } else if same(ty, "i32") {
            idx = self.i32s;
            self.i32s = next_of(idx);
        } else if same(ty, "i64") {
            idx = self.i64s;
            self.i64s = next_of(idx);
        } else if same(ty, "u128") {
            idx = self.u128s;
            self.u128s = next_of(idx);
        } else {
            idx = self.u32s;
            self.u32s = next_of(idx);
        }
        idx
    }
}

/// The slots of `pc` and the parameters: fields of their own.
pub open spec fn param_slots(params: Seq<(usize, Seq<char>)>) -> SlotsV
    decreases params.len(),
{
    if params.len() == 0 {
        SlotsV {
            repl: Map::empty().insert("pc"@, "st.pc"@),
            named: Seq::empty(),
            banks: BanksV { f32s: 0, f64s: 0, i32s: 0, i64s: 0, u128s: 0, u32s: 0 },
        }
    } else {
        let front = param_slots(params.drop_last());
        let name = ("l"@ + dec(params.last().0 as nat));
        SlotsV {
            repl: front.repl.insert(name, "st."@ + name),
            named: if front.repl.contains_key(name) {
                front.named
            } else {
                front.named.push((name, params.last().1))
            },
            ..front
        }
    }
}

/// One declared name given its slot: an element of its type's bank, or a field of
/// its own. A name that has one keeps it.
pub open spec fn with_slot(s: SlotsV, name: Seq<char>, ty: Seq<char>) -> SlotsV {
    if s.repl.contains_key(name) {
        s
    } else if bankable(ty) {
        SlotsV {
            repl: s.repl.insert(name, ("st.bank_"@ + ty + "["@ + dec(s.banks.count(ty) as nat)
                + "]"@)),
            banks: s.banks.grown(ty),
            ..s
        }
    } else {
        SlotsV { repl: s.repl.insert(name, "st."@ + name), named: s.named.push((name, ty)), ..s }
    }
}

pub open spec fn with_slots(s: SlotsV, pairs: Seq<(Seq<char>, Seq<char>)>) -> SlotsV
    decreases pairs.len(),
{
    if pairs.len() == 0 {
        s
    } else {
        with_slot(with_slots(s, pairs.drop_last()), pairs.last().0, pairs.last().1)
    }
}

/// The slots of everything that the hoisted declarations bind.
pub open spec fn decl_slots(s: SlotsV, decls: Seq<Seq<char>>) -> SlotsV
    decreases decls.len(),
{
    if decls.len() == 0 {
        s
    } else {
        with_slots(decl_slots(s, decls.drop_last()), declared(decls.last()))
    }
}

/// A statement moved into a part function: its edges renumbered, its state names
/// replaced and its returned values wrapped.
pub open spec fn moved_text(
    line: Seq<char>,
    renum: Map<usize, usize>,
    repl: Map<Seq<char>, Seq<char>>,
) -> Seq<char> {
    returns_wrapped(state_refs_rewritten(edges_rewritten(line, renum), repl))
}

pub open spec fn moved_body(
    body: Seq<LineV>,
    renum: Map<usize, usize>,
    repl: Map<Seq<char>, Seq<char>>,
) -> Seq<LineV> {
    body.map_values(|l: LineV| (l.0, moved_text(l.1, renum, repl)))
}

/// The arms moved into the part functions, under their new numbers.
pub open spec fn moved_arms(
    arms: Seq<ArmV>,
    renum: Map<usize, usize>,
    repl: Map<Seq<char>, Seq<char>>,
) -> Seq<ArmV> {
    arms.map_values(|a: ArmV| (mapped(renum, a.0), moved_body(a.1, renum, repl)))
}

pub open spec fn field_lines(out: Seq<char>, named: Seq<(Seq<char>, Seq<char>)>) -> Seq<char>
    decreases named.len(),
{
    if named.len() == 0 {
        out
    } else {
        field_lines(out, named.drop_last()) + ("    "@ + named.last().0 + ": "@ + named.last().1
            + ",\n"@)
    }
}

/// What a field of the type `ty` starts with. A `GcRef` or a long array has no
/// `Default`.
pub open spec fn field_default(ty: Seq<char>) -> Seq<char> {
    if ty == "GcRef"@ || array_length_at(ty) is Some {
        default_text(ty)
    } else {
        "Default::default()"@
    }
}

pub open spec fn default_lines(out: Seq<char>, named: Seq<(Seq<char>, Seq<char>)>) -> Seq<char>
    decreases named.len(),
{
    if named.len() == 0 {
        out
    } else {
        default_lines(out, named.drop_last()) + ("            "@ + named.last().0 + ": "@
            + field_default(named.last().1) + ",\n"@)
    }
}

pub open spec fn bank_field(out: Seq<char>, ty: Seq<char>, count: usize) -> Seq<char> {
    if count == 0 {
        out
    } else {
        out + ("    bank_"@ + ty + ": ["@ + ty + "; "@ + dec(count as nat) + "],\n"@)
    }
}

pub open spec fn bank_default(out: Seq<char>, ty: Seq<char>, count: usize) -> Seq<char> {
    if count == 0 {
        out
    } else {
        out + ("            bank_"@ + ty + ": [Default::default(); "@ + dec(count as nat) + "],\n"@)
    }
}

/// One array field per bank in use, in alphabetical order of the types.
pub open spec fn bank_fields(out: Seq<char>, b: BanksV) -> Seq<char> {
    let o1 = bank_field(out, "f32"@, b.f32s);
    let o2 = bank_field(o1, "f64"@, b.f64s);
    let o3 = bank_field(o2, "i32"@, b.i32s);
    let o4 = bank_field(o3, "i64"@, b.i64s);
    let o5 = bank_field(o4, "u128"@, b.u128s);
    bank_field(o5, "u32"@, b.u32s)
}

pub open spec fn bank_defaults(out: Seq<char>, b: BanksV) -> Seq<char> {
    let o1 = bank_default(out, "f32"@, b.f32s);
    let o2 = bank_default(o1, "f64"@, b.f64s);
    let o3 = bank_default(o2, "i32"@, b.i32s);
    let o4 = bank_default(o3, "i64"@, b.i64s);
    let o5 = bank_default(o4, "u128"@, b.u128s);
    bank_default(o5, "u32"@, b.u32s)
}

/// The definition of the shared state struct and its `Default`.
pub open spec fn state_struct_text(func_index: usize, s: SlotsV) -> Seq<char> {
    let o1 = ("#[allow(dead_code)]\nstruct S"@ + dec(func_index as nat) + " {\n    pc: usize,\n"@);
    let o2 = bank_fields(field_lines(o1, s.named), s.banks);
    let o3 = o2
        + ("}\nimpl Default for S"@ + dec(func_index as nat)
            + " {\n    fn default() -> Self {\n        Self {\n            pc: 0,\n"@);
    let o4 = bank_defaults(default_lines(o3, s.named), s.banks);
    o4 + "        }\n    }\n}\n"@
}

pub open spec fn part_stmts(out: Seq<Seq<char>>, body: Seq<LineV>) -> Seq<Seq<char>>
    decreases body.len(),
{
    if body.len() == 0 {
        out
    } else {
        part_stmts(out, body.drop_last()).push(
            repeated("    "@, clamp((4 + body.last().0) as nat) as nat) + body.last().1,
        )
    }
}

/// The arms that part `k` owns: those whose number divided by `max` is `k`.
pub open spec fn part_arms(out: Seq<Seq<char>>, arms: Seq<ArmV>, max: usize, k: usize) -> Seq<
    Seq<char>,
>
    decreases arms.len(),
{
    if arms.len() == 0 {
        out
    } else {
        let front = part_arms(out, arms.drop_last(), max, k);
        let a = arms.last();
        if max > 0 && a.0 / max == k {
            part_stmts(front.push(("            "@ + dec(a.0 as nat)
                + " => {"@)), a.1).push("            }"@)
        } else {
            front
        }
    }
}

pub open spec fn ret_text(ret: Option<Seq<char>>) -> Seq<char> {
    match ret {
        Some(r) => r,
        None => "()"@,
    }
}

pub open spec fn self_param(is_method: bool) -> Seq<char> {
    if is_method {
        "&mut self, "@
    } else {
        ""@
    }
}

/// One part function: a loop over its own states that returns `None` once the
/// program counter leaves them.
pub open spec fn part_fn(
    out: Seq<Seq<char>>,
    plan: SplitV,
    arms: Seq<ArmV>,
    uses_continue: bool,
    k: usize,
) -> Seq<Seq<char>> {
    let o1 = if plan.is_method {
        out
    } else {
        out.push(ALLOW@)
    };
    let o2 = o1.push(
        ("fn func"@ + dec(plan.func_index as nat) + "_part"@ + dec(k as nat) + "("@
            + self_param(plan.is_method) + "st: &mut S"@ + dec(plan.func_index as nat)
            + ") -> Option<"@ + ret_text(plan.ret) + "> {"@),
    ).push(("    "@ + loop_head(uses_continue))).push("        match st.pc {"@);
    part_arms(o2, arms, plan.max_arms, k).push("            _ => return None,"@).push(
        "        }"@,
    ).push("    }"@).push("}"@)
}

/// The first `n` part functions.
pub open spec fn part_fns(plan: SplitV, arms: Seq<ArmV>, uses_continue: bool, n: nat) -> Seq<
    Seq<char>,
>
    decreases n,
{
    if n == 0 {
        Seq::empty()
    } else {
        part_fn(
            part_fns(plan, arms, uses_continue, (n - 1) as nat),
            plan,
            arms,
            uses_continue,
            (n - 1) as usize,
        )
    }
}

/// The number of parts that hold `n` arms, `max` each.
pub open spec fn part_count(n: nat, max: usize) -> nat {
    if max == 0 {
        0
    } else {
        (n + max - 1) as nat / max as nat
    }
}

pub open spec fn init_fields(params: Seq<(usize, Seq<char>)>) -> Seq<char>
    decreases params.len(),
{
    if params.len() == 0 {
        Seq::empty()
    } else {
        init_fields(params.drop_last()) + ("l"@ + dec(params.last().0 as nat) + ", "@)
    }
}

pub open spec fn part_calls(out: Seq<NodeV>, plan: SplitV, n: nat) -> Seq<NodeV>
    decreases n,
{
    if n == 0 {
        out
    } else {
        let k = (n - 1) as nat;
        part_calls(out, plan, k).push(
            body_node(
                2,
                if plan.is_method {
                    (dec(k as nat) + " => self.func"@ + dec(plan.func_index as nat) + "_part"@
                        + dec(k as nat) + "(&mut st),"@)
                } else {
                    (dec(k as nat) + " => func"@ + dec(plan.func_index as nat) + "_part"@
                        + dec(k as nat) + "(&mut st),"@)
                },
            ),
        )
    }
}

/// The trampoline placed inside `func{N}`: it seeds the state from the parameters
/// and bounces between the parts until one returns a value.
pub open spec fn driver_nodes(plan: SplitV, start: usize, parts: nat) -> Seq<NodeV> {
    let o1 = Seq::empty().push(
        body_node(
            0,
            ("let mut st = S"@ + dec(plan.func_index as nat) + " { pc: "@ + dec(start as nat)
                + ", "@ + init_fields(plan.params) + "..Default::default() };"@),
        ),
    ).push(body_node(0, "loop {"@)).push(
        body_node(1, ("let __step = match st.pc / "@ + dec(plan.max_arms as nat) + " {"@)),
    );
    part_calls(o1, plan, parts).push(body_node(2, "_ => unreachable!(),"@)).push(
        body_node(1, "};"@),
    ).push(body_node(1, "if let Some(__ret) = __step {"@)).push(
        body_node(2, "return __ret;"@),
    ).push(body_node(1, "}"@)).push(body_node(0, "}"@))
}

/// A dispatch split by `plan`: the driver, the part functions and the shared
/// state struct.
pub open spec fn split_artifacts(
    arms: Seq<ArmV>,
    uses_continue: bool,
    start: usize,
    plan: SplitV,
) -> ArtifactsV {
    let sorted = sorted_arms(arms);
    let own = assign_arms(sorted);
    let renum = renumbering(own);
    let slots = decl_slots(param_slots(plan.params), arm_decls(sorted));
    let moved = moved_arms(own, renum, slots.repl);
    let parts = part_count(own.len(), plan.max_arms);
    ArtifactsV {
        body: driver_nodes(plan, mapped(renum, start), parts),
        siblings: part_fns(plan, moved, uses_continue, parts),
        state_struct: state_struct_text(plan.func_index, slots),
    }
}

/// The slots of a split dispatch.
struct Slots {
    repl: NameMap,
    named: Vec<(String, String)>,
    banks: BanksV,
}

impl Slots {
    spec fn model(&self) -> SlotsV {
        SlotsV { repl: self.repl@, named: pair_texts(self.named@), banks: self.banks }
    }

    fn name_field(&mut self, name: String, ty: String)
        ensures
            final(self).model() == (SlotsV {
                named: old(self).model().named.push((name@, ty@)),
                ..old(self).model()
            }),
    {
        self.named.push((name, ty));
        assert(pair_texts(self.named@) =~= pair_texts(old(self).named@).push((name@, ty@)));
    }

    /// The slots of `pc` and the parameters: fields of their own.
    fn of_params(params: &Vec<(usize, String)>) -> (s: Slots)
        ensures
            s.model() == param_slots(numbered(params@)),
    {
        let ghost all = numbered(params@);
        let mut s = Slots {
            repl: NameMap::new(),
            named: Vec::new(),
            banks: BanksV { f32s: 0, f64s: 0, i32s: 0, i64s: 0, u128s: 0, u32s: 0 },
        };
        s.repl.insert(lit("pc"), lit("st.pc"));
        assert(pair_texts(s.named@) =~= Seq::empty());
        let mut i: usize = 0;
        while i < params.len()
            invariant
                i <= params@.len(),
                all == numbered(params@),
                s.model() == param_slots(all.take(i as int)),
            decreases params@.len() - i,
        {
            assert(all.take(i + 1).drop_last() =~= all.take(i as int));
            let name = Buf::lit("l").n(params[i].0 as u64).end();
            let known = s.repl.contains_key(name.as_str());
            s.repl.insert(name.clone(), Buf::lit("st.").s(&name).end());
            if !known {
                s.name_field(name, params[i].1.clone());
            }
            i += 1;
        }
        assert(all.take(all.len() as int) =~= all);
        s
    }

    fn add_slot(&mut self, name: String, ty: String)
        ensures
            final(self).model() == with_slot(old(self).model(), name@, ty@),
    {
        if self.repl.contains_key(name.as_str()) {
            return;
        }
        if is_bankable(ty.as_str()) {
            let idx: usize = self.banks.take_slot(ty.as_str());
            self.repl.insert(name, Buf::lit("st.bank_").s(&ty).s("[").n(idx as u64).s("]").end());
        } else {
            self.repl.insert(name.clone(), Buf::lit("st.").s(&name).end());
            self.name_field(name, ty);
        }
    }

    /// Bank the Copy-typed hoisted temps into one array per Rust type, so a
    /// function that hoists thousands of temps yields a handful of struct fields
    /// instead of one field — and one `Default::default()` — per temp, which made
    /// rustc's typeck super-linear. A non-Copy `GcRef` temp can't ride an
    /// array-repeat, so it stays a field.
    fn add_decls(&mut self, decls: &Vec<String>)
        ensures
            final(self).model() == decl_slots(old(self).model(), texts(decls@)),
    {
        let ghost all = texts(decls@);
        let ghost start = self.model();
        let mut i: usize = 0;
        while i < decls.len()
            invariant
                i <= decls@.len(),
                all == texts(decls@),
                self.model() == decl_slots(start, all.take(i as int)),
            decreases decls@.len() - i,
        {
            let pairs = parse_hoisted_decl(decls[i].as_str());
            let ghost ps = pair_texts(pairs@);
            let ghost before = self.model();
            assert(all.take(i + 1).drop_last() =~= all.take(i as int));
            let mut k: usize = 0;
            while k < pairs.len()
                invariant
                    k <= pairs@.len(),
                    ps == pair_texts(pairs@),
                    self.model() == with_slots(before, ps.take(k as int)),
                decreases pairs@.len() - k,
            {
                assert(ps.take(k + 1).drop_last() =~= ps.take(k as int));
                self.add_slot(pairs[k].0.clone(), pairs[k].1.clone());
                k += 1;
            }
            assert(ps.take(ps.len() as int) =~= ps);
            i += 1;
        }
        assert(all.take(all.len() as int) =~= all);
    }

    /// The shared state struct: `pc`, the individual parameter and `GcRef` fields,
    /// then one array bank per Copy temp type. The hand-written `Default`
    /// initialises each bank with a single array-repeat so `..Default::default()`
    /// in the driver still reproduces every hoisted `let mut … = <default>`
    /// initial value — without a per-temp field. A `GcRef` has no `Default`, so its
    /// field starts as the null reference; an array starts with its elements.
    fn struct_text(&self, func_index: usize) -> (r: String)
        ensures
            r@ == state_struct_text(func_index, self.model()),
    {
        let ghost all = pair_texts(self.named@);
        let mut out = Buf::lit("#[allow(dead_code)]\nstruct S").n(func_index as u64)
            .s(" {\n    pc: usize,\n").end();
        let ghost o1 = out@;
        let mut i: usize = 0;
        while i < self.named.len()
            invariant
                i <= self.named@.len(),
                all == pair_texts(self.named@),
                out@ == field_lines(o1, all.take(i as int)),
            decreases self.named@.len() - i,
        {
            assert(all.take(i + 1).drop_last() =~= all.take(i as int));
            out.append(Buf::lit("    ").s(&self.named[i].0).s(": ").s(&self.named[i].1).s(",\n")
                .end().as_str());
            i += 1;
        }
        assert(all.take(all.len() as int) =~= all);
        push_bank_field(&mut out, "f32", self.banks.f32s);
        push_bank_field(&mut out, "f64", self.banks.f64s);
        push_bank_field(&mut out, "i32", self.banks.i32s);
        push_bank_field(&mut out, "i64", self.banks.i64s);
        push_bank_field(&mut out, "u128", self.banks.u128s);
        push_bank_field(&mut out, "u32", self.banks.u32s);
        out.append(
            Buf::lit("}\nimpl Default for S").n(func_index as u64)
                .s(" {\n    fn default() -> Self {\n        Self {\n            pc: 0,\n")
                .end().as_str(),
        );
        let ghost o3 = out@;
        let mut i: usize = 0;
        while i < self.named.len()
            invariant
                i <= self.named@.len(),
                all == pair_texts(self.named@),
                out@ == default_lines(o3, all.take(i as int)),
            decreases self.named@.len() - i,
        {
            assert(all.take(i + 1).drop_last() =~= all.take(i as int));
            let first = first_value(self.named[i].1.as_str());
            out.append(Buf::lit("            ").s(&self.named[i].0).s(": ").s(&first).s(",\n")
                .end().as_str());
            i += 1;
        }
        assert(all.take(all.len() as int) =~= all);
        push_bank_default(&mut out, "f32", self.banks.f32s);
        push_bank_default(&mut out, "f64", self.banks.f64s);
        push_bank_default(&mut out, "i32", self.banks.i32s);
        push_bank_default(&mut out, "i64", self.banks.i64s);
        push_bank_default(&mut out, "u128", self.banks.u128s);
        push_bank_default(&mut out, "u32", self.banks.u32s);
        out.append("        }\n    }\n}\n");
        out
    }
}

fn push_bank_field(out: &mut String, ty: &str, count: usize)
    ensures
        final(out)@ == bank_field(old(out)@, ty@, count),
{
    if count > 0 {
        out.append(Buf::lit("    bank_").s(ty).s(": [").s(ty).s("; ").n(count as u64).s("],\n")
            .end().as_str());
    }
}

fn first_value(ty: &str) -> (r: String)
    ensures
        r@ == field_default(ty@),
{
    if same(ty, "GcRef") || is_array(ty) {
        type_default(ty)
    } else {
        lit("Default::default()")
    }
}

fn push_bank_default(out: &mut String, ty: &str, count: usize)
    ensures
        final(out)@ == bank_default(old(out)@, ty@, count),
{
    if count > 0 {
        out.append(Buf::lit("            bank_").s(ty).s(": [Default::default(); ").n(count as u64)
            .s("],\n").end().as_str());
    }
}

/// Numbers the states densely by the position of their arm.
fn renumber(arms: &Vec<Arm>) -> (m: HashMap<usize, usize>)
    ensures
        m@ == renumbering(arms_view(arms@)),
{
    let ghost all = arms_view(arms@);
    let mut m: HashMap<usize, usize> = HashMap::new();
    let mut i: usize = 0;
    while i < arms.len()
        invariant
            i <= arms@.len(),
            all == arms_view(arms@),
            m@ == renumbering(all.take(i as int)),
        decreases arms@.len() - i,
    {
        assert(all.take(i + 1).drop_last() =~= all.take(i as int));
        m.insert(arms[i].0, i);
        i += 1;
    }
    assert(all.take(all.len() as int) =~= all);
    m
}

/// Rewrites every arm body — renumbers its `pc = N` targets, qualifies state
/// references with `st.`, wraps `return` values in `Some(...)`.
fn move_arms(arms: &Vec<Arm>, renum: &HashMap<usize, usize>, repl: &NameMap) -> (out: Vec<Arm>)
    ensures
        arms_view(out@) == moved_arms(arms_view(arms@), renum@, repl@),
{
    let ghost all = arms_view(arms@);
    let mut out: Vec<Arm> = Vec::new();
    let mut i: usize = 0;
    while i < arms.len()
        invariant
            i <= arms@.len(),
            all == arms_view(arms@),
            arms_view(out@) =~= moved_arms(all, renum@, repl@).take(i as int),
        decreases arms@.len() - i,
    {
        let stmts = &arms[i].1;
        let ghost body = lines_view(stmts@);
        let mut lines: Vec<ArmLine> = Vec::new();
        let mut k: usize = 0;
        while k < stmts.len()
            invariant
                k <= stmts@.len(),
                body == lines_view(stmts@),
                lines_view(lines@) =~= moved_body(body, renum@, repl@).take(k as int),
            decreases stmts@.len() - k,
        {
            let line = rewrite_pc_targets(stmts[k].1.as_str(), renum);
            let line = rewrite_state_refs(line.as_str(), repl);
            add_line(&mut lines, stmts[k].0, wrap_returns(line.as_str()));
            k += 1;
        }
        assert(lines_view(lines@) =~= moved_body(body, renum@, repl@));
        assert(all[i as int] == arm_view(arms@[i as int]));
        add_arm(&mut out, redirect(renum, arms[i].0), lines);
        i += 1;
    }
    assert(arms_view(out@) =~= moved_arms(all, renum@, repl@));
    out
}

fn push_part_arms(out: &mut Lines, arms: &Vec<Arm>, max: usize, k: usize)
    requires
        max > 0,
    ensures
        final(out)@ == part_arms(old(out)@, arms_view(arms@), max, k),
{
    let ghost all = arms_view(arms@);
    let ghost start = out@;
    let mut i: usize = 0;
    while i < arms.len()
        invariant
            i <= arms@.len(),
            max > 0,
            all == arms_view(arms@),
            out@ == part_arms(start, all.take(i as int), max, k),
        decreases arms@.len() - i,
    {
        proof {
            assert(all.take(i + 1).drop_last() =~= all.take(i as int));
            assert(all.take(i + 1).last() == arm_view(arms@[i as int]));
        }
        if arms[i].0 / max == k {
            out.add(Buf::lit("            ").n(arms[i].0 as u64).s(" => {").end());
            let stmts = &arms[i].1;
            let ghost body = lines_view(stmts@);
            let ghost head = out@;
            let mut j: usize = 0;
            while j < stmts.len()
                invariant
                    j <= stmts@.len(),
                    body == lines_view(stmts@),
                    out@ == part_stmts(head, body.take(j as int)),
                decreases stmts@.len() - j,
            {
                assert(body.take(j + 1).drop_last() =~= body.take(j as int));
                let pad = repeat("    ", sat_sum(4, stmts[j].0));
                out.add(Buf::lit(&pad).s(&stmts[j].1).end());
                j += 1;
            }
            assert(body.take(body.len() as int) =~= body);
            out.lit("            }");
        }
        i += 1;
    }
    assert(all.take(all.len() as int) =~= all);
}

/// Appends part function `k`: a bounded `loop { match st.pc { … } }` over its own
/// states; any `pc` outside the slice returns `None` to the driver.
fn push_part_fn(out: &mut Lines, plan: &SplitPlan, arms: &Vec<Arm>, uses_continue: bool, k: usize)
    requires
        plan.max_arms > 0,
    ensures
        final(out)@ == part_fn(old(out)@, plan@, arms_view(arms@), uses_continue, k),
{
    if !plan.is_method {
        out.lit(ALLOW);
    }
    let self_param = if plan.is_method {
        "&mut self, "
    } else {
        ""
    };
    let ret = match &plan.ret {
        Some(r) => r.clone(),
        None => lit("()"),
    };
    let n: usize = plan.func_index;
    out.add(Buf::lit("fn func").n(n as u64).s("_part").n(k as u64).s("(").s(self_param)
        .s("st: &mut S").n(n as u64).s(") -> Option<").s(&ret).s("> {").end());
    out.add(Buf::lit("    ").s(loop_head_str(uses_continue)).end());
    out.lit("        match st.pc {");
    push_part_arms(out, arms, plan.max_arms, k);
    out.lit("            _ => return None,");
    out.lit("        }");
    out.lit("    }");
    out.lit("}");
}

/// The driver body placed inside `func{N}`: seed the state from the params, then
/// trampoline between parts until one returns a value.
fn driver(plan: &SplitPlan, start: usize, parts: usize) -> (body: Vec<Node>)
    ensures
        nodes_view(body@) == driver_nodes(plan@, start, parts as nat),
{
    let ghost all = numbered(plan.params@);
    let n: usize = plan.func_index;
    let mut inits = String::new();
    let mut i: usize = 0;
    while i < plan.params.len()
        invariant
            i <= plan.params@.len(),
            all == numbered(plan.params@),
            inits@ == init_fields(all.take(i as int)),
        decreases plan.params@.len() - i,
    {
        assert(all.take(i + 1).drop_last() =~= all.take(i as int));
        inits.append(Buf::lit("l").n(plan.params[i].0 as u64).s(", ").end().as_str());
        i += 1;
    }
    assert(all.take(all.len() as int) =~= all);
    let mut body: Vec<Node> = Vec::new();
    assert(nodes_view(body@) =~= Seq::<NodeV>::empty());
    push_node_line(
        &mut body,
        0,
        Buf::lit("let mut st = S").n(n as u64).s(" { pc: ").n(start as u64).s(", ").s(&inits)
            .s("..Default::default() };").end(),
    );
    push_node_line(&mut body, 0, lit("loop {"));
    push_node_line(&mut body, 1, Buf::lit("let __step = match st.pc / ").n(plan.max_arms as u64)
        .s(" {").end());
    let ghost o1 = nodes_view(body@);
    let mut k: usize = 0;
    while k < parts
        invariant
            k <= parts,
            n == plan.func_index,
            nodes_view(body@) == part_calls(o1, plan@, k as nat),
        decreases parts - k,
    {
        let call = if plan.is_method {
            Buf::num(k as u64).s(" => self.func").n(n as u64).s("_part").n(k as u64).s("(&mut st),")
                .end()
        } else {
            Buf::num(k as u64).s(" => func").n(n as u64).s("_part").n(k as u64).s("(&mut st),")
                .end()
        };
        push_node_line(&mut body, 2, call);
        k += 1;
    }
    push_node_line(&mut body, 2, lit("_ => unreachable!(),"));
    push_node_line(&mut body, 1, lit("};"));
    push_node_line(&mut body, 1, lit("if let Some(__ret) = __step {"));
    push_node_line(&mut body, 2, lit("return __ret;"));
    push_node_line(&mut body, 1, lit("}"));
    push_node_line(&mut body, 0, lit("}"));
    body
}

impl Flattener {
    /// Render a large flattened dispatch as several sibling *part* functions over
    /// a shared state struct, plus the trampoline `func{N}` driver body. Every
    /// arm's locals/temps (and `pc`) become fields of `S{N}`; each part runs a
    /// contiguous slice of the (renumbered) states and returns `None` once `pc`
    /// leaves its slice, so the driver bounces control to the owning part. A
    /// terminating arm's `return x;` becomes `return Some(x);`, threaded back out
    /// through the driver.
    pub fn render_split(&self, start: usize, plan: &SplitPlan) -> (r: DispatchArtifacts)
        requires
            plan.max_arms > 0,
        ensures
            r@ == split_artifacts(self@.arms, self@.uses_continue, start, plan@),
    {
        let sorted = sort_arms(&self.arms);
        // Hoist typed `let`s just as `render_dispatch` hoists them above the loop;
        // each becomes a state-struct field.
        let (decls, own) = hoist_arms(&sorted);
        // Renumber the surviving states to a dense `0..N` in sorted order, so part
        // `k` owns the contiguous range `[k*max, (k+1)*max)` and `pc / max` selects
        // the owning part in O(1).
        let renum = renumber(&own);
        let max: usize = plan.max_arms;
        let n: usize = own.len();
        proof {
            lemma_part_count(n as nat, max);
        }
        let nparts: usize = n / max + if n % max == 0 {
            0
        } else {
            1
        };
        // How each state name is spelled inside a relocated arm. Lookups are by
        // exact token text, so a SIMD `v128` helper or any lookalike token is never
        // touched.
        let mut slots = Slots::of_params(&plan.params);
        slots.add_decls(&decls);
        let moved = move_arms(&own, &renum, &slots.repl);
        let state_struct = slots.struct_text(plan.func_index);
        let mut siblings = Lines::new();
        let mut k: usize = 0;
        while k < nparts
            invariant
                k <= nparts,
                plan.max_arms > 0,
                siblings@ == part_fns(
                    plan@,
                    arms_view(moved@),
                    self@.uses_continue,
                    k as nat,
                ),
            decreases nparts - k,
        {
            push_part_fn(&mut siblings, plan, &moved, self.uses_continue, k);
            k += 1;
        }
        let body = driver(plan, redirect(&renum, start), nparts);
        DispatchArtifacts { body, siblings: siblings.v, state_struct }
    }
}

proof fn lemma_part_count(n: nat, max: usize)
    requires
        max > 0,
    ensures
        part_count(n, max) == n / max as nat + if n % max as nat == 0 {
            0nat
        } else {
            1
        },
        part_count(n, max) <= n,
{
    let m = max as int;
    let q = n as int / m;
    let rem = n as int % m;
    vstd::arithmetic::div_mod::lemma_fundamental_div_mod(n as int, m);
    if rem == 0 {
        vstd::arithmetic::div_mod::lemma_fundamental_div_mod_converse(n + m - 1, m, q, m - 1);
    } else {
        assert(n + m - 1 == (q + 1) * m + (rem - 1)) by (nonlinear_arith)
            requires
                n as int == m * q + rem,
        ;
        vstd::arithmetic::div_mod::lemma_fundamental_div_mod_converse(n + m - 1, m, q + 1, rem - 1);
    }
    assert(part_count(n, max) <= n) by (nonlinear_arith)
        requires
            part_count(n, max) == q + (if rem == 0 {
                0int
            } else {
                1
            }),
            n as int == m * q + rem,
            m >= 1,
            0 <= rem,
            q >= 0,
    ;
}

// ---------------------------------------------------------------------------
// Flattening a body
// ---------------------------------------------------------------------------
/// The model of an optional plan.
pub open spec fn split_view(split: Option<SplitPlan>) -> Option<SplitV> {
    match split {
        Some(plan) => Some(plan@),
        None => None,
    }
}

/// A finished dispatch entered at `start`: split where the plan asks for it and
/// there are more arms than one part may hold, whole otherwise.
pub open spec fn assembled(
    arms: Seq<ArmV>,
    uses_continue: bool,
    start: usize,
    split: Option<SplitV>,
) -> ArtifactsV {
    if split is Some && split->0.max_arms > 0 && arms.len() > split->0.max_arms {
        split_artifacts(arms, uses_continue, start, split->0)
    } else {
        ArtifactsV {
            body: dispatch_nodes(arms, uses_continue, ("let mut pc: usize = "@ + dec(start as nat)
                + ";"@)),
            siblings: Seq::empty(),
            state_struct: Seq::empty(),
        }
    }
}

/// Whether `r` is the dispatch over `arms` entered at `start`, with its pure
/// forwarding states contracted and its straight-line chains fused.
pub open spec fn dispatch_of(
    arms: Seq<ArmV>,
    uses_continue: bool,
    start: usize,
    split: Option<SplitV>,
    r: ArtifactsV,
) -> bool {
    exists|short: Seq<ArmV>, entry: usize| #[trigger]
        contracted(arms, start, short, entry) && r == assembled(
            fused(short, entry),
            uses_continue,
            entry,
            split,
        )
}

/// The dispatch over given arms is fixed by them.
pub proof fn law_dispatch_is_unique(
    arms: Seq<ArmV>,
    uses_continue: bool,
    start: usize,
    split: Option<SplitV>,
    a: ArtifactsV,
    b: ArtifactsV,
)
    requires
        dispatch_of(arms, uses_continue, start, split, a),
        dispatch_of(arms, uses_continue, start, split, b),
    ensures
        a == b,
{
    let (x, e) = choose|short: Seq<ArmV>, entry: usize| #[trigger]
        contracted(arms, start, short, entry) && a == assembled(
            fused(short, entry),
            uses_continue,
            entry,
            split,
        );
    let (y, f) = choose|short: Seq<ArmV>, entry: usize| #[trigger]
        contracted(arms, start, short, entry) && b == assembled(
            fused(short, entry),
            uses_continue,
            entry,
            split,
        );
    law_contracting_is_unique(arms, start, x, e, y, f);
}

proof fn lemma_plain_calls(out: Seq<NodeV>, plan: SplitV, n: nat)
    requires
        plain_nodes(out),
    ensures
        plain_nodes(part_calls(out, plan, n)),
    decreases n,
{
    if n > 0 {
        let k = (n - 1) as nat;
        lemma_plain_calls(out, plan, k);
        lemma_plain_line(
            part_calls(out, plan, k),
            2,
            if plan.is_method {
                (dec(k as nat) + " => self.func"@ + dec(plan.func_index as nat) + "_part"@
                    + dec(k as nat) + "(&mut st),"@)
            } else {
                (dec(k as nat) + " => func"@ + dec(plan.func_index as nat) + "_part"@
                    + dec(k as nat) + "(&mut st),"@)
            },
        );
    }
}

proof fn lemma_plain_driver(plan: SplitV, start: usize, parts: nat)
    ensures
        plain_nodes(driver_nodes(plan, start, parts)),
{
    let t1 = ("let mut st = S"@ + dec(plan.func_index as nat) + " { pc: "@ + dec(start as nat)
        + ", "@ + init_fields(plan.params) + "..Default::default() };"@);
    let t3 = ("let __step = match st.pc / "@ + dec(plan.max_arms as nat) + " {"@);
    lemma_plain_line(Seq::empty(), 0, t1);
    let o1 = Seq::empty().push(body_node(0, t1));
    lemma_plain_line(o1, 0, "loop {"@);
    let o2 = o1.push(body_node(0, "loop {"@));
    lemma_plain_line(o2, 1, t3);
    let o3 = o2.push(body_node(1, t3));
    lemma_plain_calls(o3, plan, parts);
    let o4 = part_calls(o3, plan, parts);
    lemma_plain_line(o4, 2, "_ => unreachable!(),"@);
    let o5 = o4.push(body_node(2, "_ => unreachable!(),"@));
    lemma_plain_line(o5, 1, "};"@);
    let o6 = o5.push(body_node(1, "};"@));
    lemma_plain_line(o6, 1, "if let Some(__ret) = __step {"@);
    let o7 = o6.push(body_node(1, "if let Some(__ret) = __step {"@));
    lemma_plain_line(o7, 2, "return __ret;"@);
    let o8 = o7.push(body_node(2, "return __ret;"@));
    lemma_plain_line(o8, 1, "}"@);
    lemma_plain_line(o8.push(body_node(1, "}"@)), 0, "}"@);
}

/// What a dispatch puts into its function is made of lines.
pub proof fn lemma_plain_assembled(
    arms: Seq<ArmV>,
    uses_continue: bool,
    start: usize,
    split: Option<SplitV>,
    r: ArtifactsV,
)
    requires
        dispatch_of(arms, uses_continue, start, split, r),
    ensures
        plain_nodes(r.body),
{
    let (short, entry) = choose|short: Seq<ArmV>, entry: usize| #[trigger]
        contracted(arms, start, short, entry) && r == assembled(
            fused(short, entry),
            uses_continue,
            entry,
            split,
        );
    let whole = fused(short, entry);
    if split is Some && split->0.max_arms > 0 && whole.len() > split->0.max_arms {
        let own = assign_arms(sorted_arms(whole));
        lemma_plain_driver(
            split->0,
            mapped(renumbering(own), entry),
            part_count(own.len(), split->0.max_arms),
        );
    } else {
        lemma_plain_dispatch(whole, uses_continue, ("let mut pc: usize = "@ + dec(entry as nat)
            + ";"@));
    }
}

/// A flattener that knows nothing but its exit: state 0 is taken by the entry and
/// state 1 holds the exit statement.
pub open spec fn fresh_flat(exit_stmt: Seq<char>, structured: bool) -> FlatV {
    FlatV {
        arms: Seq::empty().push((1usize, Seq::empty().push((0usize, exit_stmt)))),
        next_state: 2,
        labels: Map::empty(),
        uses_continue: false,
        allow_structured_loop: structured,
    }
}

/// The arms of a whole body, entered at state 0 and left through state 1.
pub open spec fn flat_body(nodes: Seq<NodeV>, exit_stmt: Seq<char>, structured: bool) -> FlatV {
    lowered(fresh_flat(exit_stmt, structured), nodes, 0, 1)
}

/// What the exit state of a function does.
pub open spec fn exit_text(trailing: Option<Seq<char>>, returns_value: bool) -> Seq<char> {
    match trailing {
        Some(expr) => ("return "@ + expr + ";"@),
        None => if returns_value {
            "unreachable!();"@
        } else {
            "return;"@
        },
    }
}

impl Flattener {
    /// A flattener with its entry and exit states taken.
    fn with_exit(exit_stmt: String, structured: bool, split: Option<SplitPlan>) -> (r: Flattener)
        ensures
            r@ == fresh_flat(exit_stmt@, structured),
            r.split == split,
    {
        let mut f = Flattener {
            arms: Vec::new(),
            next_state: 0,
            labels: HashMap::new(),
            uses_continue: false,
            allow_structured_loop: structured,
            split,
        };
        assert(arms_view(f.arms@) =~= Seq::<ArmV>::empty());
        let _start: usize = f.alloc_state();
        let exit: usize = f.alloc_state();
        let mut stmts: Vec<ArmLine> = Vec::new();
        assert(lines_view(stmts@) =~= Seq::<LineV>::empty());
        add_line(&mut stmts, 0, exit_stmt);
        add_arm(&mut f.arms, exit, stmts);
        f
    }

    /// Assemble the dispatch loop from the collected arms, indenting each line to
    /// its final position (relative to the function body's first level).
    ///
    /// Each `match` arm is its own lexical scope, so a `let` binding declared in
    /// one arm would be invisible to the others. Every typed `let` is therefore
    /// hoisted to a declaration above the loop (kept in scope for all arms) while
    /// its initialising assignment — which may carry side effects and must run at
    /// its original program point — stays in the arm.
    pub fn assemble(self, start: usize) -> (r: DispatchArtifacts)
        ensures
            dispatch_of(
                self@.arms,
                self@.uses_continue,
                start,
                split_view(self.split),
                r@,
            ),
    {
        let mut f = self;
        let ghost arms = f@.arms;
        let entry: usize = contract_pc_edges(&mut f.arms, start);
        let ghost short = f@.arms;
        // Fusing never removes a `continue 'sm` (those live only in conditional
        // `br_if` lines or structured-loop arms, neither of which is a linear
        // tail), so `uses_continue` stays accurate across the fold.
        fuse_linear_chains(&mut f.arms, entry);
        assert(contracted(arms, start, short, entry));
        // A large flattened dispatch is split into sibling part functions so the
        // Rust backend optimises each independently; a small one (or when the
        // split is disabled) renders whole.
        match &f.split {
            Some(plan) if plan.max_arms > 0 && f.arms.len() > plan.max_arms => {
                return f.render_split(entry, plan);
            },
            _ => {},
        }
        let body = f.render_dispatch(Buf::lit("let mut pc: usize = ").n(entry as u64).s(";").end());
        let siblings: Vec<String> = Vec::new();
        assert(texts(siblings@) =~= Seq::<Seq<char>>::empty());
        DispatchArtifacts { body, siblings, state_struct: String::new() }
    }
}

/// Lower a structured body to a flat state machine: `let mut pc = …; 'sm: loop {
/// match pc { … } }`. Each control region becomes one or more flat `match` arms
/// linked by `pc` assignments, so the rendered nesting is a small constant
/// regardless of the wasm nesting depth. The caller must have checked
/// [`can_flatten`](crate::codegen::ir::can_flatten) first.
///
/// `trailing` is the function's tail expression (the value produced by falling
/// through the whole body), returned from the exit state. Every arm either loops
/// (setting `pc`) or `return`s, so the dispatch loop diverges (`!`) and is a
/// valid tail for any return type. `returns_value` says whether the function has
/// a result: a value-returning function with no `trailing` never falls through,
/// so its exit state is unreachable. Returns the flat body as already-indented
/// [`Node::Line`]s, with the part functions and the state struct of a split.
pub fn flatten_body(
    nodes: &Vec<Node>,
    trailing: Option<String>,
    returns_value: bool,
    split: Option<SplitPlan>,
) -> (r: DispatchArtifacts)
    requires
        lowerable(nodes_view(nodes@), Set::empty(), true),
    ensures
        ({
            let f = flat_body(
                nodes_view(nodes@),
                exit_text(opt_text(trailing), returns_value),
                true,
            );
            dispatch_of(f.arms, f.uses_continue, 0, split_view(split), r@)
        }),
{
    let exit_stmt = match &trailing {
        Some(expr) => Buf::lit("return ").s(expr).s(";").end(),
        // A value-returning function reaches its exit only by falling through
        // with a value (a `Some` trailing); reaching it otherwise is impossible.
        None => if returns_value {
            lit("unreachable!();")
        } else {
            lit("return;")
        },
    };
    let mut f = Flattener::with_exit(exit_stmt, true, split);
    assert(f@.labels.dom() =~= Set::<usize>::empty());
    f.lower(nodes, 0, 1);
    f.assemble(0)
}

/// Lower a continuation body (already walked into a [`Node`] tree, with
/// `suspend`s marked as [`Node::Suspend`]) to the flat `pc` dispatch of a
/// resumable step function. Mirrors [`flatten_body`] but the dispatch reads its
/// initial `pc` from `__frame.pc` (so a resume re-enters the state a prior
/// suspend saved) and its exit returns `StepResult`, not a plain value.
///
/// `exit_stmt` is the fall-off-the-end terminator (`return
/// StepResult::Return(…)` when the body's end is reachable, else
/// `unreachable!()`). Structured loops are disabled (see
/// [`Flattener::allow_structured_loop`]) and pc-edge contraction is skipped, so
/// every allocated state id is stable — a `suspend` can hard-code the resume
/// state into `__frame.pc`.
pub fn flatten_cont_body(nodes: &Vec<Node>, exit_stmt: String) -> (r: Vec<Node>)
    requires
        lowerable(nodes_view(nodes@), Set::empty(), false),
    ensures
        ({
            let f = flat_body(nodes_view(nodes@), exit_stmt@, false);
            nodes_view(r@) == dispatch_nodes(
                f.arms,
                f.uses_continue,
                "let mut pc: usize = __frame.pc as usize;"@,
            )
        }),
{
    let mut f = Flattener::with_exit(exit_stmt, false, None);
    assert(f@.labels.dom() =~= Set::<usize>::empty());
    f.lower(nodes, 0, 1);
    f.assemble_cont()
}

} // verus!
