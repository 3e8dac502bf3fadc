//! Module-scope rendering for continuations: the resumable runtime types
//! (`StepResult`, per-body `ContFrame{N}`, the `ContObj` union) and the `Instance`
//! methods that drive them (`cont_new`/`cont_step`/`cont_bind`). These are emitted
//! only for a module that creates a continuation. The per-function
//! `cont_step_func{N}` state machines that these types feed are lowered
//! separately.

use vstd::prelude::*;

use crate::codegen::analysis::{
    chain_after, chain_loops, default_value, default_value_text, rust_type, rust_type_text,
};
use crate::codegen::context::{ContV, ModuleCtx};
use crate::codegen::info::KindV;
use crate::error::{FailV, TranspileError};
use crate::text::{dec, inc, join, joined, lit, next_of, texts, Buf, Lines};
use crate::wasm::ValType;

verus! {

broadcast use vstd::std_specs::hash::group_hash_axioms;

/// Lines, or why there are none.
pub type LinesR = Result<Seq<Seq<char>>, FailV>;

/// Whether lines were appended as specified.
pub open spec fn lines_result(
    r: Result<(), TranspileError>,
    post: Seq<Seq<char>>,
    want: LinesR,
) -> bool {
    match want {
        Ok(t) => r is Ok && post == t,
        Err(e) => r is Err && r->Err_0@ == e,
    }
}

/// The fields that hold the first `n` locals, behind `out`.
pub open spec fn local_fields(
    out: Seq<Seq<char>>,
    locals: Seq<ValType>,
    kinds: Seq<KindV>,
    n: nat,
) -> LinesR
    decreases n,
{
    if n == 0 {
        Ok(out)
    } else {
        match local_fields(out, locals, kinds, (n - 1) as nat) {
            Err(e) => Err(e),
            Ok(front) => match rust_type_text(locals[n - 1], kinds) {
                Err(e) => Err(e),
                Ok(rty) => Ok(front.push(("l"@ + dec((n - 1) as nat) + ": "@ + rty))),
            },
        }
    }
}

/// The initial values of the first `n` locals, behind `out`.
pub open spec fn local_starts(
    out: Seq<Seq<char>>,
    locals: Seq<ValType>,
    kinds: Seq<KindV>,
    n: nat,
) -> Seq<Seq<char>>
    decreases n,
{
    if n == 0 {
        out
    } else {
        local_starts(out, locals, kinds, (n - 1) as nat).push(
            ("l"@ + dec((n - 1) as nat) + ": "@ + default_value_text(locals[n - 1], kinds)),
        )
    }
}

impl ContV {
    /// The locals of the step function `n`.
    pub open spec fn locals_of(self, n: u32) -> Seq<ValType> {
        if self.step_locals.contains_key(n) {
            self.step_locals[n]
        } else {
            Seq::empty()
        }
    }

    /// The fields of a step function's frame: its program counter, what survives a
    /// suspension, its bound arguments, the frame of its checkpoint's callee, and
    /// its locals.
    pub open spec fn frame_fields(self, kinds: Seq<KindV>, n: u32) -> LinesR {
        let base = Seq::empty().push("pc: u32"@).push("ostack: Vec<i64>"@).push(
            "bound: Vec<i64>"@,
        );
        let out = if self.checkpoint_callee.contains_key(n) {
            base.push(("sub: ContFrame"@ + dec(self.checkpoint_callee[n] as nat)))
        } else {
            base
        };
        local_fields(out, self.locals_of(n), kinds, self.locals_of(n).len())
    }

    /// The start state of a step function's frame. Frames of callees are nested up
    /// to `fuel` deep.
    pub open spec fn frame_start(self, kinds: Seq<KindV>, n: u32, fuel: nat) -> Seq<char>
        decreases fuel,
    {
        let base = Seq::empty().push("pc: 0u32"@).push("ostack: Vec::new()"@).push(
            "bound: Vec::new()"@,
        );
        let out = if fuel > 0 && self.checkpoint_callee.contains_key(n) {
            base.push(
                ("sub: "@ + self.frame_start(kinds, self.checkpoint_callee[n], (fuel - 1) as nat)),
            )
        } else {
            base
        };
        let fields = local_starts(out, self.locals_of(n), kinds, self.locals_of(n).len());
        ("ContFrame"@ + dec(n as nat) + " { "@ + joined(fields, ", "@) + " }"@)
    }

    /// How deep frames are nested: deeper than any chain of checkpoints.
    pub open spec fn nesting_limit(self) -> nat {
        inc(inc(crate::text::clamp(self.step_set.len()))) as nat
    }

    /// The frame structs of the first `n` step functions, behind `out`.
    pub open spec fn frame_structs(self, out: Seq<Seq<char>>, kinds: Seq<KindV>, n: nat) -> LinesR
        decreases n,
    {
        if n == 0 {
            Ok(out)
        } else {
            match self.frame_structs(out, kinds, (n - 1) as nat) {
                Err(e) => Err(e),
                Ok(front) => match self.frame_fields(kinds, self.step_set[n - 1]) {
                    Err(e) => Err(e),
                    Ok(fields) => Ok(
                        front.push("#[allow(dead_code)]"@).push(
                            ("pub struct ContFrame"@ + dec(self.step_set[n - 1] as nat) + " { "@
                                + joined(fields, ", "@) + " }"@),
                        ),
                    ),
                },
            }
        }
    }

    /// One variant per continuation body.
    pub open spec fn object_variants(self, out: Seq<Seq<char>>, n: nat) -> Seq<Seq<char>>
        decreases n,
    {
        if n == 0 {
            out
        } else {
            self.object_variants(out, (n - 1) as nat).push(
                ("    C"@ + dec(self.bodies[n - 1] as nat) + "(ContFrame"@
                    + dec(self.bodies[n - 1] as nat) + "),"@),
            )
        }
    }

    /// The runtime types of the module's continuations, behind `out`.
    pub open spec fn runtime_lines(self, out: Seq<Seq<char>>, kinds: Seq<KindV>) -> LinesR {
        let o1 = out.push("#[allow(dead_code)]"@).push("pub enum StepResult {"@).push(
            "    Return(Vec<i64>),"@,
        ).push("    Suspend { tag: u32, payload: Vec<i64> },"@).push(
            "    Switch { tag: u32, target: u32, args: Vec<i64> },"@,
        ).push("}"@).push(""@);
        match self.frame_structs(o1, kinds, self.step_set.len()) {
            Err(e) => Err(e),
            Ok(o2) => Ok(
                self.object_variants(
                    o2.push(""@).push("#[allow(dead_code)]"@).push("pub enum ContObj {"@),
                    self.bodies.len(),
                ).push("}"@),
            ),
        }
    }

    pub open spec fn new_arms(self, out: Seq<Seq<char>>, kinds: Seq<KindV>, n: nat) -> Seq<Seq<char>>
        decreases n,
    {
        if n == 0 {
            out
        } else {
            let b = self.bodies[n - 1];
            self.new_arms(out, kinds, (n - 1) as nat).push(
                ("        "@ + dec(b as nat) + "u32 => ContObj::C"@ + dec(b as nat) + "("@
                    + self.frame_start(kinds, b, self.nesting_limit()) + "),"@),
            )
        }
    }

    pub open spec fn step_arms(self, out: Seq<Seq<char>>, n: nat) -> Seq<Seq<char>>
        decreases n,
    {
        if n == 0 {
            out
        } else {
            let b = self.bodies[n - 1];
            self.step_arms(out, (n - 1) as nat).push(("        ContObj::C"@ + dec(b as nat)
                + "(__f) => {"@)).push(
                "            if __f.bound.is_empty() {"@,
            ).push(("                self.cont_step_func"@ + dec(b as nat)
                + "(__f, __args)"@)).push(
                "            } else {"@,
            ).push("                let mut __a = std::mem::take(&mut __f.bound);"@).push(
                "                __a.extend_from_slice(__args);"@,
            ).push(("                self.cont_step_func"@ + dec(b as nat) + "(__f, &__a)"@)).push(
                "            }"@,
            ).push("        }"@)
        }
    }

    pub open spec fn bind_arms(self, out: Seq<Seq<char>>, n: nat) -> Seq<Seq<char>>
        decreases n,
    {
        if n == 0 {
            out
        } else {
            let b = self.bodies[n - 1];
            self.bind_arms(out, (n - 1) as nat).push(
                ("        ContObj::C"@ + dec(b as nat)
                    + "(__f) => __f.bound.extend_from_slice(__prefix),"@),
            )
        }
    }

    /// The methods that make, step and bind continuations, behind `out`.
    pub open spec fn method_lines(self, out: Seq<Seq<char>>, kinds: Seq<KindV>) -> Seq<Seq<char>> {
        let o1 = self.new_arms(
            out.push("pub fn cont_new(&mut self, __funcidx: u32) -> u32 {"@).push(
                "    let __obj = match __funcidx {"@,
            ),
            kinds,
            self.bodies.len(),
        );
        let o2 = o1.push(
            "        _ => panic!(\"cont.new: not a continuation function\"),"@,
        ).push("    };"@).push("    self.conts.push(Some(__obj));"@).push(
            "    (self.conts.len() - 1) as u32"@,
        ).push("}"@).push(""@).push(
            "pub fn cont_step(&mut self, __h: u32, __args: &[i64]) -> StepResult {"@,
        ).push("    let mut __obj = self.conts[__h as usize]"@).push("        .take()"@).push(
            "        .expect(\"resume of a consumed continuation\");"@,
        ).push("    let __r = match &mut __obj {"@);
        let o3 = self.step_arms(o2, self.bodies.len());
        let o4 = o3.push("    };"@).push(
            "    if let StepResult::Suspend { .. } | StepResult::Switch { .. } = __r {"@,
        ).push("        self.conts[__h as usize] = Some(__obj);"@).push("    }"@).push(
            "    __r"@,
        ).push("}"@).push(""@).push("#[allow(dead_code)]"@).push(
            "pub fn cont_bind(&mut self, __h: u32, __prefix: &[i64]) -> u32 {"@,
        ).push("    match self.conts[__h as usize]"@).push("        .as_mut()"@).push(
            "        .expect(\"cont.bind of a consumed continuation\")"@,
        ).push("    {"@);
        let o5 = self.bind_arms(o4, self.bodies.len());
        o5.push("    };"@).push("    __h"@).push("}"@)
    }
}

proof fn lemma_fields_fail(
    out: Seq<Seq<char>>,
    locals: Seq<ValType>,
    kinds: Seq<KindV>,
    i: nat,
    n: nat,
)
    requires
        i <= n,
        local_fields(out, locals, kinds, i) is Err,
    ensures
        local_fields(out, locals, kinds, n) == local_fields(out, locals, kinds, i),
    decreases n - i,
{
    if i < n {
        lemma_fields_fail(out, locals, kinds, i, (n - 1) as nat);
    }
}

proof fn lemma_structs_fail(c: ContV, out: Seq<Seq<char>>, kinds: Seq<KindV>, i: nat, n: nat)
    requires
        i <= n,
        c.frame_structs(out, kinds, i) is Err,
    ensures
        c.frame_structs(out, kinds, n) == c.frame_structs(out, kinds, i),
    decreases n - i,
{
    if i < n {
        lemma_structs_fail(c, out, kinds, i, (n - 1) as nat);
    }
}

/// A frame holds the frames of its whole chain of checkpoints: nesting deeper than
/// the chain changes nothing. Chains that end (see [`chain_loops`]) end within
/// one step more than there are step functions.
pub proof fn law_frames_nest_fully(c: ContV, kinds: Seq<KindV>, n: u32, fuel: nat)
    requires
        !c.checkpoint_callee.contains_key(chain_after(c.checkpoint_callee, n, fuel)),
    ensures
        c.frame_start(kinds, n, fuel + 1) == c.frame_start(kinds, n, fuel),
    decreases fuel,
{
    let m = c.checkpoint_callee;
    if fuel > 0 && m.contains_key(n) {
        law_frames_nest_fully(c, kinds, m[n], (fuel - 1) as nat);
    }
}

/// Where no chain of checkpoints loops back, every frame that is started holds its
/// whole chain.
pub proof fn law_started_frames_are_whole(c: ContV, kinds: Seq<KindV>, n: u32, more: nat)
    requires
        !chain_loops(c.checkpoint_callee, c.step_set.len()),
    ensures
        c.frame_start(kinds, n, c.step_set.len() + 2 + more) == c.frame_start(
            kinds,
            n,
            c.step_set.len() + 2,
        ),
    decreases more,
{
    if more > 0 {
        law_started_frames_are_whole(c, kinds, n, (more - 1) as nat);
        let fuel = c.step_set.len() + 1 + more;
        let m = c.checkpoint_callee;
        assert(!m.contains_key(chain_after(m, n, fuel))) by {
            lemma_chain_ended(m, n, c.step_set.len() + 1, fuel);
        }
        law_frames_nest_fully(c, kinds, n, fuel);
    }
}

proof fn lemma_chain_ended(m: Map<u32, u32>, n: u32, a: nat, b: nat)
    requires
        m.contains_key(n) ==> !m.contains_key(chain_after(m, n, a)),
        a <= b,
    ensures
        !m.contains_key(chain_after(m, n, b)) || !m.contains_key(n),
    decreases a,
{
    if m.contains_key(n) && a > 0 {
        if m.contains_key(m[n]) {
            lemma_chain_ended(m, m[n], (a - 1) as nat, (b - 1) as nat);
        }
    }
}

impl<'a> ModuleCtx<'a> {
    /// Appends the fields of a step function's frame.
    fn frame_field_list(&self, n: u32) -> (r: Result<Vec<String>, TranspileError>)
        ensures
            match self@.cont.frame_fields(self@.kinds, n) {
                Ok(t) => r is Ok && texts(r->Ok_0@) == t,
                Err(e) => r is Err && r->Err_0@ == e,
            },
    {
        let ghost c = self@.cont;
        let mut fields = Lines::new();
        fields.lit("pc: u32");
        fields.lit("ostack: Vec<i64>");
        fields.lit("bound: Vec<i64>");
        match self.cont.checkpoint_callee.get(&n) {
            Some(g) => fields.add(Buf::lit("sub: ContFrame").n((*g) as u64).end()),
            None => {},
        }
        let ghost base = fields@;
        match self.cont.step_locals.get(&n) {
            Some(locals) => {
                assert(c.locals_of(n) == locals@);
                let mut i: usize = 0;
                while i < locals.len()
                    invariant
                        i <= locals@.len(),
                        c == self@.cont,
                        c.locals_of(n) == locals@,
                        c.frame_fields(self@.kinds, n) == local_fields(
                            base,
                            locals@,
                            self@.kinds,
                            locals@.len(),
                        ),
                        local_fields(base, locals@, self@.kinds, i as nat) == Ok::<
                            Seq<Seq<char>>,
                            FailV,
                        >(fields@),
                    decreases locals@.len() - i,
                {
                    match rust_type(locals[i], self.type_kinds) {
                        Ok(rty) => fields.add(Buf::lit("l").n(i as u64).s(": ").s(rty).end()),
                        Err(e) => {
                            proof {
                                lemma_fields_fail(
                                    base,
                                    locals@,
                                    self@.kinds,
                                    (i + 1) as nat,
                                    locals@.len(),
                                );
                            }
                            return Err(e);
                        },
                    }
                    i += 1;
                }
            },
            None => {},
        }
        Ok(fields.v)
    }

    /// The start-state literal for a step function's frame: `pc` 0, each local at
    /// its default, and — when the function ends in a cross-call checkpoint — a
    /// freshly-started callee frame in `sub` (recursively). The checkpoint graph is
    /// acyclic (a recursive chain is rejected during context building), so `fuel`
    /// is never used up.
    fn frame_start_literal(&self, n: u32, fuel: usize) -> (r: String)
        ensures
            r@ == self@.cont.frame_start(self@.kinds, n, fuel as nat),
        decreases fuel,
    {
        let ghost c = self@.cont;
        let mut fields = Lines::new();
        fields.lit("pc: 0u32");
        fields.lit("ostack: Vec::new()");
        fields.lit("bound: Vec::new()");
        if fuel > 0 {
            match self.cont.checkpoint_callee.get(&n) {
                Some(g) => {
                    let sub = self.frame_start_literal(*g, fuel - 1);
                    fields.add(Buf::lit("sub: ").s(&sub).end());
                },
                None => {},
            }
        }
        let ghost base = fields@;
        match self.cont.step_locals.get(&n) {
            Some(locals) => {
                assert(c.locals_of(n) == locals@);
                let mut i: usize = 0;
                while i < locals.len()
                    invariant
                        i <= locals@.len(),
                        fields@ == local_starts(base, locals@, self@.kinds, i as nat),
                    decreases locals@.len() - i,
                {
                    let default = default_value(locals[i], self.type_kinds);
                    fields.add(Buf::lit("l").n(i as u64).s(": ").s(default).end());
                    i += 1;
                }
            },
            None => {},
        }
        let all = join(&fields.v, ", ");
        Buf::lit("ContFrame").n(n as u64).s(" { ").s(&all).s(" }").end()
    }

    /// The module-scope continuations runtime: the `StepResult` a step function
    /// returns, one `ContFrame{N}` per step function (holding its resumable program
    /// counter), and the `ContObj` union the handle table stores.
    ///
    /// A program may create a continuation without resuming it (or vice versa),
    /// leaving some fields/variants unexercised, so the generated types carry the
    /// same dead-code allowance as the `Instance` struct. They are `pub` because
    /// the `pub` `cont_new`/`cont_step`/`cont_step_func` methods mention them in
    /// their signatures.
    pub fn continuation_runtime_lines(&self, lines: &mut Lines) -> (r: Result<(), TranspileError>)
        ensures
            lines_result(r, final(lines)@, self@.cont.runtime_lines(old(lines)@, self@.kinds)),
    {
        let ghost c = self@.cont;
        let ghost start = lines@;
        lines.lit("#[allow(dead_code)]");
        lines.lit("pub enum StepResult {");
        lines.lit("    Return(Vec<i64>),");
        lines.lit("    Suspend { tag: u32, payload: Vec<i64> },");
        // A `switch` parks the running continuation and transfers directly to
        // `target`, handing it `args` (the switch payload); the driving `resume`
        // (its `(on $tag switch)` handler) follows the transfer.
        lines.lit("    Switch { tag: u32, target: u32, args: Vec<i64> },");
        lines.lit("}");
        lines.lit("");
        let ghost o1 = lines@;
        let steps = &self.cont.step_set;
        let mut i: usize = 0;
        while i < steps.len()
            invariant
                i <= steps@.len(),
                steps@ == c.step_set,
                c == self@.cont,
                start == old(lines)@,
                o1 == start.push("#[allow(dead_code)]"@).push("pub enum StepResult {"@).push(
                    "    Return(Vec<i64>),"@,
                ).push("    Suspend { tag: u32, payload: Vec<i64> },"@).push(
                    "    Switch { tag: u32, target: u32, args: Vec<i64> },"@,
                ).push("}"@).push(""@),
                c.frame_structs(o1, self@.kinds, i as nat) == Ok::<Seq<Seq<char>>, FailV>(lines@),
            decreases steps@.len() - i,
        {
            let n: u32 = steps[i];
            match self.frame_field_list(n) {
                Ok(fields) => {
                    let all = join(&fields, ", ");
                    lines.lit("#[allow(dead_code)]");
                    lines.add(Buf::lit("pub struct ContFrame").n(n as u64).s(" { ").s(&all).s(" }")
                        .end());
                },
                Err(e) => {
                    proof {
                        lemma_structs_fail(c, o1, self@.kinds, (i + 1) as nat, steps@.len());
                    }
                    return Err(e);
                },
            }
            i += 1;
        }
        lines.lit("");
        lines.lit("#[allow(dead_code)]");
        lines.lit("pub enum ContObj {");
        let ghost o3 = lines@;
        let bodies = &self.cont.bodies;
        let mut k: usize = 0;
        while k < bodies.len()
            invariant
                k <= bodies@.len(),
                bodies@ == c.bodies,
                lines@ == c.object_variants(o3, k as nat),
            decreases bodies@.len() - k,
        {
            lines.add(Buf::lit("    C").n(bodies[k] as u64).s("(ContFrame").n(bodies[k] as u64)
                .s("),").end());
            k += 1;
        }
        lines.lit("}");
        Ok(())
    }

    /// The `cont_new`/`cont_step`/`cont_bind` methods on `Instance`. `cont_new`
    /// allocates a fresh resumable frame for the referenced function and returns
    /// its handle (an index into `conts`); `cont_step` resumes the handle once,
    /// dispatching to the right step function and — since a continuation is
    /// one-shot — keeping the (advanced) object only while it is still live: both
    /// a suspend and a switch park it (it may be resumed/switched-to again), while
    /// a return consumes it. `cont_bind` appends its already-`i64`-erased leading
    /// arguments to the continuation's `bound` prefix and hands the handle back;
    /// the next resume prepends the prefix to its own arguments.
    pub fn continuation_method_lines(&self, lines: &mut Lines)
        ensures
            final(lines)@ == self@.cont.method_lines(old(lines)@, self@.kinds),
    {
        let ghost c = self@.cont;
        let bodies = &self.cont.bodies;
        assert(self.cont.step_set@.len() == c.step_set.len());
        let limit: usize = next_of(next_of(self.cont.step_set.len()));
        lines.lit("pub fn cont_new(&mut self, __funcidx: u32) -> u32 {");
        lines.lit("    let __obj = match __funcidx {");
        let ghost o0 = lines@;
        let mut i: usize = 0;
        while i < bodies.len()
            invariant
                i <= bodies@.len(),
                bodies@ == c.bodies,
                c == self@.cont,
                limit == c.nesting_limit(),
                lines@ == c.new_arms(o0, self@.kinds, i as nat),
            decreases bodies@.len() - i,
        {
            let start = self.frame_start_literal(bodies[i], limit);
            lines.add(Buf::lit("        ").n(bodies[i] as u64).s("u32 => ContObj::C")
                .n(bodies[i] as u64).s("(").s(&start).s("),").end());
            i += 1;
        }
        lines.lit("        _ => panic!(\"cont.new: not a continuation function\"),");
        lines.lit("    };");
        lines.lit("    self.conts.push(Some(__obj));");
        lines.lit("    (self.conts.len() - 1) as u32");
        lines.lit("}");
        lines.lit("");
        // `__args` carries the values injected by this resume: at a fresh
        // continuation's first step they are the body's parameters; a
        // parameter-less body simply ignores the (empty) slice.
        lines.lit("pub fn cont_step(&mut self, __h: u32, __args: &[i64]) -> StepResult {");
        lines.lit("    let mut __obj = self.conts[__h as usize]");
        lines.lit("        .take()");
        lines.lit("        .expect(\"resume of a consumed continuation\");");
        lines.lit("    let __r = match &mut __obj {");
        let ghost o2 = lines@;
        let mut k: usize = 0;
        while k < bodies.len()
            invariant
                k <= bodies@.len(),
                bodies@ == c.bodies,
                lines@ == c.step_arms(o2, k as nat),
            decreases bodies@.len() - k,
        {
            // A continuation carrying `cont.bind`-supplied arguments delivers them
            // ahead of this resume's own `__args`; `bound` is non-empty only until
            // the step that consumes it (it is taken here), so an unbound
            // continuation takes the borrow-free path.
            lines.add(Buf::lit("        ContObj::C").n(bodies[k] as u64).s("(__f) => {").end());
            lines.lit("            if __f.bound.is_empty() {");
            lines.add(Buf::lit("                self.cont_step_func").n(bodies[k] as u64)
                .s("(__f, __args)").end());
            lines.lit("            } else {");
            lines.lit("                let mut __a = std::mem::take(&mut __f.bound);");
            lines.lit("                __a.extend_from_slice(__args);");
            lines.add(Buf::lit("                self.cont_step_func").n(bodies[k] as u64)
                .s("(__f, &__a)").end());
            lines.lit("            }");
            lines.lit("        }");
            k += 1;
        }
        lines.lit("    };");
        lines.lit("    if let StepResult::Suspend { .. } | StepResult::Switch { .. } = __r {");
        lines.lit("        self.conts[__h as usize] = Some(__obj);");
        lines.lit("    }");
        lines.lit("    __r");
        lines.lit("}");
        lines.lit("");
        lines.lit("#[allow(dead_code)]");
        lines.lit("pub fn cont_bind(&mut self, __h: u32, __prefix: &[i64]) -> u32 {");
        lines.lit("    match self.conts[__h as usize]");
        lines.lit("        .as_mut()");
        lines.lit("        .expect(\"cont.bind of a consumed continuation\")");
        lines.lit("    {");
        let ghost o4 = lines@;
        let mut j: usize = 0;
        while j < bodies.len()
            invariant
                j <= bodies@.len(),
                bodies@ == c.bodies,
                lines@ == c.bind_arms(o4, j as nat),
            decreases bodies@.len() - j,
        {
            lines.add(
                Buf::lit("        ContObj::C").n(bodies[j] as u64)
                    .s("(__f) => __f.bound.extend_from_slice(__prefix),").end(),
            );
            j += 1;
        }
        lines.lit("    };");
        lines.lit("    __h");
        lines.lit("}");
    }
}

} // verus!
