//! Direct and indirect calls.

use vstd::prelude::*;

use crate::codegen::analysis::{rust_types, rust_types_text};
use crate::codegen::context::{CtxV, ModuleCtx};
use crate::codegen::frame::typed;
use crate::codegen::func::control::add_typed;
use crate::codegen::func::state::{code_list, codes, gen_result, FuncGen, GenR, GenV};
use crate::codegen::info::{SigV, TypeSig};
use crate::error::{no_support, unsupported, FailV, TranspileError};
use crate::text::{dec, join, joined, lit, texts, Buf};
use crate::wasm::ValType;

verus! {

/// Names paired with types.
pub open spec fn paired(names: Seq<Seq<char>>, tys: Seq<ValType>) -> Seq<(Seq<char>, ValType)> {
    Seq::new(tys.len(), |i: int| (names[i], tys[i]))
}

/// Whether two lists of types are the same.
pub fn same_types(a: &Vec<ValType>, b: &Vec<ValType>) -> (r: bool)
    ensures
        r == (a@ == b@),
{
    if a.len() != b.len() {
        return false;
    }
    let mut i: usize = 0;
    while i < a.len()
        invariant
            i <= a@.len(),
            a@.len() == b@.len(),
            forall|k: int| 0 <= k < i ==> a@[k] == b@[k],
        decreases a@.len() - i,
    {
        if a[i] != b[i] {
            return false;
        }
        i += 1;
    }
    assert(a@ =~= b@);
    true
}

impl CtxV {
    /// Whether some function has this signature (no subtyping, so a structural
    /// match is a type match). This spans the whole index space, so a table entry
    /// may resolve to an imported function.
    pub open spec fn has_target(self, sig: SigV) -> bool {
        exists|f: int| #[trigger] self.sig(f) == Some(sig)
    }
}

/// Whether some function of the module, imported or defined, has this signature.
fn has_target(ctx: &ModuleCtx, sig: &TypeSig) -> (r: bool)
    ensures
        r == ctx@.has_target(sig@),
{
    let mut i: usize = 0;
    while i < ctx.imports.len()
        invariant
            i <= ctx.imports@.len(),
            forall|f: int| 0 <= f < i ==> #[trigger] ctx@.sig(f) != Some(sig@),
        decreases ctx.imports@.len() - i,
    {
        let im = &ctx.imports[i];
        assert(ctx@.imports[i as int] == im@);
        if same_types(&im.params, &sig.params) && same_types(&im.results, &sig.results) {
            assert(ctx@.sig(i as int) == Some(sig@));
            return true;
        }
        i += 1;
    }
    let ghost n = ctx.imports@.len();
    let mut j: usize = 0;
    while j < ctx.funcs.len()
        invariant
            j <= ctx.funcs@.len(),
            n == ctx.imports@.len(),
            forall|f: int| 0 <= f < n + j ==> #[trigger] ctx@.sig(f) != Some(sig@),
        decreases ctx.funcs@.len() - j,
    {
        let f = &ctx.funcs[j];
        assert(ctx@.funcs[j as int] == (SigV { params: f.params@, results: f.results@ }));
        if same_types(&f.params, &sig.params) && same_types(&f.results, &sig.results) {
            assert(ctx@.sig(n + j) == Some(sig@));
            return true;
        }
        j += 1;
    }
    false
}

impl GenV {
    /// The binding of a call's results: the state behind it, the text in front of
    /// the call, and the temporaries that receive the results.
    pub open spec fn result_bound(self, results: Seq<ValType>) -> Result<
        (GenV, Seq<char>, Seq<(Seq<char>, ValType)>),
        FailV,
    > {
        if results.len() == 0 {
            Ok((self, Seq::empty(), Seq::empty()))
        } else if results.len() == 1 {
            match self.rust_type(results[0]) {
                Err(e) => Err(e),
                Ok(rty) => Ok(
                    (
                        self.temp_taken(),
                        ("let "@ + self.temp() + ": "@ + rty + " = "@),
                        Seq::empty().push((self.temp(), results[0])),
                    ),
                ),
            }
        } else {
            match rust_types_text(results, self.ctx.kinds) {
                Err(e) => Err(e),
                Ok(tys) => Ok(
                    (
                        self.temps_taken(results.len()),
                        ("let ("@ + joined(self.temps(results.len()), ", "@) + "): ("@
                            + joined(tys, ", "@) + ") = "@),
                        paired(self.temps(results.len()), results),
                    ),
                ),
            }
        }
    }

    /// A direct call. A tail call drops the operands below its arguments, so it
    /// freezes none.
    pub open spec fn called(self, f: u32, tail: bool) -> GenR {
        match self.ctx.sig(f as int) {
            None => Err(unsupported("call to unknown function"@)),
            Some(sig) => {
                let n = sig.params.len();
                match if tail {
                    Ok(self)
                } else {
                    self.survivors_frozen(n)
                } {
                    Err(e) => Err(e),
                    Ok(s) => if !s.has(n as int) {
                        Err(FailV::StackUnderflow)
                    } else {
                        let args = joined(codes(s.tail(n as int)), ", "@);
                        match s.drop(n as int).result_bound(sig.results) {
                            Err(e) => Err(e),
                            Ok((s2, prefix, temps)) => Ok(
                                s2.line(
                                    (prefix + self.ctx.call_text(f as int, args) + ";"@),
                                ).pushed(temps),
                            ),
                        }
                    },
                }
            },
        }
    }

    /// A tail call: the call, and then its results returned.
    pub open spec fn tail_called(self, f: u32) -> GenR {
        match self.called(f, true) {
            Err(e) => Err(e),
            Ok(s) => s.returned(),
        }
    }

    /// An indirect call through table 0.
    pub open spec fn called_indirect(self, type_index: u32, table_index: u32, tail: bool) -> GenR {
        if !self.ctx.has_table {
            Err(unsupported("call_indirect without a table"@))
        } else if table_index != 0 {
            Err(unsupported("call_indirect on a non-zero table"@))
        } else if type_index >= self.ctx.types.len() {
            Err(unsupported("call_indirect: unknown type"@))
        } else {
            let sig = self.ctx.types[type_index as int];
            let n = sig.params.len();
            match if tail {
                Ok(self)
            } else {
                self.survivors_frozen(1)
            } {
                Err(e) => Err(e),
                Ok(s) => if !s.has(1) || !s.drop(1).has(n as int) {
                    Err(FailV::StackUnderflow)
                } else {
                    let args = joined(codes(s.drop(1).tail(n as int)), ", "@);
                    let s1 = s.drop(1).drop(n as int);
                    if !self.ctx.has_target(sig) && !self.ctx.has_imports {
                        Ok(s1.term("panic!(\"indirect call type mismatch\");"@).dead())
                    } else {
                        let s2 = s1.temp_taken().line(
                            ("let "@ + s1.temp() + " = self.table()[("@ + s.top().code
                                + ") as u32 as usize];"@),
                        ).dispatching(type_index);
                        match s2.result_bound(sig.results) {
                            Err(e) => Err(e),
                            Ok((s3, prefix, temps)) => {
                                let sep = if args.len() == 0 {
                                    ""@
                                } else {
                                    ", "@
                                };
                                let s4 = s3.line(
                                    (prefix + "self.call_ref_t"@ + dec(type_index as nat) + "("@
                                        + s1.temp() + sep + args + ");"@),
                                ).pushed(temps);
                                if tail {
                                    s4.returned()
                                } else {
                                    Ok(s4)
                                }
                            },
                        }
                    }
                },
            }
        }
    }
}

impl<'a> FuncGen<'a> {
    /// Build the `let …: … = ` binding prefix for a value producing `results`,
    /// allocating a fresh temporary per result. Returns the prefix (empty for
    /// zero results, so the value is emitted as a bare statement) and the
    /// temporaries to push once the value has been emitted. A multi-value
    /// result binds a tuple pattern.
    pub fn result_binding(&mut self, results: &Vec<ValType>) -> (r: Result<
        (String, Vec<(String, ValType)>),
        TranspileError,
    >)
        requires
            old(self).wf(),
        ensures
            match old(self)@.result_bound(results@) {
                Ok((s, prefix, temps)) => r matches Ok((p, t)) && p@ == prefix && typed(t@) == temps
                    && final(self)@ == s,
                Err(e) => r is Err && r->Err_0@ == e,
            },
            r is Ok ==> final(self).wf(),
    {
        let mut temps: Vec<(String, ValType)> = Vec::new();
        assert(typed(temps@) =~= Seq::<(Seq<char>, ValType)>::empty());
        if results.len() == 0 {
            return Ok((String::new(), temps));
        }
        if results.len() == 1 {
            let rty = self.rust_type(results[0])?;
            let name = self.fresh_temp();
            let prefix = Buf::lit("let ").s(&name).s(": ").s(rty).s(" = ").end();
            add_typed(&mut temps, name, results[0]);
            return Ok((prefix, temps));
        }
        let tys = rust_types(results, self.context().type_kinds)?;
        let ghost start = self@;
        let names = self.fresh_temps(results.len());
        let all_names = join(&names, ", ");
        let all_types = join(&tys, ", ");
        let prefix = Buf::lit("let (").s(&all_names).s("): (").s(&all_types).s(") = ").end();
        let ghost want = paired(texts(names@), results@);
        proof {
            lemma_temps_len(start, results@.len());
        }
        let mut i: usize = 0;
        while i < results.len()
            invariant
                i <= results@.len(),
                names@.len() == results@.len(),
                want == paired(texts(names@), results@),
                typed(temps@) == want.take(i as int),
            decreases results@.len() - i,
        {
            add_typed(&mut temps, names[i].clone(), results[i]);
            assert(want.take(i + 1) =~= want.take(i as int).push(want[i as int]));
            i += 1;
        }
        assert(want.take(results@.len() as int) =~= want);
        Ok((prefix, temps))
    }

    /// `call`.
    pub fn call(&mut self, function_index: u32) -> (r: Result<(), TranspileError>)
        requires
            old(self).wf(),
        ensures
            gen_result(r, final(self)@, old(self)@.called(function_index, false)),
            r is Ok ==> final(self).wf(),
    {
        self.emit_direct_call(function_index, false)
    }

    /// `return_call`: a tail call. The callee is invoked in tail position and
    /// its result(s) become this function's result, so — unlike a plain `call`
    /// — the operand stack below the arguments is discarded (control does not
    /// return here) and the call is emitted as a `return`. This lowers to an
    /// ordinary Rust call in tail position: exact in semantics, but without a
    /// constant-stack guarantee (Rust has no guaranteed TCO), matching wasm2c's
    /// default lowering.
    pub fn return_call(&mut self, function_index: u32) -> (r: Result<(), TranspileError>)
        requires
            old(self).wf(),
        ensures
            gen_result(r, final(self)@, old(self)@.tail_called(function_index)),
            r is Ok ==> final(self).wf(),
    {
        self.emit_direct_call(function_index, true)?;
        self.emit_return()
    }

    /// Shared lowering for `call` and `return_call`. Consumes the arguments,
    /// binds the call result(s) to stable temporaries, and pushes them; the
    /// tail form leaves the caller to turn those temporaries into a `return`.
    fn emit_direct_call(&mut self, function_index: u32, tail: bool) -> (r: Result<
        (),
        TranspileError,
    >)
        requires
            old(self).wf(),
        ensures
            gen_result(r, final(self)@, old(self)@.called(function_index, tail)),
            r is Ok ==> final(self).wf(),
    {
        let ctx = self.context();
        let (param_count, results): (usize, &Vec<ValType>) = match ctx.full_sig(
            function_index as usize,
        ) {
            Some((p, q)) => (p.len(), q),
            None => return Err(no_support("call to unknown function")),
        };
        // A call may read and write memory and globals. The arguments are
        // consumed here (evaluated in push order at the call site), so inline
        // them; freeze only the survivors below, pinning any earlier value that
        // must not observe the call's side effects (spill-before-mutation). A
        // tail call discards those survivors (it returns immediately), so they
        // need no freezing.
        if !tail {
            self.freeze_survivors(param_count)?;
        }
        let args = self.pop_many(param_count)?;
        let arg_codes = code_list(&args);
        let arg_list = join(&arg_codes, ", ");
        // A call is not re-evaluatable, so bind its result(s) to a temporary at
        // exactly this point (mirroring `memory_grow`) and push the stable
        // temporaries. A multi-value result is destructured from a tuple. For a
        // tail call, `emit_return` then turns those temporaries straight into
        // the function's `return`.
        let call_expr = ctx.call_expr(function_index as usize, arg_list.as_str());
        let (prefix, temps) = self.result_binding(results)?;
        self.line(Buf::lit(&prefix).s(&call_expr).s(";").end());
        self.push_temps(&temps);
        Ok(())
    }

    /// `call_indirect`.
    pub fn call_indirect(&mut self, type_index: u32, table_index: u32) -> (r: Result<
        (),
        TranspileError,
    >)
        requires
            old(self).wf(),
        ensures
            gen_result(r, final(self)@, old(self)@.called_indirect(type_index, table_index, false)),
            r is Ok ==> final(self).wf(),
    {
        self.emit_indirect_call(type_index, table_index, false)
    }

    /// `return_call_indirect`: the tail-call form of `call_indirect`. See
    /// [`Self::return_call`] for the tail-call semantics and their (absent)
    /// constant-stack guarantee.
    pub fn return_call_indirect(&mut self, type_index: u32, table_index: u32) -> (r: Result<
        (),
        TranspileError,
    >)
        requires
            old(self).wf(),
        ensures
            gen_result(r, final(self)@, old(self)@.called_indirect(type_index, table_index, true)),
            r is Ok ==> final(self).wf(),
    {
        self.emit_indirect_call(type_index, table_index, true)
    }

    fn emit_indirect_call(&mut self, type_index: u32, table_index: u32, tail: bool) -> (r: Result<
        (),
        TranspileError,
    >)
        requires
            old(self).wf(),
        ensures
            gen_result(r, final(self)@, old(self)@.called_indirect(type_index, table_index, tail)),
            r is Ok ==> final(self).wf(),
    {
        let ctx = self.context();
        if !ctx.has_table {
            return Err(no_support("call_indirect without a table"));
        }
        if table_index != 0 {
            return Err(no_support("call_indirect on a non-zero table"));
        }
        if type_index as usize >= ctx.types.len() {
            return Err(no_support("call_indirect: unknown type"));
        }
        let sig = &ctx.types[type_index as usize];
        assert(self@.ctx.types[type_index as int] == sig@);
        // The table index (top of stack) is consumed into the `entry` binding
        // below, which is emitted *before* the dispatch call — so only the index
        // may inline. The arguments must stay spilled to temporaries so they are
        // evaluated in wasm order (arguments before the index) rather than being
        // pulled after the `entry` computation. Spilling also pins any earlier
        // value against the callee's side effects (spill-before-mutation). A
        // tail call discards the survivors below the arguments, and its operands
        // are pure reads with nothing mutating between them (the only work in
        // between is the pure table read for `entry`), so nothing needs freezing.
        if !tail {
            self.freeze_survivors(1)?;
        }
        let index = self.pop()?;
        let args = self.pop_many(sig.params.len())?;
        let arg_codes = code_list(&args);
        let arg_list = join(&arg_codes, ", ");

        // No local function has the requested type. Without a host, every entry
        // mismatches, so the call always traps and control cannot continue past
        // it. With a host, a table entry may still be an external handle the
        // host resolves, so fall through to the shared dispatch method (which
        // has only the null/external/catch-all arms).
        if !has_target(ctx, sig) && !ctx.has_imports {
            self.term(lit("panic!(\"indirect call type mismatch\");"));
            self.die();
            return Ok(());
        }
        // Read the entry into a local first: for an imported table `table()`
        // borrows the whole instance (the host), and passing the entry straight
        // into the dispatch call would keep that borrow live across the `&mut
        // self` method call. Copying out the `u32` releases it. An out-of-bounds
        // index panics on this slice access (a trap).
        let entry = self.fresh_temp();
        self.line(Buf::lit("let ").s(&entry).s(" = self.table()[(").s(&index.code)
            .s(") as u32 as usize];").end());

        // Dispatch through the shared `call_ref_t{ti}` method: it holds the
        // `match` on the funcref and is also the public entry point the host uses
        // to invoke a funcref the module handed out. A null or wrong-type entry
        // traps inside it.
        self.use_dispatch(type_index);
        let (prefix, temps) = self.result_binding(&sig.results)?;
        let sep = if arg_list.as_str().is_empty() {
            ""
        } else {
            ", "
        };
        self.line(Buf::lit(&prefix).s("self.call_ref_t").n(type_index as u64).s("(").s(&entry)
            .s(sep).s(&arg_list).s(");").end());
        self.push_temps(&temps);
        if tail {
            self.emit_return()?;
        }
        Ok(())
    }
}

pub proof fn lemma_temps_len(s: GenV, n: nat)
    ensures
        s.temps(n).len() == n,
    decreases n,
{
    if n > 0 {
        lemma_temps_len(s, (n - 1) as nat);
    }
}

} // verus!
