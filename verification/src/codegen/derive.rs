//! The translation context of a module.


use vstd::prelude::*;

use crate::codegen::analysis::{
    callees, can_suspend_functions, can_transfer, chain_loops, checkpoints, continuation_misuse,
    increasing, indices_fit, is_array_segment_op, is_call_ref, is_extern_convert, is_step_function,
    is_transfer, lists, makes_cont, ops_have, recursive_chain, reject_dual_use_continuations,
    scan_bodies, some_broken, some_locals_broken, some_op, sorted_contains, step_function_locals,
    step_functions, step_locals_of,
};
use crate::codegen::context::{func_sigs, type_lists, ContInfo, ContV, CtxV, ModuleCtx, TagTypes};
use crate::codegen::info::{DataSegment, ElemSegment, GlobalInfo, ImportedGlobalInfo, TagInfo};
use crate::codegen::order::{in_order, lemma_in_order, sorted_ids};
use crate::codegen::parts::{data_view, elements_view, globals_view, tags_view, ModuleParts, PartsV};
use crate::error::{no_support, unsupported, FailV, TranspileError};
use crate::ops::Operator;
use crate::wasm::ValType;

verus! {

broadcast use vstd::std_specs::hash::group_hash_axioms;

/// Whether a WASI function reads or writes linear memory.
pub open spec fn wasi_on_memory(w: Option<crate::codegen::context::WasiV>) -> bool {
    match w {
        Some(f) => f.needs_memory,
        None => false,
    }
}

impl PartsV {
    pub open spec fn some_shared(self) -> bool {
        exists|i: int| 0 <= i < self.memories.len() && (#[trigger] self.memories[i]).shared
    }

    pub open spec fn some_memory_imported(self) -> bool {
        exists|i: int| 0 <= i < self.memories.len() && (#[trigger] self.memories[i]).imported
    }

    pub open spec fn wasi_needs_memory(self) -> bool {
        exists|i: int|
            0 <= i < self.imports.len() && wasi_on_memory((#[trigger] self.imports[i]).wasi)
    }

    /// Whether anything is imported that an instance has to hold.
    pub open spec fn has_imports(self) -> bool {
        self.imports.len() > 0 || self.imported_globals.len() > 0 || self.some_memory_imported()
            || self.table_imported()
    }

    /// Per function: whether its own body suspends or switches.
    pub open spec fn suspends(self) -> Seq<bool> {
        Seq::new(
            self.funcs.len(),
            |i: int| ops_have(self.funcs[i].body.ops@, |op: Operator| is_transfer(op)),
        )
    }

    /// Per function: its direct callees.
    pub open spec fn calls(self) -> Seq<Seq<u32>> {
        Seq::new(self.funcs.len(), |i: int| callees(self.funcs[i].body.ops@))
    }

    /// The functions that continuations are made of.
    pub open spec fn cont_bodies(self) -> Seq<u32> {
        in_order(
            Set::new(
                |f: u32|
                    exists|i: int|
                        0 <= i < self.funcs.len() && makes_cont(
                            (#[trigger] self.funcs[i]).body.ops@,
                            f,
                        ),
            ),
        )
    }

    /// The functions that can suspend, themselves or through a call.
    pub open spec fn can_suspend(self) -> Set<u32> {
        Set::new(
            |f: u32|
                can_transfer(self.imports.len() as usize, self.suspends(), self.calls(), f),
        )
    }

    /// The functions that are emitted as step functions.
    pub open spec fn step_set(self) -> Seq<u32> {
        in_order(
            Set::new(
                |g: u32|
                    is_step_function(
                        self.imports.len() as usize,
                        self.cont_bodies(),
                        self.can_suspend(),
                        self.calls(),
                        g,
                    ),
            ),
        )
    }

    pub open spec fn checkpoint_callee(self) -> Map<u32, u32> {
        checkpoints(self.imports.len() as usize, self.calls(), self.step_set())
    }

    /// Whether the module carries mutable state (memory, a table, globals, imports
    /// or continuations), or uses what only an instance offers.
    pub open spec fn stateful(self) -> bool {
        ||| self.memories.len() > 0
        ||| self.table is Some
        ||| self.has_imports()
        ||| self.globals.len() > 0
        ||| some_op(self.funcs, |op: Operator| is_call_ref(op))
        ||| some_op(self.funcs, |op: Operator| is_array_segment_op(op))
        ||| some_op(self.funcs, |op: Operator| is_extern_convert(op))
        ||| self.cont_bodies().len() > 0
    }

    /// Why the module cannot be translated, where that shows before its bodies are
    /// looked at one by one.
    pub open spec fn context_fault(self) -> Option<FailV> {
        let n = self.imports.len() as usize;
        if self.memories.len() > 1 && self.some_shared() {
            Some(unsupported("shared memory with multiple memories"@))
        } else if self.memories.len() == 0 && self.wasi_needs_memory() {
            Some(unsupported("native WASI memory access without a linear memory"@))
        } else if some_broken(self.funcs) {
            Some(FailV::Malformed)
        } else if !indices_fit(n, self.suspends(), self.calls()) {
            Some(unsupported("index too large"@))
        } else if chain_loops(self.checkpoint_callee(), self.step_set().len()) {
            Some(recursive_chain())
        } else if exists|f: u32| #[trigger]
            self.can_suspend().contains(f) && !self.step_set().contains(f) {
            Some(unsupported("function can suspend but is not reachable as a continuation"@))
        } else {
            match continuation_misuse(self.funcs, self.elements, self.step_set(), n) {
                Some(e) => Some(e),
                None => if some_locals_broken(self.funcs, n, self.step_set()) {
                    Some(FailV::Malformed)
                } else {
                    None
                },
            }
        }
    }

    /// The translation context of the module.
    pub open spec fn context(self) -> CtxV {
        CtxV {
            imports: self.imports,
            funcs: func_sigs(self.funcs),
            types: self.types,
            kinds: self.kinds,
            supers: self.supers,
            imported_globals: Seq::new(
                self.imported_globals.len(),
                |i: int| (self.imported_globals[i].ty, self.imported_globals[i].mutable),
            ),
            globals: Seq::new(
                self.globals.len(),
                |i: int| (self.globals[i].ty, self.globals[i].mutable),
            ),
            has_memory: self.memories.len() > 0,
            n_memories: self.memories.len() as usize,
            memory_shared: self.memories.len() == 1 && self.some_shared(),
            has_table: self.table is Some,
            has_imports: self.has_imports(),
            table_element: match self.table {
                Some(t) => Some(t.element),
                None => None,
            },
            data_passive: Seq::new(self.data.len(), |i: int| self.data[i].passive()),
            elem_passive: Seq::new(self.elements.len(), |i: int| self.elements[i].passive()),
            is_method: self.stateful(),
            uses_extern_box: some_op(self.funcs, |op: Operator| is_extern_convert(op)),
            tag_params: Seq::new(self.tags.len(), |i: int| self.tags[i].params),
            tag_results: Seq::new(self.tags.len(), |i: int| self.tags[i].results),
            cont: ContV {
                bodies: self.cont_bodies(),
                step_set: self.step_set(),
                checkpoint_callee: self.checkpoint_callee(),
                step_locals: step_locals_of(
                    self.funcs,
                    self.imports.len() as usize,
                    self.step_set(),
                ),
            },
            unsafe_memory: self.unsafe_memory,
            split_dispatch: self.split_dispatch,
        }
    }
}

/// Every function that can suspend is a step function of a module that can be
/// translated: none of them is emitted as an ordinary function.
pub proof fn law_suspending_functions_are_steps(p: PartsV, f: u32)
    requires
        p.context_fault() is None,
        p.can_suspend().contains(f),
    ensures
        p.context().cont.step_set.contains(f),
{
}

/// The frames of the step functions of a module that can be translated nest to a
/// finite depth.
pub proof fn law_frames_are_finite(p: PartsV)
    requires
        p.context_fault() is None,
    ensures
        !chain_loops(p.context().cont.checkpoint_callee, p.context().cont.step_set.len()),
{
}

/// A module with memory, a table, globals or imports becomes an instance.
pub proof fn law_state_makes_an_instance(p: PartsV)
    requires
        p.memories.len() > 0 || p.table is Some || p.globals.len() > 0 || p.has_imports(),
    ensures
        p.context().is_method,
{
}

fn imported_global_types(v: &Vec<ImportedGlobalInfo>) -> (r: Vec<(ValType, bool)>)
    ensures
        r@ == Seq::new(v@.len(), |i: int| (v@[i].ty, v@[i].mutable)),
{
    let mut out: Vec<(ValType, bool)> = Vec::new();
    let mut i: usize = 0;
    while i < v.len()
        invariant
            i <= v@.len(),
            out@ =~= Seq::new(i as nat, |k: int| (v@[k].ty, v@[k].mutable)),
        decreases v@.len() - i,
    {
        out.push((v[i].ty, v[i].mutable));
        i += 1;
    }
    out
}

fn global_types(v: &Vec<GlobalInfo>) -> (r: Vec<(ValType, bool)>)
    ensures
        r@ == Seq::new(
            v@.len(),
            |i: int| (globals_view(v@)[i].ty, globals_view(v@)[i].mutable),
        ),
{
    let mut out: Vec<(ValType, bool)> = Vec::new();
    let ghost want = Seq::new(
        v@.len(),
        |i: int| (globals_view(v@)[i].ty, globals_view(v@)[i].mutable),
    );
    let mut i: usize = 0;
    while i < v.len()
        invariant
            i <= v@.len(),
            want == Seq::new(
                v@.len(),
                |i: int| (globals_view(v@)[i].ty, globals_view(v@)[i].mutable),
            ),
            out@ =~= want.take(i as int),
        decreases v@.len() - i,
    {
        assert(globals_view(v@)[i as int] == v@[i as int]@);
        out.push((v[i].ty, v[i].mutable));
        i += 1;
    }
    assert(out@ =~= want);
    out
}

fn passive_data(v: &Vec<DataSegment>) -> (r: Vec<bool>)
    ensures
        r@ == Seq::new(v@.len(), |i: int| data_view(v@)[i].passive()),
{
    let ghost want = Seq::new(v@.len(), |i: int| data_view(v@)[i].passive());
    let mut out: Vec<bool> = Vec::new();
    let mut i: usize = 0;
    while i < v.len()
        invariant
            i <= v@.len(),
            want == Seq::new(v@.len(), |i: int| data_view(v@)[i].passive()),
            out@ =~= want.take(i as int),
        decreases v@.len() - i,
    {
        assert(data_view(v@)[i as int] == v@[i as int]@);
        out.push(v[i].offset.is_none());
        i += 1;
    }
    assert(out@ =~= want);
    out
}

fn passive_elements(v: &Vec<ElemSegment>) -> (r: Vec<bool>)
    ensures
        r@ == Seq::new(v@.len(), |i: int| elements_view(v@)[i].passive()),
{
    let ghost want = Seq::new(v@.len(), |i: int| elements_view(v@)[i].passive());
    let mut out: Vec<bool> = Vec::new();
    let mut i: usize = 0;
    while i < v.len()
        invariant
            i <= v@.len(),
            want == Seq::new(v@.len(), |i: int| elements_view(v@)[i].passive()),
            out@ =~= want.take(i as int),
        decreases v@.len() - i,
    {
        assert(elements_view(v@)[i as int] == v@[i as int]@);
        out.push(v[i].offset.is_none() && !v[i].declared);
        i += 1;
    }
    assert(out@ =~= want);
    out
}

fn tag_types(v: &Vec<TagInfo>) -> (r: TagTypes)
    ensures
        type_lists(r.params@) == Seq::new(v@.len(), |i: int| tags_view(v@)[i].params),
        type_lists(r.results@) == Seq::new(v@.len(), |i: int| tags_view(v@)[i].results),
{
    let ghost want_p = Seq::new(v@.len(), |i: int| tags_view(v@)[i].params);
    let ghost want_r = Seq::new(v@.len(), |i: int| tags_view(v@)[i].results);
    let mut params: Vec<Vec<ValType>> = Vec::new();
    let mut results: Vec<Vec<ValType>> = Vec::new();
    let mut i: usize = 0;
    while i < v.len()
        invariant
            i <= v@.len(),
            want_p == Seq::new(v@.len(), |i: int| tags_view(v@)[i].params),
            want_r == Seq::new(v@.len(), |i: int| tags_view(v@)[i].results),
            params@.len() == i,
            results@.len() == i,
            forall|k: int| 0 <= k < i ==> (#[trigger] params@[k])@ == want_p[k],
            forall|k: int| 0 <= k < i ==> (#[trigger] results@[k])@ == want_r[k],
        decreases v@.len() - i,
    {
        assert(tags_view(v@)[i as int] == v@[i as int]@);
        params.push(crate::codegen::func::control::copy_types(&v[i].params));
        results.push(crate::codegen::func::control::copy_types(&v[i].results));
        i += 1;
    }
    assert(type_lists(params@) =~= want_p);
    assert(type_lists(results@) =~= want_r);
    TagTypes { params, results }
}

impl<'a> ModuleParts<'a> {
    fn has_shared(&self) -> (r: bool)
        ensures
            r == self@.some_shared(),
    {
        let mut i: usize = 0;
        while i < self.memories.len()
            invariant
                i <= self.memories@.len(),
                forall|k: int| 0 <= k < i ==> !(#[trigger] self@.memories[k]).shared,
            decreases self.memories@.len() - i,
        {
            if self.memories[i].shared {
                assert(self@.memories[i as int].shared);
                return true;
            }
            i += 1;
        }
        false
    }

    fn has_wasi_memory(&self) -> (r: bool)
        ensures
            r == self@.wasi_needs_memory(),
    {
        let mut i: usize = 0;
        while i < self.imports.len()
            invariant
                i <= self.imports@.len(),
                forall|k: int| 0 <= k < i ==> !wasi_on_memory((#[trigger] self@.imports[k]).wasi),
            decreases self.imports@.len() - i,
        {
            assert(self@.imports[i as int] == self.imports@[i as int]@);
            match &self.imports[i].wasi {
                Some(w) => if w.needs_memory {
                    return true;
                },
                None => {},
            }
            i += 1;
        }
        false
    }

    /// The continuations analysis: which functions are continuation bodies, which
    /// become step functions, and how those call one another.
    fn continuation_info(&self) -> (r: Result<
        (ContInfo, bool, bool),
        TranspileError,
    >)
        requires
            self@.memories.len() <= 1 || !self@.some_shared(),
            self@.memories.len() > 0 || !self@.wasi_needs_memory(),
        ensures
            match self@.context_fault() {
                None => r matches Ok((c, s, b)) && c@ == self@.context().cont && b == some_op(
                    self@.funcs,
                    |op: Operator| is_extern_convert(op),
                ) && s == (some_op(self@.funcs, |op: Operator| is_call_ref(op)) || some_op(self@.funcs, |op: Operator| is_array_segment_op(op)) || some_op(
                    self@.funcs,
                    |op: Operator| is_extern_convert(op),
                ) || self@.cont_bodies().len() > 0),
                Some(e) => r is Err && r->Err_0@ == e,
            },
    {
        let ghost p = self@;
        let n: usize = self.imports.len();
        assert(n == p.imports.len() as usize);
        let scan = scan_bodies(self.funcs)?;
        proof {
            assert(scan.suspends@ =~= p.suspends());
            assert(lists(scan.calls@) =~= p.calls());
            let want = Set::new(
                |f: u32|
                    exists|i: int|
                        0 <= i < p.funcs.len() && makes_cont(
                            (#[trigger] p.funcs[i]).body.ops@,
                            f,
                        ),
            );
            assert forall|f: u32| scan.cont_bodies@.to_set().contains(f) == want.contains(f) by {
                assert(scan.cont_bodies@.to_set().contains(f) == scan.cont_bodies@.contains(f));
            }
            assert(scan.cont_bodies@.to_set() =~= want);
            lemma_in_order(scan.cont_bodies@);
        }
        let can_suspend = can_suspend_functions(n, &scan.suspends, &scan.calls)?;
        proof {
            assert(can_suspend@ =~= p.can_suspend());
        }
        let (step_set, checkpoint_callee) = match step_functions(
            n,
            &scan.cont_bodies,
            &can_suspend,
            &scan.calls,
        ) {
            Ok(found) => {
                proof {
                    lemma_steps(p, found.0@);
                }
                found
            },
            Err(e) => {
                proof {
                    let step = choose|step: Seq<u32>|
                        {
                            &&& #[trigger] increasing(step)
                            &&& forall|g: u32| #[trigger]
                                step.contains(g) <==> is_step_function(
                                    n,
                                    p.cont_bodies(),
                                    p.can_suspend(),
                                    p.calls(),
                                    g,
                                )
                            &&& chain_loops(checkpoints(n, p.calls(), step), step.len())
                        };
                    lemma_steps(p, step);
                }
                return Err(e);
            },
        };
        // A function that can suspend but is not a step function would be emitted as
        // an ordinary `func{N}` and choke on its `suspend`; it is either dead or a
        // misuse (suspending outside any continuation). Surface it cleanly.
        let suspending = sorted_ids(&can_suspend);
        let mut i: usize = 0;
        while i < suspending.len()
            invariant
                i <= suspending@.len(),
                p == self@,
                !some_broken(p.funcs),
                n == p.imports.len() as usize,
                self@.memories.len() <= 1 || !self@.some_shared(),
                self@.memories.len() > 0 || !self@.wasi_needs_memory(),
                indices_fit(n, p.suspends(), p.calls()),
                !chain_loops(p.checkpoint_callee(), p.step_set().len()),
                increasing(step_set@),
                step_set@ == p.step_set(),
                suspending@.to_set() == p.can_suspend(),
                forall|k: int| 0 <= k < i ==> step_set@.contains(#[trigger] suspending@[k]),
            decreases suspending@.len() - i,
        {
            if !sorted_contains(&step_set, suspending[i]) {
                assert(suspending@.to_set().contains(suspending@[i as int]));
                return Err(
                    no_support("function can suspend but is not reachable as a continuation"),
                );
            }
            i += 1;
        }
        assert forall|f: u32| #[trigger] p.can_suspend().contains(f) implies p.step_set().contains(
            f,
        ) by {
            assert(suspending@.to_set().contains(f));
            let k = choose|k: int| 0 <= k < suspending@.len() && suspending@[k] == f;
            assert(step_set@.contains(suspending@[k]));
        }
        reject_dual_use_continuations(self.funcs, self.elements, &step_set, n)?;
        let step_locals = step_function_locals(self.funcs, n, &step_set)?;
        let forces = scan.uses_call_ref || scan.uses_array_segment_ops || scan.uses_extern_box
            || scan.cont_bodies.len() > 0;
        Ok(
            (
                ContInfo {
                    bodies: scan.cont_bodies,
                    step_set,
                    checkpoint_callee,
                    step_locals,
                },
                forces,
                scan.uses_extern_box,
            ),
        )
    }
}

/// Derive the translation context from a module's raw parts.
///
/// Returns the [`ModuleCtx`] plus whether the module is *stateful* — i.e. carries
/// mutable state (memory, a table, globals or imports) and is therefore emitted as
/// a `struct Instance` with `&mut self` methods rather than free functions. Also
/// performs the module-level validation that cannot be checked during parsing (a
/// native WASI function that reads memory needs one).
pub fn build_ctx<'a>(parts: &ModuleParts<'a>) -> (r: Result<
    (ModuleCtx<'a>, bool),
    TranspileError,
>)
    ensures
        match parts@.context_fault() {
            None => r matches Ok((c, s)) && c@ == parts@.context() && s == parts@.stateful(),
            Some(e) => r is Err && r->Err_0@ == e,
        },
{
    let has_memory = parts.memories.len() > 0;
    let has_shared = parts.has_shared();
    // The thread-shareable backend supports only a single defined shared memory
    // (index 0). More than one memory where any is shared is out of scope.
    if parts.memories.len() > 1 && has_shared {
        return Err(no_support("shared memory with multiple memories"));
    }
    // A native WASI function that reads/writes linear memory (e.g. `fd_write`) is
    // emitted with `self.mem()`, which only exists when the module has a memory;
    // reject a module that imports one but declares none.
    if !has_memory && parts.has_wasi_memory() {
        return Err(no_support("native WASI memory access without a linear memory"));
    }
    // The host is injected whenever anything is imported (globals, non-WASI
    // functions, or host-owned memory/table).
    let has_imports = parts.imports.len() > 0 || parts.imported_globals.len() > 0
        || parts.some_memory_imported() || parts.is_table_imported();
    // Continuations carry per-instance state (the `conts` handle table), so any
    // module that creates one is stateful even without other mutable state.
    // `call_ref`/`return_call_ref` also require the enclosing instance: they
    // dispatch through the `self.call_ref_t{ti}` method, which only exists on a
    // `struct Instance`, so a body that uses either forces statefulness even when
    // the module carries no other state. (`ref.func` alone does not — it just
    // pushes a `u32`.)
    let (cont, forces, uses_extern_box) = parts.continuation_info()?;
    let stateful = has_memory || parts.table.is_some() || has_imports || parts.globals.len() > 0
        || forces;
    let table_element = match parts.table {
        Some(t) => Some(t.element),
        None => None,
    };
    let ctx = ModuleCtx {
        imports: parts.imports,
        funcs: parts.funcs,
        types: parts.types,
        type_kinds: parts.type_kinds,
        supers: parts.supers,
        imported_globals: imported_global_types(parts.imported_globals),
        globals: global_types(parts.globals),
        has_memory,
        n_memories: parts.memories.len(),
        memory_shared: parts.memories.len() == 1 && has_shared,
        has_table: parts.table.is_some(),
        has_imports,
        table_element,
        data_passive: passive_data(parts.data),
        elem_passive: passive_elements(parts.elements),
        is_method: stateful,
        uses_extern_box,
        tags: tag_types(parts.tags),
        cont,
        unsafe_memory: parts.unsafe_memory,
        split_dispatch: parts.split_dispatch,
    };
    Ok((ctx, stateful))
}

/// A list that holds exactly the step functions, in order, is the step set.
proof fn lemma_steps(p: PartsV, step: Seq<u32>)
    requires
        increasing(step),
        forall|g: u32| #[trigger]
            step.contains(g) <==> is_step_function(
                p.imports.len() as usize,
                p.cont_bodies(),
                p.can_suspend(),
                p.calls(),
                g,
            ),
    ensures
        p.step_set() == step,
{
    let want = Set::new(
        |g: u32|
            is_step_function(
                p.imports.len() as usize,
                p.cont_bodies(),
                p.can_suspend(),
                p.calls(),
                g,
            ),
    );
    assert forall|g: u32| step.to_set().contains(g) == want.contains(g) by {
        assert(step.to_set().contains(g) == step.contains(g));
    }
    assert(step.to_set() =~= want);
    lemma_in_order(step);
}

} // verus!
