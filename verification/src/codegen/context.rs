//! The module-wide context of a translation.

use std::collections::HashMap;
use vstd::prelude::*;

use crate::codegen::analysis::local_lists;
use crate::codegen::common::index_u32;
use crate::codegen::info::{
    kinds_view, sigs_view, CompositeKind, FuncInput, ImportInfo, KindV, SigV, TypeSig, WasiFn,
    WasiKind,
};
use crate::text::{clamp, dec, sat_sum, texts, Buf};
use crate::wasm::ValType;

verus! {

/// The typed-continuations analysis for one module.
pub struct ContInfo {
    /// Function indices reachable as continuation bodies (the target of a
    /// `ref.func` fed into `cont.new`), sorted and deduplicated. These are
    /// emitted as resumable `cont_step_func{N}` state machines rather than
    /// ordinary `func{N}`s, and drive the `ContObj`/`ContFrame` runtime types.
    /// These are the resumable *entry points* (handles created by `cont.new`).
    pub bodies: Vec<u32>,
    /// Every function emitted as a `cont_step_func{N}`: the continuation bodies
    /// plus every function reachable from one through a suspend-crossing `call`.
    /// A superset of [`bodies`](Self::bodies), sorted. Each gets a `ContFrame{N}`,
    /// but only `bodies` get a `ContObj` variant and a `conts`-table handle.
    pub step_set: Vec<u32>,
    /// Per step function, the callee of its tail cross-call checkpoint (a `call`
    /// to another step function). The callee's frame nests inside the caller's
    /// `ContFrame` as its `sub` field.
    pub checkpoint_callee: HashMap<u32, u32>,
    /// Per step function, its local types by index (`l{i}`). Each becomes a
    /// `ContFrame` field so the local survives suspends.
    pub step_locals: HashMap<u32, Vec<ValType>>,
}

/// The per-tag payload/result types for one module, indexed by tag index (imported
/// tags first, then defined).
pub struct TagTypes {
    /// Per-tag payload (parameter) types. `throw`/`catch`/`suspend` resolve their
    /// tag index here.
    pub params: Vec<Vec<ValType>>,
    /// Per-tag result types. Empty for an exception tag; for a stack-switching
    /// control tag these are the values a `resume` injects back into the
    /// continuation it resumes.
    pub results: Vec<Vec<ValType>>,
}

/// Module-wide context shared by every function's code generation.
pub struct ModuleCtx<'a> {
    /// Imported functions, occupying function indices `0..imports.len()`.
    pub imports: &'a Vec<ImportInfo>,
    /// Locally-defined functions, occupying the indices after the imports.
    pub funcs: &'a Vec<FuncInput>,
    /// Every function type, so `call_indirect` can resolve its declared type
    /// index back to a signature.
    pub types: &'a Vec<TypeSig>,
    /// The kind (function / struct / array) of every type index, so a concrete
    /// reference and the struct/array operators can resolve field/element
    /// storage and pick the right value lowering.
    pub type_kinds: &'a Vec<CompositeKind>,
    /// The declared direct supertype of every type index (`None` when a type
    /// declares no supertype), parallel to `type_kinds`. A runtime downcast
    /// check (`ref.test`/`ref.cast`/`br_on_cast`) walks this chain to compute
    /// the set of concrete subtypes of a static target.
    pub supers: &'a Vec<Option<u32>>,
    /// Per-imported-global `(type, mutable)`, occupying the low global indices.
    pub imported_globals: Vec<(ValType, bool)>,
    /// Per-defined-global `(type, mutable)`, indexed after the imported globals.
    pub globals: Vec<(ValType, bool)>,
    /// Whether the module declares linear memory (so `self.mem()` exists).
    pub has_memory: bool,
    /// The number of linear memories (imported first, then defined). Memory
    /// operations carry a static index that must be below this.
    pub n_memories: usize,
    /// True iff the module has exactly one memory and it is `shared`. When set,
    /// linear memory is backed by a thread-shareable `SharedMemory` (Mutex) and
    /// the atomic RMW/cmpxchg/wait/notify ops lower to genuine atomics.
    pub memory_shared: bool,
    /// Whether the module declares a table (so `self.table()` exists).
    pub has_table: bool,
    /// Whether the module has an injected host (`self.imports`), so an outside
    /// funcref handle in a table can be resolved through the host.
    pub has_imports: bool,
    /// The table's element type (`funcref` or `externref`), if a table exists;
    /// `table.get` pushes an operand of this type.
    pub table_element: Option<ValType>,
    /// Per-data-segment: whether it is passive (so `memory.init`/`data.drop`
    /// can reference it through a `data{d}` field), indexed by data index.
    pub data_passive: Vec<bool>,
    /// Per-element-segment: whether it is passive (so `table.init`/`elem.drop`
    /// can reference it through an `elem{e}` field), indexed by element index.
    pub elem_passive: Vec<bool>,
    /// Whether functions are emitted as `&mut self` methods (stateful module).
    pub is_method: bool,
    /// Whether any body uses `extern.convert_any`/`any.convert_extern`, which
    /// internalise `anyref`s through the per-instance `extern_box: Vec<GcRef>`.
    /// Emits (and initialises) that field.
    pub uses_extern_box: bool,
    /// Per-tag payload/result types.
    pub tags: TagTypes,
    /// The typed-continuations analysis.
    pub cont: ContInfo,
    /// Opt-in: emit unchecked (`unsafe`) linear-memory access, dropping the
    /// slice bounds check on every load/store and bulk `memory.*`. Off by
    /// default; when set, an out-of-bounds access is undefined behaviour rather
    /// than a wasm trap, so it is only sound for trusted modules.
    pub unsafe_memory: bool,
    /// Cap on match arms per flattened-dispatch *part* function. When a flattened
    /// `loop { match pc { … } }` has more surviving arms than this, it is split
    /// into `ceil(arms / split_dispatch)` sibling part functions over a shared
    /// state struct. `0` (the default) keeps each flattened function whole.
    pub split_dispatch: usize,
}

/// The model of a [`WasiFn`].
pub struct WasiV {
    pub kind: WasiKind,
    pub method: Seq<char>,
    pub needs_memory: bool,
    pub lines: Seq<Seq<char>>,
    pub file_lines: Seq<Seq<char>>,
}

impl View for WasiFn {
    type V = WasiV;

    open spec fn view(&self) -> WasiV {
        WasiV {
            kind: self.kind,
            method: self.method@,
            needs_memory: self.needs_memory,
            lines: texts(self.lines@),
            file_lines: texts(self.file_lines@),
        }
    }
}

/// The model of an [`ImportInfo`].
pub struct ImportV {
    pub params: Seq<ValType>,
    pub results: Seq<ValType>,
    pub wasi: Option<WasiV>,
}

impl View for ImportInfo {
    type V = ImportV;

    open spec fn view(&self) -> ImportV {
        ImportV {
            params: self.params@,
            results: self.results@,
            wasi: match self.wasi {
                Some(w) => Some(w@),
                None => None,
            },
        }
    }
}

pub open spec fn imports_view(v: Seq<ImportInfo>) -> Seq<ImportV> {
    Seq::new(v.len(), |i: int| v[i]@)
}

/// The signatures of the defined functions.
pub open spec fn func_sigs(v: Seq<FuncInput>) -> Seq<SigV> {
    Seq::new(v.len(), |i: int| SigV { params: v[i].params@, results: v[i].results@ })
}

pub open spec fn type_lists(v: Seq<Vec<ValType>>) -> Seq<Seq<ValType>> {
    Seq::new(v.len(), |i: int| v[i]@)
}

/// The model of a [`ContInfo`].
pub struct ContV {
    pub bodies: Seq<u32>,
    pub step_set: Seq<u32>,
    pub checkpoint_callee: Map<u32, u32>,
    pub step_locals: Map<u32, Seq<ValType>>,
}

/// The model of a [`ModuleCtx`].
pub struct CtxV {
    pub imports: Seq<ImportV>,
    pub funcs: Seq<SigV>,
    pub types: Seq<SigV>,
    pub kinds: Seq<KindV>,
    pub supers: Seq<Option<u32>>,
    pub imported_globals: Seq<(ValType, bool)>,
    pub globals: Seq<(ValType, bool)>,
    pub has_memory: bool,
    pub n_memories: usize,
    pub memory_shared: bool,
    pub has_table: bool,
    pub has_imports: bool,
    pub table_element: Option<ValType>,
    pub data_passive: Seq<bool>,
    pub elem_passive: Seq<bool>,
    pub is_method: bool,
    pub uses_extern_box: bool,
    pub tag_params: Seq<Seq<ValType>>,
    pub tag_results: Seq<Seq<ValType>>,
    pub cont: ContV,
    pub unsafe_memory: bool,
    pub split_dispatch: usize,
}

impl View for ContInfo {
    type V = ContV;

    open spec fn view(&self) -> ContV {
        ContV {
            bodies: self.bodies@,
            step_set: self.step_set@,
            checkpoint_callee: self.checkpoint_callee@,
            step_locals: local_lists(self.step_locals@),
        }
    }
}

impl<'a> View for ModuleCtx<'a> {
    type V = CtxV;

    open spec fn view(&self) -> CtxV {
        CtxV {
            imports: imports_view(self.imports@),
            funcs: func_sigs(self.funcs@),
            types: sigs_view(self.types@),
            kinds: kinds_view(self.type_kinds@),
            supers: self.supers@,
            imported_globals: self.imported_globals@,
            globals: self.globals@,
            has_memory: self.has_memory,
            n_memories: self.n_memories,
            memory_shared: self.memory_shared,
            has_table: self.has_table,
            has_imports: self.has_imports,
            table_element: self.table_element,
            data_passive: self.data_passive@,
            elem_passive: self.elem_passive@,
            is_method: self.is_method,
            uses_extern_box: self.uses_extern_box,
            tag_params: type_lists(self.tags.params@),
            tag_results: type_lists(self.tags.results@),
            cont: self.cont@,
            unsafe_memory: self.unsafe_memory,
            split_dispatch: self.split_dispatch,
        }
    }
}

/// The declared supertype of type `c`.
pub open spec fn super_of(supers: Seq<Option<u32>>, c: u32) -> Option<u32> {
    if c < supers.len() {
        supers[c as int]
    } else {
        None
    }
}

/// Whether `target` is found within `hops` steps up the supertype chain that
/// starts at `cur`.
pub open spec fn chain_reaches(
    supers: Seq<Option<u32>>,
    cur: Option<u32>,
    target: u32,
    hops: nat,
) -> bool
    decreases hops,
{
    if hops == 0 {
        false
    } else {
        match cur {
            None => false,
            Some(c) => c == target || chain_reaches(
                supers,
                super_of(supers, c),
                target,
                (hops - 1) as nat,
            ),
        }
    }
}

impl CtxV {
    /// The concrete struct/array types among the first `m` whose supertype chain
    /// reaches `target`. The chain is walked at most as far as there are types.
    pub open spec fn descendants(self, target: u32, m: nat) -> Seq<u32>
        decreases m,
    {
        if m == 0 {
            Seq::empty()
        } else {
            let front = self.descendants(target, (m - 1) as nat);
            let t = m - 1;
            if self.kinds[t].is_object() && t <= u32::MAX && chain_reaches(
                self.supers,
                Some(t as u32),
                target,
                self.kinds.len() + 1,
            ) {
                front.push(t as u32)
            } else {
                front
            }
        }
    }

    /// The number of functions, imported and defined.
    pub open spec fn n_funcs(self) -> nat {
        self.imports.len() + self.funcs.len()
    }

    /// The signature of the function at full index `fidx`.
    pub open spec fn sig(self, fidx: int) -> Option<SigV> {
        if 0 <= fidx < self.imports.len() {
            Some(
                SigV {
                    params: self.imports[fidx].params,
                    results: self.imports[fidx].results,
                },
            )
        } else if self.imports.len() <= fidx < self.n_funcs() {
            Some(self.funcs[fidx - self.imports.len()])
        } else {
            None
        }
    }

    /// The expression that calls the function at full index `fidx`.
    pub open spec fn call_text(self, fidx: int, args: Seq<char>) -> Seq<char> {
        if 0 <= fidx < self.imports.len() {
            match self.imports[fidx].wasi {
                Some(w) => ("self."@ + w.method + "("@ + args + ")"@),
                None => ("self.imports.import"@ + dec(fidx as nat) + "("@ + args + ")"@),
            }
        } else if self.is_method {
            ("self.func"@ + dec(fidx as nat) + "("@ + args + ")"@)
        } else {
            ("func"@ + dec(fidx as nat) + "("@ + args + ")"@)
        }
    }
}

impl<'a> ModuleCtx<'a> {
    fn reaches(&self, t: u32, target: u32) -> (r: bool)
        ensures
            r == chain_reaches(self@.supers, Some(t), target, self@.kinds.len() + 1),
    {
        let mut cur: Option<u32> = Some(t);
        let mut left: usize = self.type_kinds.len();
        loop
            invariant
                chain_reaches(self@.supers, Some(t), target, self@.kinds.len() + 1)
                    == chain_reaches(self@.supers, cur, target, (left + 1) as nat),
            decreases left,
        {
            proof {
                reveal_with_fuel(chain_reaches, 2);
            }
            match cur {
                None => {
                    return false;
                },
                Some(c) => {
                    if c == target {
                        return true;
                    }
                    cur = if (c as usize) < self.supers.len() {
                        self.supers[c as usize]
                    } else {
                        None
                    };
                },
            }
            if left == 0 {
                return false;
            }
            left = left - 1;
        }
    }

    /// Every concrete struct/array type index whose declared supertype chain
    /// reaches `target` (including `target` itself when it is a struct/array).
    ///
    /// The whole type hierarchy is known statically, so a runtime downcast to a
    /// static `target` reduces to membership in this set of concrete type ids.
    /// The chain is walked per candidate; a cycle (which a validated module
    /// cannot contain) is guarded by a hop budget so the walk always terminates.
    pub fn concrete_descendants(&self, target: u32) -> (r: Vec<u32>)
        ensures
            r@ == self@.descendants(target, self@.kinds.len()),
    {
        let mut out: Vec<u32> = Vec::new();
        let mut i: usize = 0;
        while i < self.type_kinds.len()
            invariant
                i <= self.type_kinds@.len(),
                out@ == self@.descendants(target, i as nat),
            decreases self.type_kinds@.len() - i,
        {
            assert(self@.kinds[i as int] == self.type_kinds@[i as int]@);
            // A candidate must be a concrete struct/array type with a
            // representable index (a valid module never overflows `u32`).
            if self.type_kinds[i].is_object() {
                match index_u32(i) {
                    Ok(t) => {
                        if self.reaches(t, target) {
                            out.push(t);
                        }
                    },
                    Err(_) => {},
                }
            }
            i += 1;
        }
        out
    }

    /// The number of functions in the shared index space (imports then defined),
    /// i.e. the range of valid full indices.
    pub fn func_count(&self) -> (r: usize)
        ensures
            r == clamp(self@.n_funcs()),
    {
        sat_sum(self.imports.len(), self.funcs.len())
    }

    /// The signature of the function at full index `fidx`, spanning imports then
    /// defined functions.
    pub fn full_sig(&self, fidx: usize) -> (r: Option<(&Vec<ValType>, &Vec<ValType>)>)
        ensures
            match self@.sig(fidx as int) {
                Some(s) => r matches Some((p, q)) && p@ == s.params && q@ == s.results,
                None => r is None,
            },
    {
        let n_imports: usize = self.imports.len();
        if fidx < n_imports {
            let im = &self.imports[fidx];
            assert(self@.imports[fidx as int] == im@);
            Some((&im.params, &im.results))
        } else if fidx - n_imports < self.funcs.len() {
            let f = &self.funcs[fidx - n_imports];
            Some((&f.params, &f.results))
        } else {
            None
        }
    }

    /// The Rust call expression for invoking the function at full index `fidx`
    /// with the given comma-separated argument list. A recognised WASI import is
    /// a native inherent method; any other imported function is dispatched
    /// through the injected host; defined ones are (method) calls.
    pub fn call_expr(&self, fidx: usize, arg_list: &str) -> (r: String)
        ensures
            r@ == self@.call_text(fidx as int, arg_list@),
    {
        if fidx < self.imports.len() {
            assert(self@.imports[fidx as int] == self.imports@[fidx as int]@);
            // A recognised WASI import is a native inherent method; any other
            // import is dispatched through the injected host trait.
            return match &self.imports[fidx].wasi {
                Some(w) => Buf::lit("self.").s(&w.method).s("(").s(arg_list).s(")").end(),
                None => Buf::lit("self.imports.import").n(fidx as u64).s("(").s(arg_list).s(")")
                    .end(),
            };
        }
        if self.is_method {
            Buf::lit("self.func").n(fidx as u64).s("(").s(arg_list).s(")").end()
        } else {
            Buf::lit("func").n(fidx as u64).s("(").s(arg_list).s(")").end()
        }
    }
}

} // verus!
