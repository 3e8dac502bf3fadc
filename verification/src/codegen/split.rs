//! A module as several files.

use vstd::prelude::*;

use crate::codegen::analysis::needs_gc_types;
use crate::codegen::common::{ALLOW, EXC_DEF, GCREF_DEF};
use crate::codegen::context::{CtxV, ModuleCtx};
use crate::codegen::dispatch::ArtifactsV;
use crate::codegen::driver::{
    function_source, law_function_source_is_unique, law_single_file_is_unique, ModuleDeps,
};
use crate::codegen::files::ModuleFiles;
use crate::codegen::func::state::{GenV, MetaV};
use crate::codegen::func::step::{crosses_region, FlatWalkV, WalkV};
use crate::codegen::info::FuncInput;
use crate::codegen::parts::{ModuleParts, PartsV};
use crate::error::{text_result, FailV, TranspileError};
use crate::text::{byte_len, dec, join, joined, lit, texts, Buf};
use crate::wasm::ValType;

verus! {

/// A file: its name and its text.
pub type FileV = (Seq<char>, Seq<char>);

/// The model of a file.
pub open spec fn file_view(f: (String, String)) -> FileV {
    (f.0@, f.1@)
}

/// The model of files.
pub open spec fn files_view(v: Seq<(String, String)>) -> Seq<FileV> {
    Seq::new(v.len(), |i: int| file_view(v[i]))
}

/// A module being split: the files finished so far, the chunk being filled, the
/// number of functions in it, and what the functions so far depend on.
pub struct SplittingV {
    pub files: Seq<FileV>,
    pub chunk: Seq<char>,
    pub in_chunk: nat,
    pub deps: MetaV,
}

/// A cap, `0` standing for none.
pub open spec fn cap_of(n: usize) -> usize {
    if n == 0 {
        usize::MAX
    } else {
        n
    }
}

impl PartsV {
    /// A finished chunk as a file.
    pub open spec fn chunk_file(self, k: nat, chunk: Seq<char>) -> FileV {
        (
            ("funcs_"@ + dec(k as nat) + ".rs"@),
            if self.stateful() {
                chunk + "}\n"@
            } else {
                chunk
            },
        )
    }

    /// How far a method is indented in a chunk.
    pub open spec fn chunk_prefix(self) -> Seq<char> {
        if self.stateful() {
            "    "@
        } else {
            ""@
        }
    }

    /// The first `n` functions put into chunks of at most `per` functions; a chunk
    /// is finished as soon as it reaches `cap` bytes. Where a function fails, the
    /// files finished so far and the failure.
    pub open spec fn chunked(self, arts: Seq<ArtifactsV>, per: usize, cap: usize, n: nat) -> Result<
        SplittingV,
        (Seq<FileV>, FailV),
    >
        decreases n,
    {
        if n == 0 {
            Ok(
                SplittingV {
                    files: Seq::empty(),
                    chunk: Seq::empty(),
                    in_chunk: 0,
                    deps: MetaV::none(),
                },
            )
        } else {
            match self.chunked(arts, per, cap, (n - 1) as nat) {
                Err(e) => Err(e),
                Ok(v) => {
                    let head = if v.in_chunk == 0 {
                        v.chunk + self.chunk_head(self.stateful())
                    } else {
                        v.chunk
                    };
                    match function_source(
                        self.context(),
                        self.funcs[n - 1],
                        (self.imports.len() + n - 1) as usize,
                        self.chunk_prefix(),
                        head + "\n"@,
                        arts[n - 1],
                    ) {
                        Err(e) => Err((v.files, e)),
                        Ok((text, meta)) => {
                            let deps = v.deps.merged(meta);
                            if v.in_chunk + 1 >= per || byte_len(text) >= cap {
                                Ok(
                                    SplittingV {
                                        files: v.files.push(
                                            self.chunk_file(v.files.len(), text),
                                        ),
                                        chunk: Seq::empty(),
                                        in_chunk: 0,
                                        deps,
                                    },
                                )
                            } else {
                                Ok(
                                    SplittingV {
                                        chunk: text,
                                        in_chunk: v.in_chunk + 1,
                                        deps,
                                        ..v
                                    },
                                )
                            }
                        },
                    }
                },
            }
        }
    }

    /// The root file, where `n` chunks were finished.
    pub open spec fn root_file(self, deps: MetaV, n: nat) -> Result<Seq<char>, FailV> {
        match self.root_text(
            self.context(),
            self.stateful(),
            deps.helpers,
            deps.rt,
            deps.simd,
            deps.dispatch_sigs,
            n,
        ) {
            Err(e) => Err(e),
            Ok(root) => {
                let r1 = if deps.state_structs.len() == 0 {
                    root
                } else {
                    (joined(deps.state_structs, "\n"@) + "\n"@ + root)
                };
                let r2 = if self.has_objects() {
                    (GCREF_DEF@ + "\n"@ + r1)
                } else {
                    r1
                };
                Ok(
                    if deps.uses_eh {
                        (EXC_DEF@ + "\n"@ + r2)
                    } else {
                        r2
                    },
                )
            },
        }
    }

    /// All chunks as files, the one being filled among them.
    pub open spec fn chunk_files(self, v: SplittingV) -> Seq<FileV> {
        if v.in_chunk > 0 {
            v.files.push(self.chunk_file(v.files.len(), v.chunk))
        } else {
            v.files
        }
    }

    /// The files of a module whose chunks are filled as `v` says.
    pub open spec fn rooted(self, v: SplittingV) -> (Seq<FileV>, Option<FailV>) {
        let files = self.chunk_files(v);
        match self.root_file(v.deps.closed(), files.len()) {
            Err(e) => (files, Some(e)),
            Ok(root) => (files.push(("lib.rs"@, root)), None),
        }
    }

    /// Whether nothing forces the module to be split.
    pub open spec fn fits(self, funcs_per_file: usize, max_bytes_per_file: usize) -> bool {
        self.funcs.len() <= cap_of(funcs_per_file) && cap_of(max_bytes_per_file) == usize::MAX
    }

    /// The files of the module in the order in which they are finished, and the
    /// failure behind them.
    pub open spec fn split_files(
        self,
        arts: Seq<ArtifactsV>,
        funcs_per_file: usize,
        max_bytes_per_file: usize,
    ) -> (Seq<FileV>, Option<FailV>) {
        if self.fits(funcs_per_file, max_bytes_per_file) {
            match self.single_file(arts) {
                Err(e) => (Seq::empty(), Some(e)),
                Ok(code) => (Seq::empty().push(("lib.rs"@, code)), None),
            }
        } else {
            match self.context_fault() {
                Some(e) => (Seq::empty(), Some(e)),
                None => match self.chunked(
                    arts,
                    cap_of(funcs_per_file),
                    cap_of(max_bytes_per_file),
                    arts.len(),
                ) {
                    Err((files, e)) => (files, Some(e)),
                    Ok(v) => self.rooted(v),
                },
            }
        }
    }

    /// Whether `arts` holds the flat dispatches of all functions that are looked
    /// at.
    pub open spec fn split_looked_at(
        self,
        arts: Seq<ArtifactsV>,
        funcs_per_file: usize,
        max_bytes_per_file: usize,
    ) -> bool {
        if self.fits(funcs_per_file, max_bytes_per_file) {
            self.looked_at(arts)
        } else {
            self.dispatches(arts) && (arts.len() < self.funcs.len() ==> self.context_fault()
                is Some || self.chunked(
                arts,
                cap_of(funcs_per_file),
                cap_of(max_bytes_per_file),
                arts.len(),
            ) is Err)
        }
    }
}

/// With nothing forcing a split, the module is one file, `lib.rs`, and that file
/// is the module as one file: whatever flat dispatches (`a`, `b`) the two outputs
/// look at, the text is the same, and so is the failure.
pub proof fn law_fitting_module_is_one_file(
    p: PartsV,
    a: Seq<ArtifactsV>,
    b: Seq<ArtifactsV>,
    funcs_per_file: usize,
    max_bytes_per_file: usize,
)
    requires
        p.fits(funcs_per_file, max_bytes_per_file),
        p.looked_at(a),
        p.split_looked_at(b, funcs_per_file, max_bytes_per_file),
    ensures
        p.split_files(b, funcs_per_file, max_bytes_per_file) == match p.single_file(a) {
            Ok(code) => (Seq::<FileV>::empty().push(("lib.rs"@, code)), None::<FailV>),
            Err(e) => (Seq::<FileV>::empty(), Some(e)),
        },
{
    law_single_file_is_unique(p, a, b);
}

proof fn lemma_chunked_agree(
    p: PartsV,
    a: Seq<ArtifactsV>,
    b: Seq<ArtifactsV>,
    per: usize,
    cap: usize,
    n: nat,
)
    requires
        p.dispatches(a),
        p.dispatches(b),
        n <= a.len(),
        n <= b.len(),
    ensures
        p.chunked(a, per, cap, n) == p.chunked(b, per, cap, n),
    decreases n,
{
    if n > 0 {
        lemma_chunked_agree(p, a, b, per, cap, (n - 1) as nat);
        if let Ok(v) = p.chunked(a, per, cap, (n - 1) as nat) {
            let head = if v.in_chunk == 0 {
                v.chunk + p.chunk_head(p.stateful())
            } else {
                v.chunk
            };
            assert(p.funcs[n - 1] == p.funcs[n - 1]);
            law_function_source_is_unique(
                p.context(),
                p.funcs[n - 1],
                (p.imports.len() + n - 1) as usize,
                p.chunk_prefix(),
                head + "\n"@,
                a[n - 1],
                b[n - 1],
            );
        }
    }
}

proof fn lemma_chunked_failed(
    p: PartsV,
    a: Seq<ArtifactsV>,
    per: usize,
    cap: usize,
    k: nat,
    n: nat,
)
    requires
        k <= n,
        p.chunked(a, per, cap, k) is Err,
    ensures
        p.chunked(a, per, cap, n) == p.chunked(a, per, cap, k),
    decreases n - k,
{
    if k < n {
        lemma_chunked_failed(p, a, per, cap, k, (n - 1) as nat);
    }
}

/// The files of a module are fixed: whatever flat dispatches are looked at, they
/// come out the same.
pub proof fn law_split_files_are_unique(
    p: PartsV,
    a: Seq<ArtifactsV>,
    b: Seq<ArtifactsV>,
    funcs_per_file: usize,
    max_bytes_per_file: usize,
)
    requires
        p.split_looked_at(a, funcs_per_file, max_bytes_per_file),
        p.split_looked_at(b, funcs_per_file, max_bytes_per_file),
    ensures
        p.split_files(a, funcs_per_file, max_bytes_per_file) == p.split_files(
            b,
            funcs_per_file,
            max_bytes_per_file,
        ),
{
    let per = cap_of(funcs_per_file);
    let cap = cap_of(max_bytes_per_file);
    if p.fits(funcs_per_file, max_bytes_per_file) {
        law_single_file_is_unique(p, a, b);
    } else if p.context_fault() is None {
        if a.len() <= b.len() {
            lemma_chunked_agree(p, a, b, per, cap, a.len());
            if a.len() < b.len() {
                lemma_chunked_failed(p, b, per, cap, a.len(), b.len());
            }
        } else {
            lemma_chunked_agree(p, a, b, per, cap, b.len());
            lemma_chunked_failed(p, a, per, cap, b.len(), a.len());
        }
    }
}

/// Splitting keeps to its caps at function boundaries. No chunk gets more than
/// `per` functions: `n` functions never need fewer than `n / per` chunks. A chunk
/// that is still open is below `cap`, so one is over it at most by its last
/// function. And no finished chunk is without a function.
pub proof fn law_chunks_keep_to_the_caps(
    p: PartsV,
    arts: Seq<ArtifactsV>,
    per: usize,
    cap: usize,
    n: nat,
)
    requires
        per > 0,
    ensures
        p.chunked(arts, per, cap, n) matches Ok(v) ==> {
            &&& v.in_chunk < per
            &&& v.in_chunk > 0 ==> byte_len(v.chunk) < cap
            &&& n <= v.files.len() * per + v.in_chunk
            &&& v.files.len() + v.in_chunk <= n
        },
    decreases n,
{
    if n > 0 {
        law_chunks_keep_to_the_caps(p, arts, per, cap, (n - 1) as nat);
        if let Ok(v) = p.chunked(arts, per, cap, (n - 1) as nat) {
            let files = v.files.len() as int;
            assert((files + 1) * per == files * per + per) by (nonlinear_arith);
        }
    }
}

/// What a function depends on, or why it fails.
pub open spec fn outcome(r: Result<(Seq<char>, MetaV), FailV>) -> Result<MetaV, FailV> {
    match r {
        Ok((_, meta)) => Ok(meta),
        Err(e) => Err(e),
    }
}

/// Whether both are texts, or the same failure.
spec fn same_kind(a: Result<Seq<char>, FailV>, b: Result<Seq<char>, FailV>) -> bool {
    match (a, b) {
        (Ok(_), Ok(_)) => true,
        (Err(e), Err(f)) => e == f,
        _ => false,
    }
}

proof fn lemma_params_kind(
    s: GenV,
    o1: Seq<char>,
    o2: Seq<char>,
    params: Seq<ValType>,
    p1: Seq<char>,
    p2: Seq<char>,
    n: nat,
)
    ensures
        same_kind(s.put_params(o1, params, p1, n), s.put_params(o2, params, p2, n)),
    decreases n,
{
    if n > 0 {
        lemma_params_kind(s, o1, o2, params, p1, p2, (n - 1) as nat);
    }
}

proof fn lemma_reloads_kind(
    s: GenV,
    o1: Seq<char>,
    o2: Seq<char>,
    p1: Seq<char>,
    p2: Seq<char>,
    n: nat,
)
    ensures
        same_kind(s.put_reloads(o1, p1, n), s.put_reloads(o2, p2, n)),
    decreases n,
{
    if n > 0 {
        lemma_reloads_kind(s, o1, o2, p1, p2, (n - 1) as nat);
    }
}

/// The text in front of a step function's parameters.
spec fn step_head(index: usize, prefix: Seq<char>) -> Seq<char> {
    (Seq::<char>::empty() + prefix + ALLOW@ + "\n"@ + prefix + "pub fn cont_step_func"@
        + dec(index as nat) + "(&mut self, __frame: &mut ContFrame"@ + dec(index as nat)
        + ", __args: &[i64]) -> StepResult {\n"@)
}

/// Whether the head of a step function can be written does not depend on its
/// indentation.
proof fn lemma_header_kind(
    s: GenV,
    index: usize,
    params: Seq<ValType>,
    p1: Seq<char>,
    p2: Seq<char>,
)
    ensures
        same_kind(
            s.put_step_header(Seq::empty(), index, params, p1),
            s.put_step_header(Seq::empty(), index, params, p2),
        ),
{
    let a = step_head(index, p1) + p1 + "    if __frame.pc == 0u32 {\n"@;
    let b = step_head(index, p2) + p2 + "    if __frame.pc == 0u32 {\n"@;
    lemma_params_kind(s, a, b, params, p1, p2, params.len());
    let n = s.local_types.len();
    if params.len() == 0 {
        lemma_reloads_kind(s, step_head(index, p1), step_head(index, p2), p1, p2, n);
    } else {
        match (
            s.put_params(a, params, p1, params.len()),
            s.put_params(b, params, p2, params.len()),
        ) {
            (Ok(x), Ok(y)) => {
                lemma_reloads_kind(
                    s,
                    x + p1 + "    }\n"@,
                    y + p2 + "    }\n"@,
                    p1,
                    p2,
                    n,
                );
            },
            _ => {},
        }
    }
}

/// What a function depends on, and whether it fails, depends neither on its
/// indentation nor on what stands in front of it.
pub proof fn law_dependencies_ignore_layout(
    c: CtxV,
    input: FuncInput,
    index: usize,
    p1: Seq<char>,
    o1: Seq<char>,
    p2: Seq<char>,
    o2: Seq<char>,
    art: ArtifactsV,
)
    ensures
        outcome(function_source(c, input, index, p1, o1, art)) == outcome(
            function_source(c, input, index, p2, o2, art),
        ),
{
    reveal(function_source);
    if let Ok(s) = GenV::begun(c, input.params@, input.results@, input.body) {
        if index <= u32::MAX && c.cont.step_set.contains(index as u32) {
            if crosses_region(input.body.ops@) {
                let v = FlatWalkV {
                    s: GenV { cur: Seq::empty(), in_continuation: true, ..s },
                    payload: None,
                    checkpoint: None,
                };
                if let Ok(w) = v.walk(input.body.ops@) {
                    lemma_header_kind(w.s, index, input.params@, p1, p2);
                }
            } else {
                let v = WalkV {
                    s: s.arm_taken(),
                    arms: Seq::empty(),
                    checkpoint: None,
                    done: false,
                };
                if let Ok(w) = v.walk(input.body.ops@, input.params@.len() > 0) {
                    lemma_header_kind(w.s, index, input.params@, p1, p2);
                }
            }
        }
    }
}

/// Both ways of writing a module agree on what its functions depend on, and on the
/// first function that fails.
pub proof fn law_chunks_and_sources_agree(
    p: PartsV,
    arts: Seq<ArtifactsV>,
    per: usize,
    cap: usize,
    n: nat,
)
    ensures
        match (p.sources(arts, n), p.chunked(arts, per, cap, n)) {
            (Ok((sources, deps)), Ok(v)) => deps == v.deps,
            (Err(e), Err((files, f))) => e == f,
            _ => false,
        },
    decreases n,
{
    if n > 0 {
        law_chunks_and_sources_agree(p, arts, per, cap, (n - 1) as nat);
        if let Ok(v) = p.chunked(arts, per, cap, (n - 1) as nat) {
            let head = if v.in_chunk == 0 {
                v.chunk + p.chunk_head(p.stateful())
            } else {
                v.chunk
            };
            law_dependencies_ignore_layout(
                p.context(),
                p.funcs[n - 1],
                (p.imports.len() + n - 1) as usize,
                ""@,
                Seq::empty(),
                p.chunk_prefix(),
                head + "\n"@,
                arts[n - 1],
            );
        }
    }
}

impl<'a> ModuleParts<'a> {
    /// A finished chunk as a file.
    pub fn finish_chunk(&self, k: usize, chunk: String, stateful: bool) -> (r: (String, String))
        requires
            stateful == self@.stateful(),
        ensures
            file_view(r) == self@.chunk_file(k as nat, chunk@),
    {
        let mut chunk = chunk;
        if stateful {
            chunk.append("}\n");
        }
        (Buf::lit("funcs_").n(k as u64).s(".rs").end(), chunk)
    }

    /// The root file, once the used-helper/dispatch sets are complete.
    ///
    /// Shared state structs from split flattened methods live at the crate root (an
    /// `impl` block cannot hold a struct), ahead of the `impl` that references them;
    /// the managed value model stands above them, since a struct field may be a
    /// `GcRef`, which must already be in scope. The exception type and the managed
    /// value model live at the crate root so every chunk's `use super::*` sees them.
    pub fn render_root<'b>(&self, ctx: &'b ModuleCtx<'b>, deps: &ModuleDeps, stateful: bool, n: usize) -> (r:
        Result<String, TranspileError>)
        requires
            ctx@ == self@.context(),
            stateful == self@.stateful(),
            self@.imports.len() + self@.funcs.len() <= usize::MAX,
        ensures
            text_result(r, self@.root_file(deps@, n as nat)),
    {
        let root = self.render_lib_root(
            ctx,
            stateful,
            &deps.helpers,
            &deps.rt,
            &deps.simd,
            &deps.dispatch_sigs,
            n,
        )?;
        assert(texts(deps.state_structs@).len() == deps.state_structs@.len());
        let root = if deps.state_structs.len() == 0 {
            root
        } else {
            let structs = join(&deps.state_structs, "\n");
            Buf::lit(&structs).s("\n").s(&root).end()
        };
        let root = if needs_gc_types(self.type_kinds, self.funcs) {
            Buf::lit(GCREF_DEF).s("\n").s(&root).end()
        } else {
            root
        };
        if deps.uses_eh {
            Ok(Buf::lit(EXC_DEF).s("\n").s(&root).end())
        } else {
            Ok(root)
        }
    }
}

/// Whether files were appended as specified, with the failure as specified behind
/// them.
pub open spec fn files_result(
    r: Result<(), TranspileError>,
    before: Seq<FileV>,
    after: Seq<FileV>,
    want: (Seq<FileV>, Option<FailV>),
) -> bool {
    &&& after == before + want.0
    &&& match want.1 {
        None => r is Ok,
        Some(e) => r is Err && r->Err_0@ == e,
    }
}

pub proof fn lemma_chunked_same(
    p: PartsV,
    arts: Seq<ArtifactsV>,
    more: Seq<ArtifactsV>,
    per: usize,
    cap: usize,
    n: nat,
)
    requires
        n <= arts.len(),
        arts.len() <= more.len(),
        more.take(arts.len() as int) == arts,
    ensures
        p.chunked(more, per, cap, n) == p.chunked(arts, per, cap, n),
    decreases n,
{
    if n > 0 {
        lemma_chunked_same(p, arts, more, per, cap, (n - 1) as nat);
        assert(more[n - 1] == arts[n - 1]);
    }
}

/// Translate a module into one or more files, appended to `files` in the order in
/// which they are finished. Where a function or the root fails, the files finished
/// before it are there. [`ModuleFiles`] hands them out one at a time instead.
///
/// When nothing forces a split — the module fits in `funcs_per_file` functions and
/// no `max_bytes_per_file` cap is set — the output is byte-identical to
/// [`generate_module`], as a single `lib.rs`.
///
/// Otherwise the defined functions are chunked into `funcs_{n}.rs` files and a
/// `lib.rs` root ties them together: for a stateless module the chunks hold free
/// `pub fn`s re-exported from the root; for a stateful one each chunk adds an
/// `impl Instance` block while the root owns the struct, `new`, the shared helper
/// methods and the module-scope runtime helpers.
///
/// A chunk is flushed once it reaches `funcs_per_file` functions *or* its
/// accumulated source reaches `max_bytes_per_file` bytes (whichever comes first).
/// The byte cap is what actually bounds a file when a module holds a few very large
/// functions, since a fixed function count can still add up to a huge chunk. Both
/// caps take effect only at a function boundary, so a single oversized function is
/// still emitted whole. `0` stands for no cap.
pub fn generate_module_split(
    parts: &ModuleParts,
    funcs_per_file: usize,
    max_bytes_per_file: usize,
    files: &mut Vec<(String, String)>,
) -> (r: Result<(), TranspileError>)
    requires
        parts@.imports.len() + parts@.funcs.len() <= usize::MAX,
        parts.all_renderable(),
    ensures
        exists|arts: Seq<ArtifactsV>| #[trigger]
            parts@.split_looked_at(arts, funcs_per_file, max_bytes_per_file) && files_result(
                r,
                files_view(old(files)@),
                files_view(final(files)@),
                parts@.split_files(arts, funcs_per_file, max_bytes_per_file),
            ),
{
    let ghost p = parts@;
    let ghost start = files_view(files@);
    assert(start + Seq::<FileV>::empty() =~= start);
    let mut stream = match ModuleFiles::new(parts, funcs_per_file, max_bytes_per_file) {
        Ok(s) => s,
        Err(e) => {
            return Err(e);
        },
    };
    loop
        invariant
            stream.wf(),
            stream.parts@ == p,
            p == parts@,
            stream.funcs_per_file == funcs_per_file,
            stream.max_bytes_per_file == max_bytes_per_file,
            start == files_view(old(files)@),
            files_view(files@) == start + stream.given@,
        decreases stream.left(),
    {
        match stream.next_file() {
            Ok(Some(file)) => {
                let ghost before = files@;
                files.push(file);
                assert(files_view(files@) =~= files_view(before).push(file_view(file)));
                assert(files_view(files@) =~= start + stream.given@);
            },
            Ok(None) => {
                assert(p.split_looked_at(stream.arts@, funcs_per_file, max_bytes_per_file));
                return Ok(());
            },
            Err(e) => {
                return Err(e);
            },
        }
    }
}

} // verus!
