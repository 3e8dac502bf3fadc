//! The files of a module, one at a time.
//!
//! A file is handed out as soon as it is finished, so that a caller can write and
//! drop it before the next one is made: the peak memory stays around one chunk's
//! worth rather than the whole program.

use vstd::prelude::*;

use crate::codegen::context::ModuleCtx;
use crate::codegen::derive::build_ctx;
use crate::codegen::dispatch::ArtifactsV;
use crate::codegen::driver::{
    function_dispatch, function_source, generate_function_into, generate_module,
    lemma_dispatches_push, renderable, ModuleDeps,
};
use crate::codegen::func::body::meta_result;
use crate::codegen::parts::ModuleParts;
use crate::codegen::split::{
    cap_of, file_view, law_chunks_keep_to_the_caps, lemma_chunked_same, FileV, SplittingV,
};
use crate::error::{text_result, FailV, TranspileError};
use crate::text::lit;

verus! {

/// A module being split: the chunk being filled, the number of functions in it,
/// the number of chunks finished, and what the functions so far depend on.
pub struct Splitting {
    pub chunk: String,
    pub in_chunk: usize,
    pub finished: usize,
    pub deps: ModuleDeps,
}

impl Splitting {
    /// Whether this is `w`, but for the files.
    pub open spec fn holds(&self, w: SplittingV) -> bool {
        &&& w.chunk == self.chunk@
        &&& w.in_chunk == self.in_chunk
        &&& w.deps == self.deps@
        &&& w.files.len() == self.finished
    }
}

/// `files` with one more, if there is one.
pub open spec fn with_file(files: Seq<FileV>, f: Option<(String, String)>) -> Seq<FileV> {
    match f {
        Some(file) => files.push(file_view(file)),
        None => files,
    }
}

impl<'a> ModuleParts<'a> {
    /// Puts the next function into the current chunk, and finishes the chunk where
    /// it is full. A chunk is built in place: its prelude is written when the first
    /// function joins it, and each function's source is streamed straight in. A
    /// blank line separates each function from the prelude or its predecessor,
    /// matching the single-file rendering. Both caps act only at a function
    /// boundary, so a single oversized function is still emitted whole.
    fn split_function<'b>(
        &self,
        ctx: &'b ModuleCtx<'b>,
        stateful: bool,
        per: usize,
        cap: usize,
        i: usize,
        v: &mut Splitting,
        Ghost(arts): Ghost<Seq<ArtifactsV>>,
    ) -> (r: (Result<Option<(String, String)>, TranspileError>, Ghost<ArtifactsV>))
        requires
            ctx@ == self@.context(),
            stateful == self@.stateful(),
            per > 0,
            i < self@.funcs.len(),
            self@.imports.len() + self@.funcs.len() <= usize::MAX,
            renderable(self@.context(), self@.funcs[i as int], (self@.imports.len() + i) as usize),
            arts.len() == i,
            self@.dispatches(arts),
            self@.chunked(arts, per, cap, i as nat) matches Ok(w) && old(v).holds(w),
        ensures
            self@.dispatches(arts.push(r.1@)),
            match self@.chunked(arts.push(r.1@), per, cap, (i + 1) as nat) {
                Ok(w) => r.0 matches Ok(f) && final(v).holds(w) && w.files == with_file(
                    self@.chunked(arts, per, cap, i as nat)->Ok_0.files,
                    f,
                ),
                Err((done, e)) => r.0 is Err && r.0->Err_0@ == e && done == self@.chunked(
                    arts,
                    per,
                    cap,
                    i as nat,
                )->Ok_0.files,
            },
    {
        let ghost p = self@;
        let base: usize = self.imports.len();
        proof {
            law_chunks_keep_to_the_caps(p, arts, per, cap, i as nat);
        }
        if v.in_chunk == 0 {
            let head = self.chunk_prelude(stateful);
            v.chunk.append(head.as_str());
        }
        v.chunk.append("\n");
        let ghost before = v.chunk@;
        // A stateful chunk wraps its functions in an `impl Instance` block, so every
        // emitted line is indented one level; a stateless chunk emits free `pub fn`s
        // at column zero.
        let prefix = if stateful {
            "    "
        } else {
            ""
        };
        let made = generate_function_into(base + i, &self.funcs[i], ctx, prefix, &mut v.chunk);
        let ghost art = choose|art: ArtifactsV|
            #![trigger function_dispatch(ctx@, self.funcs@[i as int], (base + i) as usize, art)]
            function_dispatch(ctx@, self.funcs@[i as int], (base + i) as usize, art) && meta_result(
                made,
                before,
                v.chunk@,
                function_source(
                    ctx@,
                    self.funcs@[i as int],
                    (base + i) as usize,
                    prefix@,
                    before,
                    art,
                ),
            );
        proof {
            lemma_dispatches_push(p, arts, art);
            assert(arts.push(art).take(arts.len() as int) =~= arts);
            lemma_chunked_same(p, arts, arts.push(art), per, cap, i as nat);
        }
        let meta = match made {
            Ok(m) => m,
            Err(e) => {
                return (Err(e), Ghost(art));
            },
        };
        v.deps.merge(meta);
        v.in_chunk += 1;
        let mut done: Option<(String, String)> = None;
        if v.in_chunk >= per || v.chunk.as_str().len() >= cap {
            let mut chunk = String::new();
            std::mem::swap(&mut chunk, &mut v.chunk);
            done = Some(self.finish_chunk(v.finished, chunk, stateful));
            v.finished += 1;
            v.in_chunk = 0;
        }
        (Ok(done), Ghost(art))
    }
}

/// How far the files of a module have got.
#[derive(Clone, Copy, PartialEq, Eq, Structural, Debug)]
pub enum Phase {
    /// The module is one file, which is still to be made.
    Whole,
    /// Functions are put into chunks.
    Chunks,
    /// All chunks are handed out, and the root is next.
    Root,
    /// All files are handed out.
    Done,
}

/// The files of a module, handed out one after another.
pub struct ModuleFiles<'a> {
    pub parts: &'a ModuleParts<'a>,
    pub funcs_per_file: usize,
    pub max_bytes_per_file: usize,
    pub phase: Phase,
    /// The module's context and whether it keeps state, where it is split.
    pub ctx: Option<(ModuleCtx<'a>, bool)>,
    /// The number of functions looked at.
    pub next: usize,
    pub splitting: Splitting,
    /// The flat dispatches of the functions looked at.
    pub arts: Ghost<Seq<ArtifactsV>>,
    /// The files handed out.
    pub given: Ghost<Seq<FileV>>,
}

impl<'a> ModuleFiles<'a> {
    /// The chunks after the functions looked at.
    pub open spec fn chunks(&self) -> Result<SplittingV, (Seq<FileV>, FailV)> {
        self.parts@.chunked(
            self.arts@,
            cap_of(self.funcs_per_file),
            cap_of(self.max_bytes_per_file),
            self.arts@.len(),
        )
    }

    /// Whether the module is being split, and the chunks are as they should be.
    pub open spec fn splits(&self) -> bool {
        let p = self.parts@;
        &&& !p.fits(self.funcs_per_file, self.max_bytes_per_file)
        &&& p.context_fault() is None
        &&& self.ctx matches Some(c) && c.0@ == p.context() && c.1 == p.stateful()
        &&& p.dispatches(self.arts@)
        &&& self.arts@.len() == self.next
        &&& self.chunks() is Ok
    }

    /// Whether the files handed out are the first ones of the module, and what is
    /// kept is what the next ones are made of.
    pub open spec fn wf(&self) -> bool {
        let p = self.parts@;
        &&& p.imports.len() + p.funcs.len() <= usize::MAX
        &&& self.parts.all_renderable()
        &&& match self.phase {
            Phase::Whole => p.fits(self.funcs_per_file, self.max_bytes_per_file) && self.given@
                == Seq::<FileV>::empty(),
            Phase::Chunks => self.splits() && self.splitting.holds(self.chunks()->Ok_0)
                && self.given@ == self.chunks()->Ok_0.files,
            Phase::Root => {
                &&& self.splits()
                &&& self.next == p.funcs.len()
                &&& self.splitting.deps@ == self.chunks()->Ok_0.deps
                &&& self.splitting.finished == self.given@.len()
                &&& self.given@ == p.chunk_files(self.chunks()->Ok_0)
            },
            Phase::Done => p.split_looked_at(
                self.arts@,
                self.funcs_per_file,
                self.max_bytes_per_file,
            ) && p.split_files(self.arts@, self.funcs_per_file, self.max_bytes_per_file) == (
                self.given@,
                None::<FailV>,
            ),
        }
    }

    /// A bound on the number of files still to come.
    pub open spec fn left(&self) -> nat {
        match self.phase {
            Phase::Whole => 1,
            Phase::Chunks => if self.next <= self.parts@.funcs.len() {
                (2 + self.parts@.funcs.len() - self.next) as nat
            } else {
                2
            },
            Phase::Root => 1,
            Phase::Done => 0,
        }
    }

    /// The files of a module, before the first one. With nothing forcing a split,
    /// the module is one file; otherwise its context is derived here. `0` stands
    /// for no cap.
    pub fn new(parts: &'a ModuleParts<'a>, funcs_per_file: usize, max_bytes_per_file: usize) -> (r:
        Result<ModuleFiles<'a>, TranspileError>)
        requires
            parts@.imports.len() + parts@.funcs.len() <= usize::MAX,
            parts.all_renderable(),
        ensures
            match r {
                Ok(s) => {
                    &&& s.wf()
                    &&& s.parts == parts
                    &&& s.funcs_per_file == funcs_per_file
                    &&& s.max_bytes_per_file == max_bytes_per_file
                    &&& s.given@ == Seq::<FileV>::empty()
                    &&& s.phase == if parts@.fits(funcs_per_file, max_bytes_per_file) {
                        Phase::Whole
                    } else {
                        Phase::Chunks
                    }
                },
                Err(e) => {
                    &&& !parts@.fits(funcs_per_file, max_bytes_per_file)
                    &&& parts@.context_fault() == Some(e@)
                    &&& parts@.split_looked_at(
                        Seq::empty(),
                        funcs_per_file,
                        max_bytes_per_file,
                    )
                },
            },
    {
        let splitting = Splitting {
            chunk: String::new(),
            in_chunk: 0,
            finished: 0,
            deps: ModuleDeps::new(),
        };
        let unlimited = funcs_per_file == 0 || parts.funcs.len() <= funcs_per_file;
        let whole = unlimited && (max_bytes_per_file == 0 || max_bytes_per_file == usize::MAX);
        let n_funcs: usize = parts.funcs.len();
        assert(parts@.funcs.len() == n_funcs);
        assert(whole == parts@.fits(funcs_per_file, max_bytes_per_file));
        let ctx = if whole {
            None
        } else {
            match build_ctx(parts) {
                Ok(c) => Some(c),
                Err(e) => {
                    return Err(e);
                },
            }
        };
        let phase = if whole {
            Phase::Whole
        } else {
            Phase::Chunks
        };
        Ok(
            ModuleFiles {
                parts,
                funcs_per_file,
                max_bytes_per_file,
                phase,
                ctx,
                next: 0,
                splitting,
                arts: Ghost(Seq::empty()),
                given: Ghost(Seq::empty()),
            },
        )
    }

    /// Goes on to the next chunk that is finished, the last one included; `None`
    /// where no function is left.
    fn next_chunk(&mut self) -> (r: Result<Option<(String, String)>, TranspileError>)
        requires
            old(self).wf(),
            old(self).phase == Phase::Chunks,
        ensures
            final(self).parts == old(self).parts,
            final(self).funcs_per_file == old(self).funcs_per_file,
            final(self).max_bytes_per_file == old(self).max_bytes_per_file,
            match r {
                Ok(f) => {
                    &&& final(self).wf()
                    &&& final(self).given@ == with_file(old(self).given@, f)
                    &&& final(self).left() < old(self).left()
                    &&& f is None ==> final(self).phase == Phase::Root
                },
                Err(e) => final(self).parts@.split_looked_at(
                    final(self).arts@,
                    final(self).funcs_per_file,
                    final(self).max_bytes_per_file,
                ) && final(self).parts@.split_files(
                    final(self).arts@,
                    final(self).funcs_per_file,
                    final(self).max_bytes_per_file,
                ) == (old(self).given@, Some(e@)),
            },
    {
        let per: usize = if self.funcs_per_file == 0 {
            usize::MAX
        } else {
            self.funcs_per_file
        };
        let cap: usize = if self.max_bytes_per_file == 0 {
            usize::MAX
        } else {
            self.max_bytes_per_file
        };
        let parts = self.parts;
        let ghost p = parts@;
        let n_funcs: usize = parts.funcs.len();
        assert(p.funcs.len() == n_funcs);
        while self.next < n_funcs
            invariant
                self.wf(),
                self.phase == Phase::Chunks,
                self.parts == parts,
                p == parts@,
                p.funcs.len() == n_funcs,
                self.funcs_per_file == old(self).funcs_per_file,
                self.max_bytes_per_file == old(self).max_bytes_per_file,
                old(self).parts == parts,
                old(self).phase == Phase::Chunks,
                old(self).next <= self.next,
                per == cap_of(self.funcs_per_file),
                cap == cap_of(self.max_bytes_per_file),
                self.given@ == old(self).given@,
            decreases n_funcs - self.next,
        {
            let ghost arts = self.arts@;
            assert(renderable(
                p.context(),
                p.funcs[self.next as int],
                (p.imports.len() + self.next) as usize,
            ));
            match &self.ctx {
                Some((ctx, stateful)) => {
                    let (step, art) = parts.split_function(
                        ctx,
                        *stateful,
                        per,
                        cap,
                        self.next,
                        &mut self.splitting,
                        self.arts,
                    );
                    self.arts = Ghost(arts.push(art@));
                    self.next += 1;
                    match step {
                        Ok(Some(file)) => {
                            self.given = Ghost(self.given@.push(file_view(file)));
                            return Ok(Some(file));
                        },
                        Ok(None) => {},
                        Err(e) => {
                            return Err(e);
                        },
                    }
                },
                None => {
                    return Ok(None);
                },
            }
        }
        self.phase = Phase::Root;
        if self.splitting.in_chunk > 0 {
            let stateful = match &self.ctx {
                Some((_, stateful)) => *stateful,
                None => false,
            };
            proof {
                law_chunks_keep_to_the_caps(p, self.arts@, per, cap, self.arts@.len());
            }
            let mut chunk = String::new();
            std::mem::swap(&mut chunk, &mut self.splitting.chunk);
            let file = parts.finish_chunk(self.splitting.finished, chunk, stateful);
            self.splitting.finished += 1;
            self.given = Ghost(self.given@.push(file_view(file)));
            return Ok(Some(file));
        }
        Ok(None)
    }

    /// The root, which is handed out last, once the used-helper/dispatch sets are
    /// complete.
    fn root(&mut self) -> (r: Result<(String, String), TranspileError>)
        requires
            old(self).wf(),
            old(self).phase == Phase::Root,
        ensures
            final(self).parts == old(self).parts,
            final(self).funcs_per_file == old(self).funcs_per_file,
            final(self).max_bytes_per_file == old(self).max_bytes_per_file,
            match r {
                Ok(f) => {
                    &&& final(self).wf()
                    &&& final(self).phase == Phase::Done
                    &&& final(self).given@ == old(self).given@.push(file_view(f))
                },
                Err(e) => final(self).parts@.split_looked_at(
                    final(self).arts@,
                    final(self).funcs_per_file,
                    final(self).max_bytes_per_file,
                ) && final(self).parts@.split_files(
                    final(self).arts@,
                    final(self).funcs_per_file,
                    final(self).max_bytes_per_file,
                ) == (old(self).given@, Some(e@)),
            },
    {
        let parts = self.parts;
        let ghost p = parts@;
        let n_chunks: usize = self.splitting.finished;
        self.splitting.deps.close();
        match &self.ctx {
            Some((ctx, stateful)) => {
                let made = parts.render_root(ctx, &self.splitting.deps, *stateful, n_chunks);
                assert(p.split_looked_at(
                    self.arts@,
                    self.funcs_per_file,
                    self.max_bytes_per_file,
                ));
                match made {
                    Ok(text) => {
                        let file = (lit("lib.rs"), text);
                        self.phase = Phase::Done;
                        self.given = Ghost(self.given@.push(file_view(file)));
                        Ok(file)
                    },
                    Err(e) => Err(e),
                }
            },
            None => Ok((String::new(), String::new())),
        }
    }

    /// The next file, by name and text; `None` behind the last one. The files come
    /// in the order in which they are finished. Where a function or the root fails,
    /// the files finished before it have come, and the failure comes instead of the
    /// next one.
    pub fn next_file(&mut self) -> (r: Result<Option<(String, String)>, TranspileError>)
        requires
            old(self).wf(),
        ensures
            final(self).parts == old(self).parts,
            final(self).funcs_per_file == old(self).funcs_per_file,
            final(self).max_bytes_per_file == old(self).max_bytes_per_file,
            (r matches Ok(None)) == (old(self).phase == Phase::Done),
            match r {
                Ok(Some(f)) => {
                    &&& final(self).wf()
                    &&& final(self).given@ == old(self).given@.push(file_view(f))
                    &&& final(self).left() < old(self).left()
                },
                Ok(None) => *final(self) == *old(self),
                Err(e) => final(self).parts@.split_looked_at(
                    final(self).arts@,
                    final(self).funcs_per_file,
                    final(self).max_bytes_per_file,
                ) && final(self).parts@.split_files(
                    final(self).arts@,
                    final(self).funcs_per_file,
                    final(self).max_bytes_per_file,
                ) == (old(self).given@, Some(e@)),
            },
    {
        match self.phase {
            Phase::Done => {
                return Ok(None);
            },
            Phase::Whole => {
                let parts = self.parts;
                let ghost p = parts@;
                let made = generate_module(parts);
                let ghost arts = choose|arts: Seq<ArtifactsV>| #[trigger]
                    p.looked_at(arts) && text_result(made, p.single_file(arts));
                self.arts = Ghost(arts);
                return match made {
                    Ok(code) => {
                        let file = (lit("lib.rs"), code);
                        self.phase = Phase::Done;
                        self.given = Ghost(self.given@.push(file_view(file)));
                        Ok(Some(file))
                    },
                    Err(e) => Err(e),
                };
            },
            Phase::Chunks => {
                match self.next_chunk() {
                    Ok(Some(file)) => {
                        return Ok(Some(file));
                    },
                    Ok(None) => {},
                    Err(e) => {
                        return Err(e);
                    },
                }
            },
            Phase::Root => {},
        }
        match self.root() {
            Ok(file) => Ok(Some(file)),
            Err(e) => Err(e),
        }
    }
}

} // verus!
