//! The `struct Instance` of a stateful module and its `impl`.

use std::collections::HashSet;

use vstd::prelude::*;

use crate::codegen::analysis::{increasing, rust_type, rust_type_text, sorted_insert};
use crate::codegen::common::{indent, indented, index_u32, ALLOW};
use crate::codegen::context::{CtxV, ImportV, ModuleCtx};
use crate::codegen::helpers::{
    helper_lines, helper_list, helper_order, helper_source, shared_helper_lines, shared_source,
    Helper, HelperSet,
};
use crate::codegen::info::{ImportInfo, KindV, MemInfo, WasiKind};
use crate::codegen::order::{in_order, lemma_in_order, sorted_ids};
use crate::codegen::parts::{GlobalV, ModuleParts, PartsV};
use crate::codegen::render_cont::{lines_result, LinesR};
use crate::codegen::segments::{
    copy_active_data, copy_active_elems, data_copies, data_lines, data_statics, elem_copies,
    elem_lines, elem_statics, has_active_data, has_active_elem, push_data_lines, push_data_statics,
    push_elem_lines, push_elem_statics, some_active_data, some_active_elem,
};
use crate::error::{no_support, unsupported, FailV, TranspileError};
use crate::text::{dec, join, joined, lit, same, split_lines, text_lines, texts, Buf, Lines};

verus! {

/// The runtime of a `shared` memory, emitted verbatim (warning-clean under `-D
/// warnings`).
pub const SHARED_RUNTIME: &'static str = "#[derive(Clone)]
pub struct SharedMemory(std::sync::Arc<SharedMemInner>);

struct SharedMemInner {
    bytes: std::sync::Mutex<Vec<u8>>,
    park: std::sync::Mutex<SharedPark>,
    cvar: std::sync::Condvar,
}

#[derive(Default)]
struct SharedPark {
    // addr -> number of parked waiters
    waiters: std::collections::HashMap<u32, u32>,
    // addr -> notification generation; a waiter wakes when its address's
    // generation advances past the value captured on entry.
    gen: std::collections::HashMap<u32, u64>,
}

fn shared_width_mask(width: usize) -> u64 {
    if width >= 8 { u64::MAX } else { (1u64 << (width * 8)) - 1 }
}

fn shared_read_le(b: &[u8], addr: usize, width: usize) -> u64 {
    let mut v: u64 = 0;
    let mut i = 0;
    while i < width {
        v |= (b[addr + i] as u64) << (8 * i);
        i += 1;
    }
    v
}

fn shared_write_le(b: &mut [u8], addr: usize, width: usize, val: u64) {
    let mut i = 0;
    while i < width {
        b[addr + i] = (val >> (8 * i)) as u8;
        i += 1;
    }
}

// RMW op codes: 0=add 1=sub 2=and 3=or 4=xor 5=xchg
fn shared_combine(op: u8, old: u64, val: u64, width: usize) -> u64 {
    let m = shared_width_mask(width);
    let r = match op {
        0 => old.wrapping_add(val),
        1 => old.wrapping_sub(val),
        2 => old & val,
        3 => old | val,
        4 => old ^ val,
        _ => val, // xchg
    };
    r & m
}

#[allow(dead_code)]
impl SharedMemory {
    fn new(min_bytes: usize) -> Self {
        SharedMemory(std::sync::Arc::new(SharedMemInner {
            bytes: std::sync::Mutex::new(vec![0u8; min_bytes]),
            park: std::sync::Mutex::new(SharedPark::default()),
            cvar: std::sync::Condvar::new(),
        }))
    }

    fn bytes(&self) -> std::sync::MutexGuard<'_, Vec<u8>> {
        self.0.bytes.lock().unwrap()
    }

    // One critical section, so the whole read-modify-write is atomic across
    // threads. Returns the (zero-extended) old value.
    fn atomic_rmw(&self, addr: usize, width: usize, op: u8, val: u64) -> u64 {
        let mut b = self.0.bytes.lock().unwrap();
        let old = shared_read_le(&b, addr, width);
        let new = shared_combine(op, old, val & shared_width_mask(width), width);
        shared_write_le(&mut b, addr, width, new);
        old
    }

    // Stores `replacement` only if the (masked) current value equals `expected`.
    // Returns the (zero-extended) old value either way.
    fn atomic_cmpxchg(&self, addr: usize, width: usize, expected: u64, replacement: u64) -> u64 {
        let mut b = self.0.bytes.lock().unwrap();
        let old = shared_read_le(&b, addr, width);
        if old == (expected & shared_width_mask(width)) {
            shared_write_le(&mut b, addr, width, replacement & shared_width_mask(width));
        }
        old
    }

    fn notify(&self, addr: u32, count: u32) -> u32 {
        let mut park = self.0.park.lock().unwrap();
        let waiting = park.waiters.get(&addr).copied().unwrap_or(0);
        let n = waiting.min(count);
        if n > 0 {
            let g = park.gen.get(&addr).copied().unwrap_or(0).wrapping_add(1);
            park.gen.insert(addr, g);
            drop(park);
            self.0.cvar.notify_all();
        }
        n
    }

    // Returns 0 (woken), 1 (value mismatch - did not block), or 2 (timed out).
    // `timeout_ns < 0` means wait forever. `width` is 4 (wait32) or 8 (wait64).
    fn wait(&self, addr: u32, expected: u64, width: usize, timeout_ns: i64) -> i32 {
        // Hold `park` across the value check so a concurrent `notify` (which also
        // takes `park`) cannot slip between the check and our registration -
        // closing the lost-wakeup window. Lock order is always park-then-bytes.
        let mut park = self.0.park.lock().unwrap();
        {
            let b = self.0.bytes.lock().unwrap();
            if shared_read_le(&b, addr as usize, width) != (expected & shared_width_mask(width)) {
                return 1;
            }
        }
        let start = park.gen.get(&addr).copied().unwrap_or(0);
        *park.waiters.entry(addr).or_insert(0) += 1;
        let result;
        if timeout_ns < 0 {
            loop {
                if park.gen.get(&addr).copied().unwrap_or(0) != start {
                    result = 0;
                    break;
                }
                park = self.0.cvar.wait(park).unwrap();
            }
        } else {
            let deadline = std::time::Instant::now()
                + std::time::Duration::from_nanos(timeout_ns as u64);
            loop {
                if park.gen.get(&addr).copied().unwrap_or(0) != start {
                    result = 0;
                    break;
                }
                let now = std::time::Instant::now();
                if now >= deadline {
                    result = 2;
                    break;
                }
                let (g, to) = self.0.cvar.wait_timeout(park, deadline - now).unwrap();
                park = g;
                if to.timed_out() && park.gen.get(&addr).copied().unwrap_or(0) == start {
                    result = 2;
                    break;
                }
            }
        }
        if let Some(c) = park.waiters.get_mut(&addr) {
            *c = c.saturating_sub(1);
        }
        result
    }
}";

/// The module-scope runtime for a `shared` memory: the thread-shareable
/// `SharedMemory` handle (a `#[derive(Clone)]` `Arc` of a `Mutex`-bearing inner,
/// so it is `Send + Sync`), the little-endian read/write/combine helpers, and the
/// atomic read-modify-write, compare-and-exchange, wait and notify methods. Used
/// only when the module has a single defined shared memory.
pub fn shared_memory_runtime_lines() -> (r: Lines)
    ensures
        r@ == text_lines(SHARED_RUNTIME@),
{
    split_lines(SHARED_RUNTIME)
}

// ---------------------------------------------------------------------------
// Fields
// ---------------------------------------------------------------------------
/// The field of memory `i`.
pub open spec fn memory_field(i: nat) -> Seq<char> {
    if i == 0 {
        "memory"@
    } else {
        ("memory"@ + dec(i as nat))
    }
}

fn memory_field_name(i: usize) -> (r: String)
    ensures
        r@ == memory_field(i as nat),
{
    if i == 0 {
        lit("memory")
    } else {
        Buf::lit("memory").n(i as u64).end()
    }
}

/// The fields of the first `n` memories; memory 0 has none where the host owns
/// it.
pub open spec fn memory_fields(out: Seq<Seq<char>>, hosted: bool, n: nat) -> Seq<Seq<char>>
    decreases n,
{
    if n == 0 {
        out
    } else {
        let front = memory_fields(out, hosted, (n - 1) as nat);
        if n == 1 && hosted {
            front
        } else {
            front.push(("    "@ + memory_field((n - 1) as nat) + ": Vec<u8>,"@))
        }
    }
}

/// The fields of the first `n` globals, numbered from `base` on.
pub open spec fn global_fields(
    out: Seq<Seq<char>>,
    globals: Seq<GlobalV>,
    base: nat,
    kinds: Seq<KindV>,
    n: nat,
) -> LinesR
    decreases n,
{
    if n == 0 {
        Ok(out)
    } else {
        match global_fields(out, globals, base, kinds, (n - 1) as nat) {
            Err(e) => Err(e),
            Ok(front) => match rust_type_text(globals[n - 1].ty, kinds) {
                Err(e) => Err(e),
                Ok(rty) => Ok(front.push(("    g"@ + dec((base + (n - 1)) as nat) + ": "@ + rty
                    + ","@))),
            },
        }
    }
}

/// The initial values of the first `n` globals, numbered from `base` on.
pub open spec fn global_starts(
    out: Seq<Seq<char>>,
    globals: Seq<GlobalV>,
    base: nat,
    n: nat,
) -> Seq<Seq<char>>
    decreases n,
{
    if n == 0 {
        out
    } else {
        global_starts(out, globals, base, (n - 1) as nat).push(
            ("        g"@ + dec((base + (n - 1)) as nat) + ": "@ + globals[n - 1].init + ","@),
        )
    }
}

proof fn lemma_global_fields_fail(
    out: Seq<Seq<char>>,
    globals: Seq<GlobalV>,
    base: nat,
    kinds: Seq<KindV>,
    i: nat,
    n: nat,
)
    requires
        i <= n,
        global_fields(out, globals, base, kinds, i) is Err,
    ensures
        global_fields(out, globals, base, kinds, n) == global_fields(out, globals, base, kinds, i),
    decreases n - i,
{
    if i < n {
        lemma_global_fields_fail(out, globals, base, kinds, i, (n - 1) as nat);
    }
}

/// Whether a WASI function keeps files open.
pub open spec fn wasi_on_files(w: Option<crate::codegen::context::WasiV>) -> bool {
    match w {
        Some(f) => f.kind != WasiKind::Other,
        None => false,
    }
}

impl PartsV {
    /// Whether the host owns memory 0. No other memory can be imported.
    pub open spec fn mem_imported(self) -> bool {
        self.memories.len() > 0 && self.memories[0].imported
    }

    /// Whether the module keeps files open: it imports some function on
    /// preopened directories or paths.
    pub open spec fn keeps_files(self) -> bool {
        exists|i: int|
            0 <= i < self.imports.len() && wasi_on_files((#[trigger] self.imports[i]).wasi)
    }

    /// The fields of the instance, behind `out`.
    pub open spec fn instance_fields(self, c: CtxV, out: Seq<Seq<char>>) -> LinesR {
        let o1 = if self.needs_host() {
            out.push("    imports: H,"@)
        } else {
            out
        };
        let o2 = if c.memory_shared {
            o1.push("    memory: SharedMemory,"@)
        } else {
            memory_fields(o1, self.mem_imported(), self.memories.len())
        };
        let o3 = if self.table is Some && !self.table_imported() {
            o2.push("    table: Vec<u32>,"@)
        } else {
            o2
        };
        match global_fields(
            o3,
            self.globals,
            self.imported_globals.len(),
            c.kinds,
            self.globals.len(),
        ) {
            Err(e) => Err(e),
            Ok(o4) => {
                let o5 = if self.keeps_files() {
                    o4.push(
                        "    wasi_fds: Vec<Option<(std::fs::File, std::path::PathBuf)>>,"@,
                    )
                } else {
                    o4
                };
                let o6 = elem_lines(
                    data_lines(o5, self.data, true, self.data.len()),
                    self.elements,
                    true,
                    self.elements.len(),
                );
                let o7 = if c.uses_extern_box {
                    o6.push("    extern_box: Vec<GcRef>,"@)
                } else {
                    o6
                };
                Ok(
                    if c.cont.bodies.len() > 0 {
                        o7.push("    conts: Vec<Option<ContObj>>,"@)
                    } else {
                        o7
                    },
                )
            },
        }
    }

    /// The initial value of a table that the instance owns, behind `out`.
    pub open spec fn table_start(self, out: Seq<Seq<char>>) -> Seq<Seq<char>> {
        match self.table {
            Some(t) => if t.imported {
                out
            } else if !some_active_elem(self.elements) {
                out.push(("        table: vec![u32::MAX; "@ + dec(t.min as nat) + "],"@))
            } else {
                elem_copies(
                    out.push("        table: {"@).push(
                        ("            let mut t: Vec<u32> = vec![u32::MAX; "@ + dec(t.min as nat)
                            + "];"@),
                    ),
                    self.elements,
                    "t"@,
                    "            "@,
                    self.elements.len(),
                ).push("            t"@).push("        },"@)
            },
            None => out,
        }
    }

    /// The initial values of all fields but the host's and the memories', behind
    /// `out`.
    pub open spec fn common_starts(self, c: CtxV, out: Seq<Seq<char>>) -> Seq<Seq<char>> {
        let o1 = global_starts(
            self.table_start(out),
            self.globals,
            self.imported_globals.len(),
            self.globals.len(),
        );
        let o2 = if self.keeps_files() {
            o1.push("        wasi_fds: Vec::new(),"@)
        } else {
            o1
        };
        let o3 = elem_lines(
            data_lines(o2, self.data, false, self.data.len()),
            self.elements,
            false,
            self.elements.len(),
        );
        let o4 = if c.uses_extern_box {
            o3.push("        extern_box: Vec::new(),"@)
        } else {
            o3
        };
        if c.cont.bodies.len() > 0 {
            o4.push("        conts: Vec::new(),"@)
        } else {
            o4
        }
    }

    /// The initial values of the first `n` memories, behind `out`.
    pub open spec fn memory_starts(self, out: Seq<Seq<char>>, n: nat) -> LinesR
        decreases n,
    {
        if n == 0 {
            Ok(out)
        } else {
            match self.memory_starts(out, (n - 1) as nat) {
                Err(e) => Err(e),
                Ok(front) => if n == 1 && self.mem_imported() {
                    Ok(front)
                } else if n - 1 > u32::MAX {
                    Err(unsupported("index too large"@))
                } else if self.memories[n - 1].min_pages * 65536 > u64::MAX {
                    Err(unsupported("memory too large"@))
                } else {
                    let field = memory_field((n - 1) as nat);
                    let bytes = self.memories[n - 1].min_pages * 65536;
                    let mem = (n - 1) as u32;
                    Ok(
                        if !some_active_data(self.data, mem) {
                            front.push(("        "@ + field + ": vec![0u8; "@ + dec(bytes as nat)
                                + "],"@))
                        } else {
                            data_copies(
                                front.push(("        "@ + field + ": {"@)).push(
                                    ("            let mut m: Vec<u8> = vec![0u8; "@
                                        + dec(bytes as nat) + "];"@),
                                ),
                                self.data,
                                mem,
                                "m"@,
                                "            "@,
                                self.data.len(),
                            ).push("            m"@).push("        },"@)
                        },
                    )
                },
            }
        }
    }

    /// The constructors of an instance whose memory is shared, behind `out`.
    pub open spec fn shared_new(self, c: CtxV, out: Seq<Seq<char>>) -> LinesR {
        if self.memories.len() == 0 {
            Err(unsupported("shared memory missing"@))
        } else if self.memories[0].min_pages * 65536 > u64::MAX {
            Err(unsupported("memory too large"@))
        } else {
            let hosted = self.needs_host();
            let bytes = self.memories[0].min_pages * 65536;
            let param = if hosted {
                "imports: H"@
            } else {
                ""@
            };
            let o1 = out.push(("pub fn new("@ + param + ") -> Self {"@)).push(
                ("    let memory = SharedMemory::new("@ + dec(bytes as nat) + ");"@),
            );
            let o2 = if some_active_data(self.data, 0) {
                data_copies(
                    o1.push("    {"@).push("        let mut __m = memory.bytes();"@),
                    self.data,
                    0,
                    "__m"@,
                    "        "@,
                    self.data.len(),
                ).push("    }"@)
            } else {
                o1
            };
            let o3 = o2.push("    Self {"@);
            let o4 = if hosted {
                o3.push("        imports,"@)
            } else {
                o3
            };
            let o5 = self.common_starts(c, o4.push("        memory,"@)).push("    }"@).push("}"@);
            let with_param = if hosted {
                "mem: SharedMemory, imports: H"@
            } else {
                "mem: SharedMemory"@
            };
            let o6 = o5.push(""@).push(("pub fn with_memory("@ + with_param + ") -> Self {"@)).push(
                "    Self {"@,
            );
            let o7 = if hosted {
                o6.push("        imports,"@)
            } else {
                o6
            };
            let o8 = self.common_starts(c, o7.push("        memory: mem,"@)).push("    }"@).push(
                "}"@,
            );
            Ok(
                o8.push(""@).push(
                    "pub fn shared_memory(&self) -> SharedMemory { self.memory.clone() }"@,
                ),
            )
        }
    }

    /// The constructor of an instance that owns its memories, behind `out`.
    pub open spec fn plain_new(self, c: CtxV, out: Seq<Seq<char>>) -> LinesR {
        let hosted = self.needs_host();
        let later_data = self.mem_imported() && some_active_data(self.data, 0);
        let later_elem = self.table_imported() && some_active_elem(self.elements);
        let later = later_data || later_elem;
        let param = if hosted {
            "imports: H"@
        } else {
            ""@
        };
        let o1 = out.push(("pub fn new("@ + param + ") -> Self {"@)).push(
            if later {
                "    let mut instance = Self {"@
            } else {
                "    Self {"@
            },
        );
        let o2 = if hosted {
            o1.push("        imports,"@)
        } else {
            o1
        };
        match self.memory_starts(o2, self.memories.len()) {
            Err(e) => Err(e),
            Ok(o3) => {
                let o4 = self.common_starts(c, o3).push(
                    if later {
                        "    };"@
                    } else {
                        "    }"@
                    },
                );
                let o5 = if later_data {
                    data_copies(
                        o4,
                        self.data,
                        0,
                        "instance.mem_mut()"@,
                        "    "@,
                        self.data.len(),
                    )
                } else {
                    o4
                };
                let o6 = if later_elem {
                    elem_copies(
                        o5,
                        self.elements,
                        "instance.table_mut()"@,
                        "    "@,
                        self.elements.len(),
                    )
                } else {
                    o5
                };
                let o7 = if later {
                    o6.push("    instance"@)
                } else {
                    o6
                };
                Ok(o7.push("}"@))
            },
        }
    }
}

proof fn lemma_memory_starts_fail(p: PartsV, out: Seq<Seq<char>>, i: nat, n: nat)
    requires
        i <= n,
        p.memory_starts(out, i) is Err,
    ensures
        p.memory_starts(out, n) == p.memory_starts(out, i),
    decreases n - i,
{
    if i < n {
        lemma_memory_starts_fail(p, out, i, (n - 1) as nat);
    }
}

/// The bytes of the first memory pages.
fn page_bytes(pages: u64) -> (r: Option<u64>)
    ensures
        if pages * 65536 > u64::MAX {
            r is None
        } else {
            r is Some && r->0 == pages * 65536
        },
{
    pages.checked_mul(65536)
}

impl<'a> ModuleParts<'a> {
    /// Whether the host owns memory 0.
    fn is_mem_imported(&self) -> (r: bool)
        ensures
            r == self@.mem_imported(),
    {
        self.memories.len() > 0 && self.memories[0].imported
    }

    /// A module that imports any preopen/`path_open` function gains a real
    /// file-descriptor table (`wasi_fds`) and the file-backed fd_* variants.
    fn has_wasi_files(&self) -> (r: bool)
        ensures
            r == self@.keeps_files(),
    {
        let mut i: usize = 0;
        while i < self.imports.len()
            invariant
                i <= self.imports@.len(),
                forall|k: int| 0 <= k < i ==> !wasi_on_files((#[trigger] self@.imports[k]).wasi),
            decreases self.imports@.len() - i,
        {
            assert(self@.imports[i as int] == self.imports@[i as int]@);
            match &self.imports[i].wasi {
                Some(w) => if w.kind != WasiKind::Other {
                    return true;
                },
                None => {},
            }
            i += 1;
        }
        false
    }

    fn push_global_fields(&self, lines: &mut Lines) -> (r: Result<(), TranspileError>)
        ensures
            lines_result(
                r,
                final(lines)@,
                global_fields(
                    old(lines)@,
                    self@.globals,
                    self@.imported_globals.len(),
                    self@.kinds,
                    self@.globals.len(),
                ),
            ),
    {
        let ghost start = lines@;
        let base: usize = self.imported_globals.len();
        let mut i: usize = 0;
        while i < self.globals.len()
            invariant
                i <= self.globals@.len(),
                base == self@.imported_globals.len(),
                start == old(lines)@,
                global_fields(start, self@.globals, base as nat, self@.kinds, i as nat) == Ok::<
                    Seq<Seq<char>>,
                    FailV,
                >(lines@),
            decreases self.globals@.len() - i,
        {
            assert(self@.globals[i as int] == self.globals@[i as int]@);
            match rust_type(self.globals[i].ty, self.type_kinds) {
                Ok(rty) => {
                    let number: u128 = base as u128 + i as u128;
                    lines.add(Buf::lit("    g").wide(number).s(": ").s(rty).s(",").end());
                },
                Err(e) => {
                    proof {
                        lemma_global_fields_fail(
                            start,
                            self@.globals,
                            base as nat,
                            self@.kinds,
                            (i + 1) as nat,
                            self@.globals.len(),
                        );
                    }
                    return Err(e);
                },
            }
            i += 1;
        }
        Ok(())
    }

    fn push_memory_fields(&self, lines: &mut Lines)
        ensures
            final(lines)@ == memory_fields(
                old(lines)@,
                self@.mem_imported(),
                self@.memories.len(),
            ),
    {
        let hosted = self.is_mem_imported();
        let ghost start = lines@;
        let mut i: usize = 0;
        while i < self.memories.len()
            invariant
                i <= self.memories@.len(),
                hosted == self@.mem_imported(),
                lines@ == memory_fields(start, hosted, i as nat),
            decreases self.memories@.len() - i,
        {
            if !(i == 0 && hosted) {
                let field = memory_field_name(i);
                lines.add(Buf::lit("    ").s(&field).s(": Vec<u8>,").end());
            }
            i += 1;
        }
    }

    /// The fields of the instance.
    ///
    /// A single defined `shared` memory is a thread-shareable handle (cheap Arc
    /// clone) rather than an owned `Vec<u8>`, so sibling instances on other
    /// threads share the same linear memory. Otherwise each defined memory is an
    /// owned buffer: memory 0 keeps the field name `memory`, memory `i > 0` is
    /// `memory{i}`. An imported memory (only ever memory 0) lives in the host, so
    /// the instance owns no buffer for it; so do imported tables. A table entry is
    /// a function index; `u32::MAX` marks a null funcref.
    ///
    /// Files/directories opened through `path_open` are `wasi_fds`; descriptor N
    /// is `wasi_fds[N - 4]` (0-2 are stdio, 3 is the preopen directory). Each slot
    /// keeps the open handle and its containment-checked relative path. A retained
    /// passive segment is a `&'static` slice; `data.drop`/`elem.drop` reset it to
    /// an empty slice. `extern.convert_any` pushes a managed handle into
    /// `extern_box` and returns its index as the `u32` externref. A `cont.new`
    /// pushes a fresh resumable object into `conts` and returns its index; `None`
    /// marks a slot whose continuation has run to completion.
    fn push_instance_fields(&self, ctx: &ModuleCtx, lines: &mut Lines) -> (r: Result<
        (),
        TranspileError,
    >)
        requires
            ctx@.kinds == self@.kinds,
        ensures
            lines_result(r, final(lines)@, self@.instance_fields(ctx@, old(lines)@)),
    {
        if self.needs_host_trait() {
            lines.lit("    imports: H,");
        }
        if ctx.memory_shared {
            lines.lit("    memory: SharedMemory,");
        } else {
            self.push_memory_fields(lines);
        }
        if self.table.is_some() && !self.is_table_imported() {
            lines.lit("    table: Vec<u32>,");
        }
        self.push_global_fields(lines)?;
        if self.has_wasi_files() {
            lines.lit("    wasi_fds: Vec<Option<(std::fs::File, std::path::PathBuf)>>,");
        }
        push_data_lines(lines, self.data, true);
        push_elem_lines(lines, self.elements, true);
        if ctx.uses_extern_box {
            lines.lit("    extern_box: Vec<GcRef>,");
        }
        if ctx.cont.bodies.len() > 0 {
            lines.lit("    conts: Vec<Option<ContObj>>,");
        }
        Ok(())
    }

    /// The initial value of a table that the instance owns: every slot null, then
    /// each active element segment applied. An imported table is host-owned.
    fn push_table_start(&self, inner: &mut Lines)
        ensures
            final(inner)@ == self@.table_start(old(inner)@),
    {
        match self.table {
            Some(t) => {
                if t.imported {
                    return;
                }
                if !has_active_elem(self.elements) {
                    inner.add(Buf::lit("        table: vec![u32::MAX; ").n(t.min as u64).s("],")
                        .end());
                } else {
                    inner.lit("        table: {");
                    inner.add(Buf::lit("            let mut t: Vec<u32> = vec![u32::MAX; ")
                        .n(t.min as u64).s("];").end());
                    copy_active_elems(inner, self.elements, "t", "            ");
                    inner.lit("            t");
                    inner.lit("        },");
                }
            },
            None => {},
        }
    }

    /// The non-memory field initialisers (table, globals, wasi_fds, and the
    /// retained passive segments), pushed identically by both `Instance::new` and —
    /// for a shared module — `with_memory`. Only the memory field differs between
    /// the two, so factoring the rest keeps them in lock-step. Passive segments are
    /// retained as `&'static` slices of the module-scope statics, so
    /// `memory.init`/`table.init` can copy from them on demand.
    fn push_common_fields(&self, ctx: &ModuleCtx, inner: &mut Lines)
        ensures
            final(inner)@ == self@.common_starts(ctx@, old(inner)@),
    {
        self.push_table_start(inner);
        let ghost start = inner@;
        let base: usize = self.imported_globals.len();
        let mut i: usize = 0;
        while i < self.globals.len()
            invariant
                i <= self.globals@.len(),
                base == self@.imported_globals.len(),
                inner@ == global_starts(start, self@.globals, base as nat, i as nat),
            decreases self.globals@.len() - i,
        {
            assert(self@.globals[i as int] == self.globals@[i as int]@);
            let number: u128 = base as u128 + i as u128;
            inner.add(Buf::lit("        g").wide(number).s(": ").s(&self.globals[i].init).s(",")
                .end());
            i += 1;
        }
        if self.has_wasi_files() {
            inner.lit("        wasi_fds: Vec::new(),");
        }
        push_data_lines(inner, self.data, false);
        push_elem_lines(inner, self.elements, false);
        if ctx.uses_extern_box {
            inner.lit("        extern_box: Vec::new(),");
        }
        if ctx.cont.bodies.len() > 0 {
            inner.lit("        conts: Vec::new(),");
        }
    }

    /// Each defined memory's field literal: zero-filled, then each active data
    /// segment for that memory copied in. Memory 0 keeps the `memory` field name;
    /// memory `i > 0` is `memory{i}`.
    fn push_memory_starts(&self, inner: &mut Lines) -> (r: Result<(), TranspileError>)
        ensures
            lines_result(
                r,
                final(inner)@,
                self@.memory_starts(old(inner)@, self@.memories.len()),
            ),
    {
        let hosted = self.is_mem_imported();
        let ghost start = inner@;
        let n: usize = self.memories.len();
        let mut i: usize = 0;
        while i < n
            invariant
                i <= n,
                n == self@.memories.len(),
                hosted == self@.mem_imported(),
                start == old(inner)@,
                self@.memory_starts(start, i as nat) == Ok::<Seq<Seq<char>>, FailV>(inner@),
            decreases n - i,
        {
            if !(i == 0 && hosted) {
                let field = memory_field_name(i);
                let mem: u32 = match index_u32(i) {
                    Ok(m) => m,
                    Err(e) => {
                        proof {
                            lemma_memory_starts_fail(self@, start, (i + 1) as nat, n as nat);
                        }
                        return Err(e);
                    },
                };
                let bytes: u64 = match page_bytes(self.memories[i].min_pages) {
                    Some(b) => b,
                    None => {
                        proof {
                            lemma_memory_starts_fail(self@, start, (i + 1) as nat, n as nat);
                        }
                        return Err(no_support("memory too large"));
                    },
                };
                if !has_active_data(self.data, mem) {
                    inner.add(Buf::lit("        ").s(&field).s(": vec![0u8; ").n(bytes as u64)
                        .s("],").end());
                } else {
                    inner.add(Buf::lit("        ").s(&field).s(": {").end());
                    inner.add(Buf::lit("            let mut m: Vec<u8> = vec![0u8; ")
                        .n(bytes as u64).s("];").end());
                    copy_active_data(inner, self.data, mem, "m", "            ");
                    inner.lit("            m");
                    inner.lit("        },");
                }
            }
            i += 1;
        }
        Ok(())
    }

    /// A single defined shared memory. `new` creates a fresh `SharedMemory`,
    /// applies this module's active data segments into it *once*, and inits
    /// globals/tables; `with_memory` joins an existing handle (sibling instance on
    /// another thread), inits its own globals/tables, and does NOT re-apply data —
    /// the memory is already initialised.
    fn push_shared_new(&self, ctx: &ModuleCtx, inner: &mut Lines) -> (r: Result<
        (),
        TranspileError,
    >)
        ensures
            lines_result(r, final(inner)@, self@.shared_new(ctx@, old(inner)@)),
    {
        if self.memories.len() == 0 {
            return Err(no_support("shared memory missing"));
        }
        let bytes: u64 = match page_bytes(self.memories[0].min_pages) {
            Some(b) => b,
            None => return Err(no_support("memory too large")),
        };
        let hosted = self.needs_host_trait();
        let param = if hosted {
            "imports: H"
        } else {
            ""
        };
        inner.add(Buf::lit("pub fn new(").s(param).s(") -> Self {").end());
        inner.add(Buf::lit("    let memory = SharedMemory::new(").n(bytes as u64).s(");").end());
        if has_active_data(self.data, 0) {
            inner.lit("    {");
            inner.lit("        let mut __m = memory.bytes();");
            copy_active_data(inner, self.data, 0, "__m", "        ");
            inner.lit("    }");
        }
        inner.lit("    Self {");
        if hosted {
            inner.lit("        imports,");
        }
        inner.lit("        memory,");
        self.push_common_fields(ctx, inner);
        inner.lit("    }");
        inner.lit("}");
        let with_param = if hosted {
            "mem: SharedMemory, imports: H"
        } else {
            "mem: SharedMemory"
        };
        inner.lit("");
        inner.add(Buf::lit("pub fn with_memory(").s(with_param).s(") -> Self {").end());
        inner.lit("    Self {");
        if hosted {
            inner.lit("        imports,");
        }
        inner.lit("        memory: mem,");
        self.push_common_fields(ctx, inner);
        inner.lit("    }");
        inner.lit("}");
        inner.lit("");
        inner.lit("pub fn shared_memory(&self) -> SharedMemory { self.memory.clone() }");
        Ok(())
    }

    /// The constructor. Imported memory/table are host-owned, so their active
    /// data/elements cannot be written into a `memory`/`table` field literal;
    /// instead the instance is bound and the segments are copied into the host
    /// storage through `mem_mut()`/`table_mut()` after construction, in order. An
    /// out-of-bounds write panics there, faithfully reproducing a wasm
    /// instantiation trap when a segment does not fit the host storage. Only memory
    /// 0 can be imported, so only its segments need post-construction copying.
    fn push_plain_new(&self, ctx: &ModuleCtx, inner: &mut Lines) -> (r: Result<
        (),
        TranspileError,
    >)
        ensures
            lines_result(r, final(inner)@, self@.plain_new(ctx@, old(inner)@)),
    {
        let hosted = self.needs_host_trait();
        let later_data = self.is_mem_imported() && has_active_data(self.data, 0);
        let later_elem = self.is_table_imported() && has_active_elem(self.elements);
        let later = later_data || later_elem;
        let param = if hosted {
            "imports: H"
        } else {
            ""
        };
        inner.add(Buf::lit("pub fn new(").s(param).s(") -> Self {").end());
        if later {
            inner.lit("    let mut instance = Self {");
        } else {
            inner.lit("    Self {");
        }
        if hosted {
            inner.lit("        imports,");
        }
        self.push_memory_starts(inner)?;
        self.push_common_fields(ctx, inner);
        if later {
            inner.lit("    };");
        } else {
            inner.lit("    }");
        }
        if later_data {
            copy_active_data(inner, self.data, 0, "instance.mem_mut()", "    ");
        }
        if later_elem {
            copy_active_elems(inner, self.elements, "instance.table_mut()", "    ");
        }
        if later {
            inner.lit("    instance");
        }
        inner.lit("}");
        Ok(())
    }
}

// ---------------------------------------------------------------------------
// Methods
// ---------------------------------------------------------------------------
/// The accessors of memory `i`, behind `out`.
pub open spec fn memory_access(out: Seq<Seq<char>>, hosted: bool, i: nat) -> Seq<Seq<char>> {
    let get = if i == 0 {
        "mem"@
    } else {
        ("mem"@ + dec(i as nat))
    };
    let borrow = if i == 0 && hosted {
        "self.imports.memory()"@
    } else {
        ("&self."@ + memory_field(i))
    };
    let borrow_mut = if i == 0 && hosted {
        "self.imports.memory_mut()"@
    } else {
        ("&mut self."@ + memory_field(i))
    };
    out.push(""@).push(("fn "@ + get + "(&self) -> &[u8] { "@ + borrow + " }"@)).push(
        ("fn "@ + get + "_mut(&mut self) -> &mut Vec<u8> { "@ + borrow_mut + " }"@),
    ).push(("pub fn "@ + memory_field(i) + "(&mut self) -> &mut Vec<u8> { "@ + borrow_mut + " }"@))
}

/// The accessors of the first `n` memories, behind `out`.
pub open spec fn memory_accesses(
    out: Seq<Seq<char>>,
    memories: Seq<MemInfo>,
    n: nat,
) -> Seq<Seq<char>>
    decreases n,
{
    if n == 0 {
        out
    } else {
        memory_access(
            memory_accesses(out, memories, (n - 1) as nat),
            memories[n - 1].imported,
            (n - 1) as nat,
        )
    }
}

/// Whether one of the first `n` imports is the WASI function with this method.
pub open spec fn wasi_before(imports: Seq<ImportV>, method: Seq<char>, n: int) -> bool {
    exists|j: int| 0 <= j < n && is_wasi((#[trigger] imports[j]).wasi, method)
}

/// Whether this is the WASI function with this method.
pub open spec fn is_wasi(w: Option<crate::codegen::context::WasiV>, method: Seq<char>) -> bool {
    match w {
        Some(f) => f.method == method,
        None => false,
    }
}

/// The methods of the WASI functions among the first `n` imports, each once.
pub open spec fn wasi_methods(
    out: Seq<Seq<char>>,
    imports: Seq<ImportV>,
    files: bool,
    n: nat,
) -> Seq<Seq<char>>
    decreases n,
{
    if n == 0 {
        out
    } else {
        let front = wasi_methods(out, imports, files, (n - 1) as nat);
        match imports[n - 1].wasi {
            Some(w) => if wasi_before(imports, w.method, n - 1) {
                front
            } else if files {
                front.push(""@) + w.file_lines
            } else {
                front.push(""@) + w.lines
            },
            None => front,
        }
    }
}

/// The memories that some helper is used on.
pub open spec fn helper_mems(used: Set<(Helper, u32)>) -> Set<u32> {
    Set::new(|m: u32| exists|h: Helper| used.contains((h, m)))
}

/// The methods of those of the given helpers that are used on memory `mem`.
pub open spec fn helper_methods(
    out: Seq<Seq<char>>,
    helpers: Seq<Helper>,
    used: Set<(Helper, u32)>,
    mem: u32,
    shared: bool,
) -> Seq<Seq<char>>
    decreases helpers.len(),
{
    if helpers.len() == 0 {
        out
    } else {
        let front = helper_methods(out, helpers.drop_last(), used, mem, shared);
        let h = helpers.last();
        if !used.contains((h, mem)) {
            front
        } else if shared {
            front.push(""@) + shared_source(h)
        } else {
            front.push(""@) + helper_source(h, mem)
        }
    }
}

/// The methods of the used helpers, memory by memory.
pub open spec fn all_helper_methods(
    out: Seq<Seq<char>>,
    mems: Seq<u32>,
    used: Set<(Helper, u32)>,
    shared: bool,
) -> Seq<Seq<char>>
    decreases mems.len(),
{
    if mems.len() == 0 {
        out
    } else {
        helper_methods(
            all_helper_methods(out, mems.drop_last(), used, shared),
            helper_list(),
            used,
            mems.last(),
            shared,
        )
    }
}

/// The lines of the functions' sources, each behind a blank line.
pub open spec fn source_lines(out: Seq<Seq<char>>, sources: Seq<Seq<char>>) -> Seq<Seq<char>>
    decreases sources.len(),
{
    if sources.len() == 0 {
        out
    } else {
        source_lines(out, sources.drop_last()).push(""@) + text_lines(sources.last())
    }
}

impl PartsV {
    /// Everything inside the instance's `impl`, not indented yet.
    pub open spec fn impl_lines(
        self,
        c: CtxV,
        sources: Seq<Seq<char>>,
        used: Set<(Helper, u32)>,
        sigs: Seq<u32>,
    ) -> LinesR {
        let started = if c.memory_shared {
            self.shared_new(c, Seq::empty())
        } else {
            self.plain_new(c, Seq::empty())
        };
        match started {
            Err(e) => Err(e),
            Ok(o1) => {
                let o2 = if c.memory_shared {
                    o1
                } else {
                    memory_accesses(o1, self.memories, self.memories.len())
                };
                let o3 = match self.table {
                    Some(t) => if t.imported {
                        o2.push(""@).push(
                            "fn table(&self) -> &[u32] { self.imports.table() }"@,
                        ).push(
                            "fn table_mut(&mut self) -> &mut Vec<u32> { self.imports.table_mut() }"@,
                        )
                    } else {
                        o2.push(""@).push("fn table(&self) -> &[u32] { &self.table }"@).push(
                            "fn table_mut(&mut self) -> &mut Vec<u32> { &mut self.table }"@,
                        )
                    },
                    None => o2,
                };
                let o4 = wasi_methods(o3, self.imports, self.keeps_files(), self.imports.len());
                let o5 = all_helper_methods(
                    o4,
                    in_order(helper_mems(used)),
                    used,
                    c.memory_shared,
                );
                match c.dispatch_methods(o5, sigs, self.needs_host()) {
                    Err(e) => Err(e),
                    Ok(o6) => {
                        let o7 = if c.cont.bodies.len() > 0 {
                            c.cont.method_lines(o6.push(""@), c.kinds)
                        } else {
                            o6
                        };
                        Ok(source_lines(o7, sources))
                    },
                }
            },
        }
    }

    /// What stands in front of the instance: the host's trait, the runtime of a
    /// shared memory, the statics, and the continuations' runtime.
    pub open spec fn module_head(self, c: CtxV, sigs: Seq<u32>) -> LinesR {
        let hosted = if self.needs_host() {
            match c.imports_trait(
                Seq::empty(),
                self.imported_globals,
                self.mem_imported(),
                self.table_imported(),
                sigs,
            ) {
                Err(e) => Err(e),
                Ok(o) => Ok(o.push(""@)),
            }
        } else {
            Ok(Seq::empty())
        };
        match hosted {
            Err(e) => Err(e),
            Ok(o1) => {
                let o2 = if c.memory_shared {
                    (o1 + text_lines(SHARED_RUNTIME@)).push(""@)
                } else {
                    o1
                };
                let o3 = elem_statics(
                    data_statics(o2, self.data, self.data.len()),
                    self.elements,
                    self.elements.len(),
                );
                if c.cont.bodies.len() > 0 {
                    match c.cont.runtime_lines(o3, c.kinds) {
                        Err(e) => Err(e),
                        Ok(o4) => Ok(o4.push(""@)),
                    }
                } else {
                    Ok(o3)
                }
            },
        }
    }

    /// The lines of a stateful module.
    pub open spec fn module_lines(
        self,
        c: CtxV,
        sources: Seq<Seq<char>>,
        used: Set<(Helper, u32)>,
        sigs: Seq<u32>,
    ) -> LinesR {
        match self.module_head(c, sigs) {
            Err(e) => Err(e),
            Ok(o1) => match self.instance_fields(
                c,
                o1.push("#[allow(dead_code)]"@).push(
                    ("pub struct Instance"@ + self.bound_generics() + " {"@),
                ),
            ) {
                Err(e) => Err(e),
                Ok(o2) => match self.impl_lines(c, sources, used, sigs) {
                    Err(e) => Err(e),
                    Ok(inner) => {
                        let o3 = o2.push("}"@).push(""@).push(ALLOW@).push(
                            ("impl"@ + self.bound_generics() + " Instance"@ + self.named_generics()
                                + " {"@),
                        );
                        let o4 = (o3 + indented(inner)).push("}"@);
                        if self.needs_host() && sigs.len() > 0 {
                            c.registries(o4, sigs)
                        } else {
                            Ok(o4)
                        }
                    },
                },
            },
        }
    }

    /// The source of a stateful module.
    pub open spec fn module_text(
        self,
        c: CtxV,
        sources: Seq<Seq<char>>,
        used: Set<(Helper, u32)>,
        dispatch_sigs: Set<u32>,
    ) -> Result<Seq<char>, FailV> {
        match self.module_lines(c, sources, used, in_order(dispatch_sigs)) {
            Err(e) => Err(e),
            Ok(lines) => Ok(joined(lines, "\n"@) + "\n"@),
        }
    }
}

/// Emits the methods of the WASI functions, each once, in first-import order. They
/// are inherent methods backed by `self.mem()`.
fn push_wasi(inner: &mut Lines, imports: &Vec<ImportInfo>, files: bool)
    ensures
        final(inner)@ == wasi_methods(
            old(inner)@,
            crate::codegen::context::imports_view(imports@),
            files,
            imports@.len(),
        ),
{
    let ghost all = crate::codegen::context::imports_view(imports@);
    let ghost start = inner@;
    let mut i: usize = 0;
    while i < imports.len()
        invariant
            i <= imports@.len(),
            all == crate::codegen::context::imports_view(imports@),
            inner@ == wasi_methods(start, all, files, i as nat),
        decreases imports@.len() - i,
    {
        assert(all[i as int] == imports@[i as int]@);
        match &imports[i].wasi {
            Some(w) => {
                let mut emitted = false;
                let mut j: usize = 0;
                while j < i
                    invariant
                        j <= i <= imports@.len(),
                        all == crate::codegen::context::imports_view(imports@),
                        emitted == wasi_before(all, w.method@, j as int),
                    decreases i - j,
                {
                    assert(all[j as int] == imports@[j as int]@);
                    match &imports[j].wasi {
                        Some(v) => if same(v.method.as_str(), w.method.as_str()) {
                            assert(is_wasi(all[j as int].wasi, w.method@));
                            emitted = true;
                        },
                        None => {},
                    }
                    j += 1;
                }
                if !emitted {
                    inner.lit("");
                    if files {
                        push_all(inner, &w.file_lines);
                    } else {
                        push_all(inner, &w.lines);
                    }
                }
            },
            None => {},
        }
        i += 1;
    }
}

/// Appends copies of lines.
fn push_all(out: &mut Lines, lines: &Vec<String>)
    ensures
        final(out)@ == old(out)@ + texts(lines@),
{
    let ghost start = out@;
    let mut i: usize = 0;
    assert(out@ =~= start + texts(lines@).take(0));
    while i < lines.len()
        invariant
            i <= lines@.len(),
            out@ =~= start + texts(lines@).take(i as int),
        decreases lines@.len() - i,
    {
        out.add(lines[i].clone());
        i += 1;
    }
    assert(texts(lines@).take(lines@.len() as int) =~= texts(lines@));
}

/// The memories that some helper is used on, in ascending order.
fn used_memories(used: &HelperSet) -> (r: Vec<u32>)
    ensures
        r@ == in_order(helper_mems(used@)),
{
    let mut out: Vec<u32> = Vec::new();
    assert(out@.to_set() =~= Set::<u32>::empty());
    let mut i: usize = 0;
    while i < used.v.len()
        invariant
            i <= used.v@.len(),
            increasing(out@),
            forall|m: u32|
                #![trigger out@.to_set().contains(m)]
                out@.to_set().contains(m) <==> exists|k: int|
                    0 <= k < i && (#[trigger] used.v@[k]).1 == m,
        decreases used.v@.len() - i,
    {
        let fresh = sorted_insert(&mut out, used.v[i].1);
        i += 1;
    }
    proof {
        assert forall|m: u32| out@.to_set().contains(m) == helper_mems(used@).contains(m) by {
            if out@.to_set().contains(m) {
                let k = choose|k: int| 0 <= k < used.v@.len() && (#[trigger] used.v@[k]).1 == m;
                assert(used.v@.contains(used.v@[k]));
                assert(used@.contains((used.v@[k].0, m)));
            }
            if helper_mems(used@).contains(m) {
                let h = choose|h: Helper| used@.contains((h, m));
                assert(used.v@.contains((h, m)));
                let k = choose|k: int| 0 <= k < used.v@.len() && used.v@[k] == (h, m);
                assert(used.v@[k].1 == m);
            }
        }
        assert(out@.to_set() =~= helper_mems(used@));
        lemma_in_order(out@);
    }
    out
}

/// Emit each used helper method, grouped by memory index (0 first) then in the
/// canonical order within each memory. A shared module (single memory 0) emits
/// helpers that lock `self.memory.bytes()` once instead of borrowing
/// `self.mem()`.
fn push_helpers(inner: &mut Lines, used: &HelperSet, shared: bool)
    ensures
        final(inner)@ == all_helper_methods(
            old(inner)@,
            in_order(helper_mems(used@)),
            used@,
            shared,
        ),
{
    let mems = used_memories(used);
    let order = helper_order();
    let ghost start = inner@;
    let mut i: usize = 0;
    while i < mems.len()
        invariant
            i <= mems@.len(),
            order@ == helper_list(),
            inner@ == all_helper_methods(start, mems@.take(i as int), used@, shared),
        decreases mems@.len() - i,
    {
        assert(mems@.take(i + 1).drop_last() =~= mems@.take(i as int));
        let mem: u32 = mems[i];
        let ghost front = inner@;
        let mut k: usize = 0;
        while k < order.len()
            invariant
                k <= order@.len(),
                inner@ == helper_methods(front, order@.take(k as int), used@, mem, shared),
            decreases order@.len() - k,
        {
            assert(order@.take(k + 1).drop_last() =~= order@.take(k as int));
            let h = order[k];
            if used.contains(h, mem) {
                inner.lit("");
                if shared {
                    inner.extend(Lines { v: shared_helper_lines(h) });
                } else {
                    inner.extend(Lines { v: helper_lines(h, mem) });
                }
            }
            k += 1;
        }
        assert(order@.take(order@.len() as int) =~= order@);
        i += 1;
    }
    assert(mems@.take(mems@.len() as int) =~= mems@);
}

fn push_sources(inner: &mut Lines, sources: &Vec<String>)
    ensures
        final(inner)@ == source_lines(old(inner)@, texts(sources@)),
{
    let ghost all = texts(sources@);
    let ghost start = inner@;
    let mut i: usize = 0;
    while i < sources.len()
        invariant
            i <= sources@.len(),
            all == texts(sources@),
            inner@ == source_lines(start, all.take(i as int)),
        decreases sources@.len() - i,
    {
        assert(all.take(i + 1).drop_last() =~= all.take(i as int));
        inner.lit("");
        inner.extend(split_lines(sources[i].as_str()));
        i += 1;
    }
    assert(all.take(all.len() as int) =~= all);
}

/// Uniform memory accessors so the load/store/bulk helpers are identical for
/// defined and imported memory: a defined buffer is a field, an imported one (only
/// ever memory 0) is lent by the host through the `Imports` trait. Memory 0 has
/// the names `mem`/`mem_mut`/`memory`; memory `i > 0` is
/// `mem{i}`/`mem{i}_mut`/`memory{i}`, each backed by its own field. The public
/// accessor lets a host embedding this `Instance` marshal bytes into and out of
/// linear memory; `&mut` covers both reads and writes since a host driving the
/// module already holds it mutably.
fn push_memory_access(inner: &mut Lines, memories: &Vec<MemInfo>)
    ensures
        final(inner)@ == memory_accesses(old(inner)@, memories@, memories@.len()),
{
    let ghost start = inner@;
    let mut i: usize = 0;
    while i < memories.len()
        invariant
            i <= memories@.len(),
            inner@ == memory_accesses(start, memories@, i as nat),
        decreases memories@.len() - i,
    {
        let hosted = memories[i].imported;
        let get = if i == 0 {
            lit("mem")
        } else {
            Buf::lit("mem").n(i as u64).end()
        };
        let field = memory_field_name(i);
        let borrow = if i == 0 && hosted {
            lit("self.imports.memory()")
        } else {
            Buf::lit("&self.").s(&field).end()
        };
        let borrow_mut = if i == 0 && hosted {
            lit("self.imports.memory_mut()")
        } else {
            Buf::lit("&mut self.").s(&field).end()
        };
        inner.lit("");
        inner.add(Buf::lit("fn ").s(&get).s("(&self) -> &[u8] { ").s(&borrow).s(" }").end());
        inner.add(Buf::lit("fn ").s(&get).s("_mut(&mut self) -> &mut Vec<u8> { ").s(&borrow_mut)
            .s(" }").end());
        inner.add(Buf::lit("pub fn ").s(&field).s("(&mut self) -> &mut Vec<u8> { ").s(&borrow_mut)
            .s(" }").end());
        i += 1;
    }
}

impl<'a> ModuleParts<'a> {
    /// Everything inside the instance's `impl`, not indented yet.
    ///
    /// A shared module emits no memory accessors: `mem()`/`mem_mut()` hand out
    /// plain borrows that cannot span a `Mutex` lock, and the transformed helpers
    /// lock `self.memory.bytes()` directly instead. `shared_memory()` (emitted with
    /// `new`) is the public handle accessor.
    fn render_impl(
        &self,
        ctx: &ModuleCtx,
        sources: &Vec<String>,
        used: &HelperSet,
        sigs: &Vec<u32>,
    ) -> (r: Result<Lines, TranspileError>)
        requires
            ctx@.n_funcs() <= usize::MAX,
        ensures
            match self@.impl_lines(ctx@, texts(sources@), used@, sigs@) {
                Ok(t) => r is Ok && r->Ok_0@ == t,
                Err(e) => r is Err && r->Err_0@ == e,
            },
    {
        let mut inner = Lines::new();
        if ctx.memory_shared {
            self.push_shared_new(ctx, &mut inner)?;
        } else {
            self.push_plain_new(ctx, &mut inner)?;
            push_memory_access(&mut inner, self.memories);
        }
        // Uniform table accessors, mirroring the memory ones: a defined table is a
        // field, an imported one is lent by the host through the `Imports` trait.
        match self.table {
            Some(t) => {
                inner.lit("");
                if t.imported {
                    inner.lit("fn table(&self) -> &[u32] { self.imports.table() }");
                    inner.lit(
                        "fn table_mut(&mut self) -> &mut Vec<u32> { self.imports.table_mut() }",
                    );
                } else {
                    inner.lit("fn table(&self) -> &[u32] { &self.table }");
                    inner.lit("fn table_mut(&mut self) -> &mut Vec<u32> { &mut self.table }");
                }
            },
            None => {},
        }
        push_wasi(&mut inner, self.imports, self.has_wasi_files());
        push_helpers(&mut inner, used, ctx.memory_shared);
        ctx.all_dispatch_lines(&mut inner, sigs, self.needs_host_trait())?;
        // The continuation allocator (`cont.new`) and stepper (`resume`).
        if ctx.cont.bodies.len() > 0 {
            inner.lit("");
            ctx.continuation_method_lines(&mut inner);
        }
        push_sources(&mut inner, sources);
        Ok(inner)
    }

    /// What stands in front of the instance.
    fn render_head(&self, ctx: &ModuleCtx, sigs: &Vec<u32>) -> (r: Result<Lines, TranspileError>)
        requires
            ctx@.kinds == self@.kinds,
        ensures
            match self@.module_head(ctx@, sigs@) {
                Ok(t) => r is Ok && r->Ok_0@ == t,
                Err(e) => r is Err && r->Err_0@ == e,
            },
    {
        let mut lines = Lines::new();
        if self.needs_host_trait() {
            ctx.import_trait_lines(
                &mut lines,
                self.imported_globals,
                self.is_mem_imported(),
                self.is_table_imported(),
                sigs,
            )?;
            lines.lit("");
        }
        // A shared module emits the thread-shareable `SharedMemory` runtime once,
        // at module scope, ahead of the `Instance` type that stores it.
        if ctx.memory_shared {
            lines.extend(shared_memory_runtime_lines());
            lines.lit("");
        }
        // Module-scope statics backing the retained passive segments.
        push_data_statics(&mut lines, self.data);
        push_elem_statics(&mut lines, self.elements);
        // The continuations' runtime: the step result, the per-continuation frame
        // structs and the tagged object stored in the instance's `conts` table.
        if ctx.cont.bodies.len() > 0 {
            ctx.continuation_runtime_lines(&mut lines)?;
            lines.lit("");
        }
        Ok(lines)
    }

    /// Render the `struct Instance` and its `impl` for a stateful module. When the
    /// module imports functions, a `pub trait Imports` is emitted and `Instance`
    /// becomes generic over a host `H: Imports` that it stores and dispatches to.
    pub fn render_module(
        &self,
        ctx: &ModuleCtx,
        sources: &Vec<String>,
        used: &HelperSet,
        dispatch_sigs: &HashSet<u32>,
    ) -> (r: Result<String, TranspileError>)
        requires
            ctx@.kinds == self@.kinds,
            ctx@.n_funcs() <= usize::MAX,
        ensures
            crate::error::text_result(
                r,
                self@.module_text(ctx@, texts(sources@), used@, dispatch_sigs@),
            ),
    {
        let sigs = sorted_ids(dispatch_sigs);
        let mut lines = self.render_head(ctx, &sigs)?;
        let (bound, named) = self.host_generics();
        lines.lit("#[allow(dead_code)]");
        lines.add(Buf::lit("pub struct Instance").s(bound).s(" {").end());
        self.push_instance_fields(ctx, &mut lines)?;
        lines.lit("}");
        lines.lit("");
        lines.lit(ALLOW);
        lines.add(Buf::lit("impl").s(bound).s(" Instance").s(named).s(" {").end());
        // Everything inside the `impl` is collected unindented, then indented once.
        let inner = self.render_impl(ctx, sources, used, &sigs)?;
        lines.extend(Lines { v: indent(&inner.v) });
        lines.lit("}");
        // Module-scope registries of outside functions, one per `call_indirect`
        // signature, for modules that can receive outside handles.
        if self.needs_host_trait() && sigs.len() > 0 {
            ctx.extern_registry_lines(&mut lines, &sigs)?;
        }
        let mut out = join(&lines.v, "\n");
        out.append("\n");
        Ok(out)
    }
}

} // verus!
