use wasm2rs::codegen::driver::{generate_module, renders};
use wasm2rs::codegen::files::ModuleFiles;
use wasm2rs::codegen::info::{
    Body, CompositeKind, DataSegment, ElemSegment, FieldInfo, FuncInput, GlobalInfo, ImportInfo,
    ImportedGlobalInfo, MemInfo, TableInfo, TagInfo, TypeSig,
};
use wasm2rs::codegen::nesting::MAX_LINE_DEPTH;
use wasm2rs::codegen::parts::ModuleParts;
use wasm2rs::codegen::split::generate_module_split;
use wasm2rs::decode::reader::decode_body;
use wasm2rs::error::TranspileError;
use wasm2rs::wasm::{AbstractHeapType, HeapType, RefType, StorageType, TypeIndex, ValType};

/// A module with everything empty but what a test sets.
struct Module {
    imports: Vec<ImportInfo>,
    imported_globals: Vec<ImportedGlobalInfo>,
    funcs: Vec<FuncInput>,
    types: Vec<TypeSig>,
    type_kinds: Vec<CompositeKind>,
    supers: Vec<Option<u32>>,
    globals: Vec<GlobalInfo>,
    memories: Vec<MemInfo>,
    data: Vec<DataSegment>,
    table: Option<TableInfo>,
    elements: Vec<ElemSegment>,
    tags: Vec<TagInfo>,
    split_dispatch: usize,
    unsafe_memory: bool,
}

impl Module {
    fn new() -> Module {
        Module {
            imports: vec![],
            imported_globals: vec![],
            funcs: vec![],
            types: vec![],
            type_kinds: vec![],
            supers: vec![],
            globals: vec![],
            memories: vec![],
            data: vec![],
            table: None,
            elements: vec![],
            tags: vec![],
            split_dispatch: 0,
            unsafe_memory: false,
        }
    }

    fn func(mut self, params: &[ValType], results: &[ValType], bytes: &[u8]) -> Module {
        self.funcs.push(FuncInput {
            params: params.to_vec(),
            results: results.to_vec(),
            body: body(bytes),
        });
        self
    }

    fn memory(mut self, min_pages: u64, shared: bool) -> Module {
        self.memories.push(MemInfo { min_pages, imported: false, shared });
        self
    }

    fn sig(mut self, params: &[ValType], results: &[ValType]) -> Module {
        self.types.push(TypeSig { params: params.to_vec(), results: results.to_vec() });
        self.type_kinds.push(CompositeKind::Func);
        self.supers.push(None);
        self
    }

    fn kind(mut self, kind: CompositeKind) -> Module {
        self.types.push(TypeSig { params: vec![], results: vec![] });
        self.type_kinds.push(kind);
        self.supers.push(None);
        self
    }

    fn parts(&self) -> ModuleParts<'_> {
        ModuleParts {
            imports: &self.imports,
            imported_globals: &self.imported_globals,
            funcs: &self.funcs,
            types: &self.types,
            type_kinds: &self.type_kinds,
            supers: &self.supers,
            globals: &self.globals,
            memories: &self.memories,
            data: &self.data,
            table: self.table,
            elements: &self.elements,
            tags: &self.tags,
            unsafe_memory: self.unsafe_memory,
            split_dispatch: self.split_dispatch,
        }
    }

    fn source(&self) -> String {
        match generate_module(&self.parts()) {
            Ok(s) => s,
            Err(e) => panic!("{}", message(&e)),
        }
    }

    fn failure(&self) -> String {
        match generate_module(&self.parts()) {
            Ok(s) => panic!("{s}"),
            Err(e) => message(&e),
        }
    }
}

fn message(e: &TranspileError) -> String {
    match e {
        TranspileError::Unsupported(m) => m.clone(),
        TranspileError::StackUnderflow => "underflow".to_string(),
        TranspileError::Malformed => "malformed".to_string(),
    }
}

/// A body out of its bytes: the declared locals, then the instructions.
fn body(bytes: &[u8]) -> Body {
    decode_body(&bytes.to_vec())
}

/// The text from the first function on.
fn functions(source: &str) -> String {
    match source.find("pub fn func") {
        Some(i) => source[i..].to_string(),
        None => source.to_string(),
    }
}

/// The text made of `parts`, each on a line of its own.
fn lines(parts: &[&str]) -> String {
    let mut out = String::new();
    for p in parts {
        out.push_str(p);
        out.push('\n');
    }
    out
}

const ALLOW: &str =
    "#[allow(dead_code, unused_variables, unused_assignments, unused_mut, unused_parens)]";

const I32: ValType = ValType::I32;

const I64: ValType = ValType::I64;
const F64: ValType = ValType::F64;
const V128: ValType = ValType::V128;

const FUNCREF: ValType = ValType::Ref(RefType {
    nullable: true,
    heap: HeapType::Abstract { shared: false, ty: AbstractHeapType::Func },
});

fn typed(index: u32) -> ValType {
    ValType::Ref(RefType { nullable: true, heap: HeapType::Concrete(TypeIndex::Module(index)) })
}

#[test]
fn adds_two_numbers() {
    let m = Module::new().func(&[I32, I32], &[I32], &[0, 0x20, 0, 0x20, 1, 0x6a, 0x0b]);
    assert_eq!(
        functions(&m.source()),
        lines(&[
            "pub fn func0(l0: i32, l1: i32) -> i32 {",
            "    l0.wrapping_add(l1)",
            "}",
        ])
    );
}

#[test]
fn counts_down_in_a_loop() {
    // loop; local.get 0; i32.const 1; i32.sub; local.tee 0; br_if 0; end
    let m = Module::new().func(
        &[I32],
        &[],
        &[0, 0x03, 0x40, 0x20, 0, 0x41, 1, 0x6b, 0x22, 0, 0x0d, 0, 0x0b, 0x0b],
    );
    assert_eq!(
        functions(&m.source()),
        lines(&[
            "pub fn func0(mut l0: i32) {",
            "    'l0: loop {",
            "        let v0: i32 = l0.wrapping_sub(1i32);",
            "        l0 = v0;",
            "        if v0 != 0 { continue 'l0; }",
            "        break 'l0;",
            "    }",
            "}",
        ])
    );
}

#[test]
fn keeps_memory_and_globals_in_an_instance() {
    let mut m = Module::new().memory(1, false).func(&[I32], &[I32], &[0, 0x20, 0, 0x28, 2, 4, 0x0b]);
    m.data.push(DataSegment { offset: Some(8), mem_index: 0, bytes: vec![1, 2, 3] });
    m.globals.push(GlobalInfo { ty: I32, mutable: true, init: "5i32".to_string() });
    let parts = [
        "#[allow(dead_code)]",
        "pub struct Instance {",
        "    memory: Vec<u8>,",
        "    g0: i32,",
        "}",
        "",
        ALLOW,
        "impl Instance {",
        "    pub fn new() -> Self {",
        "        Self {",
        "            memory: {",
        "                let mut m: Vec<u8> = vec![0u8; 65536];",
        "                m[8..11].copy_from_slice(&[",
        "1u8, 2u8, 3u8,]);",
        "                m",
        "            },",
        "            g0: 5i32,",
        "        }",
        "    }",
        "",
        "    fn mem(&self) -> &[u8] { &self.memory }",
        "    fn mem_mut(&mut self) -> &mut Vec<u8> { &mut self.memory }",
        "    pub fn memory(&mut self) -> &mut Vec<u8> { &mut self.memory }",
        "",
        "    fn r32(&self, addr: i32, offset: u32) -> i32 {",
        "        let a = addr as u32 as usize + offset as usize;",
        "        i32::from_le_bytes(self.mem()[a..a + 4].try_into().unwrap())",
        "    }",
        "",
        "    pub fn func0(&mut self, l0: i32) -> i32 {",
        "        self.r32(l0, 4u32)",
        "    }",
        "}",
    ];
    assert_eq!(m.source(), lines(&parts));
}

#[test]
fn chooses_between_two_arms() {
    // local.get 0; if (result i32); i32.const 1; else; i32.const 2; end
    let m = Module::new().func(
        &[I32],
        &[I32],
        &[0, 0x20, 0, 0x04, 0x7f, 0x41, 1, 0x05, 0x41, 2, 0x0b, 0x0b],
    );
    assert_eq!(
        functions(&m.source()),
        lines(&[
            "pub fn func0(l0: i32) -> i32 {",
            "    let mut v0: i32 = 0;",
            "    if l0 != 0 {",
            "        v0 = 1i32;",
            "    } else {",
            "        v0 = 2i32;",
            "    }",
            "    v0",
            "}",
        ])
    );
}

#[test]
fn branches_through_a_table() {
    // block; block; local.get 0; br_table 0 1 1; end; i32.const 7; local.set 0; end; local.get 0
    let m = Module::new().func(
        &[I32],
        &[I32],
        &[
            0, 0x02, 0x40, 0x02, 0x40, 0x20, 0, 0x0e, 2, 0, 1, 1, 0x0b, 0x41, 7, 0x21, 0, 0x0b, 0x20,
            0, 0x0b,
        ],
    );
    assert_eq!(
        functions(&m.source()),
        lines(&[
            "pub fn func0(mut l0: i32) -> i32 {",
            "    'l0: loop {",
            "        'l1: loop {",
            "            match (l0) as u32 {",
            "                0u32 => break 'l1,",
            "                1u32 => break 'l0,",
            "                _ => break 'l0,",
            "            }",
            "        }",
            "        l0 = 7i32;",
            "        break 'l0;",
            "    }",
            "    l0",
            "}",
        ])
    );
}

#[test]
fn carries_a_value_out_of_a_block() {
    // block (result i32); i32.const 3; local.get 0; br_if 0; drop; i32.const 4; end
    let m = Module::new().func(
        &[I32],
        &[I32],
        &[0, 0x02, 0x7f, 0x41, 3, 0x20, 0, 0x0d, 0, 0x1a, 0x41, 4, 0x0b, 0x0b],
    );
    assert_eq!(
        functions(&m.source()),
        lines(&[
            "pub fn func0(l0: i32) -> i32 {",
            "    let mut v0: i32 = 0;",
            "    'l0: loop {",
            "        if l0 != 0 {",
            "            v0 = 3i32;",
            "            break 'l0;",
            "        }",
            "        v0 = 4i32;",
            "        break 'l0;",
            "    }",
            "    v0",
            "}",
        ])
    );
}

#[test]
fn calls_through_the_table() {
    let mut m = Module::new()
        .sig(&[I32], &[I32])
        .func(&[I32], &[I32], &[0, 0x20, 0, 0x41, 1, 0x6a, 0x0b])
        .func(&[I32, I32], &[I32], &[0, 0x20, 1, 0x20, 0, 0x11, 0, 0, 0x0b]);
    m.table = Some(TableInfo { min: 2, imported: false, element: FUNCREF });
    m.elements.push(ElemSegment { offset: Some(0), declared: false, funcs: vec![1, 0] });
    assert_eq!(
        functions(&m.source()),
        lines(&[
            "pub fn func0(&mut self, l0: i32) -> i32 {",
            "        l0.wrapping_add(1i32)",
            "    }",
            "",
            "    pub fn func1(&mut self, l0: i32, l1: i32) -> i32 {",
            "        let v0 = self.table()[(l0) as u32 as usize];",
            "        let v1: i32 = self.call_ref_t0(v0, l1);",
            "        v1",
            "    }",
            "}",
        ])
    );
}

#[test]
fn asks_the_host_for_imports() {
    let mut m = Module::new().func(&[], &[I32], &[0, 0x41, 5, 0x10, 0, 0x23, 0, 0x0b]);
    m.imports.push(ImportInfo { params: vec![I32], results: vec![], wasi: None });
    m.imported_globals.push(ImportedGlobalInfo { ty: I32, mutable: false });
    assert_eq!(
        functions(&m.source()),
        lines(&[
            "pub fn func1(&mut self) -> i32 {",
            "        self.imports.import0(5i32);",
            "        self.imports.get_global0()",
            "    }",
            "}",
        ])
    );
}

#[test]
fn catches_what_it_throws() {
    // try (result i32); i32.const 7; throw 0; catch 0; catch_all; i32.const 9; end
    let mut m = Module::new().func(
        &[],
        &[I32],
        &[0, 0x06, 0x7f, 0x41, 7, 0x08, 0, 0x07, 0, 0x19, 0x41, 9, 0x0b, 0x0b],
    );
    m.tags.push(TagInfo { params: vec![I32], results: vec![] });
    assert_eq!(
        functions(&m.source()),
        lines(&[
            "pub fn func0() -> i32 {",
            "    let mut v0: i32 = 0;",
            "    match ::std::panic::catch_unwind(::std::panic::AssertUnwindSafe(|| {",
            "        ::std::panic::panic_any(Wasm2RsException { tag: 0u32, values: vec![(7i32) as u32 as u64] });",
            "    })) {",
            "        Ok(()) => {}",
            "        Err(__exc0) => {",
            "            let __tag = match __exc0.downcast_ref::<Wasm2RsException>() {",
            "                Some(__e) => __e.tag,",
            "                None => ::std::panic::resume_unwind(__exc0),",
            "            };",
            "            match __tag {",
            "                0u32 => {",
            "                    let __hv0_0: i32 = __exc0.downcast_ref::<Wasm2RsException>().unwrap().values[0] as u32 as i32;",
            "                    v0 = __hv0_0;",
            "                }",
            "                _ => {",
            "                    v0 = 9i32;",
            "                }",
            "            }",
            "        }",
            "    }",
            "    v0",
            "}",
        ])
    );
}

#[test]
fn builds_and_reads_an_object() {
    // local.get 0; struct.new 0; struct.get 0 0
    let m = Module::new()
        .kind(CompositeKind::Struct(vec![FieldInfo { storage: StorageType::Val(I32) }]))
        .func(&[I32], &[I32], &[0, 0x20, 0, 0xfb, 0, 0, 0xfb, 2, 0, 0, 0x0b]);
    assert_eq!(
        functions(&m.source()),
        lines(&[
            "pub fn func0(l0: i32) -> i32 {",
            "    let v0: GcRef = GcRef::Obj { ty: 0u32, slots: std::rc::Rc::new(std::cell::RefCell::new(vec![GcSlot::I32(l0)])) };",
            "    let v1: i32 = { let __o = (v0).obj(); let __b = __o.borrow(); match &__b[0] { GcSlot::I32(v) => *v, _ => unreachable!() } };",
            "    v1",
            "}",
        ])
    );
}

#[test]
fn reads_packed_elements() {
    // local.get 0; local.get 1; array.get_s 0
    let m = Module::new()
        .kind(CompositeKind::Array(FieldInfo { storage: StorageType::I8 }))
        .func(&[typed(0), I32], &[I32], &[0, 0x20, 0, 0x20, 1, 0xfb, 0x0c, 0, 0x0b]);
    assert_eq!(
        functions(&m.source()),
        lines(&[
            "pub fn func0(l0: GcRef, l1: i32) -> i32 {",
            "    let v0: i32 = ((({ let __o = (l0).obj(); let __i = l1; let __b = __o.borrow(); match &__b[(__i) as usize] { GcSlot::I32(v) => *v, _ => unreachable!() } }) << 24) >> 24);",
            "    v0",
            "}",
        ])
    );
}

#[test]
fn suspends_and_resumes() {
    // the first function suspends with its parameter; the second resumes a continuation
    // and, after its return, names the first as a continuation's body
    let mut m = Module::new()
        .sig(&[I32], &[I32])
        .kind(CompositeKind::Cont(0))
        .func(&[I32], &[I32], &[0, 0x20, 0, 0xe2, 0, 0x0b])
        .func(
            &[typed(1)],
            &[I32],
            &[0, 0x41, 4, 0x20, 0, 0xe3, 1, 0, 0x0f, 0xd2, 0, 0xe0, 1, 0x1a, 0x0b],
        );
    m.tags.push(TagInfo { params: vec![I32], results: vec![I32] });
    assert_eq!(
        functions(&m.source()),
        lines(&[
            "pub fn func1(&mut self, l0: u32) -> i32 {",
            "        let v0: u32 = l0;",
            "        let v1: [i64; 1] = [((4i32) as i64)];",
            "        let v2: i32;",
            "        match self.cont_step(v0, &v1) {",
            "        StepResult::Return(__vals) => {",
            "        v2 = ((__vals[0]) as i32);",
            "        }",
            "        _ => panic!(\"resume: unhandled continuation suspend tag\"),",
            "        }",
            "        return v2;",
            "    }",
            "}",
        ])
    );
}

#[test]
fn keeps_atomics_on_shared_memory() {
    // local.get 0; local.get 1; i32.atomic.rmw.add
    let m = Module::new()
        .memory(1, true)
        .func(&[I32, I32], &[I32], &[0, 0x20, 0, 0x20, 1, 0xfe, 0x1e, 2, 0, 0x0b]);
    assert_eq!(
        functions(&m.source()),
        lines(&[
            "pub fn func0(&mut self, l0: i32, l1: i32) -> i32 {",
            "        let v0 = self.memory.atomic_rmw((l0) as u32 as usize + 0usize, 4, 0, (l1) as u64) as i32;",
            "        v0",
            "    }",
            "}",
        ])
    );
}

#[test]
fn numbers_further_memories() {
    // local.get 0; i32.load8_u of the second memory
    let m = Module::new()
        .memory(1, false)
        .memory(2, false)
        .func(&[I32], &[I32], &[0, 0x20, 0, 0x2d, 0x40, 1, 3, 0x0b]);
    assert_eq!(
        functions(&m.source()),
        lines(&[
            "pub fn func0(&mut self, l0: i32) -> i32 {",
            "        self.r8u_m1(l0, 3u32)",
            "    }",
            "}",
        ])
    );
}

#[test]
fn skips_bounds_checks_on_request() {
    let mut m = Module::new().memory(1, false).func(&[I32], &[I32], &[0, 0x20, 0, 0x28, 2, 4, 0x0b]);
    m.unsafe_memory = true;
    assert_eq!(
        functions(&m.source()),
        lines(&[
            "pub fn func0(&mut self, l0: i32) -> i32 {",
            "        self.r32(l0, 4u32)",
            "    }",
            "}",
        ])
    );
}

#[test]
fn grows_fills_and_copies_memory() {
    // local.get 0; memory.grow; drop; memory.fill; memory.copy; memory.size
    let m = Module::new().memory(1, false).func(
        &[I32],
        &[I32],
        &[
            0, 0x20, 0, 0x40, 0, 0x1a, 0x41, 0, 0x41, 1, 0x41, 2, 0xfc, 0x0b, 0, 0x41, 3, 0x41, 4,
            0x41, 5, 0xfc, 0x0a, 0, 0, 0x3f, 0, 0x0b,
        ],
    );
    assert_eq!(
        functions(&m.source()),
        lines(&[
            "pub fn func0(&mut self, l0: i32) -> i32 {",
            "        let v0: i32 = self.memory_grow(l0);",
            "        self.memory_fill((0i32) as u32, 1i32, (2i32) as u32);",
            "        self.memory_copy((3i32) as u32, (4i32) as u32, (5i32) as u32);",
            "        let v1: i32 = (self.mem().len() / 65536) as i32;",
            "        v1",
            "    }",
            "}",
        ])
    );
}

#[test]
fn spills_what_a_store_would_change() {
    // global.get 0; i32.const 1; global.set 0; global.get 0; i32.add
    let mut m = Module::new().func(
        &[],
        &[I32],
        &[0, 0x23, 0, 0x41, 1, 0x24, 0, 0x23, 0, 0x6a, 0x0b],
    );
    m.globals.push(GlobalInfo { ty: I32, mutable: true, init: "0i32".to_string() });
    assert_eq!(
        functions(&m.source()),
        lines(&[
            "pub fn func0(&mut self) -> i32 {",
            "        let v0: i32 = self.g0;",
            "        self.g0 = 1i32;",
            "        v0.wrapping_add(self.g0)",
            "    }",
            "}",
        ])
    );
}

#[test]
fn traps_on_bad_conversions() {
    // local.get 0; i32.trunc_f64_s; local.get 0; f64.nearest; i64.trunc_sat_f64_u; drop
    let m = Module::new().func(
        &[F64],
        &[I32],
        &[0, 0x20, 0, 0xaa, 0x20, 0, 0x9e, 0xfc, 7, 0x1a, 0x0b],
    );
    assert_eq!(
        functions(&m.source()),
        lines(&[
            "pub fn func0(l0: f64) -> i32 {",
            "    let v0: i32 = i32_trunc_f64_s(l0);",
            "    v0",
            "}",
        ])
    );
}

#[test]
fn writes_extreme_literals() {
    // i64.const -2^63; drop; i32.const -2^31; drop; f64.const 1.5; drop; f32.const 1; drop
    let m = Module::new().func(
        &[],
        &[I64],
        &[
            0, 0x41, 0x80, 0x80, 0x80, 0x80, 0x78, 0x1a, 0x42, 0x7f, 0x42, 0x80, 0x80, 0x80, 0x80,
            0x80, 0x80, 0x80, 0x80, 0x80, 0x7f, 0x7c, 0x44, 0, 0, 0, 0, 0, 0, 0xf8, 0x3f, 0x1a, 0x0b,
        ],
    );
    assert_eq!(
        functions(&m.source()),
        lines(&[
            "pub fn func0() -> i64 {",
            "    -1i64.wrapping_add(i64::MIN)",
            "}",
        ])
    );
}

#[test]
fn adds_lane_by_lane() {
    // local.get 0; local.get 0; i32x4.add
    let m = Module::new().func(&[V128], &[V128], &[0, 0x20, 0, 0x20, 0, 0xfd, 0xae, 1, 0x0b]);
    assert_eq!(
        functions(&m.source()),
        lines(&[
            "pub fn func0(l0: u128) -> u128 {",
            "    i32x4_add(l0, l0)",
            "}",
        ])
    );
}

#[test]
fn casts_references() {
    // local.get 0; ref.test (ref 0), where the second type extends the first
    let mut m = Module::new()
        .kind(CompositeKind::Struct(vec![]))
        .kind(CompositeKind::Struct(vec![]))
        .kind(CompositeKind::Struct(vec![]))
        .func(&[typed(0)], &[I32], &[0, 0x20, 0, 0xfb, 0x14, 0, 0x0b]);
    m.supers[1] = Some(0);
    assert_eq!(
        functions(&m.source()),
        lines(&[
            "pub fn func0(l0: GcRef) -> i32 {",
            "    let v0: i32 = i32::from(match &(l0) { GcRef::Null => false, GcRef::Obj { ty, .. } => matches!(*ty, 0u32 | 1u32) });",
            "    v0",
            "}",
        ])
    );
}

#[test]
fn returns_several_values() {
    let m = Module::new().func(&[I32, I64], &[I64, I32], &[0, 0x20, 1, 0x20, 0, 0x0b]);
    assert_eq!(
        functions(&m.source()),
        lines(&[
            "pub fn func0(l0: i32, l1: i64) -> (i64, i32) {",
            "    (l1, l0)",
            "}",
        ])
    );
}

#[test]
fn declares_locals() {
    // (local i64 i64); local.get 2
    let m = Module::new().func(&[I32], &[I64], &[1, 2, 0x7e, 0x20, 2, 0x0b]);
    assert_eq!(
        functions(&m.source()),
        lines(&[
            "pub fn func0(l0: i32) -> i64 {",
            "    let (l1, l2): (i64, i64) = (0, 0);",
            "    l2",
            "}",
        ])
    );
}

#[test]
fn drops_dead_code() {
    // i32.const 1; return; i32.const 2; drop; block; end; unreachable
    let m = Module::new().func(&[], &[I32], &[0, 0x41, 1, 0x0f, 0x41, 2, 0x1a, 0x02, 0x40, 0x0b, 0, 0x0b]);
    assert_eq!(
        functions(&m.source()),
        lines(&[
            "pub fn func0() -> i32 {",
            "    return 1i32;",
            "}",
        ])
    );
}

/// The bytes of a body with forty-one nested blocks, each with a branch out of it.
fn deep_body() -> Vec<u8> {
    let mut bytes = vec![1, 1, 0x7f];
    for _ in 0..41 {
        bytes.extend([0x02, 0x40, 0x20, 0, 0x0d, 0]);
    }
    bytes.extend(vec![0x0b; 41]);
    bytes.extend([0x20, 0, 0x0b]);
    bytes
}

#[test]
fn flattens_deep_nesting() {
    let m = Module::new().func(&[], &[I32], &deep_body());
    let mut expected = lines(&[
        ALLOW,
        "pub fn func0() -> i32 {",
        "    let mut pc: usize = 0;",
        "    let mut l0: i32 = 0;",
        "    'sm: loop {",
        "        match pc {",
        "            0 => {",
        "                l0 = 0;",
        "                if l0 != 0 { pc = 1; continue 'sm; }",
        "                pc = 4;",
        "            }",
        "            1 => {",
        "                return l0;",
        "            }",
    ]);
    for k in 2..42 {
        let next = if k < 41 { 2 * k + 2 } else { 1 };
        expected.push_str(&format!("            {} => {{\n", 2 * k));
        expected.push_str("                if l0 != 0 { pc = 1; continue 'sm; }\n");
        expected.push_str(&format!("                pc = {next};\n            }}\n"));
    }
    expected.push_str("            _ => unreachable!(),\n        }\n    }\n}\n");
    assert_eq!(m.source(), expected);
}

#[test]
fn bounds_the_nesting_of_deep_bodies() {
    // a hundred nested loops, each with a branch back and one out of it
    let mut bytes = vec![1, 1, 0x7f];
    for _ in 0..100 {
        bytes.extend([0x02, 0x40, 0x03, 0x40, 0x20, 0, 0x0d, 0, 0x20, 0, 0x0d, 1]);
    }
    bytes.extend(vec![0x0b; 200]);
    bytes.extend([0x20, 0, 0x0b]);
    let source = Module::new().func(&[], &[I32], &bytes).source();
    let deepest = source.lines().map(|l| l.len() - l.trim_start().len()).max();
    // four levels around an arm's statements
    assert!(deepest > Some(4 * 20));
    assert!(deepest <= Some(4 * (4 + MAX_LINE_DEPTH)));
}

#[test]
fn keeps_shallow_nesting() {
    let mut bytes = vec![0];
    bytes.extend([0x02, 0x40].repeat(40));
    bytes.extend(vec![0x0b; 40]);
    bytes.push(0x0b);
    let m = Module::new().func(&[], &[], &bytes);
    assert_eq!(
        functions(&m.source()),
        lines(&[
            "pub fn func0() {",
            "}",
        ])
    );
}

#[test]
fn flattens_calls_between_regions() {
    // local.get 0; call 0; local.set 0 below forty-four blocks
    let mut bytes = vec![1, 1, 0x7f];
    bytes.extend([0x02, 0x40].repeat(44));
    bytes.extend([0x20, 0, 0x10, 0, 0x21, 0]);
    bytes.extend(vec![0x0b; 44]);
    bytes.extend([0x20, 0, 0x0b]);
    let m = Module::new().func(&[I32], &[I32], &[0, 0x20, 0, 0x0b]).func(&[], &[I32], &bytes);
    assert_eq!(
        functions(&m.source()),
        lines(&[
            "pub fn func0(l0: i32) -> i32 {",
            "    l0",
            "}",
            "",
            ALLOW,
            "pub fn func1() -> i32 {",
            "    let mut pc: usize = 0;",
            "    let mut l0: i32 = 0;",
            "    let mut v0: i32 = 0;",
            "    loop {",
            "        match pc {",
            "            0 => {",
            "                l0 = 0;",
            "                v0 = func0(l0);",
            "                l0 = v0;",
            "                return l0;",
            "            }",
            "            _ => unreachable!(),",
            "        }",
            "    }",
            "}",
        ])
    );
}

#[test]
fn splits_a_large_dispatch() {
    let mut m = Module::new().func(&[], &[I32], &deep_body());
    m.split_dispatch = 16;
    let source = m.source();
    let state = [
        "#[allow(dead_code)]",
        "struct S0 {",
        "    pc: usize,",
        "    bank_i32: [i32; 1],",
        "}",
        "impl Default for S0 {",
        "    fn default() -> Self {",
        "        Self {",
        "            pc: 0,",
        "            bank_i32: [Default::default(); 1],",
        "        }",
        "    }",
        "}",
    ];
    assert!(source.contains(&lines(&state)));
    assert!(source.contains("    let mut st = S0 { pc: 0, ..Default::default() };\n"));
    // forty-two states make three parts of at most sixteen
    for (k, arms) in [(0usize, 0..16usize), (1, 16..32), (2, 32..42)] {
        let mut part = format!("fn func0_part{k}(st: &mut S0) -> Option<i32> {{\n");
        part.push_str("    'sm: loop {\n        match st.pc {\n");
        for state in arms {
            part.push_str(&format!("            {state} => {{\n"));
            if state == 0 {
                part.push_str("                st.bank_i32[0] = 0;\n");
            }
            if state == 1 {
                part.push_str("                return Some(st.bank_i32[0]);\n");
            } else {
                let next = match state {
                    0 => 2,
                    41 => 1,
                    _ => state + 1,
                };
                part.push_str("                if st.bank_i32[0] != 0 { st.pc = 1; continue 'sm; }\n");
                part.push_str(&format!("                st.pc = {next};\n"));
            }
            part.push_str("            }\n");
        }
        part.push_str("            _ => return None,\n        }\n    }\n}\n");
        assert!(source.contains(&part), "part {k} of {source}");
    }
    assert!(!source.contains("fn func0_part3("));
}

#[test]
fn refuses_a_missing_operand() {
    let m = Module::new().func(&[], &[I32], &[0, 0x41, 1, 0x6a, 0x0b]);
    assert_eq!(m.failure(), "underflow");
}

#[test]
fn refuses_an_unknown_instruction() {
    let m = Module::new().func(&[], &[], &[0, 0xd5, 0, 0x0b]);
    assert_eq!(m.failure(), "operator BrOnNull { relative_depth: 0 }");
}

#[test]
fn refuses_memory_access_without_a_memory() {
    let m = Module::new().func(&[I32], &[I32], &[0, 0x20, 0, 0x28, 2, 0, 0x0b]);
    assert_eq!(m.failure(), "memory instruction without a memory section");
}

#[test]
fn refuses_a_call_of_a_missing_function() {
    let m = Module::new().func(&[], &[], &[0, 0x10, 3, 0x0b]);
    assert_eq!(m.failure(), "call to unknown function");
}

#[test]
fn refuses_writing_a_constant_global() {
    let mut m = Module::new().func(&[], &[], &[0, 0x41, 1, 0x24, 0, 0x0b]);
    m.globals.push(GlobalInfo { ty: I32, mutable: false, init: "0i32".to_string() });
    assert_eq!(m.failure(), "set of immutable global");
}

#[test]
fn rejects_broken_bytes() {
    // cut off inside an instruction, and inside the declarations
    assert_eq!(Module::new().func(&[], &[], &[0, 0x41]).failure(), "malformed");
    assert_eq!(Module::new().func(&[], &[], &[2, 1, 0x7f]).failure(), "malformed");
    // What the module as a whole does not support comes first.
    let m = Module::new().memory(1, true).memory(1, false).func(&[], &[], &[0, 0x41]);
    assert_eq!(m.failure(), "shared memory with multiple memories");
}

#[test]
fn renders_what_an_open_region_holds() {
    // block; i32.const 1; local.set 0, and nothing that ends the block
    let m = Module::new().func(&[I32], &[], &[0, 0x02, 0x40, 0x41, 1, 0x21, 0]);
    assert!(m.funcs.iter().all(renders));
    let parts = [ALLOW, "pub fn func0(mut l0: i32) {", "    l0 = 1i32;", "}"];
    assert_eq!(m.source(), lines(&parts));
}

#[test]
fn starts_object_fields_of_a_split_dispatch_as_null() {
    // a deep body with a local of an object type
    let mut bytes = vec![2, 1, 0x7f, 1, 0x63, 0];
    for _ in 0..41 {
        bytes.extend([0x02, 0x40, 0x20, 0, 0x0d, 0]);
    }
    bytes.extend(vec![0x0b; 41]);
    bytes.extend([0x20, 0, 0x0b]);
    let mut m = Module::new().kind(CompositeKind::Struct(vec![])).func(&[], &[I32], &bytes);
    m.split_dispatch = 16;
    let source = m.source();
    assert!(source.contains("    l1: GcRef,\n"));
    assert!(source.contains("            l1: GcRef::Null,\n"));
}

fn two_functions() -> Module {
    Module::new()
        .func(&[], &[I32], &[0, 0x41, 7, 0x0b])
        .func(&[], &[I32], &[0, 0x10, 0, 0x0b])
}

fn file(name: &str, text: String) -> (String, String) {
    (name.to_string(), text)
}

#[test]
fn splits_one_function_per_file() {
    let mut files = vec![];
    assert!(generate_module_split(&two_functions().parts(), 1, 0, &mut files).is_ok());
    let first = ["#[allow(unused_imports)]", "use super::*;", "", ALLOW, "pub fn func0() -> i32 {", "    7i32", "}"];
    let second = [
        "#[allow(unused_imports)]",
        "use super::*;",
        "",
        ALLOW,
        "pub fn func1() -> i32 {",
        "    let v0: i32 = func0();",
        "    v0",
        "}",
    ];
    let root = ["mod funcs_0;", "mod funcs_1;", "pub use funcs_0::*;", "pub use funcs_1::*;"];
    assert_eq!(
        files,
        vec![
            file("funcs_0.rs", lines(&first)),
            file("funcs_1.rs", lines(&second)),
            file("lib.rs", lines(&root)),
        ]
    );
}

#[test]
fn cuts_files_at_the_byte_limit() {
    let names = |limit: usize| {
        let mut files = vec![];
        assert!(generate_module_split(&two_functions().parts(), 0, limit, &mut files).is_ok());
        files.into_iter().map(|f| f.0).collect::<Vec<String>>()
    };
    assert_eq!(names(1), vec!["funcs_0.rs", "funcs_1.rs", "lib.rs"]);
    assert_eq!(names(1 << 20), vec!["funcs_0.rs", "lib.rs"]);
}

#[test]
fn an_undivided_module_is_one_file() {
    let m = two_functions();
    for per in [0, 2, 9] {
        let mut files = vec![];
        assert!(generate_module_split(&m.parts(), per, 0, &mut files).is_ok());
        assert_eq!(files, vec![file("lib.rs", m.source())]);
    }
    let broken = Module::new().func(&[], &[], &[0, 0x41]);
    let mut files = vec![];
    let r = generate_module_split(&broken.parts(), 0, 0, &mut files);
    assert_eq!(r.err().map(|e| message(&e)), Some(broken.failure()));
    assert!(files.is_empty());
}

#[test]
fn hands_out_one_file_at_a_time() {
    let m = two_functions();
    let parts = m.parts();
    let mut stream = match ModuleFiles::new(&parts, 1, 0) {
        Ok(s) => s,
        Err(e) => panic!("{}", message(&e)),
    };
    let mut next = || match stream.next_file() {
        Ok(f) => f.map(|f| f.0),
        Err(e) => panic!("{}", message(&e)),
    };
    assert_eq!(next().as_deref(), Some("funcs_0.rs"));
    assert_eq!(next().as_deref(), Some("funcs_1.rs"));
    assert_eq!(next().as_deref(), Some("lib.rs"));
    assert_eq!(next(), None);
    assert_eq!(next(), None);
}

#[test]
fn files_before_a_failure_are_there() {
    let m = Module::new()
        .func(&[], &[I32], &[0, 0x41, 7, 0x0b])
        .func(&[], &[I32], &[0, 0x10, 9, 0x0b]);
    let mut files = vec![];
    let r = generate_module_split(&m.parts(), 1, 0, &mut files);
    assert_eq!(r.err().map(|e| message(&e)).as_deref(), Some("call to unknown function"));
    let names: Vec<&str> = files.iter().map(|f| f.0.as_str()).collect();
    assert_eq!(names, vec!["funcs_0.rs"]);
}

#[test]
fn emits_what_the_functions_use_once() {
    // two functions that use one conversion
    let convert: &[u8] = &[0, 0x20, 0, 0xaa, 0x0b];
    let source =
        Module::new().func(&[F64], &[I32], convert).func(&[F64], &[I32], convert).source();
    assert_eq!(source.matches("fn i32_trunc_f64_s(").count(), 1);
    let lanes: &[u8] = &[0, 0x20, 0, 0x20, 0, 0xfd, 0xae, 1, 0x0b];
    let source = Module::new().func(&[V128], &[V128], lanes).source();
    assert_eq!(source.matches("fn i32x4_add(").count(), 1);
}

#[test]
fn declares_the_parts_of_a_suspending_module() {
    let mut m = Module::new()
        .sig(&[I32], &[I32])
        .kind(CompositeKind::Cont(0))
        .func(&[I32], &[I32], &[0, 0x20, 0, 0xe2, 0, 0x0b])
        .func(&[I32], &[I32], &[0, 0x20, 0, 0x0f, 0xd2, 0, 0xe0, 1, 0x1a, 0x0b]);
    m.tags.push(TagInfo { params: vec![I32], results: vec![I32] });
    let source = m.source();
    assert_eq!(source.matches("pub enum StepResult {").count(), 1);
    assert_eq!(source.matches("fn cont_step_func0(").count(), 1);
    assert!(!source.contains("fn func0("));
    assert!(source.contains("StepResult::Suspend { tag: 0u32, payload: vec!["));
}

#[test]
fn keeps_long_expressions_short() {
    // a sum of three hundred operands is cut into bindings
    let mut bytes = vec![0, 0x20, 0];
    for _ in 0..300 {
        bytes.extend([0x20, 0, 0x6a]);
    }
    bytes.push(0x0b);
    let source = Module::new().func(&[I32], &[I32], &bytes).source();
    assert_eq!(source.matches("wrapping_add").count(), 300);
    assert!(source.contains("let v0: i32 = l0.wrapping_add(l0)"));
    assert!(source.lines().all(|l| l.len() < 4200));
}

#[test]
fn refuses_a_transfer_outside_continuations() {
    let mut m = Module::new().func(&[], &[], &[0, 0xe2, 0, 0x0b]);
    m.tags.push(TagInfo { params: vec![], results: vec![] });
    assert_eq!(m.failure(), "function can suspend but is not reachable as a continuation");
}
