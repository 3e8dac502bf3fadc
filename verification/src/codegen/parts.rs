//! The module as the generator is given it.

use vstd::prelude::*;

use crate::codegen::context::{imports_view, ImportV};
use crate::codegen::info::{
    kinds_view, sigs_view, CompositeKind, DataSegment, ElemSegment, FuncInput, GlobalInfo,
    ImportInfo, ImportedGlobalInfo, KindV, MemInfo, SigV, TableInfo, TagInfo, TypeSig,
};
use crate::wasm::ValType;

verus! {

/// The borrowed, raw inputs describing one module, as gathered by the parser.
///
/// Bundling them keeps the module-level entry points to a small, stable argument
/// list; the derived translation context is computed from these.
pub struct ModuleParts<'a> {
    pub imports: &'a Vec<ImportInfo>,
    pub imported_globals: &'a Vec<ImportedGlobalInfo>,
    pub funcs: &'a Vec<FuncInput>,
    pub types: &'a Vec<TypeSig>,
    pub type_kinds: &'a Vec<CompositeKind>,
    /// The declared direct supertype of every type index (`None` when none),
    /// parallel to `type_kinds`. Drives the runtime subtype checks.
    pub supers: &'a Vec<Option<u32>>,
    pub globals: &'a Vec<GlobalInfo>,
    /// Every linear memory, in index order (imported memories first, then
    /// defined). Empty when the module declares none.
    pub memories: &'a Vec<MemInfo>,
    pub data: &'a Vec<DataSegment>,
    pub table: Option<TableInfo>,
    pub elements: &'a Vec<ElemSegment>,
    pub tags: &'a Vec<TagInfo>,
    /// Opt-in unchecked linear-memory access.
    pub unsafe_memory: bool,
    /// Cap on match arms per flattened-dispatch part function; `0` disables the
    /// split.
    pub split_dispatch: usize,
}

/// The model of a [`GlobalInfo`].
pub struct GlobalV {
    pub ty: ValType,
    pub mutable: bool,
    pub init: Seq<char>,
}

/// The model of a [`DataSegment`].
pub struct DataV {
    pub offset: Option<u32>,
    pub mem_index: u32,
    pub bytes: Seq<u8>,
}

/// The model of an [`ElemSegment`].
pub struct ElemV {
    pub offset: Option<u32>,
    pub declared: bool,
    pub funcs: Seq<u32>,
}

impl View for GlobalInfo {
    type V = GlobalV;

    open spec fn view(&self) -> GlobalV {
        GlobalV { ty: self.ty, mutable: self.mutable, init: self.init@ }
    }
}

impl View for DataSegment {
    type V = DataV;

    open spec fn view(&self) -> DataV {
        DataV { offset: self.offset, mem_index: self.mem_index, bytes: self.bytes@ }
    }
}

impl View for ElemSegment {
    type V = ElemV;

    open spec fn view(&self) -> ElemV {
        ElemV { offset: self.offset, declared: self.declared, funcs: self.funcs@ }
    }
}

impl View for TagInfo {
    type V = SigV;

    open spec fn view(&self) -> SigV {
        SigV { params: self.params@, results: self.results@ }
    }
}

impl DataV {
    /// Whether the segment is kept for `memory.init`.
    pub open spec fn passive(self) -> bool {
        self.offset is None
    }

    /// Whether the segment initialises memory `mem`.
    pub open spec fn active_in(self, mem: u32) -> bool {
        self.offset is Some && self.mem_index == mem
    }
}

impl ElemV {
    /// Whether the segment is kept for `table.init`.
    pub open spec fn passive(self) -> bool {
        self.offset is None && !self.declared
    }
}

pub open spec fn globals_view(v: Seq<GlobalInfo>) -> Seq<GlobalV> {
    Seq::new(v.len(), |i: int| v[i]@)
}

pub open spec fn data_view(v: Seq<DataSegment>) -> Seq<DataV> {
    Seq::new(v.len(), |i: int| v[i]@)
}

pub open spec fn elements_view(v: Seq<ElemSegment>) -> Seq<ElemV> {
    Seq::new(v.len(), |i: int| v[i]@)
}

pub open spec fn tags_view(v: Seq<TagInfo>) -> Seq<SigV> {
    Seq::new(v.len(), |i: int| v[i]@)
}

/// The model of [`ModuleParts`]. The functions stand in it as they are.
pub struct PartsV {
    pub imports: Seq<ImportV>,
    pub imported_globals: Seq<ImportedGlobalInfo>,
    pub funcs: Seq<FuncInput>,
    pub types: Seq<SigV>,
    pub kinds: Seq<KindV>,
    pub supers: Seq<Option<u32>>,
    pub globals: Seq<GlobalV>,
    pub memories: Seq<MemInfo>,
    pub data: Seq<DataV>,
    pub table: Option<TableInfo>,
    pub elements: Seq<ElemV>,
    pub tags: Seq<SigV>,
    pub unsafe_memory: bool,
    pub split_dispatch: usize,
}

impl<'a> View for ModuleParts<'a> {
    type V = PartsV;

    open spec fn view(&self) -> PartsV {
        PartsV {
            imports: imports_view(self.imports@),
            imported_globals: self.imported_globals@,
            funcs: self.funcs@,
            types: sigs_view(self.types@),
            kinds: kinds_view(self.type_kinds@),
            supers: self.supers@,
            globals: globals_view(self.globals@),
            memories: self.memories@,
            data: data_view(self.data@),
            table: self.table,
            elements: elements_view(self.elements@),
            tags: tags_view(self.tags@),
            unsafe_memory: self.unsafe_memory,
            split_dispatch: self.split_dispatch,
        }
    }
}

} // verus!
