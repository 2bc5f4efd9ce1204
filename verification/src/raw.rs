//! The source graph handed to the decoder: a plain, owned picture of the
//! foreign IR module, with every transient handle replaced by an index.
//!
//! Functions, global variables and global aliases live in four separate
//! tables; a reference from one global object to another is a
//! [`RawGlobalRef`], an index into one of those tables.  Named struct type
//! declarations live in a table of their own, and a type that refers to a
//! named struct does so by table index.  Metadata nodes form one table in
//! which operands are again indices, so the graph may be cyclic at all three
//! levels while the value itself stays finite.

use vstd::prelude::*;

verus! {

// ---------------------------------------------------------------------------
// Enumeration values carried over from the source graph, one variant per
// value of the foreign enumeration.
// ---------------------------------------------------------------------------

#[derive(PartialEq, Eq, Clone, Copy, Debug, Structural)]
pub enum RawLinkage {
    External,
    AvailableExternally,
    LinkOnceAny,
    LinkOnceODR,
    LinkOnceODRAutoHide,
    WeakAny,
    WeakODR,
    Appending,
    Internal,
    Private,
    DLLImport,
    DLLExport,
    ExternalWeak,
    GhostLinkage,
    Common,
    LinkerPrivate,
    LinkerPrivateWeak,
}

#[derive(PartialEq, Eq, Clone, Copy, Debug, Structural)]
pub enum RawVisibility {
    Default,
    Hidden,
    Protected,
}

#[derive(PartialEq, Eq, Clone, Copy, Debug, Structural)]
pub enum RawDLLStorageClass {
    Default,
    DLLImport,
    DLLExport,
}

#[derive(PartialEq, Eq, Clone, Copy, Debug, Structural)]
pub enum RawThreadLocalMode {
    NotThreadLocal,
    GeneralDynamic,
    LocalDynamic,
    InitialExec,
    LocalExec,
}

#[derive(PartialEq, Eq, Clone, Copy, Debug, Structural)]
pub enum RawUnnamedAddr {
    No,
    Local,
    Global,
}

#[derive(PartialEq, Eq, Clone, Copy, Debug, Structural)]
pub enum RawSelectionKind {
    Any,
    ExactMatch,
    Largest,
    NoDuplicates,
    SameSize,
}

// ---------------------------------------------------------------------------
// Types of the source graph.
// ---------------------------------------------------------------------------

/// A type as the source graph presents it.  A named struct type appears as
/// an index into the module's table of named type declarations, so that
/// self- and mutually-referential types stay finite.
#[derive(PartialEq, Eq, Debug)]
pub enum RawType {
    Void,
    Integer { bits: u32 },
    Pointer { pointee: Box<RawType>, addr_space: u32 },
    Struct { element_types: Vec<RawType>, is_packed: bool },
    NamedRef { index: usize },
}

/// Mathematical model of a [`RawType`].
pub ghost enum RawTypeV {
    Void,
    Integer { bits: u32 },
    Pointer { pointee: Box<RawTypeV>, addr_space: u32 },
    Struct { element_types: Seq<RawTypeV>, is_packed: bool },
    NamedRef { index: usize },
}

/// Mathematical model of a [`RawType`] value.
pub open spec fn raw_type_view(t: RawType) -> RawTypeV
    decreases t,
{
    match t {
        RawType::Void => RawTypeV::Void,
        RawType::Integer { bits } => RawTypeV::Integer { bits },
        RawType::Pointer { pointee, addr_space } => RawTypeV::Pointer {
            pointee: Box::new(raw_type_view(*pointee)),
            addr_space,
        },
        RawType::Struct { element_types, is_packed } => RawTypeV::Struct {
            element_types: raw_types_view(element_types@),
            is_packed,
        },
        RawType::NamedRef { index } => RawTypeV::NamedRef { index },
    }
}

/// Mathematical model of a sequence of [`RawType`] values.
pub open spec fn raw_types_view(ts: Seq<RawType>) -> Seq<RawTypeV>
    decreases ts,
{
    if ts.len() == 0 {
        Seq::empty()
    } else {
        raw_types_view(ts.subrange(0, ts.len() - 1)).push(raw_type_view(ts[ts.len() - 1]))
    }
}

impl DeepView for RawType {
    type V = RawTypeV;

    open spec fn deep_view(&self) -> RawTypeV {
        raw_type_view(*self)
    }
}

pub broadcast proof fn lemma_raw_types_view_len(ts: Seq<RawType>)
    ensures
        (#[trigger] raw_types_view(ts)).len() == ts.len(),
    decreases ts,
{
    if ts.len() > 0 {
        lemma_raw_types_view_len(ts.subrange(0, ts.len() - 1));
    }
}

pub broadcast proof fn lemma_raw_types_view_index(ts: Seq<RawType>, k: int)
    requires
        0 <= k < ts.len(),
    ensures
        (#[trigger] raw_types_view(ts)[k]) == raw_type_view(ts[k]),
    decreases ts,
{
    lemma_raw_types_view_len(ts);
    if k < ts.len() - 1 {
        lemma_raw_types_view_index(ts.subrange(0, ts.len() - 1), k);
    }
}

/// Every named-struct reference inside `t` points into a table of `ndefs`
/// declarations.
pub open spec fn wf_raw_type(t: RawTypeV, ndefs: int) -> bool
    decreases t,
{
    match t {
        RawTypeV::Void => true,
        RawTypeV::Integer { .. } => true,
        RawTypeV::Pointer { pointee, .. } => wf_raw_type(*pointee, ndefs),
        RawTypeV::Struct { element_types, .. } => wf_raw_types(element_types, ndefs),
        RawTypeV::NamedRef { index } => index < ndefs,
    }
}

pub open spec fn wf_raw_types(ts: Seq<RawTypeV>, ndefs: int) -> bool
    decreases ts,
{
    if ts.len() == 0 {
        true
    } else {
        wf_raw_types(ts.subrange(0, ts.len() - 1), ndefs) && wf_raw_type(ts[ts.len() - 1], ndefs)
    }
}

/// A named struct type declaration: a name, and either a definition (its
/// element types) or nothing at all, which declares the name as opaque.
#[derive(PartialEq, Eq, Debug)]
pub struct RawTypeDef {
    pub name: String,
    pub def: Option<RawStructDef>,
}

#[derive(PartialEq, Eq, Debug)]
pub struct RawStructDef {
    pub element_types: Vec<RawType>,
    pub is_packed: bool,
}

pub ghost struct RawTypeDefV {
    pub name: Seq<char>,
    pub def: Option<RawStructDefV>,
}

pub ghost struct RawStructDefV {
    pub element_types: Seq<RawTypeV>,
    pub is_packed: bool,
}

impl DeepView for RawStructDef {
    type V = RawStructDefV;

    open spec fn deep_view(&self) -> RawStructDefV {
        RawStructDefV { element_types: raw_types_view(self.element_types@), is_packed: self.is_packed }
    }
}

impl DeepView for RawTypeDef {
    type V = RawTypeDefV;

    open spec fn deep_view(&self) -> RawTypeDefV {
        RawTypeDefV { name: self.name@, def: self.def.deep_view() }
    }
}

/// Every definition in the table refers only to declarations inside the
/// table, and the declared names are pairwise distinct.
pub open spec fn wf_raw_type_defs(defs: Seq<RawTypeDefV>) -> bool {
    &&& forall|i: int|
        0 <= i < defs.len() ==> match #[trigger] defs[i].def {
            Some(sd) => wf_raw_types(sd.element_types, defs.len() as int),
            None => true,
        }
    &&& forall|i: int, j: int|
        0 <= i < j < defs.len() ==> defs[i].name != defs[j].name
}

// ---------------------------------------------------------------------------
// References among global objects, and constants.
// ---------------------------------------------------------------------------

/// The identity of one global object of the source graph: which of the four
/// tables it lives in, and its position there.
#[derive(PartialEq, Eq, Clone, Copy, Debug, Structural)]
pub enum RawGlobalRef {
    DefinedFunction(usize),
    DeclaredFunction(usize),
    Global(usize),
    Alias(usize),
}

/// A constant of the source graph.  A reference to a global object is a
/// [`RawGlobalRef`], never an embedded copy of the object.
#[derive(PartialEq, Eq, Debug)]
pub enum RawConstant {
    Int { bits: u32, value: u64 },
    Array { elements: Vec<RawConstant> },
    GlobalRef { target: RawGlobalRef },
}

pub ghost enum RawConstantV {
    Int { bits: u32, value: u64 },
    Array { elements: Seq<RawConstantV> },
    GlobalRef { target: RawGlobalRef },
}

pub open spec fn raw_constant_view(c: RawConstant) -> RawConstantV
    decreases c,
{
    match c {
        RawConstant::Int { bits, value } => RawConstantV::Int { bits, value },
        RawConstant::Array { elements } => RawConstantV::Array {
            elements: raw_constants_view(elements@),
        },
        RawConstant::GlobalRef { target } => RawConstantV::GlobalRef { target },
    }
}

pub open spec fn raw_constants_view(cs: Seq<RawConstant>) -> Seq<RawConstantV>
    decreases cs,
{
    if cs.len() == 0 {
        Seq::empty()
    } else {
        raw_constants_view(cs.subrange(0, cs.len() - 1)).push(raw_constant_view(cs[cs.len() - 1]))
    }
}

impl DeepView for RawConstant {
    type V = RawConstantV;

    open spec fn deep_view(&self) -> RawConstantV {
        raw_constant_view(*self)
    }
}

pub broadcast proof fn lemma_raw_constants_view_len(cs: Seq<RawConstant>)
    ensures
        (#[trigger] raw_constants_view(cs)).len() == cs.len(),
    decreases cs,
{
    if cs.len() > 0 {
        lemma_raw_constants_view_len(cs.subrange(0, cs.len() - 1));
    }
}

pub broadcast proof fn lemma_raw_constants_view_index(cs: Seq<RawConstant>, k: int)
    requires
        0 <= k < cs.len(),
    ensures
        (#[trigger] raw_constants_view(cs)[k]) == raw_constant_view(cs[k]),
    decreases cs,
{
    lemma_raw_constants_view_len(cs);
    if k < cs.len() - 1 {
        lemma_raw_constants_view_index(cs.subrange(0, cs.len() - 1), k);
    }
}

// ---------------------------------------------------------------------------
// Global objects, metadata, and the module.
// ---------------------------------------------------------------------------

/// A function of the source graph; only what the decoder reads of it.
#[derive(PartialEq, Eq, Debug)]
pub struct RawFunction {
    pub name: String,
    pub return_type: RawType,
    pub linkage: RawLinkage,
    pub visibility: RawVisibility,
}

pub ghost struct RawFunctionV {
    pub name: Seq<char>,
    pub return_type: RawTypeV,
    pub linkage: RawLinkage,
    pub visibility: RawVisibility,
}

impl DeepView for RawFunction {
    type V = RawFunctionV;

    open spec fn deep_view(&self) -> RawFunctionV {
        RawFunctionV {
            name: self.name@,
            return_type: self.return_type.deep_view(),
            linkage: self.linkage,
            visibility: self.visibility,
        }
    }
}

#[derive(PartialEq, Eq, Debug)]
pub struct RawComdat {
    pub name: String,
    pub selection_kind: RawSelectionKind,
}

pub ghost struct RawComdatV {
    pub name: Seq<char>,
    pub selection_kind: RawSelectionKind,
}

impl DeepView for RawComdat {
    type V = RawComdatV;

    open spec fn deep_view(&self) -> RawComdatV {
        RawComdatV { name: self.name@, selection_kind: self.selection_kind }
    }
}

/// A global variable of the source graph.
#[derive(PartialEq, Eq, Debug)]
pub struct RawGlobal {
    pub name: String,
    pub linkage: RawLinkage,
    pub visibility: RawVisibility,
    pub is_constant: bool,
    pub ty: RawType,
    pub dll_storage_class: RawDLLStorageClass,
    pub thread_local_mode: RawThreadLocalMode,
    pub unnamed_addr: RawUnnamedAddr,
    pub initializer: Option<RawConstant>,
    pub section: Option<String>,
    pub comdat: Option<RawComdat>,
    pub alignment: u32,
}

pub ghost struct RawGlobalV {
    pub name: Seq<char>,
    pub linkage: RawLinkage,
    pub visibility: RawVisibility,
    pub is_constant: bool,
    pub ty: RawTypeV,
    pub dll_storage_class: RawDLLStorageClass,
    pub thread_local_mode: RawThreadLocalMode,
    pub unnamed_addr: RawUnnamedAddr,
    pub initializer: Option<RawConstantV>,
    pub section: Option<Seq<char>>,
    pub comdat: Option<RawComdatV>,
    pub alignment: u32,
}

impl DeepView for RawGlobal {
    type V = RawGlobalV;

    open spec fn deep_view(&self) -> RawGlobalV {
        RawGlobalV {
            name: self.name@,
            linkage: self.linkage,
            visibility: self.visibility,
            is_constant: self.is_constant,
            ty: self.ty.deep_view(),
            dll_storage_class: self.dll_storage_class,
            thread_local_mode: self.thread_local_mode,
            unnamed_addr: self.unnamed_addr,
            initializer: self.initializer.deep_view(),
            section: self.section.deep_view(),
            comdat: self.comdat.deep_view(),
            alignment: self.alignment,
        }
    }
}

/// A global alias of the source graph.
#[derive(PartialEq, Eq, Debug)]
pub struct RawAlias {
    pub name: String,
    pub aliasee: RawConstant,
    pub linkage: RawLinkage,
    pub visibility: RawVisibility,
    pub ty: RawType,
    pub dll_storage_class: RawDLLStorageClass,
    pub thread_local_mode: RawThreadLocalMode,
    pub unnamed_addr: RawUnnamedAddr,
}

pub ghost struct RawAliasV {
    pub name: Seq<char>,
    pub aliasee: RawConstantV,
    pub linkage: RawLinkage,
    pub visibility: RawVisibility,
    pub ty: RawTypeV,
    pub dll_storage_class: RawDLLStorageClass,
    pub thread_local_mode: RawThreadLocalMode,
    pub unnamed_addr: RawUnnamedAddr,
}

impl DeepView for RawAlias {
    type V = RawAliasV;

    open spec fn deep_view(&self) -> RawAliasV {
        RawAliasV {
            name: self.name@,
            aliasee: self.aliasee.deep_view(),
            linkage: self.linkage,
            visibility: self.visibility,
            ty: self.ty.deep_view(),
            dll_storage_class: self.dll_storage_class,
            thread_local_mode: self.thread_local_mode,
            unnamed_addr: self.unnamed_addr,
        }
    }
}

/// A metadata node of the source graph: its operands are indices into the
/// module's metadata node table, so the metadata graph may be cyclic.
#[derive(PartialEq, Eq, Debug)]
pub struct RawMetadataNode {
    pub operands: Vec<usize>,
}

impl DeepView for RawMetadataNode {
    type V = Seq<usize>;

    open spec fn deep_view(&self) -> Seq<usize> {
        self.operands@
    }
}

/// A named metadata entry: a name and the metadata nodes it lists, again as
/// indices into the metadata node table.
#[derive(PartialEq, Eq, Debug)]
pub struct RawNamedMetadata {
    pub name: String,
    pub operands: Vec<usize>,
}

pub ghost struct RawNamedMetadataV {
    pub name: Seq<char>,
    pub operands: Seq<usize>,
}

impl DeepView for RawNamedMetadata {
    type V = RawNamedMetadataV;

    open spec fn deep_view(&self) -> RawNamedMetadataV {
        RawNamedMetadataV { name: self.name@, operands: self.operands@ }
    }
}

/// The whole source graph: one owned value standing for the foreign module.
#[derive(PartialEq, Eq, Debug)]
pub struct RawModule {
    pub name: String,
    pub source_file_name: String,
    pub data_layout: String,
    pub target_triple: Option<String>,
    pub inline_assembly: String,
    pub defined_functions: Vec<RawFunction>,
    pub declared_functions: Vec<RawFunction>,
    pub globals: Vec<RawGlobal>,
    pub aliases: Vec<RawAlias>,
    pub type_defs: Vec<RawTypeDef>,
    pub metadata_nodes: Vec<RawMetadataNode>,
    pub named_metadatas: Vec<RawNamedMetadata>,
}

pub ghost struct RawModuleV {
    pub name: Seq<char>,
    pub source_file_name: Seq<char>,
    pub data_layout: Seq<char>,
    pub target_triple: Option<Seq<char>>,
    pub inline_assembly: Seq<char>,
    pub defined_functions: Seq<RawFunctionV>,
    pub declared_functions: Seq<RawFunctionV>,
    pub globals: Seq<RawGlobalV>,
    pub aliases: Seq<RawAliasV>,
    pub type_defs: Seq<RawTypeDefV>,
    pub metadata_nodes: Seq<Seq<usize>>,
    pub named_metadatas: Seq<RawNamedMetadataV>,
}

impl DeepView for RawModule {
    type V = RawModuleV;

    open spec fn deep_view(&self) -> RawModuleV {
        RawModuleV {
            name: self.name@,
            source_file_name: self.source_file_name@,
            data_layout: self.data_layout@,
            target_triple: self.target_triple.deep_view(),
            inline_assembly: self.inline_assembly@,
            defined_functions: self.defined_functions.deep_view(),
            declared_functions: self.declared_functions.deep_view(),
            globals: self.globals.deep_view(),
            aliases: self.aliases.deep_view(),
            type_defs: self.type_defs.deep_view(),
            metadata_nodes: self.metadata_nodes.deep_view(),
            named_metadatas: self.named_metadatas.deep_view(),
        }
    }
}

// ---------------------------------------------------------------------------
// Well-formedness of the whole graph.
// ---------------------------------------------------------------------------

/// A reference to a global object points into four tables with the given
/// lengths: defined functions, declared functions, global variables, global
/// aliases.
pub open spec fn wf_raw_global_ref(nf: int, nd: int, ng: int, na: int, r: RawGlobalRef) -> bool {
    match r {
        RawGlobalRef::DefinedFunction(i) => i < nf,
        RawGlobalRef::DeclaredFunction(i) => i < nd,
        RawGlobalRef::Global(i) => i < ng,
        RawGlobalRef::Alias(i) => i < na,
    }
}

/// Every global reference inside a constant points into tables of the given
/// lengths.
pub open spec fn wf_raw_constant(nf: int, nd: int, ng: int, na: int, c: RawConstantV) -> bool
    decreases c,
{
    match c {
        RawConstantV::Int { .. } => true,
        RawConstantV::Array { elements } => wf_raw_constants(nf, nd, ng, na, elements),
        RawConstantV::GlobalRef { target } => wf_raw_global_ref(nf, nd, ng, na, target),
    }
}

pub open spec fn wf_raw_constants(nf: int, nd: int, ng: int, na: int, cs: Seq<RawConstantV>) -> bool
    decreases cs,
{
    if cs.len() == 0 {
        true
    } else {
        wf_raw_constants(nf, nd, ng, na, cs.subrange(0, cs.len() - 1)) && wf_raw_constant(
            nf,
            nd,
            ng,
            na,
            cs[cs.len() - 1],
        )
    }
}

/// The number of global objects of the graph: the domain of the shared
/// naming counter.
pub open spec fn raw_global_count(g: RawModuleV) -> int {
    (g.defined_functions.len() + g.declared_functions.len() + g.globals.len()
        + g.aliases.len()) as int
}

/// A well-formed source graph: type references and global references point
/// into the graph's own tables, named type declarations carry distinct
/// names, and the object count leaves the naming counter room.  Metadata
/// operands are deliberately not constrained here: a dangling metadata
/// reference is reported by the decoder as a structural error.
pub open spec fn wf_raw_module(g: RawModuleV) -> bool {
    let ndefs = g.type_defs.len() as int;
    let nf = g.defined_functions.len() as int;
    let nd = g.declared_functions.len() as int;
    let ng = g.globals.len() as int;
    let na = g.aliases.len() as int;
    &&& wf_raw_type_defs(g.type_defs)
    &&& forall|i: int|
        0 <= i < g.defined_functions.len() ==> wf_raw_type(
            #[trigger] g.defined_functions[i].return_type,
            ndefs,
        )
    &&& forall|i: int|
        0 <= i < g.declared_functions.len() ==> wf_raw_type(
            #[trigger] g.declared_functions[i].return_type,
            ndefs,
        )
    &&& forall|i: int|
        0 <= i < g.globals.len() ==> {
            &&& wf_raw_type(#[trigger] g.globals[i].ty, ndefs)
            &&& match g.globals[i].initializer {
                Some(c) => wf_raw_constant(nf, nd, ng, na, c),
                None => true,
            }
        }
    &&& forall|i: int|
        0 <= i < g.aliases.len() ==> {
            &&& wf_raw_type(#[trigger] g.aliases[i].ty, ndefs)
            &&& wf_raw_constant(nf, nd, ng, na, g.aliases[i].aliasee)
        }
    &&& raw_global_count(g) < usize::MAX as int
    &&& 2 * g.metadata_nodes.len() <= usize::MAX as int
}

} // verus!
