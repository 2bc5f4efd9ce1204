//! The decoded module and the module decoder.
//!
//! Decoding makes two passes over the same fixed enumeration of global
//! objects -- defined functions, declared functions, global variables,
//! global aliases.  Pass 1 only assigns every object its identifier; pass 2
//! replays the same order and counter, decodes every entity, and resolves
//! every cross-reference through the pass-1 table.

use crate::constant::{constant_of_raw, constant_from_raw, Constant, ConstantV};
use crate::error::DecodeError;
use crate::name::{
    allocated_name, assigned_name, ctr_after, ctr_next, GlobalNameMap, GlobalNameMapV, Name, NameV,
};
use crate::raw::{
    RawAliasV, RawComdat, RawComdatV, RawDLLStorageClass, RawFunctionV, RawGlobal, RawGlobalV,
    RawAlias, RawFunction, RawLinkage, RawModule, RawModuleV, RawNamedMetadata, RawSelectionKind,
    RawThreadLocalMode, RawTypeDefV, RawUnnamedAddr, RawVisibility, wf_raw_constant,
    wf_raw_module, wf_raw_type, wf_raw_type_defs,
};
use crate::metadata::{
    md_identify_list, md_unassigned, lemma_md_identify_list_ext, lemma_md_unassigned_le_len,
    MdSt, MetadataNode, MetadataNodeID, MetadataNodeMap,
};
use crate::types::{
    named_struct_types_of_raw, slots_ok, type_of_raw, type_from_raw, Type, TypeV, TyNameMap,
};
use vstd::prelude::*;

verus! {

// ---------------------------------------------------------------------------
// Mechanical enumeration translations.
// ---------------------------------------------------------------------------

#[derive(PartialEq, Eq, Clone, Copy, Debug, Structural)]
pub enum UnnamedAddr {
    Local,
    Global,
}

#[derive(PartialEq, Eq, Clone, Copy, Debug, Structural)]
pub enum Linkage {
    Private,
    Internal,
    External,
    ExternalWeak,
    AvailableExternally,
    LinkOnceAny,
    LinkOnceODR,
    LinkOnceODRAutoHide,
    WeakAny,
    WeakODR,
    Common,
    Appending,
    DLLImport,
    DLLExport,
    GhostLinkage,
    LinkerPrivate,
    LinkerPrivateWeak,
}

#[derive(PartialEq, Eq, Clone, Copy, Debug, Structural)]
pub enum Visibility {
    Default,
    Hidden,
    Protected,
}

#[derive(PartialEq, Eq, Clone, Copy, Debug, Structural)]
pub enum DLLStorageClass {
    Default,
    Import,
    Export,
}

#[derive(PartialEq, Eq, Clone, Copy, Debug, Structural)]
pub enum ThreadLocalMode {
    NotThreadLocal,
    GeneralDynamic,
    LocalDynamic,
    InitialExec,
    LocalExec,
}

#[derive(PartialEq, Eq, Clone, Copy, Debug, Structural)]
pub enum SelectionKind {
    Any,
    ExactMatch,
    Largest,
    NoDuplicates,
    SameSize,
}

/// For discussion of address spaces, see the IR's pointer types.
pub type AddrSpace = u32;

pub open spec fn unnamed_addr_of_raw(ua: RawUnnamedAddr) -> Option<UnnamedAddr> {
    match ua {
        RawUnnamedAddr::No => None,
        RawUnnamedAddr::Local => Some(UnnamedAddr::Local),
        RawUnnamedAddr::Global => Some(UnnamedAddr::Global),
    }
}

pub open spec fn linkage_of_raw(l: RawLinkage) -> Linkage {
    match l {
        RawLinkage::External => Linkage::External,
        RawLinkage::AvailableExternally => Linkage::AvailableExternally,
        RawLinkage::LinkOnceAny => Linkage::LinkOnceAny,
        RawLinkage::LinkOnceODR => Linkage::LinkOnceODR,
        RawLinkage::LinkOnceODRAutoHide => Linkage::LinkOnceODRAutoHide,
        RawLinkage::WeakAny => Linkage::WeakAny,
        RawLinkage::WeakODR => Linkage::WeakODR,
        RawLinkage::Appending => Linkage::Appending,
        RawLinkage::Internal => Linkage::Internal,
        RawLinkage::Private => Linkage::Private,
        RawLinkage::DLLImport => Linkage::DLLImport,
        RawLinkage::DLLExport => Linkage::DLLExport,
        RawLinkage::ExternalWeak => Linkage::ExternalWeak,
        RawLinkage::GhostLinkage => Linkage::GhostLinkage,
        RawLinkage::Common => Linkage::Common,
        RawLinkage::LinkerPrivate => Linkage::LinkerPrivate,
        RawLinkage::LinkerPrivateWeak => Linkage::LinkerPrivateWeak,
    }
}

pub open spec fn visibility_of_raw(v: RawVisibility) -> Visibility {
    match v {
        RawVisibility::Default => Visibility::Default,
        RawVisibility::Hidden => Visibility::Hidden,
        RawVisibility::Protected => Visibility::Protected,
    }
}

pub open spec fn dll_storage_class_of_raw(d: RawDLLStorageClass) -> DLLStorageClass {
    match d {
        RawDLLStorageClass::Default => DLLStorageClass::Default,
        RawDLLStorageClass::DLLImport => DLLStorageClass::Import,
        RawDLLStorageClass::DLLExport => DLLStorageClass::Export,
    }
}

pub open spec fn thread_local_mode_of_raw(t: RawThreadLocalMode) -> ThreadLocalMode {
    match t {
        RawThreadLocalMode::NotThreadLocal => ThreadLocalMode::NotThreadLocal,
        RawThreadLocalMode::GeneralDynamic => ThreadLocalMode::GeneralDynamic,
        RawThreadLocalMode::LocalDynamic => ThreadLocalMode::LocalDynamic,
        RawThreadLocalMode::InitialExec => ThreadLocalMode::InitialExec,
        RawThreadLocalMode::LocalExec => ThreadLocalMode::LocalExec,
    }
}

pub open spec fn selection_kind_of_raw(s: RawSelectionKind) -> SelectionKind {
    match s {
        RawSelectionKind::Any => SelectionKind::Any,
        RawSelectionKind::ExactMatch => SelectionKind::ExactMatch,
        RawSelectionKind::Largest => SelectionKind::Largest,
        RawSelectionKind::NoDuplicates => SelectionKind::NoDuplicates,
        RawSelectionKind::SameSize => SelectionKind::SameSize,
    }
}

impl UnnamedAddr {
    pub fn from_raw(ua: RawUnnamedAddr) -> (r: Option<UnnamedAddr>)
        ensures
            r == unnamed_addr_of_raw(ua),
    {
        match ua {
            RawUnnamedAddr::No => None,
            RawUnnamedAddr::Local => Some(UnnamedAddr::Local),
            RawUnnamedAddr::Global => Some(UnnamedAddr::Global),
        }
    }
}

impl Linkage {
    pub fn from_raw(l: RawLinkage) -> (r: Linkage)
        ensures
            r == linkage_of_raw(l),
    {
        match l {
            RawLinkage::External => Linkage::External,
            RawLinkage::AvailableExternally => Linkage::AvailableExternally,
            RawLinkage::LinkOnceAny => Linkage::LinkOnceAny,
            RawLinkage::LinkOnceODR => Linkage::LinkOnceODR,
            RawLinkage::LinkOnceODRAutoHide => Linkage::LinkOnceODRAutoHide,
            RawLinkage::WeakAny => Linkage::WeakAny,
            RawLinkage::WeakODR => Linkage::WeakODR,
            RawLinkage::Appending => Linkage::Appending,
            RawLinkage::Internal => Linkage::Internal,
            RawLinkage::Private => Linkage::Private,
            RawLinkage::DLLImport => Linkage::DLLImport,
            RawLinkage::DLLExport => Linkage::DLLExport,
            RawLinkage::ExternalWeak => Linkage::ExternalWeak,
            RawLinkage::GhostLinkage => Linkage::GhostLinkage,
            RawLinkage::Common => Linkage::Common,
            RawLinkage::LinkerPrivate => Linkage::LinkerPrivate,
            RawLinkage::LinkerPrivateWeak => Linkage::LinkerPrivateWeak,
        }
    }
}

impl Visibility {
    pub fn from_raw(v: RawVisibility) -> (r: Visibility)
        ensures
            r == visibility_of_raw(v),
    {
        match v {
            RawVisibility::Default => Visibility::Default,
            RawVisibility::Hidden => Visibility::Hidden,
            RawVisibility::Protected => Visibility::Protected,
        }
    }
}

impl DLLStorageClass {
    pub fn from_raw(d: RawDLLStorageClass) -> (r: DLLStorageClass)
        ensures
            r == dll_storage_class_of_raw(d),
    {
        match d {
            RawDLLStorageClass::Default => DLLStorageClass::Default,
            RawDLLStorageClass::DLLImport => DLLStorageClass::Import,
            RawDLLStorageClass::DLLExport => DLLStorageClass::Export,
        }
    }
}

impl ThreadLocalMode {
    pub fn from_raw(t: RawThreadLocalMode) -> (r: ThreadLocalMode)
        ensures
            r == thread_local_mode_of_raw(t),
    {
        match t {
            RawThreadLocalMode::NotThreadLocal => ThreadLocalMode::NotThreadLocal,
            RawThreadLocalMode::GeneralDynamic => ThreadLocalMode::GeneralDynamic,
            RawThreadLocalMode::LocalDynamic => ThreadLocalMode::LocalDynamic,
            RawThreadLocalMode::InitialExec => ThreadLocalMode::InitialExec,
            RawThreadLocalMode::LocalExec => ThreadLocalMode::LocalExec,
        }
    }
}

impl SelectionKind {
    pub fn from_raw(s: RawSelectionKind) -> (r: SelectionKind)
        ensures
            r == selection_kind_of_raw(s),
    {
        match s {
            RawSelectionKind::Any => SelectionKind::Any,
            RawSelectionKind::ExactMatch => SelectionKind::ExactMatch,
            RawSelectionKind::Largest => SelectionKind::Largest,
            RawSelectionKind::NoDuplicates => SelectionKind::NoDuplicates,
            RawSelectionKind::SameSize => SelectionKind::SameSize,
        }
    }
}

// ---------------------------------------------------------------------------
// Entities.
// ---------------------------------------------------------------------------

#[derive(PartialEq, Eq, Debug)]
pub struct Comdat {
    pub name: String,
    pub selection_kind: SelectionKind,
}

pub ghost struct ComdatV {
    pub name: Seq<char>,
    pub selection_kind: SelectionKind,
}

impl DeepView for Comdat {
    type V = ComdatV;

    open spec fn deep_view(&self) -> ComdatV {
        ComdatV { name: self.name@, selection_kind: self.selection_kind }
    }
}

pub open spec fn comdat_of_raw(c: RawComdatV) -> ComdatV {
    ComdatV { name: c.name, selection_kind: selection_kind_of_raw(c.selection_kind) }
}

impl Comdat {
    pub fn from_raw(c: &RawComdat) -> (r: Comdat)
        ensures
            r.deep_view() == comdat_of_raw(c.deep_view()),
    {
        Comdat { name: c.name.clone(), selection_kind: SelectionKind::from_raw(c.selection_kind) }
    }
}

/// A function attribute, as attribute groups carry them.
#[derive(PartialEq, Eq, Clone, Copy, Debug, Structural)]
pub enum FunctionAttribute {
    AlwaysInline,
    NoInline,
    NoReturn,
    NoUnwind,
    ReadNone,
    ReadOnly,
}

pub type GroupID = usize;

/// A named group of function attributes.
#[derive(PartialEq, Eq, Debug)]
pub struct FunctionAttributeGroup {
    pub group_id: GroupID,
    pub attrs: Vec<FunctionAttribute>,
}

pub ghost struct FunctionAttributeGroupV {
    pub group_id: usize,
    pub attrs: Seq<FunctionAttribute>,
}

impl DeepView for FunctionAttributeGroup {
    type V = FunctionAttributeGroupV;

    open spec fn deep_view(&self) -> FunctionAttributeGroupV {
        FunctionAttributeGroupV { group_id: self.group_id, attrs: self.attrs@ }
    }
}

/// A defined function of the module; what the decoder reads of one.
#[derive(PartialEq, Eq, Debug)]
pub struct Function {
    pub name: String,
    pub return_type: Type,
    pub linkage: Linkage,
    pub visibility: Visibility,
}

pub ghost struct FunctionV {
    pub name: Seq<char>,
    pub return_type: TypeV,
    pub linkage: Linkage,
    pub visibility: Visibility,
}

impl DeepView for Function {
    type V = FunctionV;

    open spec fn deep_view(&self) -> FunctionV {
        FunctionV {
            name: self.name@,
            return_type: self.return_type.deep_view(),
            linkage: self.linkage,
            visibility: self.visibility,
        }
    }
}

/// What a raw function decodes to.
pub open spec fn function_of_raw(defs: Seq<RawTypeDefV>, f: RawFunctionV) -> FunctionV {
    FunctionV {
        name: f.name,
        return_type: type_of_raw(defs, f.return_type),
        linkage: linkage_of_raw(f.linkage),
        visibility: visibility_of_raw(f.visibility),
    }
}

/// A global variable of the module.
#[derive(PartialEq, Eq, Debug)]
pub struct GlobalVariable {
    pub name: Name,
    pub linkage: Linkage,
    pub visibility: Visibility,
    pub is_constant: bool,
    pub ty: Type,
    pub addr_space: AddrSpace,
    pub dll_storage_class: DLLStorageClass,
    pub thread_local_mode: ThreadLocalMode,
    pub unnamed_addr: Option<UnnamedAddr>,
    pub initializer: Option<Constant>,
    pub section: Option<String>,
    pub comdat: Option<Comdat>,
    pub alignment: u32,
}

pub ghost struct GlobalVariableV {
    pub name: NameV,
    pub linkage: Linkage,
    pub visibility: Visibility,
    pub is_constant: bool,
    pub ty: TypeV,
    pub addr_space: AddrSpace,
    pub dll_storage_class: DLLStorageClass,
    pub thread_local_mode: ThreadLocalMode,
    pub unnamed_addr: Option<UnnamedAddr>,
    pub initializer: Option<ConstantV>,
    pub section: Option<Seq<char>>,
    pub comdat: Option<ComdatV>,
    pub alignment: u32,
}

impl DeepView for GlobalVariable {
    type V = GlobalVariableV;

    open spec fn deep_view(&self) -> GlobalVariableV {
        GlobalVariableV {
            name: self.name.deep_view(),
            linkage: self.linkage,
            visibility: self.visibility,
            is_constant: self.is_constant,
            ty: self.ty.deep_view(),
            addr_space: self.addr_space,
            dll_storage_class: self.dll_storage_class,
            thread_local_mode: self.thread_local_mode,
            unnamed_addr: self.unnamed_addr,
            initializer: self.initializer.deep_view(),
            section: self.section.deep_view(),
            comdat: self.comdat.deep_view(),
            alignment: self.alignment,
        }
    }
}

impl GlobalVariable {
    /// The type of this global, which is always a pointer type.
    pub fn get_type(&self) -> (r: Type)
        ensures
            r.deep_view() == self.ty.deep_view(),
    {
        self.ty.clone()
    }
}

/// What a raw global variable decodes to, given the identifier the replayed
/// allocator hands it: its owned form, or the structural error raised when
/// its type is not a pointer type.  The error comes exactly when the
/// resolved type is no pointer.
pub open spec fn global_var_of_raw(
    defs: Seq<RawTypeDefV>,
    m: GlobalNameMapV,
    rv: RawGlobalV,
    name: NameV,
) -> Result<GlobalVariableV, DecodeError> {
    let ty = type_of_raw(defs, rv.ty);
    match ty {
        TypeV::Pointer { pointee, addr_space } => Ok(
            GlobalVariableV {
                name,
                linkage: linkage_of_raw(rv.linkage),
                visibility: visibility_of_raw(rv.visibility),
                is_constant: rv.is_constant,
                ty,
                addr_space,
                dll_storage_class: dll_storage_class_of_raw(rv.dll_storage_class),
                thread_local_mode: thread_local_mode_of_raw(rv.thread_local_mode),
                unnamed_addr: unnamed_addr_of_raw(rv.unnamed_addr),
                initializer: match rv.initializer {
                    None => None,
                    Some(c) => Some(constant_of_raw(m, c)),
                },
                section: rv.section,
                comdat: match rv.comdat {
                    None => None,
                    Some(c) => Some(comdat_of_raw(c)),
                },
                alignment: rv.alignment,
            },
        ),
        _ => Err(DecodeError::NonPointerGlobalType),
    }
}

/// A global alias of the module.
#[derive(PartialEq, Eq, Debug)]
pub struct GlobalAlias {
    pub name: Name,
    pub aliasee: Constant,
    pub linkage: Linkage,
    pub visibility: Visibility,
    pub ty: Type,
    pub addr_space: AddrSpace,
    pub dll_storage_class: DLLStorageClass,
    pub thread_local_mode: ThreadLocalMode,
    pub unnamed_addr: Option<UnnamedAddr>,
}

pub ghost struct GlobalAliasV {
    pub name: NameV,
    pub aliasee: ConstantV,
    pub linkage: Linkage,
    pub visibility: Visibility,
    pub ty: TypeV,
    pub addr_space: AddrSpace,
    pub dll_storage_class: DLLStorageClass,
    pub thread_local_mode: ThreadLocalMode,
    pub unnamed_addr: Option<UnnamedAddr>,
}

impl DeepView for GlobalAlias {
    type V = GlobalAliasV;

    open spec fn deep_view(&self) -> GlobalAliasV {
        GlobalAliasV {
            name: self.name.deep_view(),
            aliasee: self.aliasee.deep_view(),
            linkage: self.linkage,
            visibility: self.visibility,
            ty: self.ty.deep_view(),
            addr_space: self.addr_space,
            dll_storage_class: self.dll_storage_class,
            thread_local_mode: self.thread_local_mode,
            unnamed_addr: self.unnamed_addr,
        }
    }
}

impl GlobalAlias {
    /// The type of this alias, which is always a pointer type.
    pub fn get_type(&self) -> (r: Type)
        ensures
            r.deep_view() == self.ty.deep_view(),
    {
        self.ty.clone()
    }
}

/// What a raw global alias decodes to, given its replayed identifier.
pub open spec fn global_alias_of_raw(
    defs: Seq<RawTypeDefV>,
    m: GlobalNameMapV,
    rv: RawAliasV,
    name: NameV,
) -> Result<GlobalAliasV, DecodeError> {
    let ty = type_of_raw(defs, rv.ty);
    match ty {
        TypeV::Pointer { pointee, addr_space } => Ok(
            GlobalAliasV {
                name,
                aliasee: constant_of_raw(m, rv.aliasee),
                linkage: linkage_of_raw(rv.linkage),
                visibility: visibility_of_raw(rv.visibility),
                ty,
                addr_space,
                dll_storage_class: dll_storage_class_of_raw(rv.dll_storage_class),
                thread_local_mode: thread_local_mode_of_raw(rv.thread_local_mode),
                unnamed_addr: unnamed_addr_of_raw(rv.unnamed_addr),
            },
        ),
        _ => Err(DecodeError::NonPointerGlobalType),
    }
}

/// A named metadata entry: a name, and the IDs of the metadata nodes it
/// lists.
#[derive(PartialEq, Eq, Debug)]
pub struct NamedMetadata {
    pub name: String,
    pub node_ids: Vec<MetadataNodeID>,
}

pub ghost struct NamedMetadataV {
    pub name: Seq<char>,
    pub node_ids: Seq<usize>,
}

impl DeepView for NamedMetadata {
    type V = NamedMetadataV;

    open spec fn deep_view(&self) -> NamedMetadataV {
        NamedMetadataV { name: self.name@, node_ids: self.node_ids@ }
    }
}

// ---------------------------------------------------------------------------
// The identifier assignment of the whole graph.
// ---------------------------------------------------------------------------

pub open spec fn function_names(fs: Seq<RawFunctionV>) -> Seq<Seq<char>> {
    Seq::new(fs.len(), |i: int| fs[i].name)
}

pub open spec fn global_var_names(gs: Seq<RawGlobalV>) -> Seq<Seq<char>> {
    Seq::new(gs.len(), |i: int| gs[i].name)
}

pub open spec fn alias_names(als: Seq<RawAliasV>) -> Seq<Seq<char>> {
    Seq::new(als.len(), |i: int| als[i].name)
}

/// The textual names of every global object, in the fixed enumeration
/// order the allocator walks: defined functions, declared functions,
/// global variables, global aliases.
pub open spec fn all_names(g: RawModuleV) -> Seq<Seq<char>> {
    function_names(g.defined_functions) + function_names(g.declared_functions)
        + global_var_names(g.globals) + alias_names(g.aliases)
}

/// The pass-1 table: the identifier of each global object, with the shared
/// counter started at zero and advanced over the whole enumeration.
pub open spec fn gnmap_of_raw(g: RawModuleV) -> GlobalNameMapV {
    let names = all_names(g);
    let nf = g.defined_functions.len() as int;
    let nd = g.declared_functions.len() as int;
    let ng = g.globals.len() as int;
    let na = g.aliases.len() as int;
    GlobalNameMapV {
        defined_functions: Seq::new(nf as nat, |i: int| assigned_name(names, 0, i)),
        declared_functions: Seq::new(nd as nat, |i: int| assigned_name(names, 0, nf + i)),
        globals: Seq::new(ng as nat, |i: int| assigned_name(names, 0, nf + nd + i)),
        aliases: Seq::new(na as nat, |i: int| assigned_name(names, 0, nf + nd + ng + i)),
    }
}

/// The identifier pass 2 reproduces for global variable `i`.
pub open spec fn global_var_name(g: RawModuleV, i: int) -> NameV {
    assigned_name(
        all_names(g),
        0,
        g.defined_functions.len() + g.declared_functions.len() + i,
    )
}

/// The identifier pass 2 reproduces for global alias `i`.
pub open spec fn global_alias_name(g: RawModuleV, i: int) -> NameV {
    assigned_name(
        all_names(g),
        0,
        g.defined_functions.len() + g.declared_functions.len() + g.globals.len() + i,
    )
}

// ---------------------------------------------------------------------------
// The decoded module.
// ---------------------------------------------------------------------------

/// The root owned value: a fully self-contained snapshot of the source
/// graph, with every cross-reference a [`Name`] or a [`MetadataNodeID`].
#[derive(PartialEq, Eq, Debug)]
pub struct Module {
    pub name: String,
    pub source_file_name: String,
    pub data_layout: String,
    pub target_triple: Option<String>,
    pub functions: Vec<Function>,
    pub global_vars: Vec<GlobalVariable>,
    pub global_aliases: Vec<GlobalAlias>,
    pub named_struct_types: TyNameMap,
    pub inline_assembly: String,
    pub metadata_nodes: MetadataNodeMap,
    pub named_metadatas: Vec<NamedMetadata>,
}

pub ghost struct ModuleV {
    pub name: Seq<char>,
    pub source_file_name: Seq<char>,
    pub data_layout: Seq<char>,
    pub target_triple: Option<Seq<char>>,
    pub functions: Seq<FunctionV>,
    pub global_vars: Seq<GlobalVariableV>,
    pub global_aliases: Seq<GlobalAliasV>,
    pub named_struct_types: Seq<(Seq<char>, Option<TypeV>)>,
    pub inline_assembly: Seq<char>,
    pub metadata_nodes: Seq<Seq<usize>>,
    pub named_metadatas: Seq<NamedMetadataV>,
}

impl DeepView for Module {
    type V = ModuleV;

    open spec fn deep_view(&self) -> ModuleV {
        ModuleV {
            name: self.name@,
            source_file_name: self.source_file_name@,
            data_layout: self.data_layout@,
            target_triple: self.target_triple.deep_view(),
            functions: self.functions.deep_view(),
            global_vars: self.global_vars.deep_view(),
            global_aliases: self.global_aliases.deep_view(),
            named_struct_types: self.named_struct_types.deep_view(),
            inline_assembly: self.inline_assembly@,
            metadata_nodes: self.metadata_nodes.deep_view(),
            named_metadatas: self.named_metadatas.deep_view(),
        }
    }
}

// ---------------------------------------------------------------------------
// The mathematical decoding of the whole module.
// ---------------------------------------------------------------------------

pub open spec fn decoded_functions(g: RawModuleV) -> Seq<FunctionV> {
    Seq::new(
        g.defined_functions.len(),
        |i: int| function_of_raw(g.type_defs, g.defined_functions[i]),
    )
}

pub open spec fn decoded_global_vars_upto(g: RawModuleV, k: int) -> Result<
    Seq<GlobalVariableV>,
    DecodeError,
>
    decreases k,
{
    if k <= 0 {
        Ok(Seq::empty())
    } else {
        match decoded_global_vars_upto(g, k - 1) {
            Err(e) => Err(e),
            Ok(s) => match global_var_of_raw(
                g.type_defs,
                gnmap_of_raw(g),
                g.globals[k - 1],
                global_var_name(g, k - 1),
            ) {
                Err(e) => Err(e),
                Ok(gv) => Ok(s.push(gv)),
            },
        }
    }
}

pub open spec fn decoded_aliases_upto(g: RawModuleV, k: int) -> Result<
    Seq<GlobalAliasV>,
    DecodeError,
>
    decreases k,
{
    if k <= 0 {
        Ok(Seq::empty())
    } else {
        match decoded_aliases_upto(g, k - 1) {
            Err(e) => Err(e),
            Ok(s) => match global_alias_of_raw(
                g.type_defs,
                gnmap_of_raw(g),
                g.aliases[k - 1],
                global_alias_name(g, k - 1),
            ) {
                Err(e) => Err(e),
                Ok(av) => Ok(s.push(av)),
            },
        }
    }
}

/// The metadata indexer's starting state: no node identified, no node
/// decoded.
pub open spec fn md_init(g: RawModuleV) -> MdSt {
    MdSt { ids: Seq::new(g.metadata_nodes.len(), |i: int| None), tbl: Seq::empty() }
}

pub open spec fn decoded_named_metadatas_upto(g: RawModuleV, k: int) -> Result<
    (Seq<NamedMetadataV>, MdSt),
    DecodeError,
>
    decreases k,
{
    if k <= 0 {
        Ok((Seq::empty(), md_init(g)))
    } else {
        match decoded_named_metadatas_upto(g, k - 1) {
            Err(e) => Err(e),
            Ok((s, st)) => match md_identify_list(
                g.metadata_nodes,
                g.named_metadatas[k - 1].operands,
                st,
                g.metadata_nodes.len(),
            ) {
                None => Err(DecodeError::MetadataRefNotFound),
                Some(Err(e)) => Err(e),
                Some(Ok((opids, st2))) => Ok(
                    (
                        s.push(
                            NamedMetadataV {
                                name: g.named_metadatas[k - 1].name,
                                node_ids: opids,
                            },
                        ),
                        st2,
                    ),
                ),
            },
        }
    }
}

/// What the whole graph decodes to: the owned module, or the first
/// structural error met in decode order.
pub open spec fn module_of_raw(g: RawModuleV) -> Result<ModuleV, DecodeError> {
    match decoded_global_vars_upto(g, g.globals.len() as int) {
        Err(e) => Err(e),
        Ok(gvs) => match decoded_aliases_upto(g, g.aliases.len() as int) {
            Err(e) => Err(e),
            Ok(avs) => match decoded_named_metadatas_upto(g, g.named_metadatas.len() as int) {
                Err(e) => Err(e),
                Ok((nmds, st)) => Ok(
                    ModuleV {
                        name: g.name,
                        source_file_name: g.source_file_name,
                        data_layout: g.data_layout,
                        target_triple: g.target_triple,
                        functions: decoded_functions(g),
                        global_vars: gvs,
                        global_aliases: avs,
                        named_struct_types: named_struct_types_of_raw(g.type_defs),
                        inline_assembly: g.inline_assembly,
                        metadata_nodes: st.tbl,
                        named_metadatas: nmds,
                    },
                ),
            },
        },
    }
}

// ---------------------------------------------------------------------------
// Entity decoders.
// ---------------------------------------------------------------------------

fn clone_opt_string(o: &Option<String>) -> (r: Option<String>)
    ensures
        r.deep_view() == o.deep_view(),
{
    match o {
        None => None,
        Some(s) => Some(s.clone()),
    }
}

impl Function {
    /// Decode one defined function.
    pub fn from_raw(
        rf: &RawFunction,
        defs: &Vec<crate::raw::RawTypeDef>,
        slots: &mut Vec<Option<Option<Type>>>,
    ) -> (r: Function)
        requires
            wf_raw_type_defs(defs.deep_view()),
            wf_raw_type(rf.deep_view().return_type, defs@.len() as int),
            slots_ok(defs.deep_view(), old(slots).deep_view(), Set::empty()),
        ensures
            final(slots)@.len() == old(slots)@.len(),
            forall|i: int|
                0 <= i < old(slots)@.len() && old(slots)@[i] is Some ==> final(slots)@[i]
                    == old(slots)@[i],
            slots_ok(defs.deep_view(), final(slots).deep_view(), Set::empty()),
            r.deep_view() == function_of_raw(defs.deep_view(), rf.deep_view()),
    {
        let return_type = type_from_raw(defs, &rf.return_type, slots, Ghost(Set::empty()));
        Function {
            name: rf.name.clone(),
            return_type,
            linkage: Linkage::from_raw(rf.linkage),
            visibility: Visibility::from_raw(rf.visibility),
        }
    }
}

impl GlobalVariable {
    /// Decode one global variable: allocate its replayed identifier,
    /// resolve its type, check that the type is a pointer type, and decode
    /// its storage attributes and initializer.
    pub fn from_raw(
        rg: &RawGlobal,
        ctr: &mut usize,
        gnmap: &GlobalNameMap,
        defs: &Vec<crate::raw::RawTypeDef>,
        slots: &mut Vec<Option<Option<Type>>>,
    ) -> (r: Result<GlobalVariable, DecodeError>)
        requires
            wf_raw_type_defs(defs.deep_view()),
            wf_raw_type(rg.deep_view().ty, defs@.len() as int),
            match rg.deep_view().initializer {
                Some(c) => wf_raw_constant(
                    gnmap.deep_view().defined_functions.len() as int,
                    gnmap.deep_view().declared_functions.len() as int,
                    gnmap.deep_view().globals.len() as int,
                    gnmap.deep_view().aliases.len() as int,
                    c,
                ),
                None => true,
            },
            slots_ok(defs.deep_view(), old(slots).deep_view(), Set::empty()),
            *old(ctr) < usize::MAX,
        ensures
            final(slots)@.len() == old(slots)@.len(),
            forall|i: int|
                0 <= i < old(slots)@.len() && old(slots)@[i] is Some ==> final(slots)@[i]
                    == old(slots)@[i],
            slots_ok(defs.deep_view(), final(slots).deep_view(), Set::empty()),
            *final(ctr) as int == ctr_next(rg.deep_view().name, *old(ctr) as int),
            match r {
                Ok(gv) => global_var_of_raw(
                    defs.deep_view(),
                    gnmap.deep_view(),
                    rg.deep_view(),
                    allocated_name(rg.deep_view().name, *old(ctr) as int),
                ) == Ok::<GlobalVariableV, DecodeError>(gv.deep_view()),
                Err(e) => global_var_of_raw(
                    defs.deep_view(),
                    gnmap.deep_view(),
                    rg.deep_view(),
                    allocated_name(rg.deep_view().name, *old(ctr) as int),
                ) == Err::<GlobalVariableV, DecodeError>(e),
            },
    {
        let name = Name::name_or_num(rg.name.clone(), ctr);
        let ty = type_from_raw(defs, &rg.ty, slots, Ghost(Set::empty()));
        let addr_space: u32 = match &ty {
            Type::PointerType { addr_space, .. } => *addr_space,
            _ => {
                return Err(DecodeError::NonPointerGlobalType);
            },
        };
        Ok(
            GlobalVariable {
                name,
                linkage: Linkage::from_raw(rg.linkage),
                visibility: Visibility::from_raw(rg.visibility),
                is_constant: rg.is_constant,
                ty,
                addr_space,
                dll_storage_class: DLLStorageClass::from_raw(rg.dll_storage_class),
                thread_local_mode: ThreadLocalMode::from_raw(rg.thread_local_mode),
                unnamed_addr: UnnamedAddr::from_raw(rg.unnamed_addr),
                initializer: match &rg.initializer {
                    None => None,
                    Some(c) => Some(constant_from_raw(c, gnmap)),
                },
                section: clone_opt_string(&rg.section),
                comdat: match &rg.comdat {
                    None => None,
                    Some(c) => Some(Comdat::from_raw(c)),
                },
                alignment: rg.alignment,
            },
        )
    }
}

impl GlobalAlias {
    /// Decode one global alias: the replayed identifier, the pointer type
    /// check, and the aliasee resolved through the pass-1 table.
    pub fn from_raw(
        ra: &RawAlias,
        ctr: &mut usize,
        gnmap: &GlobalNameMap,
        defs: &Vec<crate::raw::RawTypeDef>,
        slots: &mut Vec<Option<Option<Type>>>,
    ) -> (r: Result<GlobalAlias, DecodeError>)
        requires
            wf_raw_type_defs(defs.deep_view()),
            wf_raw_type(ra.deep_view().ty, defs@.len() as int),
            wf_raw_constant(
                gnmap.deep_view().defined_functions.len() as int,
                gnmap.deep_view().declared_functions.len() as int,
                gnmap.deep_view().globals.len() as int,
                gnmap.deep_view().aliases.len() as int,
                ra.deep_view().aliasee,
            ),
            slots_ok(defs.deep_view(), old(slots).deep_view(), Set::empty()),
            *old(ctr) < usize::MAX,
        ensures
            final(slots)@.len() == old(slots)@.len(),
            forall|i: int|
                0 <= i < old(slots)@.len() && old(slots)@[i] is Some ==> final(slots)@[i]
                    == old(slots)@[i],
            slots_ok(defs.deep_view(), final(slots).deep_view(), Set::empty()),
            *final(ctr) as int == ctr_next(ra.deep_view().name, *old(ctr) as int),
            match r {
                Ok(av) => global_alias_of_raw(
                    defs.deep_view(),
                    gnmap.deep_view(),
                    ra.deep_view(),
                    allocated_name(ra.deep_view().name, *old(ctr) as int),
                ) == Ok::<GlobalAliasV, DecodeError>(av.deep_view()),
                Err(e) => global_alias_of_raw(
                    defs.deep_view(),
                    gnmap.deep_view(),
                    ra.deep_view(),
                    allocated_name(ra.deep_view().name, *old(ctr) as int),
                ) == Err::<GlobalAliasV, DecodeError>(e),
            },
    {
        let name = Name::name_or_num(ra.name.clone(), ctr);
        let ty = type_from_raw(defs, &ra.ty, slots, Ghost(Set::empty()));
        let addr_space: u32 = match &ty {
            Type::PointerType { addr_space, .. } => *addr_space,
            _ => {
                return Err(DecodeError::NonPointerGlobalType);
            },
        };
        Ok(
            GlobalAlias {
                name,
                aliasee: constant_from_raw(&ra.aliasee, gnmap),
                linkage: Linkage::from_raw(ra.linkage),
                visibility: Visibility::from_raw(ra.visibility),
                ty,
                addr_space,
                dll_storage_class: DLLStorageClass::from_raw(ra.dll_storage_class),
                thread_local_mode: ThreadLocalMode::from_raw(ra.thread_local_mode),
                unnamed_addr: UnnamedAddr::from_raw(ra.unnamed_addr),
            },
        )
    }
}

impl NamedMetadata {
    /// Decode one named metadata entry, identifying every node it lists.
    pub fn from_raw(
        nm: &RawNamedMetadata,
        src: &Vec<crate::raw::RawMetadataNode>,
        ids: &mut Vec<Option<usize>>,
        tbl: &mut Vec<MetadataNode>,
        fuel: usize,
    ) -> (r: Result<NamedMetadata, DecodeError>)
        requires
            old(ids)@.len() == src@.len(),
            fuel as nat >= md_unassigned(old(ids)@),
            fuel as nat + old(tbl)@.len() + md_unassigned(old(ids)@) <= usize::MAX,
        ensures
            final(ids)@.len() == src@.len(),
            match r {
                Ok(x) => x.deep_view().name == nm.deep_view().name && md_identify_list(
                    src.deep_view(),
                    nm.operands@,
                    MdSt { ids: old(ids)@, tbl: old(tbl).deep_view() },
                    fuel as nat,
                ) == Some(
                    Ok::<(Seq<usize>, MdSt), DecodeError>(
                        (
                            x.deep_view().node_ids,
                            MdSt { ids: final(ids)@, tbl: final(tbl).deep_view() },
                        ),
                    ),
                ),
                Err(e) => md_identify_list(
                    src.deep_view(),
                    nm.operands@,
                    MdSt { ids: old(ids)@, tbl: old(tbl).deep_view() },
                    fuel as nat,
                ) == Some(Err::<(Seq<usize>, MdSt), DecodeError>(e)),
            },
    {
        let name = nm.name.clone();
        match crate::metadata::identify_list(src, &nm.operands, ids, tbl, fuel) {
            Ok(v) => Ok(NamedMetadata { name, node_ids: v }),
            Err(e) => Err(e),
        }
    }
}


// ---------------------------------------------------------------------------
// Pass 1: identifier assignment.
// ---------------------------------------------------------------------------

/// Walk every global object in the fixed enumeration order and assign each
/// its identifier: pass 1 of the decoder.
#[verifier::loop_isolation(false)]
#[verifier::rlimit(60)]
pub fn assign_names(g: &RawModule) -> (m: GlobalNameMap)
    requires
        wf_raw_module(g.deep_view()),
    ensures
        m.deep_view() == gnmap_of_raw(g.deep_view()),
{
    let ghost gv = g.deep_view();
    let ghost names = all_names(gv);
    let ghost nf = gv.defined_functions.len() as int;
    let ghost nd = gv.declared_functions.len() as int;
    let ghost ng = gv.globals.len() as int;
    let ghost na = gv.aliases.len() as int;
    proof {
        assert(names.len() == nf + nd + ng + na);
    }
    let mut ctr: usize = 0;
    let mut defined_functions: Vec<Name> = Vec::new();
    let mut declared_functions: Vec<Name> = Vec::new();
    let mut globals: Vec<Name> = Vec::new();
    let mut aliases: Vec<Name> = Vec::new();

    let n1 = g.defined_functions.len();
    let mut k: usize = 0;
    while k < n1
        invariant
            k <= n1,
            ctr as int == ctr_after(names, 0, k as int),
            defined_functions@.len() == k,
            forall|j: int|
                0 <= j < k ==> defined_functions.deep_view()[j] == assigned_name(names, 0, j),
        decreases n1 - k,
    {
        proof {
            crate::name::lemma_ctr_after_le(names, 0, k as int);
            assert(names[k as int] == gv.defined_functions[k as int].name);
        }
        let ghost old_deep = defined_functions.deep_view();
        let id = Name::name_or_num(g.defined_functions[k].name.clone(), &mut ctr);
        defined_functions.push(id);
        proof {
            assert(defined_functions.deep_view() =~= old_deep.push(id.deep_view()));
            assert(g.defined_functions@[k as int].name@ == gv.defined_functions[k as int].name);
            assert(id.deep_view() == assigned_name(names, 0, k as int));
            assert(defined_functions.deep_view()[k as int] == id.deep_view());
        }
        k += 1;
    }

    let n2 = g.declared_functions.len();
    let mut k2: usize = 0;
    while k2 < n2
        invariant
            k2 <= n2,
            ctr as int == ctr_after(names, 0, nf + k2),
            declared_functions@.len() == k2,
            forall|j: int|
                0 <= j < k2 ==> declared_functions.deep_view()[j] == assigned_name(
                    names,
                    0,
                    nf + j,
                ),
        decreases n2 - k2,
    {
        proof {
            crate::name::lemma_ctr_after_le(names, 0, nf + k2);
            assert(names[nf + k2] == gv.declared_functions[k2 as int].name);
        }
        let ghost old_deep = declared_functions.deep_view();
        let id = Name::name_or_num(g.declared_functions[k2].name.clone(), &mut ctr);
        declared_functions.push(id);
        proof {
            assert(declared_functions.deep_view() =~= old_deep.push(id.deep_view()));
            assert(g.declared_functions@[k2 as int].name@ == gv.declared_functions[k2 as int].name);
            assert(id.deep_view() == assigned_name(names, 0, nf + k2));
            assert(declared_functions.deep_view()[k2 as int] == id.deep_view());
        }
        k2 += 1;
    }

    let n3 = g.globals.len();
    let mut k3: usize = 0;
    while k3 < n3
        invariant
            k3 <= n3,
            ctr as int == ctr_after(names, 0, nf + nd + k3),
            globals@.len() == k3,
            forall|j: int|
                0 <= j < k3 ==> globals.deep_view()[j] == assigned_name(names, 0, nf + nd + j),
        decreases n3 - k3,
    {
        proof {
            crate::name::lemma_ctr_after_le(names, 0, nf + nd + k3);
            assert(names[nf + nd + k3] == gv.globals[k3 as int].name);
        }
        let ghost ctr0 = ctr as int;
        let ghost old_deep = globals.deep_view();
        let id = Name::name_or_num(g.globals[k3].name.clone(), &mut ctr);
        globals.push(id);
        proof {
            assert(globals.deep_view() =~= old_deep.push(id.deep_view()));
            assert(g.globals@[k3 as int].name@ == gv.globals[k3 as int].name);
            assert(id.deep_view() == assigned_name(names, 0, nf + nd + k3));
            assert(globals.deep_view()[k3 as int] == id.deep_view());
        }
        k3 += 1;
    }

    let n4 = g.aliases.len();
    let mut k4: usize = 0;
    while k4 < n4
        invariant
            k4 <= n4,
            ctr as int == ctr_after(names, 0, nf + nd + ng + k4),
            aliases@.len() == k4,
            forall|j: int|
                0 <= j < k4 ==> aliases.deep_view()[j] == assigned_name(
                    names,
                    0,
                    nf + nd + ng + j,
                ),
        decreases n4 - k4,
    {
        proof {
            crate::name::lemma_ctr_after_le(names, 0, nf + nd + ng + k4);
            assert(names[nf + nd + ng + k4] == gv.aliases[k4 as int].name);
        }
        let ghost ctr0 = ctr as int;
        let ghost old_deep = aliases.deep_view();
        let id = Name::name_or_num(g.aliases[k4].name.clone(), &mut ctr);
        aliases.push(id);
        proof {
            assert(aliases.deep_view() =~= old_deep.push(id.deep_view()));
            assert(g.aliases@[k4 as int].name@ == gv.aliases[k4 as int].name);
            assert(id.deep_view() == assigned_name(names, 0, nf + nd + ng + k4));
            assert(aliases.deep_view()[k4 as int] == id.deep_view());
        }
        k4 += 1;
    }

    let m = GlobalNameMap { defined_functions, declared_functions, globals, aliases };
    proof {
        assert(m.deep_view().defined_functions =~= gnmap_of_raw(gv).defined_functions);
        assert(m.deep_view().declared_functions =~= gnmap_of_raw(gv).declared_functions);
        assert(m.deep_view().globals =~= gnmap_of_raw(gv).globals);
        assert(m.deep_view().aliases =~= gnmap_of_raw(gv).aliases);
    }
    m
}

// ---------------------------------------------------------------------------
// The module decoder.
// ---------------------------------------------------------------------------

impl Module {
    /// Decode a whole source graph into an owned module: pass 1 assigns
    /// every global object its identifier; pass 2 replays the same
    /// enumeration with the counter reset, decodes every entity, resolves
    /// every named struct declaration, and indexes the metadata graph.
    #[verifier::loop_isolation(false)]
    #[verifier::rlimit(60)]
    pub fn from_graph(g: &RawModule) -> (r: Result<Module, DecodeError>)
        requires
            wf_raw_module(g.deep_view()),
        ensures
            match r {
                Ok(m) => module_of_raw(g.deep_view()) == Ok::<ModuleV, DecodeError>(
                    m.deep_view(),
                ),
                Err(e) => module_of_raw(g.deep_view()) == Err::<ModuleV, DecodeError>(e),
            },
    {
        let ghost gv = g.deep_view();
        let ghost names = all_names(gv);
        let ghost nf = gv.defined_functions.len() as int;
        let ghost nd = gv.declared_functions.len() as int;
        let ghost ng = gv.globals.len() as int;
        let ghost na = gv.aliases.len() as int;
        proof {
            assert(names.len() == nf + nd + ng + na);
        }

        // Pass 1: map every global object to its identifier.
        let gnmap = assign_names(g);

        // Pass 2: counter reset; same enumeration order replayed.
        let mut ctr: usize = 0;

        // The named-type slot table, one slot per declaration, all unvisited.
        let ndefs = g.type_defs.len();
        let mut slots: Vec<Option<Option<Type>>> = Vec::new();
        let mut s0: usize = 0;
        while s0 < ndefs
            invariant
                s0 <= ndefs,
                slots@.len() == s0,
                forall|j: int| 0 <= j < s0 ==> slots@[j] is None,
            decreases ndefs - s0,
        {
            slots.push(None);
            s0 += 1;
        }
        proof {
            assert(slots_ok(gv.type_defs, slots.deep_view(), Set::empty()));
        }

        // Defined functions: decoded, and numbered exactly as in pass 1.
        let mut functions: Vec<Function> = Vec::new();
        let nfx = g.defined_functions.len();
        let mut k: usize = 0;
        while k < nfx
            invariant
                k <= nfx,
                ctr as int == ctr_after(names, 0, k as int),
                slots@.len() == gv.type_defs.len(),
                slots_ok(gv.type_defs, slots.deep_view(), Set::empty()),
                functions@.len() == k,
                forall|j: int|
                    0 <= j < k ==> functions.deep_view()[j] == decoded_functions(gv)[j],
            decreases nfx - k,
        {
            proof {
                crate::name::lemma_ctr_after_le(names, 0, k as int);
                assert(names[k as int] == gv.defined_functions[k as int].name);
                assert(wf_raw_type(gv.defined_functions[k as int].return_type, ndefs as int));
            }
            let f = &g.defined_functions[k];
            let _replayed = Name::name_or_num(f.name.clone(), &mut ctr);
            let decoded = Function::from_raw(f, &g.type_defs, &mut slots);
            functions.push(decoded);
            k += 1;
        }

        // Declared functions: not retained as entities, but the counter is
        // advanced over them so pass 2 numbers everything as pass 1 did.
        let ndx = g.declared_functions.len();
        let mut k2: usize = 0;
        while k2 < ndx
            invariant
                k2 <= ndx,
                ctr as int == ctr_after(names, 0, nf + k2),
            decreases ndx - k2,
        {
            proof {
                crate::name::lemma_ctr_after_le(names, 0, nf + k2);
                assert(names[nf + k2] == gv.declared_functions[k2 as int].name);
            }
            let _replayed = Name::name_or_num(g.declared_functions[k2].name.clone(), &mut ctr);
            k2 += 1;
        }

        // Global variables.
        let mut global_vars: Vec<GlobalVariable> = Vec::new();
        proof {
            assert(global_vars.deep_view() =~= Seq::<GlobalVariableV>::empty());
        }
        let ngx = g.globals.len();
        let mut k3: usize = 0;
        while k3 < ngx
            invariant
                k3 <= ngx,
                ctr as int == ctr_after(names, 0, nf + nd + k3),
                slots@.len() == gv.type_defs.len(),
                slots_ok(gv.type_defs, slots.deep_view(), Set::empty()),
                decoded_global_vars_upto(gv, k3 as int) == Ok::<Seq<GlobalVariableV>, DecodeError>(
                    global_vars.deep_view(),
                ),
            decreases ngx - k3,
        {
            proof {
                crate::name::lemma_ctr_after_le(names, 0, nf + nd + k3);
                assert(names[nf + nd + k3] == gv.globals[k3 as int].name);
                assert(wf_raw_type(gv.globals[k3 as int].ty, ndefs as int));
                assert(gnmap.deep_view().defined_functions.len() == nf);
                assert(gnmap.deep_view().declared_functions.len() == nd);
                assert(gnmap.deep_view().globals.len() == ng);
                assert(gnmap.deep_view().aliases.len() == na);
            }
            let ghost old_gvs = global_vars.deep_view();
            match GlobalVariable::from_raw(&g.globals[k3], &mut ctr, &gnmap, &g.type_defs, &mut slots) {
                Ok(gvar) => {
                    global_vars.push(gvar);
                    proof {
                        assert(global_vars.deep_view() =~= old_gvs.push(gvar.deep_view()));
                        assert(decoded_global_vars_upto(gv, k3 + 1 as int)
                            == Ok::<Seq<GlobalVariableV>, DecodeError>(global_vars.deep_view()));
                    }
                    k3 += 1;
                },
                Err(e) => {
                    proof {
                        assert(decoded_global_vars_upto(gv, k3 + 1 as int)
                            == Err::<Seq<GlobalVariableV>, DecodeError>(e));
                        lemma_global_vars_err_propagates(gv, k3 + 1 as int, ng);
                    }
                    return Err(e);
                },
            }
        }
        proof {
            assert(decoded_global_vars_upto(gv, ng) == Ok::<Seq<GlobalVariableV>, DecodeError>(
                global_vars.deep_view(),
            ));
        }

        // Global aliases.
        let mut global_aliases: Vec<GlobalAlias> = Vec::new();
        proof {
            assert(global_aliases.deep_view() =~= Seq::<GlobalAliasV>::empty());
        }
        let nax = g.aliases.len();
        let mut k4: usize = 0;
        while k4 < nax
            invariant
                k4 <= nax,
                ctr as int == ctr_after(names, 0, nf + nd + ng + k4),
                slots@.len() == gv.type_defs.len(),
                slots_ok(gv.type_defs, slots.deep_view(), Set::empty()),
                decoded_aliases_upto(gv, k4 as int) == Ok::<Seq<GlobalAliasV>, DecodeError>(
                    global_aliases.deep_view(),
                ),
            decreases nax - k4,
        {
            proof {
                crate::name::lemma_ctr_after_le(names, 0, nf + nd + ng + k4);
                assert(names[nf + nd + ng + k4] == gv.aliases[k4 as int].name);
                assert(wf_raw_type(gv.aliases[k4 as int].ty, ndefs as int));
                assert(gnmap.deep_view().defined_functions.len() == nf);
                assert(gnmap.deep_view().declared_functions.len() == nd);
                assert(gnmap.deep_view().globals.len() == ng);
                assert(gnmap.deep_view().aliases.len() == na);
            }
            let ghost old_avs = global_aliases.deep_view();
            match GlobalAlias::from_raw(&g.aliases[k4], &mut ctr, &gnmap, &g.type_defs, &mut slots) {
                Ok(av) => {
                    global_aliases.push(av);
                    proof {
                        assert(global_aliases.deep_view() =~= old_avs.push(av.deep_view()));
                        assert(decoded_aliases_upto(gv, k4 + 1 as int)
                            == Ok::<Seq<GlobalAliasV>, DecodeError>(global_aliases.deep_view()));
                    }
                    k4 += 1;
                },
                Err(e) => {
                    proof {
                        assert(decoded_aliases_upto(gv, k4 + 1 as int)
                            == Err::<Seq<GlobalAliasV>, DecodeError>(e));
                        lemma_aliases_err_propagates(gv, k4 + 1 as int, na);
                    }
                    return Err(e);
                },
            }
        }

        // Resolve every named type declaration, so that an opaque
        // declaration appears in the table even if nothing references it.
        let mut t: usize = 0;
        while t < ndefs
            invariant
                t <= ndefs,
                slots@.len() == gv.type_defs.len(),
                slots_ok(gv.type_defs, slots.deep_view(), Set::empty()),
                forall|j: int| 0 <= j < t ==> slots@[j] is Some,
            decreases ndefs - t,
        {
            let _ty = crate::types::resolve_named(&g.type_defs, t, &mut slots, Ghost(Set::empty()));
            t += 1;
        }
        let named_struct_types = crate::types::freeze_slots(&g.type_defs, &slots);

        // Metadata: named metadata entries drive the indexer.
        let nmeta = g.metadata_nodes.len();
        let mut ids: Vec<Option<usize>> = Vec::new();
        let mut m0: usize = 0;
        while m0 < nmeta
            invariant
                m0 <= nmeta,
                ids@.len() == m0,
                forall|j: int| 0 <= j < m0 ==> ids@[j] is None,
            decreases nmeta - m0,
        {
            ids.push(None);
            m0 += 1;
        }
        let mut tbl: Vec<MetadataNode> = Vec::new();
        let mut named_metadatas: Vec<NamedMetadata> = Vec::new();
        proof {
            assert(ids@ =~= md_init(gv).ids);
            assert(tbl.deep_view() =~= md_init(gv).tbl);
            assert(named_metadatas.deep_view() =~= Seq::<NamedMetadataV>::empty());
            crate::metadata::lemma_md_unassigned_all_none(nmeta as nat);
        }
        let nnm = g.named_metadatas.len();
        let mut k5: usize = 0;
        while k5 < nnm
            invariant
                k5 <= nnm,
                ids@.len() == nmeta,
                tbl.deep_view().len() + md_unassigned(ids@) == nmeta as nat,
                decoded_named_metadatas_upto(gv, k5 as int) == Ok::<
                    (Seq<NamedMetadataV>, MdSt),
                    DecodeError,
                >((named_metadatas.deep_view(), MdSt { ids: ids@, tbl: tbl.deep_view() })),
            decreases nnm - k5,
        {
            let ghost cur = MdSt { ids: ids@, tbl: tbl.deep_view() };
            let ghost old_nmds = named_metadatas.deep_view();
            proof {
                lemma_md_unassigned_le_len(ids@);
                assert(gv.named_metadatas[k5 as int].operands == g.named_metadatas@[k5 as int].operands@);
            }
            match NamedMetadata::from_raw(&g.named_metadatas[k5], &g.metadata_nodes, &mut ids, &mut tbl, nmeta) {
                Ok(nm) => {
                    proof {
                        lemma_md_identify_list_ext(
                            gv.metadata_nodes,
                            gv.named_metadatas[k5 as int].operands,
                            cur,
                            nmeta as nat,
                        );
                    }
                    named_metadatas.push(nm);
                    proof {
                        assert(named_metadatas.deep_view() =~= old_nmds.push(nm.deep_view()));
                        assert(decoded_named_metadatas_upto(gv, k5 + 1 as int) == Ok::<
                            (Seq<NamedMetadataV>, MdSt),
                            DecodeError,
                        >((named_metadatas.deep_view(), MdSt { ids: ids@, tbl: tbl.deep_view() })));
                    }
                    k5 += 1;
                },
                Err(e) => {
                    proof {
                        assert(decoded_named_metadatas_upto(gv, k5 + 1 as int) == Err::<
                            (Seq<NamedMetadataV>, MdSt),
                            DecodeError,
                        >(e));
                        lemma_named_metadatas_err_propagates(
                            gv,
                            k5 + 1 as int,
                            gv.named_metadatas.len() as int,
                        );
                    }
                    return Err(e);
                },
            }
        }

        // Assemble the owned module.
        let m = Module {
            name: g.name.clone(),
            source_file_name: g.source_file_name.clone(),
            data_layout: g.data_layout.clone(),
            target_triple: clone_opt_string(&g.target_triple),
            functions,
            global_vars,
            global_aliases,
            named_struct_types,
            inline_assembly: g.inline_assembly.clone(),
            metadata_nodes: tbl,
            named_metadatas,
        };
        proof {
            assert(m.deep_view().functions =~= decoded_functions(gv));
        }
        Ok(m)
    }

    /// Get the function having the given name, if any.
    pub fn get_func_by_name(&self, name: &str) -> (r: Option<&Function>)
        ensures
            match r {
                Some(f) => func_lookup(self.functions.deep_view(), name@) == Some(f.deep_view()),
                None => func_lookup(self.functions.deep_view(), name@) is None,
            },
    {
        let owned: String = name.to_owned();
        let ghost full = self.functions.deep_view();
        proof {
            assert(full.subrange(0, full.len() as int) =~= full);
        }
        let n = self.functions.len();
        let mut k: usize = 0;
        while k < n
            invariant
                k <= n,
                n == self.functions@.len(),
                owned@ == name@,
                full == self.functions.deep_view(),
                full.len() == n,
                func_lookup(full, name@) == func_lookup(
                    full.subrange(k as int, full.len() as int),
                    name@,
                ),
            decreases n - k,
        {
            let f = &self.functions[k];
            let ghost suffix = full.subrange(k as int, full.len() as int);
            proof {
                assert(suffix[0] == full[k as int]);
            }
            if f.name == owned {
                return Some(f);
            }
            proof {
                assert(suffix.subrange(1, suffix.len() as int) =~= full.subrange(
                    k + 1 as int,
                    full.len() as int,
                ));
            }
            k += 1;
        }
        None
    }
}

/// Lookup over the decoded functions: the first one carrying `name`.
pub open spec fn func_lookup(fs: Seq<FunctionV>, name: Seq<char>) -> Option<FunctionV>
    decreases fs.len(),
{
    if fs.len() == 0 {
        None
    } else if fs[0].name == name {
        Some(fs[0])
    } else {
        func_lookup(fs.subrange(1, fs.len() as int), name)
    }
}

pub proof fn lemma_global_vars_err_propagates(g: RawModuleV, k: int, j: int)
    requires
        0 <= k <= j,
        decoded_global_vars_upto(g, k) is Err,
    ensures
        decoded_global_vars_upto(g, j) == decoded_global_vars_upto(g, k),
    decreases j - k,
{
    if k < j {
        lemma_global_vars_err_propagates(g, k, j - 1);
    }
}

pub proof fn lemma_aliases_err_propagates(g: RawModuleV, k: int, j: int)
    requires
        0 <= k <= j,
        decoded_aliases_upto(g, k) is Err,
    ensures
        decoded_aliases_upto(g, j) == decoded_aliases_upto(g, k),
    decreases j - k,
{
    if k < j {
        lemma_aliases_err_propagates(g, k, j - 1);
    }
}

pub proof fn lemma_named_metadatas_err_propagates(g: RawModuleV, k: int, j: int)
    requires
        0 <= k <= j,
        decoded_named_metadatas_upto(g, k) is Err,
    ensures
        decoded_named_metadatas_upto(g, j) == decoded_named_metadatas_upto(g, k),
    decreases j - k,
{
    if k < j {
        lemma_named_metadatas_err_propagates(g, k, j - 1);
    }
}

} // verus!

