use llvm_ir::constant::Constant;
use llvm_ir::error::DecodeError;
use llvm_ir::module::Module;
use llvm_ir::name::Name;
use llvm_ir::module::{DLLStorageClass, Linkage, ThreadLocalMode, UnnamedAddr, Visibility};
use llvm_ir::raw::{
    RawConstant, RawDLLStorageClass, RawFunction, RawGlobal, RawGlobalRef, RawLinkage,
    RawModule, RawStructDef, RawThreadLocalMode, RawType, RawTypeDef, RawUnnamedAddr,
    RawVisibility,
};
use llvm_ir::types::Type;

fn int_ty(bits: u32) -> RawType {
    RawType::Integer { bits }
}

fn ptr_ty(pointee: RawType, addr_space: u32) -> RawType {
    RawType::Pointer { pointee: Box::new(pointee), addr_space }
}

fn function(name: &str) -> RawFunction {
    RawFunction {
        name: name.to_string(),
        return_type: RawType::Void,
        linkage: RawLinkage::External,
        visibility: RawVisibility::Default,
    }
}

fn global(name: &str, ty: RawType, initializer: Option<RawConstant>) -> RawGlobal {
    RawGlobal {
        name: name.to_string(),
        linkage: RawLinkage::External,
        visibility: RawVisibility::Default,
        is_constant: false,
        ty,
        dll_storage_class: RawDLLStorageClass::Default,
        thread_local_mode: RawThreadLocalMode::NotThreadLocal,
        unnamed_addr: RawUnnamedAddr::No,
        initializer,
        section: None,
        comdat: None,
        alignment: 4,
    }
}

fn empty_graph() -> RawModule {
    RawModule {
        name: "m".to_string(),
        source_file_name: "m.c".to_string(),
        data_layout: "e-m:e".to_string(),
        target_triple: Some("x86_64-unknown-linux-gnu".to_string()),
        inline_assembly: String::new(),
        defined_functions: Vec::new(),
        declared_functions: Vec::new(),
        globals: Vec::new(),
        aliases: Vec::new(),
        type_defs: Vec::new(),
        metadata_nodes: Vec::new(),
        named_metadatas: Vec::new(),
    }
}

#[test]
fn decode_empty_graph() {
    let g = empty_graph();
    let m = Module::from_graph(&g).unwrap();
    assert_eq!(m.name, "m");
    assert_eq!(m.source_file_name, "m.c");
    assert_eq!(m.data_layout, "e-m:e");
    assert_eq!(m.target_triple.as_deref(), Some("x86_64-unknown-linux-gnu"));
    assert!(m.functions.is_empty());
    assert!(m.global_vars.is_empty());
    assert!(m.global_aliases.is_empty());
    assert!(m.metadata_nodes.is_empty());
    assert!(m.named_metadatas.is_empty());
}

#[test]
fn determinism_same_graph_twice() {
    let mut g = empty_graph();
    g.defined_functions.push(function(""));
    g.defined_functions.push(function("f"));
    g.globals.push(global("", ptr_ty(int_ty(32), 0), None));
    g.globals.push(global("x", ptr_ty(int_ty(8), 0), None));
    let m1 = Module::from_graph(&g).unwrap();
    let m2 = Module::from_graph(&g).unwrap();
    assert_eq!(m1, m2);
}

#[test]
fn anonymous_globals_replay_pass_one_numbers() {
    // One anonymous defined function takes counter value 0 in pass 1; the
    // anonymous global variable behind it must be numbered 1 in pass 2 too.
    let mut g = empty_graph();
    g.defined_functions.push(function(""));
    g.globals.push(global("", ptr_ty(int_ty(32), 0), None));
    g.globals.push(global("named", ptr_ty(int_ty(32), 0), None));
    let m = Module::from_graph(&g).unwrap();
    assert_eq!(m.global_vars[0].name, Name::Number(1));
    assert_eq!(m.global_vars[1].name, Name::Name("named".to_string()));
}

#[test]
fn identifier_uniqueness() {
    let mut g = empty_graph();
    g.defined_functions.push(function(""));
    g.globals.push(global("", ptr_ty(int_ty(32), 0), None));
    g.globals.push(global("", ptr_ty(int_ty(32), 0), None));
    g.globals.push(global("x", ptr_ty(int_ty(32), 0), None));
    let m = Module::from_graph(&g).unwrap();
    let names: Vec<&Name> = m.global_vars.iter().map(|gv| &gv.name).collect();
    for i in 0..names.len() {
        for j in (i + 1)..names.len() {
            assert_ne!(names[i], names[j]);
        }
    }
}

#[test]
fn circular_global_references() {
    // A's initializer references B and vice versa: decode succeeds, and
    // each decoded initializer names the other's identifier.
    let mut g = empty_graph();
    g.globals.push(global(
        "a",
        ptr_ty(int_ty(32), 0),
        Some(RawConstant::GlobalRef { target: RawGlobalRef::Global(1) }),
    ));
    g.globals.push(global(
        "b",
        ptr_ty(int_ty(32), 0),
        Some(RawConstant::GlobalRef { target: RawGlobalRef::Global(0) }),
    ));
    let m = Module::from_graph(&g).unwrap();
    assert_eq!(
        m.global_vars[0].initializer,
        Some(Constant::GlobalReference { name: Name::Name("b".to_string()) })
    );
    assert_eq!(
        m.global_vars[1].initializer,
        Some(Constant::GlobalReference { name: Name::Name("a".to_string()) })
    );
}

#[test]
fn forward_reference_to_anonymous_global() {
    // The first global references the second, which is anonymous; the
    // reference resolves to the number pass 1 assigned.
    let mut g = empty_graph();
    g.globals.push(global(
        "first",
        ptr_ty(int_ty(32), 0),
        Some(RawConstant::GlobalRef { target: RawGlobalRef::Global(1) }),
    ));
    g.globals.push(global("", ptr_ty(int_ty(32), 0), None));
    let m = Module::from_graph(&g).unwrap();
    assert_eq!(
        m.global_vars[0].initializer,
        Some(Constant::GlobalReference { name: Name::Number(0) })
    );
    assert_eq!(m.global_vars[1].name, Name::Number(0));
}

#[test]
fn nested_constant_resolution() {
    let mut g = empty_graph();
    g.globals.push(global(
        "table",
        ptr_ty(int_ty(64), 0),
        Some(RawConstant::Array {
            elements: vec![
                RawConstant::Int { bits: 64, value: 7 },
                RawConstant::GlobalRef { target: RawGlobalRef::Global(0) },
            ],
        }),
    ));
    let m = Module::from_graph(&g).unwrap();
    assert_eq!(
        m.global_vars[0].initializer,
        Some(Constant::Array {
            elements: vec![
                Constant::Int { bits: 64, value: 7 },
                Constant::GlobalReference { name: Name::Name("table".to_string()) },
            ],
        })
    );
}

#[test]
fn type_memoization_shared_slot() {
    // One named struct type referenced from three independent sites: every
    // site decodes to the same by-name reference, and the module holds one
    // single entry behind that name.
    let mut g = empty_graph();
    g.type_defs.push(RawTypeDef {
        name: "pair".to_string(),
        def: Some(RawStructDef {
            element_types: vec![int_ty(32), int_ty(32)],
            is_packed: false,
        }),
    });
    g.globals.push(global("g1", ptr_ty(RawType::NamedRef { index: 0 }, 0), None));
    g.globals.push(global("g2", ptr_ty(RawType::NamedRef { index: 0 }, 0), None));
    g.globals.push(global("g3", ptr_ty(RawType::NamedRef { index: 0 }, 0), None));
    let m = Module::from_graph(&g).unwrap();
    let expected_ref = Type::PointerType {
        pointee_type: Box::new(Type::NamedStructType { name: "pair".to_string() }),
        addr_space: 0,
    };
    assert_eq!(m.global_vars[0].ty, expected_ref);
    assert_eq!(m.global_vars[1].ty, expected_ref);
    assert_eq!(m.global_vars[2].ty, expected_ref);
    assert_eq!(m.named_struct_types.entries.len(), 1);
    let entry = m.named_struct_types.get(&"pair".to_string()).unwrap();
    assert_eq!(
        entry,
        &Some(Type::StructType {
            element_types: vec![Type::IntegerType { bits: 32 }, Type::IntegerType { bits: 32 }],
            is_packed: false,
        })
    );
}

#[test]
fn self_referential_type_terminates() {
    // A named struct holding a pointer to itself by name: decoding
    // terminates and the inner reference names the same slot.
    let mut g = empty_graph();
    g.type_defs.push(RawTypeDef {
        name: "node".to_string(),
        def: Some(RawStructDef {
            element_types: vec![int_ty(64), ptr_ty(RawType::NamedRef { index: 0 }, 0)],
            is_packed: false,
        }),
    });
    g.globals.push(global("head", ptr_ty(RawType::NamedRef { index: 0 }, 0), None));
    let m = Module::from_graph(&g).unwrap();
    let entry = m.named_struct_types.get(&"node".to_string()).unwrap();
    assert_eq!(
        entry,
        &Some(Type::StructType {
            element_types: vec![
                Type::IntegerType { bits: 64 },
                Type::PointerType {
                    pointee_type: Box::new(Type::NamedStructType { name: "node".to_string() }),
                    addr_space: 0,
                },
            ],
            is_packed: false,
        })
    );
}

#[test]
fn mutually_referential_types() {
    let mut g = empty_graph();
    g.type_defs.push(RawTypeDef {
        name: "a".to_string(),
        def: Some(RawStructDef {
            element_types: vec![ptr_ty(RawType::NamedRef { index: 1 }, 0)],
            is_packed: false,
        }),
    });
    g.type_defs.push(RawTypeDef {
        name: "b".to_string(),
        def: Some(RawStructDef {
            element_types: vec![ptr_ty(RawType::NamedRef { index: 0 }, 0)],
            is_packed: true,
        }),
    });
    let m = Module::from_graph(&g).unwrap();
    assert_eq!(m.named_struct_types.entries.len(), 2);
    let a = m.named_struct_types.get(&"a".to_string()).unwrap();
    assert_eq!(
        a,
        &Some(Type::StructType {
            element_types: vec![Type::PointerType {
                pointee_type: Box::new(Type::NamedStructType { name: "b".to_string() }),
                addr_space: 0,
            }],
            is_packed: false,
        })
    );
    let b = m.named_struct_types.get(&"b".to_string()).unwrap();
    assert_eq!(
        b,
        &Some(Type::StructType {
            element_types: vec![Type::PointerType {
                pointee_type: Box::new(Type::NamedStructType { name: "a".to_string() }),
                addr_space: 0,
            }],
            is_packed: true,
        })
    );
}

#[test]
fn opaque_type_preserved() {
    // Declared by name, never defined: the table holds the name with an
    // absent definition -- no error, and no default aggregate.
    let mut g = empty_graph();
    g.type_defs.push(RawTypeDef { name: "secret".to_string(), def: None });
    let m = Module::from_graph(&g).unwrap();
    assert_eq!(m.named_struct_types.entries.len(), 1);
    let entry = m.named_struct_types.get(&"secret".to_string()).unwrap();
    assert_eq!(entry, &None);
}

#[test]
fn non_pointer_global_type_rejected() {
    let mut g = empty_graph();
    g.globals.push(global("bad", int_ty(32), None));
    assert_eq!(Module::from_graph(&g), Err(DecodeError::NonPointerGlobalType));
}

#[test]
fn non_pointer_alias_type_rejected() {
    let mut g = empty_graph();
    g.aliases.push(llvm_ir::raw::RawAlias {
        name: "al".to_string(),
        aliasee: RawConstant::Int { bits: 32, value: 0 },
        linkage: RawLinkage::External,
        visibility: RawVisibility::Default,
        ty: int_ty(32),
        dll_storage_class: RawDLLStorageClass::Default,
        thread_local_mode: RawThreadLocalMode::NotThreadLocal,
        unnamed_addr: RawUnnamedAddr::No,
    });
    assert_eq!(Module::from_graph(&g), Err(DecodeError::NonPointerGlobalType));
}

#[test]
fn get_func_by_name_finds_and_misses() {
    let mut g = empty_graph();
    g.defined_functions.push(function("alpha"));
    g.defined_functions.push(function("beta"));
    let m = Module::from_graph(&g).unwrap();
    assert_eq!(m.get_func_by_name("beta").map(|f| f.name.as_str()), Some("beta"));
    assert_eq!(m.get_func_by_name("alpha").map(|f| f.name.as_str()), Some("alpha"));
    assert!(m.get_func_by_name("gamma").is_none());
}

#[test]
fn get_type_returns_pointer_type() {
    let mut g = empty_graph();
    g.globals.push(global("x", ptr_ty(int_ty(16), 3), None));
    let m = Module::from_graph(&g).unwrap();
    let gv = &m.global_vars[0];
    assert_eq!(gv.addr_space, 3);
    assert_eq!(gv.get_type(), gv.ty);
}

#[test]
fn storage_attributes_translate() {
    let mut g = empty_graph();
    let mut gv = global("tls", ptr_ty(int_ty(32), 0), None);
    gv.linkage = RawLinkage::Internal;
    gv.visibility = RawVisibility::Hidden;
    gv.is_constant = true;
    gv.dll_storage_class = RawDLLStorageClass::DLLExport;
    gv.thread_local_mode = RawThreadLocalMode::InitialExec;
    gv.unnamed_addr = RawUnnamedAddr::Local;
    gv.section = Some("mysec".to_string());
    gv.alignment = 16;
    g.globals.push(gv);
    let m = Module::from_graph(&g).unwrap();
    let d = &m.global_vars[0];
    assert_eq!(d.linkage, Linkage::Internal);
    assert_eq!(d.visibility, Visibility::Hidden);
    assert!(d.is_constant);
    assert_eq!(d.dll_storage_class, DLLStorageClass::Export);
    assert_eq!(d.thread_local_mode, ThreadLocalMode::InitialExec);
    assert_eq!(d.unnamed_addr, Some(UnnamedAddr::Local));
    assert_eq!(d.section.as_deref(), Some("mysec"));
    assert_eq!(d.comdat, None);
    assert_eq!(d.alignment, 16);
}

#[test]
fn ghost_linkage_translates() {
    let mut g = empty_graph();
    let mut gv = global("old", ptr_ty(int_ty(32), 0), None);
    gv.linkage = RawLinkage::GhostLinkage;
    g.globals.push(gv);
    let m = Module::from_graph(&g).unwrap();
    assert_eq!(m.global_vars[0].linkage, Linkage::GhostLinkage);
}

#[test]
fn alias_decodes_with_aliasee() {
    let mut g = empty_graph();
    g.globals.push(global("target", ptr_ty(int_ty(32), 0), None));
    g.aliases.push(llvm_ir::raw::RawAlias {
        name: "al".to_string(),
        aliasee: RawConstant::GlobalRef { target: RawGlobalRef::Global(0) },
        linkage: RawLinkage::WeakAny,
        visibility: RawVisibility::Protected,
        ty: ptr_ty(int_ty(32), 2),
        dll_storage_class: RawDLLStorageClass::Default,
        thread_local_mode: RawThreadLocalMode::NotThreadLocal,
        unnamed_addr: RawUnnamedAddr::Global,
    });
    let m = Module::from_graph(&g).unwrap();
    let a = &m.global_aliases[0];
    assert_eq!(a.name, Name::Name("al".to_string()));
    assert_eq!(a.aliasee, Constant::GlobalReference { name: Name::Name("target".to_string()) });
    assert_eq!(a.linkage, Linkage::WeakAny);
    assert_eq!(a.visibility, Visibility::Protected);
    assert_eq!(a.addr_space, 2);
    assert_eq!(a.unnamed_addr, Some(UnnamedAddr::Global));
    assert_eq!(a.get_type(), a.ty);
}
