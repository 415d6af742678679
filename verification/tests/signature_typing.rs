use core_x::collections::SortedMap;
use core_x::frontend::ast::Span;
use core_x::frontend::hir::{
    HirBodyId, HirFile, HirFunctionDecl, HirFunctionSignature, HirItem, HirItemId, HirItemKind, HirModule, HirOrigin,
    HirParam, HirParamLabel, HirStructField, HirType, HirTypeId, HirTypeKind,
};
use core_x::frontend::resolver::{
    DeclarationOwner, GlobalItem, GlobalItemTable, HirImportTables, HirItemRef, HirLocalBindingTable,
    HirPathResolutionTable, ItemId, ItemKind, ResolvedBodyTable,
};
use core_x::frontend::semantic::analysis::analyze_semantics;
use core_x::frontend::semantic::hir_input::SemanticHirInput;
use core_x::frontend::semantic::signature_typing::type_declaration_signatures;
use core_x::frontend::semantic::types::{BuiltinType, Mutability, NamedTypeKind, Type};
use core_x::frontend::source::FileId;
use core_x::midend::type_check::signatures::{SignatureTypingIssueKind, TypedParamLabel};

fn f0() -> FileId {
    FileId::new(0)
}

fn origin() -> HirOrigin {
    HirOrigin::direct_source(f0(), Span::new(0, 1))
}

fn path_type(name: &str) -> HirTypeKind {
    HirTypeKind::Path { segments: vec![name.to_string()] }
}

fn sig(params: Vec<(HirParamLabel, u32)>, ret: Option<u32>) -> HirFunctionSignature {
    HirFunctionSignature {
        params: params.into_iter().map(|(label, t)| HirParam { label, ty: HirTypeId::new(t) }).collect(),
        return_type: ret.map(HirTypeId::new),
    }
}

fn global(id: u32, kind: ItemKind, name: &str) -> GlobalItem {
    GlobalItem {
        id: ItemId::new(id),
        kind,
        name: name.to_string(),
        full_path: vec!["app".to_string(), name.to_string()],
        containing_scope_file_id: f0(),
        defining_file_id: f0(),
    }
}

/// `fn make(x: i32, p: *mut Point) -> Point`, `struct Point { x: i32, init(i32), len() -> i32 }`,
/// `impl Nope for Point { me() -> Self }`, and an enum `Ghost` with no HIR item.
fn program() -> (SemanticHirInput, Vec<GlobalItem>) {
    let mut m = HirModule::new();
    let types = [
        path_type("i32"),
        path_type("Point"),
        HirTypeKind::Pointer { mutable: true, inner: HirTypeId::new(1) },
        path_type("Nope"),
        HirTypeKind::SelfType,
    ];
    for (i, kind) in types.into_iter().enumerate() {
        m.types.insert(HirTypeId::new(i as u32), HirType { origin: origin(), kind });
    }
    m.items.insert(
        HirItemId::new(0),
        HirItem {
            origin: origin(),
            kind: HirItemKind::Function {
                name: "make".to_string(),
                body: HirBodyId::new(0),
                signature: sig(vec![(HirParamLabel::FromName, 0), (HirParamLabel::Unlabeled, 2)], Some(1)),
            },
        },
    );
    m.items.insert(
        HirItemId::new(1),
        HirItem {
            origin: origin(),
            kind: HirItemKind::Struct {
                name: "Point".to_string(),
                functions: vec![
                    HirFunctionDecl {
                        name: "init".to_string(),
                        body: HirBodyId::new(1),
                        signature: sig(vec![(HirParamLabel::Explicit("from".to_string()), 0)], None),
                        is_initializer: true,
                    },
                    HirFunctionDecl { name: "len".to_string(), body: HirBodyId::new(2), signature: sig(vec![], Some(0)), is_initializer: false },
                ],
                fields: vec![HirStructField { name: "x".to_string(), ty: HirTypeId::new(0) }],
            },
        },
    );
    m.items.insert(
        HirItemId::new(2),
        HirItem {
            origin: origin(),
            kind: HirItemKind::Impl {
                functions: vec![HirFunctionDecl { name: "me".to_string(), body: HirBodyId::new(3), signature: sig(vec![], Some(4)), is_initializer: false }],
                target: HirTypeId::new(1),
                conformance: Some(HirTypeId::new(3)),
            },
        },
    );
    let mut modules = SortedMap::new();
    modules.insert(f0(), m);
    let mut imports = HirImportTables::new();
    imports.scope_paths.insert(f0(), vec!["app".to_string()]);
    imports.local_item_paths.insert(vec!["app".to_string(), "Point".to_string()], HirItemRef::new(f0(), HirItemId::new(1)));
    let mut refs = SortedMap::new();
    refs.insert(HirItemRef::new(f0(), HirItemId::new(0)), ItemId::new(0));
    refs.insert(HirItemRef::new(f0(), HirItemId::new(1)), ItemId::new(1));
    let hir = SemanticHirInput::build(
        vec![HirFile { file_id: f0(), root_items: vec![HirItemId::new(0), HirItemId::new(1), HirItemId::new(2)] }],
        modules,
        HirLocalBindingTable { bindings: vec![] },
        imports,
        HirPathResolutionTable::empty(),
        refs,
        vec![],
    );
    let items = vec![
        global(0, ItemKind::Function, "make"),
        global(1, ItemKind::Struct, "Point"),
        global(2, ItemKind::Enum, "Ghost"),
    ];
    (hir, items)
}

fn point() -> Type {
    Type::named(ItemId::new(1), NamedTypeKind::Struct)
}

#[test]
fn function_signature_types_params_and_return() {
    let (hir, items) = program();
    let table = type_declaration_signatures(&hir, &GlobalItemTable::from_items(items).expect("ascending ids"));
    let make = table.function(ItemId::new(0)).expect("make is typed");
    assert_eq!(make.param_labels, vec![TypedParamLabel::FromName, TypedParamLabel::Unlabeled]);
    assert_eq!(make.param_types, vec![Type::builtin(BuiltinType::I32), Type::pointer(point(), Mutability::Mut)]);
    assert_eq!(make.return_type, Some(point()));
}

#[test]
fn struct_fields_methods_and_initializers() {
    let (hir, items) = program();
    let table = type_declaration_signatures(&hir, &GlobalItemTable::from_items(items).expect("ascending ids"));
    let data = table.struct_data(ItemId::new(1)).expect("Point is typed");
    assert_eq!(data.fields.len(), 1);
    assert_eq!(data.fields[0].name, "x");
    assert_eq!(data.fields[0].ty, Type::builtin(BuiltinType::I32));
    assert_eq!(data.method_signatures.len(), 1);
    assert_eq!(data.method_signatures[0].name, "len");
    assert_eq!(data.method_signatures[0].signature.return_type, Some(Type::builtin(BuiltinType::I32)));
    assert_eq!(data.initializer_signatures.len(), 1);
    assert_eq!(data.initializer_signatures[0].param_labels, vec![TypedParamLabel::Explicit("from".to_string())]);
    assert!(table.function(ItemId::new(1)).is_none());
}

#[test]
fn item_without_hir_gets_no_entry_and_an_issue() {
    let (hir, items) = program();
    let table = type_declaration_signatures(&hir, &GlobalItemTable::from_items(items).expect("ascending ids"));
    assert!(table.enum_data(ItemId::new(2)).is_none());
    assert_eq!(table.issues[0].owner, DeclarationOwner::Item(ItemId::new(2)));
    assert_eq!(table.issues[0].containing_scope_file_id, Some(f0()));
    assert!(matches!(table.issues[0].kind, SignatureTypingIssueKind::MissingGlobalItemMetadata { item_id } if item_id == ItemId::new(2)));
}

#[test]
fn impls_are_numbered_per_file_and_report_what_they_cannot_type() {
    let (hir, items) = program();
    let table = type_declaration_signatures(&hir, &GlobalItemTable::from_items(items).expect("ascending ids"));
    let impls = table.impls_in_scope(f0());
    assert_eq!(impls.len(), 1);
    assert_eq!(impls[0].owner, DeclarationOwner::Impl { scope_file_id: f0(), impl_index: 0 });
    assert_eq!(impls[0].containing_scope_file_id, f0());
    assert_eq!(impls[0].target, point());
    assert_eq!(impls[0].conformance, Some(Type::error()));
    assert_eq!(impls[0].method_signatures[0].signature.return_type, Some(Type::error()));
    assert_eq!(table.issues.len(), 3);
    match &table.issues[1].kind {
        SignatureTypingIssueKind::UnsupportedTypeSurface { description } => {
            assert_eq!(description, "Self type in impl block (not yet implemented)")
        },
        _ => panic!("Self in an impl is not supported yet"),
    }
    match &table.issues[2].kind {
        SignatureTypingIssueKind::UnresolvedPath { path } => assert_eq!(path, &vec!["Nope".to_string()]),
        _ => panic!("the conformance does not resolve"),
    }
    assert!(table.impls_in_scope(FileId::new(5)).is_empty());
}

#[test]
fn analysis_types_the_signatures_itself() {
    let (hir, items) = program();
    let semantic = analyze_semantics(
        &hir,
        GlobalItemTable::from_items(items).expect("ascending ids"),
        ResolvedBodyTable { bodies: vec![] },
        &SortedMap::new(),
    );
    assert_eq!(semantic.signatures.function(ItemId::new(0)).map(|s| s.return_type.clone()), Some(Some(point())));
    assert!(semantic.typed_items.function(ItemId::new(0)).is_some());
}
