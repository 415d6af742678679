use core_x::collections::SortedMap;
use core_x::frontend::ast::Span;
use core_x::frontend::hir::{HirFunctionSignature, HirTypeId, 
    HirBodyId, HirFile, HirFunctionDecl, HirItem, HirItemId, HirItemKind, HirModule, HirOrigin, HirProtocolFunction,
};
use core_x::frontend::resolver::{
    DeclarationOwner, GlobalItem, GlobalItemTable, HirImportTables, HirItemRef, HirLocalBindingTable,
    HirPathResolutionTable, ItemId, ItemKind,
};
use core_x::frontend::semantic::hir_input::{
    collect_body_refs_by_owner, item_ids_by_hir_item_ref, owner_item_id_for_hir_item, SemanticBodyRef,
    SemanticHirInput,
};
use core_x::frontend::source::FileId;

fn f0() -> FileId {
    FileId::new(0)
}

fn origin() -> HirOrigin {
    HirOrigin::direct_source(f0(), Span::new(0, 1))
}

fn func(name: &str, body: u32) -> HirFunctionDecl {
    HirFunctionDecl { name: name.to_string(), body: HirBodyId::new(body), signature: HirFunctionSignature { params: vec![], return_type: None }, is_initializer: false }
}

fn body_ref(body: u32) -> SemanticBodyRef {
    SemanticBodyRef { file_id: f0(), body_id: HirBodyId::new(body) }
}

fn global(id: u32, kind: ItemKind, name: &str) -> GlobalItem {
    GlobalItem {
        id: ItemId::new(id),
        kind,
        name: name.to_string(),
        full_path: vec!["app".to_string(), name.to_string()],
        containing_scope_file_id: f0(),
        defining_file_id: f0(),
    }
}

fn fixture() -> (Vec<HirFile>, SortedMap<FileId, HirModule>, HirImportTables, GlobalItemTable) {
    let mut m = HirModule::new();
    let mut add = |id: u32, kind: HirItemKind| {
        m.items.insert(HirItemId::new(id), HirItem { origin: origin(), kind });
    };
    add(0, HirItemKind::Function { name: "main".to_string(), body: HirBodyId::new(0), signature: HirFunctionSignature { params: vec![], return_type: None } });
    add(1, HirItemKind::Struct { name: "Point".to_string(), functions: vec![func("m", 1), func("n", 2)], fields: vec![] });
    add(2, HirItemKind::Impl { functions: vec![func("f", 3)], target: HirTypeId::new(0), conformance: None });
    add(
        3,
        HirItemKind::Protocol {
            name: "Shape".to_string(),
            functions: vec![
                HirProtocolFunction { name: "area".to_string(), default_body: Some(HirBodyId::new(4)), signature: HirFunctionSignature { params: vec![], return_type: None }, is_initializer: false },
                HirProtocolFunction { name: "perimeter".to_string(), default_body: None, signature: HirFunctionSignature { params: vec![], return_type: None }, is_initializer: false },
            ],
            inherited_types: vec![],
            properties: vec![],
            associated_types: vec![],
        },
    );
    add(4, HirItemKind::Impl { functions: vec![func("g", 5)], target: HirTypeId::new(0), conformance: None });
    add(5, HirItemKind::Use);
    add(6, HirItemKind::Function { name: "orphan".to_string(), body: HirBodyId::new(6), signature: HirFunctionSignature { params: vec![], return_type: None } });
    let roots = [0, 1, 2, 3, 9, 4, 5, 6].iter().map(|i| HirItemId::new(*i)).collect();
    let files = vec![HirFile { file_id: f0(), root_items: roots }];
    let mut modules = SortedMap::new();
    modules.insert(f0(), m);
    let mut imports = HirImportTables::new();
    imports.scope_paths.insert(f0(), vec!["app".to_string()]);
    imports.local_item_paths.insert(
        vec!["app".to_string(), "Point".to_string()],
        HirItemRef::new(f0(), HirItemId::new(1)),
    );
    let items = GlobalItemTable::from_items(vec![
        global(1, ItemKind::Function, "main"),
        global(2, ItemKind::Struct, "Point"),
        global(3, ItemKind::Protocol, "Shape"),
    ])
    .expect("ascending ids");
    (files, modules, imports, items)
}

#[test]
fn item_refs_map_by_project_path() {
    let (_, _, imports, items) = fixture();
    let ids = item_ids_by_hir_item_ref(&imports, &items);
    assert_eq!(ids.get(&HirItemRef::new(f0(), HirItemId::new(1))), Some(&ItemId::new(2)));
    assert_eq!(ids.len(), 1);
}

#[test]
fn owner_falls_back_to_scope_path_and_name() {
    let (_, modules, imports, items) = fixture();
    let ids = item_ids_by_hir_item_ref(&imports, &items);
    let module = modules.get(&f0()).unwrap();
    let kind = &module.items.get(&HirItemId::new(0)).unwrap().kind;
    let owner = owner_item_id_for_hir_item(&imports, &items, f0(), kind, &HirItemRef::new(f0(), HirItemId::new(0)), &ids);
    assert_eq!(owner, Some(ItemId::new(1)));
    let orphan = &module.items.get(&HirItemId::new(6)).unwrap().kind;
    assert_eq!(
        owner_item_id_for_hir_item(&imports, &items, f0(), orphan, &HirItemRef::new(f0(), HirItemId::new(6)), &ids),
        None
    );
    let imp = &module.items.get(&HirItemId::new(2)).unwrap().kind;
    assert_eq!(owner_item_id_for_hir_item(&imports, &items, f0(), imp, &HirItemRef::new(f0(), HirItemId::new(2)), &ids), None);
}

#[test]
fn body_refs_follow_items_and_number_impls() {
    let (files, modules, imports, items) = fixture();
    let ids = item_ids_by_hir_item_ref(&imports, &items);
    let refs = collect_body_refs_by_owner(&imports, &items, &files, &modules, &ids);
    let item = |i: u32| DeclarationOwner::Item(ItemId::new(i));
    let imp = |i: usize| DeclarationOwner::Impl { scope_file_id: f0(), impl_index: i };
    assert_eq!(
        refs,
        vec![
            (item(1), body_ref(0)),
            (item(2), body_ref(1)),
            (item(2), body_ref(2)),
            (imp(0), body_ref(3)),
            (item(3), body_ref(4)),
            (imp(1), body_ref(5)),
        ]
    );
}

#[test]
fn from_hir_groups_bodies_by_owner() {
    let (files, modules, imports, items) = fixture();
    let input = SemanticHirInput::from_hir(
        files,
        modules,
        HirLocalBindingTable { bindings: vec![] },
        imports,
        HirPathResolutionTable::empty(),
        &items,
    );
    assert_eq!(input.body_refs_for_owner(&DeclarationOwner::Item(ItemId::new(2))), &[body_ref(1), body_ref(2)]);
    assert_eq!(
        input.body_ref(&DeclarationOwner::Impl { scope_file_id: f0(), impl_index: 1 }, 0),
        Some(body_ref(5))
    );
    assert_eq!(input.body_ref(&DeclarationOwner::Item(ItemId::new(3)), 1), None);
}
