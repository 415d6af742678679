use core_x::collections::{SortedMap, TextMap};
use core_x::frontend::ast::Span;
use core_x::frontend::resolver::{
    BodyKind, DeclarationOwner, GlobalItem, GlobalItemTable, HirImportTables, HirLocalBindingTable,
    HirPathResolutionTable, ImportBindingKind, ItemId, ItemKind, LocalId, LocalKind, LocalMutability, ResolvedBody,
    ResolvedBodyRef, ResolvedBodyReference, ResolvedBodyTable, ResolvedImportBinding, ResolvedImports, ResolvedLocal,
    UnresolvedBodyReference,
};
use core_x::frontend::semantic::analysis::{analyze_semantics_with_signatures, SemanticAnalysis};
use core_x::frontend::semantic::definition::{
    completion_candidates_for_file, format_type_for_completion, lookup_definition_target, normalized_path_for_root,
    span_contains, DefinitionLocation, DefinitionTarget, SemanticCompletionKind,
};
use core_x::frontend::semantic::external_lookup::{ExternalDefinitionLocation, ExternalSemanticLookup};
use core_x::frontend::semantic::hir_input::SemanticHirInput;
use core_x::frontend::semantic::types::{BuiltinType, Mutability, NamedTypeKind, Type};
use core_x::frontend::source::FileId;
use core_x::midend::completion::candidates::{complete_global, complete_path_access};
use core_x::midend::completion::types::CompletionKind;
use core_x::midend::type_check::signatures::TypedSignatureTable;

fn strings(parts: &[&str]) -> Vec<String> {
    parts.iter().map(|p| p.to_string()).collect()
}

fn item(id: u32, kind: ItemKind, path: &[&str], scope: u32, defining: u32) -> GlobalItem {
    GlobalItem {
        id: ItemId::new(id),
        kind,
        name: path.last().unwrap().to_string(),
        full_path: strings(path),
        containing_scope_file_id: FileId::new(scope),
        defining_file_id: FileId::new(defining),
    }
}

fn local(id: u32, name: &str, start: usize) -> ResolvedLocal {
    ResolvedLocal {
        id: LocalId(id),
        name: name.to_string(),
        kind: LocalKind::LocalBinding,
        mutability: LocalMutability::Immutable,
        declared_type: None,
        declared_span: Span::new(start, start + name.len()),
    }
}

fn reference(start: usize, end: usize, resolved: ResolvedBodyRef) -> ResolvedBodyReference {
    ResolvedBodyReference { span: Span::new(start, end), resolved }
}

fn binding(name: &str, kind: ImportBindingKind, target: &[&str], root: Option<&str>) -> ResolvedImportBinding {
    ResolvedImportBinding {
        local_name: name.to_string(),
        kind,
        target_path: strings(target),
        source_root: root.map(|r| r.to_string()),
    }
}

struct World {
    semantic: SemanticAnalysis,
    imports: SortedMap<FileId, ResolvedImports>,
    external: ExternalSemanticLookup,
    defs: SortedMap<ItemId, DefinitionLocation>,
}

fn world(extra_local: bool) -> World {
    let items = vec![
        item(1, ItemKind::Function, &["app", "helper"], 0, 0),
        item(2, ItemKind::Scope, &["app", "net"], 0, 1),
        item(3, ItemKind::Struct, &["app", "net", "Client"], 1, 1),
    ];
    let mut locals = vec![local(7, "value", 30)];
    if extra_local {
        locals.push(local(8, "helper", 36));
    }
    let body = ResolvedBody {
        owner: DeclarationOwner::Item(ItemId::new(1)),
        body_index: 0,
        kind: BodyKind::Function,
        signature_index: 0,
        containing_scope_file_id: FileId::new(0),
        locals,
        references: vec![
            reference(40, 45, ResolvedBodyRef::Local(LocalId(7))),
            reference(50, 56, ResolvedBodyRef::Item(ItemId::new(1))),
            reference(60, 62, ResolvedBodyRef::Unresolved),
            reference(64, 66, ResolvedBodyRef::Local(LocalId(99))),
        ],
        unresolved_references: vec![UnresolvedBodyReference {
            span: Span::new(70, 80),
            segments: strings(&["std", "io", "print"]),
        }],
    };
    let hir = SemanticHirInput::build(
        vec![],
        SortedMap::new(),
        HirLocalBindingTable { bindings: vec![] },
        HirImportTables::new(),
        HirPathResolutionTable::empty(),
        SortedMap::new(),
        vec![],
    );
    let mut bindings = TextMap::new();
    bindings.insert(
        "Client".to_string(),
        binding("Client", ImportBindingKind::Symbol(ItemKind::Struct), &["app", "net", "Client"], None),
    );
    bindings.insert(
        "fmt".to_string(),
        binding("fmt", ImportBindingKind::Symbol(ItemKind::Function), &["fmtlib", "format"], Some("fmtlib")),
    );
    bindings.insert("fmtlib".to_string(), binding("fmtlib", ImportBindingKind::Scope, &["fmtlib"], Some("fmtlib")));
    bindings.insert("netmod".to_string(), binding("netmod", ImportBindingKind::Scope, &["app", "net"], None));
    let mut imports = SortedMap::new();
    imports.insert(FileId::new(0), ResolvedImports { bindings });
    let semantic = analyze_semantics_with_signatures(
        &hir,
        GlobalItemTable::from_items(items).expect("ascending ids"),
        TypedSignatureTable::new(),
        ResolvedBodyTable { bodies: vec![body] },
        &imports,
        &ExternalSemanticLookup::new(),
    );
    let mut external = ExternalSemanticLookup::new();
    external.insert_named_root_definition(
        "std".to_string(),
        strings(&["io", "print"]),
        ExternalDefinitionLocation { file_path: "/ext/std.cx".to_string(), span: Span::new(1, 2) },
    );
    external.insert_extern_definition(
        "fmtlib".to_string(),
        "format".to_string(),
        ExternalDefinitionLocation { file_path: "/ext/fmt.cx".to_string(), span: Span::new(3, 4) },
    );
    let mut defs = SortedMap::new();
    defs.insert(ItemId::new(1), DefinitionLocation { file_id: FileId::new(0), span: Span::new(0, 10) });
    defs.insert(ItemId::new(3), DefinitionLocation { file_id: FileId::new(1), span: Span::new(5, 20) });
    World { semantic, imports, external, defs }
}

fn lookup(w: &World, offset: usize, word: Option<&str>) -> Option<DefinitionTarget> {
    lookup_definition_target(&w.semantic, &w.imports, &w.external, &w.defs, FileId::new(0), offset, word)
}

#[test]
fn local_reference_resolves_to_its_declaration() {
    let w = world(false);
    match lookup(&w, 42, None) {
        Some(DefinitionTarget::LocalBinding { local_id, location }) => {
            assert_eq!(local_id, LocalId(7));
            assert_eq!(location, DefinitionLocation { file_id: FileId::new(0), span: Span::new(30, 35) });
        },
        other => panic!("unexpected {other:?}"),
    }
}

#[test]
fn item_reference_resolves_to_recorded_definition() {
    let w = world(false);
    match lookup(&w, 56, None) {
        Some(DefinitionTarget::CurrentTargetItem { item_id, location }) => {
            assert_eq!(item_id, ItemId::new(1));
            assert_eq!(location.span, Span::new(0, 10));
        },
        other => panic!("unexpected {other:?}"),
    }
}

#[test]
fn reference_to_unknown_local_gives_nothing_without_word() {
    let w = world(false);
    assert!(lookup(&w, 65, None).is_none());
    assert!(lookup(&w, 61, None).is_none());
}

#[test]
fn unresolved_path_names_external_root_item() {
    let w = world(false);
    match lookup(&w, 75, None) {
        Some(DefinitionTarget::ExternalItem { root_name, path, location }) => {
            assert_eq!(root_name, "std");
            assert_eq!(path, strings(&["io", "print"]));
            assert_eq!(location.file_path, "/ext/std.cx");
        },
        other => panic!("unexpected {other:?}"),
    }
}

#[test]
fn fallback_word_uses_imports_then_scope_items() {
    let w = world(false);
    match lookup(&w, 500, Some("Client")) {
        Some(DefinitionTarget::CurrentTargetItem { item_id, .. }) => assert_eq!(item_id, ItemId::new(3)),
        other => panic!("unexpected {other:?}"),
    }
    match lookup(&w, 500, Some("fmt")) {
        Some(DefinitionTarget::ExternalItem { root_name, path, location }) => {
            assert_eq!(root_name, "fmtlib");
            assert_eq!(path, strings(&["format"]));
            assert_eq!(location.span, Span::new(3, 4));
        },
        other => panic!("unexpected {other:?}"),
    }
    match lookup(&w, 61, Some("helper")) {
        Some(DefinitionTarget::CurrentTargetItem { item_id, .. }) => assert_eq!(item_id, ItemId::new(1)),
        other => panic!("unexpected {other:?}"),
    }
    assert!(lookup(&w, 500, Some("net")).is_none());
    assert!(lookup(&w, 500, Some("missing")).is_none());
}

#[test]
fn span_contains_includes_both_ends() {
    assert!(span_contains(Span::new(3, 5), 3));
    assert!(span_contains(Span::new(3, 5), 5));
    assert!(!span_contains(Span::new(3, 5), 6));
}

#[test]
fn normalized_path_drops_leading_root() {
    assert_eq!(normalized_path_for_root("lib", &strings(&["lib", "a", "b"])), strings(&["a", "b"]));
    assert_eq!(normalized_path_for_root("lib", &strings(&["a", "lib"])), strings(&["a", "lib"]));
    assert_eq!(normalized_path_for_root("lib", &[]), Vec::<String>::new());
}

#[test]
fn completion_type_text_uses_item_paths() {
    let w = world(false);
    let items = &w.semantic.global_items;
    assert_eq!(format_type_for_completion(&Type::named(ItemId::new(3), NamedTypeKind::Struct), items), "app::net::Client");
    assert_eq!(format_type_for_completion(&Type::named(ItemId::new(99), NamedTypeKind::Enum), items), "item#99");
    assert_eq!(
        format_type_for_completion(&Type::pointer(Type::Builtin(BuiltinType::I32), Mutability::Mut), items),
        "*mut i32"
    );
    assert_eq!(format_type_for_completion(&Type::pointer(Type::Error, Mutability::Const), items), "*<error>");
}

#[test]
fn file_completion_is_sorted_and_deduplicated() {
    let w = world(true);
    let cs = completion_candidates_for_file(&w.semantic, &w.imports, FileId::new(0));
    let labels: Vec<&str> = cs.iter().map(|c| c.label.as_str()).collect();
    assert_eq!(labels, vec!["Client", "fmt", "fmtlib", "helper", "net", "netmod", "value"]);
    assert_eq!(cs[0].kind, SemanticCompletionKind::ImportStruct);
    assert_eq!(cs[0].detail, "import app::net::Client");
    assert_eq!(cs[1].kind, SemanticCompletionKind::ImportFunction);
    assert_eq!(cs[2].kind, SemanticCompletionKind::ImportScope);
    assert_eq!(cs[3].kind, SemanticCompletionKind::Local);
    assert!(cs[3].detail.starts_with("local"));
    assert_eq!(cs[4].kind, SemanticCompletionKind::Scope);
    assert_eq!(cs[4].detail, "app::net");
}

#[test]
fn global_completion_lists_imports_then_scope_items() {
    let w = world(false);
    let cs = complete_global(&w.semantic.global_items, &w.imports, FileId::new(0));
    let labels: Vec<&str> = cs.iter().map(|c| c.label.as_str()).collect();
    assert_eq!(labels, vec!["Client", "fmt", "fmtlib", "netmod", "helper", "net"]);
    assert_eq!(cs[0].kind, CompletionKind::Struct);
    assert_eq!(cs[0].detail.as_deref(), Some("import app::net::Client"));
    assert_eq!(cs[0].metadata.item_id, None);
    assert_eq!(cs[4].kind, CompletionKind::Function);
    assert_eq!(cs[4].detail.as_deref(), Some("app::helper"));
    assert_eq!(cs[4].metadata.item_id, Some(ItemId::new(1)));
}

#[test]
fn path_completion_at_start_offers_prefixes_scope_imports_and_scopes() {
    let w = world(false);
    let cs = complete_path_access(&w.semantic.global_items, &w.imports, &w.external, FileId::new(0), None);
    let labels: Vec<&str> = cs.iter().map(|c| c.label.as_str()).collect();
    assert_eq!(labels, vec!["super", "root", "fmtlib", "netmod", "net"]);
    assert_eq!(cs[0].detail.as_deref(), Some("parent scope"));
    assert_eq!(cs[1].detail.as_deref(), Some("project root"));
    assert_eq!(cs[2].detail.as_deref(), Some("extern library fmtlib"));
    assert_eq!(cs[3].detail.as_deref(), Some("import app::net"));
    assert!(cs.iter().all(|c| c.kind == CompletionKind::Scope));
}

#[test]
fn path_completion_after_scope_lists_its_items() {
    let w = world(false);
    let cs = complete_path_access(&w.semantic.global_items, &w.imports, &w.external, FileId::new(0), Some(ItemId::new(2)));
    let labels: Vec<&str> = cs.iter().map(|c| c.label.as_str()).collect();
    assert_eq!(labels, vec!["Client"]);
    assert!(complete_path_access(&w.semantic.global_items, &w.imports, &w.external, FileId::new(0), Some(ItemId::new(1)))
        .is_empty());
    assert!(complete_path_access(&w.semantic.global_items, &w.imports, &w.external, FileId::new(0), Some(ItemId::new(42)))
        .is_empty());
}
