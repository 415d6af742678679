use core_x::collections::SortedMap;
use core_x::frontend::resolver::{
    GlobalItem, GlobalItemTable, HirImportTables, HirLocalBindingTable, HirPathResolutionTable, ItemId, ItemKind,
    ResolvedBodyTable,
};
use core_x::frontend::semantic::external_lookup::ExternalSemanticLookup;
use core_x::frontend::semantic::analysis::{analyze_semantics_with_signatures, SemanticAnalysis};
use core_x::frontend::semantic::definition::SemanticCompletionKind;
use core_x::frontend::semantic::hir_input::SemanticHirInput;
use core_x::frontend::semantic::types::{BuiltinType, Mutability, NamedTypeKind, Type};
use core_x::frontend::source::FileId;
use core_x::lsp::presentation::{
    completion_kind_for_semantic_candidate, completion_kind_to_lsp, hover_text_for_external_function,
    hover_text_for_item,
};
use core_x::midend::completion::types::CompletionKind;
use core_x::midend::type_check::signatures::{TypedFunctionSignature, TypedParamLabel, TypedSignatureTable};

fn global(id: u32, kind: ItemKind, path: &[&str]) -> GlobalItem {
    GlobalItem {
        id: ItemId::new(id),
        kind,
        name: path.last().unwrap().to_string(),
        full_path: path.iter().map(|p| p.to_string()).collect(),
        containing_scope_file_id: FileId::new(0),
        defining_file_id: FileId::new(0),
    }
}

fn sig(params: Vec<Type>, ret: Option<Type>) -> TypedFunctionSignature {
    TypedFunctionSignature {
        param_labels: params.iter().map(|_| TypedParamLabel::Unlabeled).collect(),
        param_types: params,
        return_type: ret,
    }
}

fn semantic() -> SemanticAnalysis {
    let items = vec![
        global(1, ItemKind::Function, &["app", "make"]),
        global(2, ItemKind::Struct, &["app", "Client"]),
        global(3, ItemKind::Scope, &["app", "net"]),
    ];
    let mut signatures = TypedSignatureTable::new();
    signatures.functions.insert(
        ItemId::new(1),
        sig(
            vec![Type::named(ItemId::new(2), NamedTypeKind::Struct), Type::pointer(Type::Builtin(BuiltinType::U8), Mutability::Mut)],
            Some(Type::named(ItemId::new(2), NamedTypeKind::Struct)),
        ),
    );
    let hir = SemanticHirInput::build(
        vec![],
        SortedMap::new(),
        HirLocalBindingTable { bindings: vec![] },
        HirImportTables::new(),
        HirPathResolutionTable::empty(),
        SortedMap::new(),
        vec![],
    );
    analyze_semantics_with_signatures(
        &hir,
        GlobalItemTable::from_items(items).expect("ascending ids"),
        signatures,
        ResolvedBodyTable { bodies: vec![] },
        &SortedMap::new(),
        &ExternalSemanticLookup::new(),
    )
}

#[test]
fn completion_kinds_use_protocol_numbers() {
    assert_eq!(completion_kind_to_lsp(CompletionKind::Local), 6);
    assert_eq!(completion_kind_to_lsp(CompletionKind::Function), 3);
    assert_eq!(completion_kind_to_lsp(CompletionKind::Struct), 22);
    assert_eq!(completion_kind_to_lsp(CompletionKind::EnumVariant), 12);
    assert_eq!(completion_kind_to_lsp(CompletionKind::Field), 5);
    assert_eq!(completion_kind_to_lsp(CompletionKind::AssociatedType), 14);
    assert_eq!(completion_kind_to_lsp(CompletionKind::Property), 10);
    assert_eq!(completion_kind_for_semantic_candidate(SemanticCompletionKind::ImportScope), 9);
    assert_eq!(completion_kind_for_semantic_candidate(SemanticCompletionKind::Protocol), 8);
    assert_eq!(completion_kind_for_semantic_candidate(SemanticCompletionKind::ImportEnum), 13);
    assert_eq!(completion_kind_for_semantic_candidate(SemanticCompletionKind::Local), 6);
}

#[test]
fn hover_of_function_shows_signature_with_item_paths() {
    let s = semantic();
    let items = s.global_items.items();
    assert_eq!(hover_text_for_item(&items[0], &s), "function make(app::Client, *mut u8) -> app::Client");
}

#[test]
fn hover_of_other_items_shows_full_path() {
    let s = semantic();
    let items = s.global_items.items();
    assert_eq!(hover_text_for_item(&items[1], &s), "struct app::Client");
    assert_eq!(hover_text_for_item(&items[2], &s), "scope app::net");
}

#[test]
fn hover_of_external_function_joins_root_and_path() {
    let s = semantic();
    let path = vec!["io".to_string(), "print".to_string()];
    let text = hover_text_for_external_function("std", &path, &sig(vec![Type::Builtin(BuiltinType::String)], None), &s);
    assert_eq!(text, "external function std::io::print(string) -> void");
    let unknown = sig(vec![], Some(Type::named(ItemId::new(77), NamedTypeKind::Enum)));
    assert_eq!(hover_text_for_external_function("lib", &[], &unknown, &s), "external function lib::() -> item#77");
}
