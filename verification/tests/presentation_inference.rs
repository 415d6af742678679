use core_x::collections::{SortedMap, TextMap};
use core_x::frontend::semantic::external_lookup::ExternalSemanticLookup;
use core_x::frontend::source::SourceDb;
use core_x::lsp::convert::{LspPosition, LspRange};
use core_x::lsp::document::{definition_for_position, hover_for_position, inlay_hints_for_range, DocumentAnalysis};
use core_x::frontend::ast::Span;
use core_x::frontend::hir::{HirFunctionSignature, HirTypeId, 
    HirBinaryOp, HirBody, HirBodyId, HirExpr, HirExprId, HirExprKind, HirFile, HirItem, HirItemId, HirItemKind,
    HirLiteral, HirModule, HirMutability, HirOrigin, HirPat, HirPatId, HirPatKind, HirStmt, HirStmtId, HirStmtKind,
};
use core_x::frontend::resolver::{
    BodyKind, DeclarationOwner, GlobalItem, GlobalItemTable, HirExprRef, HirImportTables, HirItemRef,
    HirLocalBinding, HirLocalBindingTable, HirPathResolution, HirPathResolutionTable, ItemId, ItemKind, LocalId,
    LocalKind, LocalMutability, ResolvedBody, ResolvedBodyRef, ResolvedBodyReference, ResolvedBodyTable, ResolvedLocal,
};
use core_x::frontend::semantic::analysis::{analyze_semantics_with_signatures, SemanticAnalysis};
use core_x::frontend::semantic::body_env::build_body_type_environments;
use core_x::frontend::semantic::hir_input::{SemanticBodyRef, SemanticHirInput};
use core_x::frontend::semantic::item_table::build_typed_item_table;
use core_x::frontend::semantic::types::{BuiltinType, Type};
use core_x::frontend::source::FileId;
use core_x::lsp::presentation::{inferred_expression_hover_text, inferred_local_type_for_resolved_local};
use core_x::midend::type_check::signatures::{TypedFunctionSignature, TypedSignatureTable};
use core_x::midend::type_infer::body_infer::{infer_body_types, BodyInferenceTable};

const FILE: u32 = 0;

fn origin(start: usize, end: usize) -> HirOrigin {
    HirOrigin::direct_source(FileId::new(FILE), Span::new(start, end))
}

fn items() -> Vec<GlobalItem> {
    vec![GlobalItem {
        id: ItemId::new(0),
        kind: ItemKind::Function,
        name: "item0".to_string(),
        full_path: vec!["item0".to_string()],
        containing_scope_file_id: FileId::new(FILE),
        defining_file_id: FileId::new(FILE),
    }]
}

/// `fn item0() -> bool { let x = 1; x < 2 }` with the comparison spanning
/// 20..40, `x` at 20..25 and `2` at 30..35; the literal `1` sits at 8..9.
fn analysed() -> (SemanticHirInput, SemanticAnalysis, BodyInferenceTable) {
    let mut module = HirModule::new();
    let one = HirExprId::new(0);
    let x = HirExprId::new(1);
    let two = HirExprId::new(2);
    let less = HirExprId::new(3);
    module.exprs.insert(one, HirExpr { origin: origin(8, 9), kind: HirExprKind::Literal(HirLiteral::Integer) });
    module.exprs.insert(x, HirExpr { origin: origin(20, 25), kind: HirExprKind::Path { segments: vec!["x".to_string()] } });
    module.exprs.insert(two, HirExpr { origin: origin(30, 35), kind: HirExprKind::Literal(HirLiteral::Integer) });
    module.exprs.insert(
        less,
        HirExpr { origin: origin(20, 40), kind: HirExprKind::Binary { op: HirBinaryOp::Less, lhs: x, rhs: two } },
    );
    let pat = HirPatId::new(0);
    module.patterns.insert(pat, HirPat { origin: origin(4, 5), kind: HirPatKind::Binding { name: "x".to_string() } });
    let stmt = HirStmtId::new(0);
    module.stmts.insert(
        stmt,
        HirStmt { origin: origin(0, 10), kind: HirStmtKind::Let { pat, value: Some(one), mutability: HirMutability::Immutable } },
    );
    module.bodies.insert(HirBodyId::new(0), HirBody { origin: origin(0, 50), stmts: vec![stmt], tail_expr: Some(less) });
    module.items.insert(
        HirItemId::new(0),
        HirItem { origin: origin(0, 50), kind: HirItemKind::Function { name: "item0".to_string(), body: HirBodyId::new(0), signature: HirFunctionSignature { params: vec![], return_type: None } } },
    );
    let mut modules = SortedMap::new();
    modules.insert(FileId::new(FILE), module);
    let mut paths = HirPathResolutionTable::empty();
    paths.by_expr_ref.insert(HirExprRef { file_id: FileId::new(FILE), expr_id: x }, HirPathResolution::Local(LocalId(0)));
    let mut refs = SortedMap::new();
    refs.insert(HirItemRef::new(FileId::new(FILE), HirItemId::new(0)), ItemId::new(0));
    let owner = DeclarationOwner::Item(ItemId::new(0));
    let hir = SemanticHirInput::build(
        vec![HirFile { file_id: FileId::new(FILE), root_items: vec![HirItemId::new(0)] }],
        modules,
        HirLocalBindingTable {
            bindings: vec![HirLocalBinding {
                id: LocalId(0),
                file_id: FileId::new(FILE),
                body_id: HirBodyId::new(0),
                name: "x".to_string(),
                kind: LocalKind::LocalBinding,
                mutability: LocalMutability::Immutable,
                declared_pat: Some(pat),
            }],
        },
        HirImportTables::new(),
        paths,
        refs,
        vec![(owner, SemanticBodyRef { file_id: FileId::new(FILE), body_id: HirBodyId::new(0) })],
    );
    let mut signatures = TypedSignatureTable::new();
    signatures.functions.insert(
        ItemId::new(0),
        TypedFunctionSignature { param_labels: vec![], param_types: vec![], return_type: Some(Type::builtin(BuiltinType::Bool)) },
    );
    let bodies = ResolvedBodyTable {
        bodies: vec![ResolvedBody {
            owner,
            body_index: 0,
            kind: BodyKind::Function,
            signature_index: 0,
            containing_scope_file_id: FileId::new(FILE),
            locals: vec![ResolvedLocal {
                id: LocalId(0),
                name: "x".to_string(),
                kind: LocalKind::LocalBinding,
                mutability: LocalMutability::Immutable,
                declared_type: None,
                declared_span: Span::new(4, 5),
            }],
            references: vec![ResolvedBodyReference { span: Span::new(20, 25), resolved: ResolvedBodyRef::Local(LocalId(0)) }],
            unresolved_references: vec![],
        }],
    };
    let global = GlobalItemTable::from_items(items()).expect("ascending ids");
    let typed_items = build_typed_item_table(&global, &signatures);
    let envs = build_body_type_environments(&bodies, &typed_items);
    let inference = infer_body_types(&hir, &typed_items, &bodies, &envs);
    let semantic = analyze_semantics_with_signatures(
        &hir,
        GlobalItemTable::from_items(items()).expect("ascending ids"),
        signatures,
        bodies,
        &SortedMap::new(),
        &ExternalSemanticLookup::new(),
    );
    (hir, semantic, inference)
}

#[test]
fn hover_shows_the_innermost_typed_expression() {
    let (hir, semantic, inference) = analysed();
    let file = FileId::new(FILE);
    // Inside `x`: both `x` (i32) and the comparison (bool) cover it; `x` is shorter.
    assert_eq!(inferred_expression_hover_text(&semantic, &hir, &inference, file, 22), Some("expr: i32".to_string()));
    // Between the operands only the comparison covers the offset.
    assert_eq!(inferred_expression_hover_text(&semantic, &hir, &inference, file, 27), Some("expr: bool".to_string()));
    // Spans are inclusive at both ends.
    assert_eq!(inferred_expression_hover_text(&semantic, &hir, &inference, file, 40), Some("expr: bool".to_string()));
    assert_eq!(inferred_expression_hover_text(&semantic, &hir, &inference, file, 8), Some("expr: i32".to_string()));
    // No expression covers these offsets.
    assert_eq!(inferred_expression_hover_text(&semantic, &hir, &inference, file, 15), None);
    assert_eq!(inferred_expression_hover_text(&semantic, &hir, &inference, file, 41), None);
    // Bodies of other files are not looked at.
    assert_eq!(inferred_expression_hover_text(&semantic, &hir, &inference, FileId::new(7), 22), None);
}

#[test]
fn local_type_comes_from_the_body_that_declares_it() {
    let (_hir, semantic, inference) = analysed();
    assert_eq!(
        inferred_local_type_for_resolved_local(&semantic, &inference, LocalId(0)).cloned(),
        Some(Type::builtin(BuiltinType::I32))
    );
    assert_eq!(inferred_local_type_for_resolved_local(&semantic, &inference, LocalId(5)), None);
}

/// The program's text: `let x = 1;` on line 0; on line 1 (from offset 11)
/// `x` at 20 and `2` at 30.
fn source_text() -> String {
    format!("let x = 1;\n{}x{}2{}\n", " ".repeat(9), " ".repeat(9), " ".repeat(19))
}

fn document() -> DocumentAnalysis {
    let (hir, semantic, inference) = analysed();
    let mut db = SourceDb::new();
    let id = db.add_file("/w/main.cx".to_string(), source_text());
    assert_eq!(id, FileId::new(FILE));
    let mut path_by_file_id = SortedMap::new();
    path_by_file_id.insert(id, "/w/main.cx".to_string());
    let mut file_id_by_path = TextMap::new();
    file_id_by_path.insert("/w/main.cx".to_string(), id);
    DocumentAnalysis {
        db,
        primary_file_id: id,
        hir,
        semantic: Some(semantic),
        inference: Some(inference),
        imports: SortedMap::new(),
        external_lookup: ExternalSemanticLookup::new(),
        item_definitions: SortedMap::new(),
        path_by_file_id,
        file_id_by_path,
        method_definitions: vec![],
    }
}

fn pos(line: u32, character: u32) -> LspPosition {
    LspPosition { line, character }
}

#[test]
fn hover_names_a_local_with_its_inferred_type() {
    let doc = document();
    let hover = hover_for_position(&doc, pos(1, 9)).expect("a hover on `x`");
    assert_eq!(hover.text, "local `x`: i32");
    assert_eq!(hover.range, LspRange { start: pos(1, 9), end: pos(1, 10) });
}

#[test]
fn hover_without_a_name_shows_the_expression_type() {
    let doc = document();
    let hover = hover_for_position(&doc, pos(1, 16)).expect("inside the comparison");
    assert_eq!(hover.text, "expr: bool");
    assert_eq!(hover.range, LspRange { start: pos(1, 16), end: pos(1, 17) });
    assert!(hover_for_position(&doc, pos(9, 0)).is_none());
    assert!(hover_for_position(&doc, pos(0, 2)).is_none());
}

#[test]
fn inlay_hint_follows_an_untyped_binding() {
    let doc = document();
    let hints = inlay_hints_for_range(&doc, LspRange { start: pos(0, 0), end: pos(2, 0) });
    assert_eq!(hints.len(), 1);
    assert_eq!(hints[0].position, pos(0, 5));
    assert_eq!(hints[0].label, ": i32");
    assert_eq!(hints[0].kind, 1);
    let none = inlay_hints_for_range(&doc, LspRange { start: pos(0, 6), end: pos(1, 0) });
    assert!(none.is_empty());
}

#[test]
fn definition_of_a_local_is_its_declaration() {
    let doc = document();
    let found = definition_for_position(&doc, pos(1, 9));
    assert_eq!(found.len(), 1);
    assert_eq!(found[0].uri, "file:///w/main.cx");
    assert_eq!(found[0].range, LspRange { start: pos(0, 4), end: pos(0, 5) });
    assert!(definition_for_position(&doc, pos(1, 16)).is_empty());
}
