use core_x::collections::SortedMap;
use core_x::frontend::ast::Span;
use core_x::frontend::hir::{HirFunctionSignature, HirTypeId, 
    HirBinaryOp, HirBody, HirBodyId, HirCallArg, HirExpr, HirExprId, HirExprKind, HirFile, HirItem, HirItemId,
    HirItemKind, HirLiteral, HirModule, HirOrigin, HirPat, HirPatId, HirPatKind, HirStmt, HirStmtId, HirStmtKind,
    HirMutability,
};
use core_x::frontend::resolver::{
    BodyKind, DeclarationOwner, GlobalItem, GlobalItemTable, HirExprRef, HirImportTables, HirItemRef,
    HirLocalBinding, HirLocalBindingTable, HirPathResolution, HirPathResolutionTable, ItemId, ItemKind, LocalId,
    LocalKind, LocalMutability, ResolvedBody, ResolvedBodyTable, ResolvedLocal,
};
use core_x::frontend::semantic::body_env::build_body_type_environments;
use core_x::frontend::semantic::hir_input::{SemanticBodyRef, SemanticHirInput};
use core_x::frontend::semantic::item_table::build_typed_item_table;
use core_x::frontend::semantic::types::{BuiltinType, NamedTypeKind, Type};
use core_x::frontend::source::FileId;
use core_x::midend::type_check::signatures::{
    TypedEnumCaseSignature, TypedEnumSignatureData, TypedFunctionSignature, TypedParamLabel, TypedSignatureTable,
};
use core_x::midend::type_infer::body_infer::{
    infer_body_types, BodyInferIssueKind, BodyInferenceTable, InferredCallTarget,
};

const FILE: u32 = 0;

fn origin(start: usize, end: usize) -> HirOrigin {
    HirOrigin::direct_source(FileId::new(FILE), Span::new(start, end))
}

fn expr(module: &mut HirModule, id: u32, kind: HirExprKind) -> HirExprId {
    let e = HirExprId::new(id);
    module.exprs.insert(e, HirExpr { origin: origin(id as usize * 10, id as usize * 10 + 5), kind });
    e
}

fn path(module: &mut HirModule, id: u32, name: &str) -> HirExprId {
    expr(module, id, HirExprKind::Path { segments: vec![name.to_string()] })
}

fn let_stmt(module: &mut HirModule, id: u32, pat: u32, name: &str, value: Option<HirExprId>) -> HirStmtId {
    let p = HirPatId::new(pat);
    module.patterns.insert(p, HirPat { origin: origin(0, 1), kind: HirPatKind::Binding { name: name.to_string() } });
    let s = HirStmtId::new(id);
    module.stmts.insert(
        s,
        HirStmt { origin: origin(100 + id as usize, 101 + id as usize), kind: HirStmtKind::Let { pat: p, value, mutability: HirMutability::Immutable } },
    );
    s
}

fn local_binding(id: u32, name: &str, pat: u32) -> HirLocalBinding {
    HirLocalBinding {
        id: LocalId(id),
        file_id: FileId::new(FILE),
        body_id: HirBodyId::new(0),
        name: name.to_string(),
        kind: LocalKind::LocalBinding,
        mutability: LocalMutability::Immutable,
        declared_pat: Some(HirPatId::new(pat)),
    }
}

fn resolved_local(id: u32, name: &str, start: usize) -> ResolvedLocal {
    ResolvedLocal {
        id: LocalId(id),
        name: name.to_string(),
        kind: LocalKind::LocalBinding,
        mutability: LocalMutability::Immutable,
        declared_type: None,
        declared_span: Span::new(start, start + 1),
    }
}

fn function_sig(params: Vec<Type>, ret: Option<Type>) -> TypedFunctionSignature {
    let labels = params.iter().map(|_| TypedParamLabel::Unlabeled).collect();
    TypedFunctionSignature { param_labels: labels, param_types: params, return_type: ret }
}

fn enum_with_cases(cases: &[&str]) -> TypedEnumSignatureData {
    TypedEnumSignatureData {
        case_signatures: cases
            .iter()
            .map(|c| TypedEnumCaseSignature { name: c.to_string(), payload_types: vec![] })
            .collect(),
        method_signatures: vec![],
        initializer_signatures: vec![],
    }
}

/// A program with one function body (item 0, HIR body 0) in file 0, plus
/// extra items; runs inference over it.
struct Program {
    module: HirModule,
    stmts: Vec<HirStmtId>,
    tail: Option<HirExprId>,
    bindings: Vec<HirLocalBinding>,
    locals: Vec<ResolvedLocal>,
    paths: Vec<(HirExprId, HirPathResolution)>,
    items: Vec<GlobalItem>,
    signatures: TypedSignatureTable,
    item_refs: Vec<(HirItemRef, ItemId)>,
}

fn global_item(id: u32, kind: ItemKind) -> GlobalItem {
    let name = format!("item{id}");
    GlobalItem {
        id: ItemId::new(id),
        kind,
        name: name.clone(),
        full_path: vec![name],
        containing_scope_file_id: FileId::new(FILE),
        defining_file_id: FileId::new(FILE),
    }
}

impl Program {
    fn new(ret: Option<Type>) -> Self {
        let mut signatures = TypedSignatureTable::new();
        signatures.functions.insert(ItemId::new(0), function_sig(vec![], ret));
        Program {
            module: HirModule::new(),
            stmts: vec![],
            tail: None,
            bindings: vec![],
            locals: vec![],
            paths: vec![],
            items: vec![global_item(0, ItemKind::Function)],
            signatures,
            item_refs: vec![],
        }
    }

    fn add_item(&mut self, id: u32, kind: ItemKind) {
        self.items.push(global_item(id, kind));
        self.item_refs.push((HirItemRef::new(FileId::new(FILE), HirItemId::new(id)), ItemId::new(id)));
    }

    fn run(self) -> BodyInferenceTable {
        let Program { mut module, stmts, tail, bindings, locals, paths, items, signatures, item_refs } = self;
        module.bodies.insert(HirBodyId::new(0), HirBody { origin: origin(0, 1000), stmts, tail_expr: tail });
        module.items.insert(HirItemId::new(0), HirItem { origin: origin(0, 1000), kind: HirItemKind::Function { name: "item0".to_string(), body: HirBodyId::new(0), signature: HirFunctionSignature { params: vec![], return_type: None } } });
        let mut modules = SortedMap::new();
        modules.insert(FileId::new(FILE), module);
        let mut path_table = HirPathResolutionTable::empty();
        for (e, r) in paths {
            path_table.by_expr_ref.insert(HirExprRef { file_id: FileId::new(FILE), expr_id: e }, r);
        }
        let mut refs = SortedMap::new();
        refs.insert(HirItemRef::new(FileId::new(FILE), HirItemId::new(0)), ItemId::new(0));
        for (r, id) in item_refs {
            refs.insert(r, id);
        }
        let owner = DeclarationOwner::Item(ItemId::new(0));
        let hir = SemanticHirInput::build(
            vec![HirFile { file_id: FileId::new(FILE), root_items: vec![HirItemId::new(0)] }],
            modules,
            HirLocalBindingTable { bindings },
            HirImportTables::new(),
            path_table,
            refs,
            vec![(owner, SemanticBodyRef { file_id: FileId::new(FILE), body_id: HirBodyId::new(0) })],
        );
        let global = GlobalItemTable::from_items(items).expect("ascending ids");
        let typed_items = build_typed_item_table(&global, &signatures);
        let bodies = ResolvedBodyTable {
            bodies: vec![ResolvedBody {
                owner,
                body_index: 0,
                kind: BodyKind::Function,
                signature_index: 0,
                containing_scope_file_id: FileId::new(FILE),
                locals,
                references: vec![],
                unresolved_references: vec![],
            }],
        };
        let envs = build_body_type_environments(&bodies, &typed_items);
        infer_body_types(&hir, &typed_items, &bodies, &envs)
    }
}

fn owner() -> DeclarationOwner {
    DeclarationOwner::Item(ItemId::new(0))
}

fn expr_type(table: &BodyInferenceTable, id: u32) -> Option<Type> {
    table.expr_type_for_hir_expr(&owner(), 0, HirExprId::new(id)).cloned()
}

fn issue_kinds(table: &BodyInferenceTable) -> Vec<&BodyInferIssueKind> {
    table.issues.iter().map(|i| &i.kind).collect()
}

#[test]
fn integer_literal_takes_the_return_type() {
    // let x = 1; x + 2   in a function returning i32
    let mut p = Program::new(Some(Type::builtin(BuiltinType::I32)));
    let one = expr(&mut p.module, 0, HirExprKind::Literal(HirLiteral::Integer));
    let x = path(&mut p.module, 1, "x");
    let two = expr(&mut p.module, 2, HirExprKind::Literal(HirLiteral::Integer));
    let sum = expr(&mut p.module, 3, HirExprKind::Binary { op: HirBinaryOp::Add, lhs: x, rhs: two });
    p.stmts.push(let_stmt(&mut p.module, 0, 0, "x", Some(one)));
    p.tail = Some(sum);
    p.bindings.push(local_binding(0, "x", 0));
    p.locals.push(resolved_local(0, "x", 4));
    p.paths.push((x, HirPathResolution::Local(LocalId(0))));
    let table = p.run();

    let i32_ty = Type::builtin(BuiltinType::I32);
    for id in 0..4 {
        assert_eq!(expr_type(&table, id), Some(i32_ty.clone()), "expression {}", id);
    }
    assert_eq!(table.local_type_for_hir_local(&owner(), 0, LocalId(0)).cloned(), Some(i32_ty.clone()));
    assert_eq!(table.local_type_for_resolved_local(&owner(), 0, LocalId(0)).cloned(), Some(i32_ty.clone()));
    assert_eq!(table.root_type(&owner(), 0).cloned(), Some(i32_ty));
    assert!(table.issues.is_empty());
    assert_eq!(table.expr_type_count(), 4);
    assert_eq!(table.root_type_count(), 1);
    assert_eq!(table.inferred_hir_local_count(), 1);
    assert_eq!(table.call_target_count(), 0);
}

#[test]
fn unconstrained_literals_fall_back_to_defaults() {
    // let x = 1; let y = 2.5;   in a void function
    let mut p = Program::new(None);
    let one = expr(&mut p.module, 0, HirExprKind::Literal(HirLiteral::Integer));
    let half = expr(&mut p.module, 1, HirExprKind::Literal(HirLiteral::Float));
    p.stmts.push(let_stmt(&mut p.module, 0, 0, "x", Some(one)));
    p.stmts.push(let_stmt(&mut p.module, 1, 1, "y", Some(half)));
    p.bindings.push(local_binding(0, "x", 0));
    p.bindings.push(local_binding(1, "y", 1));
    p.locals.push(resolved_local(0, "x", 4));
    p.locals.push(resolved_local(1, "y", 14));
    let table = p.run();

    assert_eq!(expr_type(&table, 0), Some(Type::builtin(BuiltinType::I32)));
    assert_eq!(expr_type(&table, 1), Some(Type::builtin(BuiltinType::F64)));
    assert_eq!(table.local_type_for_hir_local(&owner(), 0, LocalId(1)).cloned(), Some(Type::builtin(BuiltinType::F64)));
    assert_eq!(table.root_type(&owner(), 0).cloned(), Some(Type::builtin(BuiltinType::Void)));
    assert!(table.issues.is_empty());
}

#[test]
fn let_without_value_or_use_needs_an_annotation() {
    // let z;
    let mut p = Program::new(None);
    p.stmts.push(let_stmt(&mut p.module, 0, 0, "z", None));
    p.bindings.push(local_binding(0, "z", 0));
    p.locals.push(resolved_local(0, "z", 7));
    let table = p.run();

    assert_eq!(table.issues.len(), 1);
    assert_eq!(table.issues[0].span, Span::new(7, 8));
    match &table.issues[0].kind {
        BodyInferIssueKind::RequiresExplicitLocalTypeAnnotation { hir_local_id, resolved_local_id } => {
            assert_eq!(*hir_local_id, LocalId(0));
            assert_eq!(*resolved_local_id, Some(LocalId(0)));
        },
        other => panic!("unexpected issue {:?}", other),
    }
    assert_eq!(table.local_type_for_hir_local(&owner(), 0, LocalId(0)).cloned(), Some(Type::error()));
}

#[test]
fn if_without_else_is_reported() {
    // if true { 1 }   as the tail of a function returning i32
    let mut p = Program::new(Some(Type::builtin(BuiltinType::I32)));
    let cond = expr(&mut p.module, 0, HirExprKind::Literal(HirLiteral::Boolean));
    let one = expr(&mut p.module, 1, HirExprKind::Literal(HirLiteral::Integer));
    p.module.bodies.insert(HirBodyId::new(1), HirBody { origin: origin(0, 1), stmts: vec![], tail_expr: Some(one) });
    let if_expr = expr(&mut p.module, 2, HirExprKind::If { condition: cond, then_body: HirBodyId::new(1), else_expr: None });
    p.tail = Some(if_expr);
    let table = p.run();

    let kinds = issue_kinds(&table);
    assert_eq!(kinds.len(), 1);
    assert!(matches!(kinds[0], BodyInferIssueKind::MissingElseBranch));
    assert_eq!(expr_type(&table, 0), Some(Type::builtin(BuiltinType::Bool)));
    assert_eq!(expr_type(&table, 1), Some(Type::builtin(BuiltinType::I32)));
    assert_eq!(expr_type(&table, 2), Some(Type::error()));
    assert_eq!(table.root_type(&owner(), 0).cloned(), Some(Type::error()));
}

#[test]
fn call_picks_the_function_and_types_its_argument() {
    // add(1)   where add(i64) -> i64, in a function returning i64
    let i64_ty = Type::builtin(BuiltinType::I64);
    let mut p = Program::new(Some(i64_ty.clone()));
    p.add_item(1, ItemKind::Function);
    p.signatures.functions.insert(ItemId::new(1), function_sig(vec![i64_ty.clone()], Some(i64_ty.clone())));
    let callee = path(&mut p.module, 0, "add");
    let one = expr(&mut p.module, 1, HirExprKind::Literal(HirLiteral::Integer));
    let call = expr(&mut p.module, 2, HirExprKind::Call { callee, args: vec![HirCallArg { label: None, value: one }] });
    p.tail = Some(call);
    p.paths.push((callee, HirPathResolution::Item(HirItemRef::new(FileId::new(FILE), HirItemId::new(1)))));
    let table = p.run();

    assert!(table.issues.is_empty());
    assert_eq!(expr_type(&table, 1), Some(i64_ty.clone()));
    assert_eq!(expr_type(&table, 2), Some(i64_ty));
    match table.call_target_for_hir_expr(&owner(), 0, call) {
        Some(InferredCallTarget::Function { path }) => assert_eq!(path, &vec!["add".to_string()]),
        other => panic!("unexpected target {:?}", other),
    }
    let targets = table.call_targets_for_body(&owner(), 0);
    assert_eq!(targets.len(), 1);
    assert_eq!(targets[0].0, call);
    assert_eq!(table.call_target_count(), 1);
}

#[test]
fn labelled_argument_does_not_fit_an_unlabelled_parameter() {
    // add(by: 1)   where add(i64) -> i64
    let i64_ty = Type::builtin(BuiltinType::I64);
    let mut p = Program::new(Some(i64_ty.clone()));
    p.add_item(1, ItemKind::Function);
    p.signatures.functions.insert(ItemId::new(1), function_sig(vec![i64_ty.clone()], Some(i64_ty)));
    let callee = path(&mut p.module, 0, "add");
    let one = expr(&mut p.module, 1, HirExprKind::Literal(HirLiteral::Integer));
    let call = expr(&mut p.module, 2, HirExprKind::Call { callee, args: vec![HirCallArg { label: Some("by".to_string()), value: one }] });
    p.tail = Some(call);
    p.paths.push((callee, HirPathResolution::Item(HirItemRef::new(FileId::new(FILE), HirItemId::new(1)))));
    let table = p.run();

    let kinds = issue_kinds(&table);
    assert_eq!(kinds.len(), 1);
    assert!(matches!(kinds[0], BodyInferIssueKind::NoMatchingCallCandidate { candidate_count: 1 }));
    assert!(table.call_target_for_hir_expr(&owner(), 0, call).is_none());
}

#[test]
fn unknown_callee_reports_each_step() {
    // nothing(1)   in a function returning i32, with no enum around
    let mut p = Program::new(Some(Type::builtin(BuiltinType::I32)));
    let callee = path(&mut p.module, 0, "nothing");
    let one = expr(&mut p.module, 1, HirExprKind::Literal(HirLiteral::Integer));
    let call = expr(&mut p.module, 2, HirExprKind::Call { callee, args: vec![HirCallArg { label: None, value: one }] });
    p.tail = Some(call);
    let table = p.run();

    let kinds = issue_kinds(&table);
    assert_eq!(kinds.len(), 3);
    match kinds[0] {
        BodyInferIssueKind::MissingEnumCase { case_name, available_enums } => {
            assert_eq!(case_name, "nothing");
            assert!(available_enums.is_empty());
        },
        other => panic!("unexpected issue {:?}", other),
    }
    assert!(matches!(kinds[1], BodyInferIssueKind::MissingResolvedPath { expr_id } if *expr_id == callee));
    assert!(matches!(kinds[2], BodyInferIssueKind::InvalidCallTarget));
    assert_eq!(expr_type(&table, 2), Some(Type::error()));
}

#[test]
fn bare_case_name_takes_the_expected_enum() {
    // Red   as the tail of a function returning enum 1 { Red, Green }
    let color = Type::named(ItemId::new(1), NamedTypeKind::Enum);
    let mut p = Program::new(Some(color.clone()));
    p.add_item(1, ItemKind::Enum);
    p.signatures.enums.insert(ItemId::new(1), enum_with_cases(&["Red", "Green"]));
    let red = path(&mut p.module, 0, "Red");
    p.tail = Some(red);
    let table = p.run();

    assert!(table.issues.is_empty());
    assert_eq!(expr_type(&table, 0), Some(color.clone()));
    assert_eq!(table.root_type(&owner(), 0).cloned(), Some(color));
}

#[test]
fn bare_case_name_in_two_enums_is_ambiguous() {
    // let c = Red;   with enums 1 and 12 both having Red
    let mut p = Program::new(None);
    p.add_item(1, ItemKind::Enum);
    p.add_item(12, ItemKind::Enum);
    p.signatures.enums.insert(ItemId::new(1), enum_with_cases(&["Red"]));
    p.signatures.enums.insert(ItemId::new(12), enum_with_cases(&["Blue", "Red"]));
    let red = path(&mut p.module, 0, "Red");
    p.stmts.push(let_stmt(&mut p.module, 0, 0, "c", Some(red)));
    p.bindings.push(local_binding(0, "c", 0));
    p.locals.push(resolved_local(0, "c", 4));
    let table = p.run();

    let kinds = issue_kinds(&table);
    match kinds[0] {
        BodyInferIssueKind::AmbiguousEnumCase { case_name, candidates } => {
            assert_eq!(case_name, "Red");
            assert_eq!(
                candidates,
                &vec![(ItemId::new(1), "EnumItemId(1)".to_string()), (ItemId::new(12), "EnumItemId(12)".to_string())]
            );
        },
        other => panic!("unexpected issue {:?}", other),
    }
    assert!(matches!(kinds[1], BodyInferIssueKind::MissingResolvedPath { .. }));
}

#[test]
fn body_without_environment_is_reported() {
    let hir = SemanticHirInput::build(
        vec![],
        SortedMap::new(),
        HirLocalBindingTable { bindings: vec![] },
        HirImportTables::new(),
        HirPathResolutionTable::empty(),
        SortedMap::new(),
        vec![],
    );
    let global = GlobalItemTable::from_items(vec![]).expect("empty");
    let typed_items = build_typed_item_table(&global, &TypedSignatureTable::new());
    let bodies = ResolvedBodyTable {
        bodies: vec![ResolvedBody {
            owner: owner(),
            body_index: 0,
            kind: BodyKind::Function,
            signature_index: 0,
            containing_scope_file_id: FileId::new(FILE),
            locals: vec![],
            references: vec![],
            unresolved_references: vec![],
        }],
    };
    let empty_bodies = ResolvedBodyTable { bodies: vec![] };
    let envs = build_body_type_environments(&empty_bodies, &typed_items);
    let table = infer_body_types(&hir, &typed_items, &bodies, &envs);
    assert_eq!(table.issues.len(), 1);
    assert!(matches!(table.issues[0].kind, BodyInferIssueKind::MissingBodyEnvironment));
    assert_eq!(table.issues[0].span, Span::new(0, 0));
    assert!(table.root_type(&owner(), 0).is_none());
}
