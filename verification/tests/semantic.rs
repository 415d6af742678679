use core_x::collections::SortedMap;
use core_x::frontend::ast::Span;
use core_x::frontend::hir::{HirFunctionSignature, HirTypeId, 
    HirBinaryOp, HirBody, HirBodyId, HirCallArg, HirExpr, HirExprId, HirExprKind, HirFile, HirItem, HirItemId,
    HirItemKind, HirLiteral, HirModule, HirOrigin, HirStmt, HirStmtId, HirStmtKind, HirUnaryOp,
};
use core_x::frontend::resolver::{
    BodyKind, DeclarationOwner, GlobalItem, GlobalItemTable, HirExprRef, HirImportTables, HirItemRef,
    HirLocalBindingTable, HirPathResolution, HirPathResolutionTable, ItemId, ItemKind, ResolvedBody,
    ResolvedBodyTable,
};
use core_x::frontend::semantic::external_lookup::ExternalSemanticLookup;
use core_x::frontend::semantic::analysis::{analyze_semantics_with_signatures, SemanticAnalysis};
use core_x::frontend::semantic::control_flow::ControlFlowIssueKind;
use core_x::frontend::semantic::hir_input::{SemanticBodyRef, SemanticHirInput};
use core_x::frontend::semantic::types::{BuiltinType, Type};
use core_x::frontend::source::FileId;
use core_x::midend::type_check::expr_check::ExprCheckIssueKind;
use core_x::midend::type_check::signatures::{TypedFunctionSignature, TypedParamLabel, TypedSignatureTable};
use core_x::midend::type_check::stmt_check::StmtCheckIssueKind;

fn f0() -> FileId {
    FileId::new(0)
}

fn origin(start: usize, end: usize) -> HirOrigin {
    HirOrigin::direct_source(f0(), Span::new(start, end))
}

fn span_of(id: u32) -> Span {
    Span::new(id as usize * 10, id as usize * 10 + 5)
}

fn i32_ty() -> Type {
    Type::builtin(BuiltinType::I32)
}

fn bool_ty() -> Type {
    Type::builtin(BuiltinType::Bool)
}

fn sig(params: Vec<Type>, ret: Option<Type>) -> TypedFunctionSignature {
    TypedFunctionSignature {
        param_labels: params.iter().map(|_| TypedParamLabel::Unlabeled).collect(),
        param_types: params,
        return_type: ret,
    }
}

fn global(id: u32) -> GlobalItem {
    GlobalItem {
        id: ItemId::new(id),
        kind: ItemKind::Function,
        name: format!("f{id}"),
        full_path: vec![format!("f{id}")],
        containing_scope_file_id: f0(),
        defining_file_id: f0(),
    }
}

/// One function body (item 0, HIR body 0) in file 0; item 1 is a callable
/// `f1(i32) -> i32`.
struct Program {
    module: HirModule,
    stmts: Vec<HirStmtId>,
    tail: Option<HirExprId>,
    ret: Option<Type>,
    paths: Vec<(HirExprId, HirPathResolution)>,
}

impl Program {
    fn new(ret: Option<Type>) -> Self {
        Program { module: HirModule::new(), stmts: vec![], tail: None, ret, paths: vec![] }
    }

    fn expr(&mut self, id: u32, kind: HirExprKind) -> HirExprId {
        let e = HirExprId::new(id);
        let sp = span_of(id);
        self.module.exprs.insert(e, HirExpr { origin: origin(sp.start, sp.end), kind });
        e
    }

    fn lit(&mut self, id: u32, lit: HirLiteral) -> HirExprId {
        self.expr(id, HirExprKind::Literal(lit))
    }

    fn block(&mut self, body: u32, tail: HirExprId) -> HirBodyId {
        let b = HirBodyId::new(body);
        self.module.bodies.insert(b, HirBody { origin: origin(0, 1), stmts: vec![], tail_expr: Some(tail) });
        b
    }

    fn semi(&mut self, id: u32, expr: HirExprId) {
        let s = HirStmtId::new(id);
        self.module.stmts.insert(s, HirStmt { origin: origin(700 + id as usize, 710 + id as usize), kind: HirStmtKind::Semi { expr } });
        self.stmts.push(s);
    }

    fn call_f1(&mut self, id: u32, callee_id: u32, args: Vec<HirExprId>) -> HirExprId {
        let callee = self.expr(callee_id, HirExprKind::Path { segments: vec!["f1".to_string()] });
        self.paths.push((callee, HirPathResolution::Item(HirItemRef::new(f0(), HirItemId::new(1)))));
        let args = args.into_iter().map(|value| HirCallArg { label: None, value }).collect();
        self.expr(id, HirExprKind::Call { callee, args })
    }

    fn run(self) -> SemanticAnalysis {
        let Program { mut module, stmts, tail, ret, paths } = self;
        module.bodies.insert(HirBodyId::new(0), HirBody { origin: origin(500, 600), stmts, tail_expr: tail });
        module.items.insert(
            HirItemId::new(0),
            HirItem { origin: origin(500, 600), kind: HirItemKind::Function { name: "f0".to_string(), body: HirBodyId::new(0), signature: HirFunctionSignature { params: vec![], return_type: None } } },
        );
        let mut modules = SortedMap::new();
        modules.insert(f0(), module);
        let mut path_table = HirPathResolutionTable::empty();
        for (e, r) in paths {
            path_table.by_expr_ref.insert(HirExprRef { file_id: f0(), expr_id: e }, r);
        }
        let mut refs = SortedMap::new();
        refs.insert(HirItemRef::new(f0(), HirItemId::new(0)), ItemId::new(0));
        refs.insert(HirItemRef::new(f0(), HirItemId::new(1)), ItemId::new(1));
        let owner = DeclarationOwner::Item(ItemId::new(0));
        let hir = SemanticHirInput::build(
            vec![HirFile { file_id: f0(), root_items: vec![HirItemId::new(0)] }],
            modules,
            HirLocalBindingTable { bindings: vec![] },
            HirImportTables::new(),
            path_table,
            refs,
            vec![(owner, SemanticBodyRef { file_id: f0(), body_id: HirBodyId::new(0) })],
        );
        let mut signatures = TypedSignatureTable::new();
        signatures.functions.insert(ItemId::new(0), sig(vec![], ret));
        signatures.functions.insert(ItemId::new(1), sig(vec![i32_ty()], Some(i32_ty())));
        let bodies = ResolvedBodyTable {
            bodies: vec![ResolvedBody {
                owner,
                body_index: 0,
                kind: BodyKind::Function,
                signature_index: 0,
                containing_scope_file_id: f0(),
                locals: vec![],
                references: vec![],
                unresolved_references: vec![],
            }],
        };
        analyze_semantics_with_signatures(
            &hir,
            GlobalItemTable::from_items(vec![global(0), global(1)]).expect("ascending ids"),
            signatures,
            bodies,
            &SortedMap::new(),
        &ExternalSemanticLookup::new(),
        )
    }
}

fn owner() -> DeclarationOwner {
    DeclarationOwner::Item(ItemId::new(0))
}

fn expr_issues(a: &SemanticAnalysis) -> Vec<(&ExprCheckIssueKind, Span)> {
    a.expr_types.issues().iter().map(|i| (&i.kind, i.span)).collect()
}

fn flow_issues(a: &SemanticAnalysis) -> Vec<(&ControlFlowIssueKind, Span)> {
    a.control_flow.issues().iter().map(|i| (&i.kind, i.span)).collect()
}

fn expr_type(a: &SemanticAnalysis, id: u32) -> Option<Type> {
    a.expr_types.expr_type_for_hir_expr(&owner(), 0, HirExprId::new(id)).cloned()
}

#[test]
fn well_typed_arithmetic_has_no_issues() {
    let mut p = Program::new(Some(i32_ty()));
    let a = p.lit(1, HirLiteral::Integer);
    let b = p.lit(2, HirLiteral::Integer);
    p.tail = Some(p.expr(3, HirExprKind::Binary { op: HirBinaryOp::Multiply, lhs: a, rhs: b }));
    let s = p.run();
    assert!(s.issues().is_empty());
    assert_eq!(expr_type(&s, 3), Some(i32_ty()));
    assert_eq!(s.expr_types.root_type(&owner(), 0).cloned(), Some(i32_ty()));
    let typed = s.typed_bodies.body(&owner(), 0).expect("typed body");
    assert!(typed.control_flow_is_compatible);
    assert_eq!(typed.body_result_type, i32_ty());
}

#[test]
fn mixed_operands_are_an_invalid_binary_op() {
    let mut p = Program::new(Some(i32_ty()));
    let a = p.lit(1, HirLiteral::Integer);
    let b = p.lit(2, HirLiteral::Boolean);
    p.tail = Some(p.expr(3, HirExprKind::Binary { op: HirBinaryOp::Add, lhs: a, rhs: b }));
    let s = p.run();
    let issues = expr_issues(&s);
    assert_eq!(issues.len(), 1);
    assert!(matches!(issues[0].0, ExprCheckIssueKind::InvalidBinaryOp));
    assert_eq!(issues[0].1, span_of(3));
    assert_eq!(expr_type(&s, 1), Some(i32_ty()));
    assert_eq!(expr_type(&s, 2), Some(bool_ty()));
    assert_eq!(expr_type(&s, 3), Some(Type::error()));
    assert!(flow_issues(&s).is_empty());
}

#[test]
fn comparison_gives_bool_and_negating_bool_is_invalid() {
    let mut p = Program::new(Some(bool_ty()));
    let a = p.lit(1, HirLiteral::Boolean);
    let neg = p.expr(2, HirExprKind::Unary { op: HirUnaryOp::Negate, expr: a });
    let c = p.lit(3, HirLiteral::Integer);
    let d = p.lit(4, HirLiteral::Integer);
    let cmp_expr = p.expr(5, HirExprKind::Binary { op: HirBinaryOp::Less, lhs: c, rhs: d });
    let both = p.expr(6, HirExprKind::Binary { op: HirBinaryOp::LogicalAnd, lhs: neg, rhs: cmp_expr });
    p.tail = Some(both);
    let s = p.run();
    let issues = expr_issues(&s);
    assert_eq!(issues.len(), 1);
    assert!(matches!(issues[0].0, ExprCheckIssueKind::InvalidUnaryOp));
    assert_eq!(issues[0].1, span_of(2));
    assert_eq!(expr_type(&s, 5), Some(bool_ty()));
    assert_eq!(expr_type(&s, 6), Some(Type::error()));
}

#[test]
fn tail_of_wrong_type_is_a_control_flow_mismatch() {
    let mut p = Program::new(Some(i32_ty()));
    p.tail = Some(p.lit(1, HirLiteral::Boolean));
    let s = p.run();
    assert!(expr_issues(&s).is_empty());
    let flows = flow_issues(&s);
    assert_eq!(flows.len(), 1);
    assert_eq!(flows[0].0, &ControlFlowIssueKind::TailTypeMismatch { expected: i32_ty(), found: bool_ty() });
    assert_eq!(flows[0].1, span_of(1));
    assert!(!s.typed_bodies.body(&owner(), 0).unwrap().control_flow_is_compatible);
}

#[test]
fn missing_tail_and_unexpected_tail_are_reported() {
    let s = Program::new(Some(i32_ty())).run();
    let flows = flow_issues(&s);
    assert_eq!(flows.len(), 1);
    assert_eq!(flows[0].0, &ControlFlowIssueKind::MissingTailExpression { expected: i32_ty() });
    assert_eq!(flows[0].1, Span::new(500, 600));

    let mut p = Program::new(None);
    p.tail = Some(p.lit(1, HirLiteral::Integer));
    let s = p.run();
    let flows = flow_issues(&s);
    assert_eq!(flows.len(), 1);
    assert_eq!(flows[0].0, &ControlFlowIssueKind::UnexpectedTailValue { found: i32_ty() });
}

#[test]
fn if_branches_must_agree_and_need_an_else() {
    let mut p = Program::new(None);
    let cond = p.lit(1, HirLiteral::Boolean);
    let one = p.lit(2, HirLiteral::Integer);
    let then_body = p.block(1, one);
    let no = p.lit(3, HirLiteral::Boolean);
    let else_body = p.block(2, no);
    let else_expr = p.expr(4, HirExprKind::Block { body: else_body });
    p.tail = Some(p.expr(5, HirExprKind::If { condition: cond, then_body, else_expr: Some(else_expr) }));
    let s = p.run();
    let issues = expr_issues(&s);
    assert_eq!(issues.len(), 1);
    assert_eq!(issues[0].0, &ExprCheckIssueKind::IncompatibleIfBranches { then_type: i32_ty(), else_type: bool_ty() });
    let flows = flow_issues(&s);
    assert_eq!(flows.len(), 1);
    assert_eq!(flows[0].0, &ControlFlowIssueKind::IfBranchTypeMismatch { then_type: i32_ty(), else_type: bool_ty() });
    assert_eq!(flows[0].1, span_of(5));

    let mut p = Program::new(None);
    let cond = p.lit(1, HirLiteral::Boolean);
    let one = p.lit(2, HirLiteral::Integer);
    let then_body = p.block(1, one);
    p.tail = Some(p.expr(5, HirExprKind::If { condition: cond, then_body, else_expr: None }));
    let s = p.run();
    let issues = expr_issues(&s);
    assert_eq!(issues.len(), 1);
    assert!(matches!(issues[0].0, ExprCheckIssueKind::MissingElseBranch));
    let flows = flow_issues(&s);
    assert_eq!(flows.len(), 1);
    assert!(matches!(flows[0].0, ControlFlowIssueKind::MissingElseBranch));
}

#[test]
fn calls_check_arity_then_argument_types() {
    let mut p = Program::new(Some(i32_ty()));
    let a = p.lit(1, HirLiteral::Integer);
    let b = p.lit(2, HirLiteral::Integer);
    p.tail = Some(p.call_f1(3, 4, vec![a, b]));
    let s = p.run();
    let issues = expr_issues(&s);
    assert_eq!(issues.len(), 1);
    assert_eq!(issues[0].0, &ExprCheckIssueKind::CallArityMismatch { expected: 1, found: 2 });
    assert_eq!(issues[0].1, span_of(3));

    let mut p = Program::new(Some(i32_ty()));
    let t = p.lit(1, HirLiteral::Boolean);
    p.tail = Some(p.call_f1(3, 4, vec![t]));
    let s = p.run();
    let issues = expr_issues(&s);
    assert_eq!(issues.len(), 1);
    assert_eq!(issues[0].0, &ExprCheckIssueKind::CallArgTypeMismatch { index: 0, expected: i32_ty(), found: bool_ty() });

    let mut p = Program::new(Some(i32_ty()));
    let one = p.lit(1, HirLiteral::Integer);
    p.tail = Some(p.call_f1(3, 4, vec![one]));
    let s = p.run();
    assert!(s.issues().is_empty());
    assert_eq!(expr_type(&s, 3), Some(i32_ty()));
}

fn stmt_issues(a: &SemanticAnalysis) -> Vec<(&StmtCheckIssueKind, Span)> {
    a.stmt_types.issues().iter().map(|i| (&i.kind, i.span)).collect()
}

#[test]
fn returned_value_must_match_the_return_type() {
    let mut p = Program::new(Some(i32_ty()));
    let t = p.lit(1, HirLiteral::Boolean);
    let ret = p.expr(2, HirExprKind::Return { value: Some(t) });
    p.semi(0, ret);
    let s = p.run();
    assert!(expr_issues(&s).is_empty());
    assert_eq!(expr_type(&s, 2), Some(Type::builtin(BuiltinType::Never)));
    let stmts = stmt_issues(&s);
    assert_eq!(stmts.len(), 1);
    assert_eq!(stmts[0].0, &StmtCheckIssueKind::ReturnTypeMismatch { expected: i32_ty(), found: bool_ty() });
    assert_eq!(stmts[0].1, Span::new(700, 710));
    let flows = flow_issues(&s);
    assert_eq!(flows.len(), 1);
    assert_eq!(flows[0].0, &ControlFlowIssueKind::ReturnTypeMismatch { expected: i32_ty(), found: bool_ty() });
}

#[test]
fn loop_condition_must_be_bool() {
    let mut p = Program::new(None);
    let one = p.lit(1, HirLiteral::Integer);
    let unit = p.lit(3, HirLiteral::Boolean);
    let body = p.block(1, unit);
    let w = p.expr(2, HirExprKind::While { condition: one, body });
    p.semi(0, w);
    let s = p.run();
    let exprs = expr_issues(&s);
    assert_eq!(exprs.len(), 1);
    assert!(matches!(exprs[0].0, ExprCheckIssueKind::InvalidBinaryOp));
    assert_eq!(exprs[0].1, span_of(2));
    let stmts = stmt_issues(&s);
    assert_eq!(stmts.len(), 1);
    assert_eq!(stmts[0].0, &StmtCheckIssueKind::InvalidConditionType { found: i32_ty() });
    assert_eq!(stmts[0].1, span_of(2));
}
