use core_x::frontend::ast::Span;
use core_x::frontend::hir::{
    HirBody, HirBodyId, HirCallArg, HirExpr, HirExprId, HirExprKind, HirModule, HirMutability, HirOrigin, HirPatId,
    HirStmt, HirStmtId, HirStmtKind,
};
use core_x::frontend::resolver::ItemId;
use core_x::frontend::semantic::types::{BuiltinType, Mutability, NamedTypeKind, Type};
use core_x::frontend::source::FileId;
use core_x::lsp::method_call::{find_method_call_at_offset, named_item_id_from_type};

fn origin(start: usize, end: usize) -> HirOrigin {
    HirOrigin::direct_source(FileId::new(0), Span::new(start, end))
}

fn add_expr(m: &mut HirModule, id: u32, start: usize, end: usize, kind: HirExprKind) {
    m.exprs.insert(HirExprId::new(id), HirExpr { origin: origin(start, end), kind });
}

fn call(receiver: u32, name: &str, args: Vec<u32>) -> HirExprKind {
    HirExprKind::MethodCall {
        receiver: HirExprId::new(receiver),
        name: name.to_string(),
        args: args.into_iter().map(|a| HirCallArg { label: None, value: HirExprId::new(a) }).collect(),
    }
}

/// body 0: `let _ = a.inner().outer(b.arg()); { c.deep() }`
fn module() -> HirModule {
    let mut m = HirModule::new();
    add_expr(&mut m, 3, 10, 11, HirExprKind::Path { segments: vec!["a".to_string()] });
    add_expr(&mut m, 2, 10, 30, call(3, "inner", vec![]));
    add_expr(&mut m, 7, 35, 36, HirExprKind::Path { segments: vec!["b".to_string()] });
    add_expr(&mut m, 6, 35, 45, call(7, "arg", vec![]));
    add_expr(&mut m, 1, 10, 50, call(2, "outer", vec![6]));
    add_expr(&mut m, 8, 60, 61, HirExprKind::Path { segments: vec!["c".to_string()] });
    add_expr(&mut m, 5, 60, 65, call(8, "deep", vec![]));
    add_expr(&mut m, 4, 55, 90, HirExprKind::Block { body: HirBodyId::new(1) });
    m.stmts.insert(
        HirStmtId::new(1),
        HirStmt {
            origin: origin(0, 51),
            kind: HirStmtKind::Let {
                pat: HirPatId::new(0),
                value: Some(HirExprId::new(1)),
                mutability: HirMutability::Immutable,
            },
        },
    );
    m.bodies.insert(
        HirBodyId::new(0),
        HirBody { origin: origin(0, 100), stmts: vec![HirStmtId::new(1)], tail_expr: Some(HirExprId::new(4)) },
    );
    m.bodies.insert(
        HirBodyId::new(1),
        HirBody { origin: origin(55, 90), stmts: vec![], tail_expr: Some(HirExprId::new(5)) },
    );
    m
}

#[test]
fn innermost_method_call_wins() {
    let m = module();
    let found = find_method_call_at_offset(&m, HirBodyId::new(0), 20, None).unwrap();
    assert_eq!(found.method_name, "inner");
    assert_eq!(found.receiver_expr_id, HirExprId::new(3));
    assert_eq!(found.span_len, 20);
}

#[test]
fn argument_call_is_found_inside_outer_call() {
    let m = module();
    let found = find_method_call_at_offset(&m, HirBodyId::new(0), 40, None).unwrap();
    assert_eq!(found.method_name, "arg");
    assert_eq!(found.span_len, 10);
    let outer = find_method_call_at_offset(&m, HirBodyId::new(0), 47, None).unwrap();
    assert_eq!(outer.method_name, "outer");
    assert_eq!(outer.receiver_expr_id, HirExprId::new(2));
    assert_eq!(outer.span_len, 40);
}

#[test]
fn span_end_is_included() {
    let m = module();
    let found = find_method_call_at_offset(&m, HirBodyId::new(0), 50, None).unwrap();
    assert_eq!(found.method_name, "outer");
}

#[test]
fn fallback_word_filters_by_method_name() {
    let m = module();
    let found = find_method_call_at_offset(&m, HirBodyId::new(0), 20, Some("outer")).unwrap();
    assert_eq!(found.method_name, "outer");
    assert!(find_method_call_at_offset(&m, HirBodyId::new(0), 20, Some("missing")).is_none());
}

#[test]
fn nested_block_bodies_are_searched() {
    let m = module();
    let found = find_method_call_at_offset(&m, HirBodyId::new(0), 62, None).unwrap();
    assert_eq!(found.method_name, "deep");
    assert_eq!(found.span_len, 5);
}

#[test]
fn no_call_outside_spans_or_in_unknown_body() {
    let m = module();
    assert!(find_method_call_at_offset(&m, HirBodyId::new(0), 95, None).is_none());
    assert!(find_method_call_at_offset(&m, HirBodyId::new(9), 20, None).is_none());
}

#[test]
fn equal_spans_prefer_the_later_call() {
    let mut m = HirModule::new();
    add_expr(&mut m, 1, 0, 1, HirExprKind::Path { segments: vec!["x".to_string()] });
    add_expr(&mut m, 2, 0, 10, call(1, "first", vec![]));
    add_expr(&mut m, 3, 0, 10, call(1, "second", vec![]));
    m.stmts.insert(HirStmtId::new(1), HirStmt { origin: origin(0, 10), kind: HirStmtKind::Semi { expr: HirExprId::new(2) } });
    m.bodies.insert(
        HirBodyId::new(0),
        HirBody { origin: origin(0, 10), stmts: vec![HirStmtId::new(1)], tail_expr: Some(HirExprId::new(3)) },
    );
    let found = find_method_call_at_offset(&m, HirBodyId::new(0), 5, None).unwrap();
    assert_eq!(found.method_name, "second");
}

#[test]
fn named_item_looks_through_pointers() {
    let named = Type::named(ItemId(4), NamedTypeKind::Struct);
    assert_eq!(named_item_id_from_type(&named), Some(ItemId(4)));
    let ptr = Type::pointer(Type::pointer(named, Mutability::Const), Mutability::Mut);
    assert_eq!(named_item_id_from_type(&ptr), Some(ItemId(4)));
    assert_eq!(named_item_id_from_type(&Type::Builtin(BuiltinType::I32)), None);
    assert_eq!(named_item_id_from_type(&Type::Error), None);
}
