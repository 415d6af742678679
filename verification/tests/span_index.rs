use core_x::frontend::ast::Span;
use core_x::frontend::hir::{HirFunctionSignature, HirTypeId, 
    HirBinaryOp, HirBody, HirBodyId, HirExpr, HirExprId, HirExprKind, HirFile, HirItem, HirItemId, HirLiteral,
    HirItemKind, HirModule, HirOrigin, HirStmt, HirStmtId, HirStmtKind,
};
use core_x::frontend::source::FileId;
use core_x::midend::completion::{HirNodeId, HirSpanIndex, SpanIndexEntry};

#[test]
fn test_span_index_entry_ordering() {
    let entry1 = SpanIndexEntry {
        start: 10,
        end: 20,
        node_id: HirNodeId::Expr(HirExprId::new(0)),
    };
    let entry2 = SpanIndexEntry {
        start: 10,
        end: 30,
        node_id: HirNodeId::Expr(HirExprId::new(1)),
    };
    let entry3 = SpanIndexEntry {
        start: 15,
        end: 25,
        node_id: HirNodeId::Expr(HirExprId::new(2)),
    };

    assert!(entry1 < entry2); // Same start, smaller end
    assert!(entry1 < entry3); // Earlier start
    assert!(entry2 < entry3); // Earlier start
}

#[test]
fn test_empty_index() {
    let index = HirSpanIndex::from_entries(vec![]);

    assert!(index.find_node_at_offset(100).is_none());
    assert!(index.find_node_before_offset(100).is_none());
}

#[test]
fn test_find_node_at_offset() {
    let mut entries = vec![
        SpanIndexEntry {
            start: 0,
            end: 10,
            node_id: HirNodeId::Expr(HirExprId::new(0)),
        },
        SpanIndexEntry {
            start: 5,
            end: 15, // Nested inside first
            node_id: HirNodeId::Expr(HirExprId::new(1)),
        },
        SpanIndexEntry {
            start: 20,
            end: 30,
            node_id: HirNodeId::Expr(HirExprId::new(2)),
        },
    ];

    entries.sort_by_key(|e| (e.start, e.end));

    let index = HirSpanIndex::from_entries(entries);

    // Test finding nodes at various offsets
    assert!(index.find_node_at_offset(100).is_none()); // Beyond all nodes
    assert!(index.find_node_at_offset(25).is_some()); // In third node
    assert!(index.find_node_at_offset(12).is_some()); // In nested node
}

fn origin(start: usize, end: usize) -> HirOrigin {
    HirOrigin::direct_source(FileId::new(0), Span::new(start, end))
}

#[test]
fn innermost_node_and_node_before_offset() {
    let index = HirSpanIndex::from_entries(vec![
        SpanIndexEntry { start: 20, end: 30, node_id: HirNodeId::Expr(HirExprId::new(2)) },
        SpanIndexEntry { start: 0, end: 40, node_id: HirNodeId::Body(HirBodyId::new(0)) },
        SpanIndexEntry { start: 5, end: 15, node_id: HirNodeId::Expr(HirExprId::new(1)) },
    ]);
    assert_eq!(
        index.find_node_at_offset(12),
        Some((HirNodeId::Expr(HirExprId::new(1)), origin(5, 15)))
    );
    assert_eq!(
        index.find_node_at_offset(17),
        Some((HirNodeId::Body(HirBodyId::new(0)), origin(0, 40)))
    );
    // A node starting exactly at the offset contains it.
    assert_eq!(
        index.find_node_at_offset(20),
        Some((HirNodeId::Expr(HirExprId::new(2)), origin(20, 30)))
    );
    // The first entry, the body, already reaches offset 18.
    assert_eq!(index.find_node_before_offset(18), None);
    let flat = HirSpanIndex::from_entries(vec![
        SpanIndexEntry { start: 20, end: 30, node_id: HirNodeId::Expr(HirExprId::new(2)) },
        SpanIndexEntry { start: 0, end: 10, node_id: HirNodeId::Expr(HirExprId::new(0)) },
        SpanIndexEntry { start: 5, end: 15, node_id: HirNodeId::Expr(HirExprId::new(1)) },
    ]);
    assert_eq!(
        flat.find_node_before_offset(18),
        Some((HirNodeId::Expr(HirExprId::new(1)), origin(5, 15)))
    );
    assert_eq!(
        flat.find_node_before_offset(12),
        Some((HirNodeId::Expr(HirExprId::new(0)), origin(0, 10)))
    );
    assert_eq!(flat.find_node_before_offset(10), None);
}

#[test]
fn index_built_from_hir_file_covers_function_bodies() {
    let mut module = HirModule::new();
    let fid = FileId::new(0);
    let o = |s: usize, e: usize| HirOrigin::direct_source(fid, Span::new(s, e));
    module.items.insert(HirItemId::new(0), HirItem { origin: o(0, 30), kind: HirItemKind::Function { name: "main".to_string(), body: HirBodyId::new(0), signature: HirFunctionSignature { params: vec![], return_type: None } } });
    module.items.insert(HirItemId::new(1), HirItem { origin: o(31, 40), kind: HirItemKind::Struct { name: "Point".to_string(), functions: vec![], fields: vec![] } });
    module.bodies.insert(HirBodyId::new(0), HirBody { origin: o(10, 30), stmts: vec![HirStmtId::new(0)], tail_expr: Some(HirExprId::new(2)) });
    module.stmts.insert(HirStmtId::new(0), HirStmt { origin: o(12, 20), kind: HirStmtKind::Semi { expr: HirExprId::new(0) } });
    module.exprs.insert(HirExprId::new(0), HirExpr { origin: o(12, 19), kind: HirExprKind::Binary { op: HirBinaryOp::Add, lhs: HirExprId::new(1), rhs: HirExprId::new(1) } });
    module.exprs.insert(HirExprId::new(1), HirExpr { origin: o(12, 13), kind: HirExprKind::Literal(HirLiteral::Integer) });
    module.exprs.insert(HirExprId::new(2), HirExpr { origin: o(22, 25), kind: HirExprKind::Path { segments: vec!["x".to_string()] } });
    let file = HirFile { file_id: fid, root_items: vec![HirItemId::new(0), HirItemId::new(1), HirItemId::new(9)] };
    let index = HirSpanIndex::from_hir_file(fid, &file, &module);
    assert_eq!(
        index.find_node_at_offset(13),
        Some((HirNodeId::Expr(HirExprId::new(1)), origin(12, 13)))
    );
    assert_eq!(
        index.find_node_at_offset(24),
        Some((HirNodeId::Expr(HirExprId::new(2)), origin(22, 25)))
    );
    assert_eq!(
        index.find_node_at_offset(35),
        Some((HirNodeId::Item(HirItemId::new(1)), origin(31, 40)))
    );
    // The item's own span reaches offset 21.
    assert_eq!(index.find_node_before_offset(21), None);
    assert_eq!(
        index.find_node_before_offset(41),
        Some((HirNodeId::Item(HirItemId::new(1)), origin(31, 40)))
    );
}

#[test]
fn node_starting_at_the_offset_contains_it() {
    let index = HirSpanIndex::from_entries(vec![SpanIndexEntry {
        start: 10,
        end: 20,
        node_id: HirNodeId::Expr(HirExprId::new(0)),
    }]);
    let found = index.find_node_at_offset(10).expect("the span holds its start");
    assert_eq!(found.0, HirNodeId::Expr(HirExprId::new(0)));
    assert_eq!(found.1.span, Span::new(10, 20));
    assert!(index.find_node_at_offset(20).is_some());
    assert!(index.find_node_at_offset(9).is_none());
    assert!(index.find_node_at_offset(21).is_none());
}

#[test]
fn innermost_node_starting_at_the_offset_wins() {
    let index = HirSpanIndex::from_entries(vec![
        SpanIndexEntry { start: 0, end: 30, node_id: HirNodeId::Expr(HirExprId::new(0)) },
        SpanIndexEntry { start: 12, end: 14, node_id: HirNodeId::Expr(HirExprId::new(1)) },
    ]);
    assert_eq!(index.find_node_at_offset(12).map(|f| f.0), Some(HirNodeId::Expr(HirExprId::new(1))));
    assert_eq!(index.find_node_at_offset(11).map(|f| f.0), Some(HirNodeId::Expr(HirExprId::new(0))));
}
