//! HIR node lookup at a cursor position.

use crate::frontend::hir::{HirExprId, HirExprKind, HirFile, HirOrigin};
use crate::frontend::semantic::Type;
use vstd::prelude::*;

verus! {

/// The kind of HIR node found during completion context lookup.
#[derive(Debug, Clone, Copy, PartialEq, Eq, Structural)]
pub enum HirNodeKind {
    /// A path expression (e.g., `foo`, `foo::bar`, `Type::method`).
    Path,
    /// A field access expression (e.g., `expr.field`).
    FieldAccess,
    /// A namespace field access (e.g., `Type::associated`).
    NamespaceAccess,
    /// A method call (e.g., `expr.method()`).
    MethodCall,
    /// Any other expression.
    OtherExpr,
    /// Not in an expression.
    NonExpr,
}

/// Information about an HIR node at a given position.
#[derive(Debug)]
pub struct HirNodeContext {
    /// The HIR node kind.
    pub kind: HirNodeKind,
    /// The origin/span of the node.
    pub origin: HirOrigin,
    /// For expressions: the expression id and its type, if known.
    pub expr_info: Option<(HirExprId, Option<Type>)>,
}

/// Node lookup directly on a HIR file has no index to consult and finds
/// nothing; completion goes through the span index instead.
pub fn find_hir_node_at_offset(hir_file: &HirFile, offset: usize) -> (r: Option<HirNodeContext>)
    ensures
        r is None,
{
    None
}

/// The completion-relevant kind of an expression.
pub open spec fn spec_expr_node_kind(kind: HirExprKind) -> HirNodeKind {
    match kind {
        HirExprKind::Path { .. } => HirNodeKind::Path,
        HirExprKind::Field { .. } => HirNodeKind::FieldAccess,
        HirExprKind::NamespaceField { .. } => HirNodeKind::NamespaceAccess,
        HirExprKind::MethodCall { .. } => HirNodeKind::MethodCall,
        _ => HirNodeKind::OtherExpr,
    }
}

/// Determines the completion-relevant kind of an expression.
pub fn determine_expr_kind(kind: &HirExprKind) -> (r: HirNodeKind)
    ensures
        r == spec_expr_node_kind(*kind),
{
    match kind {
        HirExprKind::Path { .. } => HirNodeKind::Path,
        HirExprKind::Field { .. } => HirNodeKind::FieldAccess,
        HirExprKind::NamespaceField { .. } => HirNodeKind::NamespaceAccess,
        HirExprKind::MethodCall { .. } => HirNodeKind::MethodCall,
        _ => HirNodeKind::OtherExpr,
    }
}

} // verus!
