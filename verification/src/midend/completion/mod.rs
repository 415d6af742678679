//! HIR-driven semantic completion support: the span index that maps cursor
//! offsets to HIR nodes, node classification, completion data types and
//! the candidates drawn from typed signatures.

pub mod candidates;
pub mod hir_lookup;
pub mod span_index;
pub mod types;

pub use candidates::{complete_associated_access, complete_enum_cases, complete_member_access};
pub use hir_lookup::{determine_expr_kind, find_hir_node_at_offset, HirNodeContext, HirNodeKind};
pub use span_index::{HirNodeId, HirSpanIndex, SpanIndexEntry};
pub use types::{
    CompletionCandidate, CompletionContext, CompletionData, CompletionKind, CompletionMetadata,
};
