//! Core type definitions for semantic completion.

use crate::frontend::resolver::ItemId;
use crate::frontend::semantic::Type;
use vstd::prelude::*;

verus! {

/// Semantic completion context derived from HIR analysis.
#[derive(Debug, PartialEq, Eq)]
pub enum CompletionContext {
    /// Completion at global scope or in an expression position with no receiver.
    Global,
    /// Completion after `::` in a path expression.
    PathAccess { scope_item: Option<ItemId> },
    /// Completion after `::` on a type name for associated members.
    AssociatedAccess { base_type: Type },
    /// Completion after `.` on an instance expression.
    MemberAccess { receiver_type: Type },
    /// Completion specifically for enum cases.
    EnumCaseAccess { enum_type: Type },
}

/// The kind of completion item.
#[derive(Debug, Clone, Copy, PartialEq, Eq, PartialOrd, Ord, Structural)]
pub enum CompletionKind {
    Local,
    Function,
    Struct,
    Enum,
    EnumVariant,
    Protocol,
    Field,
    Scope,
    TypeParameter,
    AssociatedType,
    Property,
}

/// Additional metadata about a completion candidate.
#[derive(Debug, PartialEq, Eq)]
pub struct CompletionMetadata {
    /// The item id if this corresponds to a declared item.
    pub item_id: Option<ItemId>,
    /// Whether this is deprecated.
    pub deprecated: bool,
    /// The type of the completion (for variables, fields, etc.).
    pub ty: Option<Type>,
}

/// A semantic completion candidate derived from compiler analysis.
#[derive(Debug, PartialEq, Eq)]
pub struct CompletionCandidate {
    /// The label to display in the completion UI.
    pub label: String,
    /// The kind of completion item.
    pub kind: CompletionKind,
    /// Detail information about the completion (e.g., type signature).
    pub detail: Option<String>,
    /// Documentation for the completion item (if available).
    pub documentation: Option<String>,
    /// Additional metadata about the completion.
    pub metadata: CompletionMetadata,
}

/// Completion data containing all candidates for a given context.
#[derive(Debug, PartialEq, Eq)]
pub struct CompletionData {
    /// The completion context.
    pub context: CompletionContext,
    /// All completion candidates for this context.
    pub candidates: Vec<CompletionCandidate>,
}

} // verus!
