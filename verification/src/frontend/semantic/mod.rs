pub mod analysis;
pub mod body_env;
pub mod control_flow;
pub mod definition;
pub mod external_lookup;
pub mod hir_input;
pub mod item_table;
pub mod signature_typing;
pub mod types;

pub use item_table::{
    TypedImplAttachment, TypedItemData, TypedItemKind, TypedItemTable, TypedItemTableIssue,
    TypedItemTableIssueKind,
};
pub use types::{BuiltinType, Mutability, NamedTypeKind, Type};
