pub mod expr_check;
pub mod signatures;
pub mod stmt_check;
pub mod typed_bodies;

pub use crate::frontend::semantic::types::{BuiltinType, Mutability, NamedTypeKind, Type};
pub use expr_check::{BodyExprId, BodySpanKey, ExprCheckIssue, ExprCheckIssueKind, ExpressionTypeTable};
pub use signatures::{
    SignatureTypingIssue, SignatureTypingIssueKind, TypedAssociatedTypeBounds,
    TypedEnumCaseSignature, TypedEnumSignatureData, TypedFunctionSignature, TypedImplSignature,
    TypedNamedFunctionSignature, TypedParamLabel, TypedProtocolProperty,
    TypedProtocolSignatureData, TypedSignatureTable, TypedStructField, TypedStructSignatureData,
};
pub use stmt_check::{
    BodyStmtId, StatementKind, StatementTypeEntry, StatementTypeTable, StmtCheckIssue, StmtCheckIssueKind,
};
pub use typed_bodies::{
    TypedBody, TypedBodyId, TypedBodyIssueKind, TypedBodyIssueMarker, TypedBodyTable, TypedBodyTableIssue,
    TypedBodyTableIssueKind,
};
