//! Reusable core type inference engine: variable allocation, substitution
//! with path compression, unification and literal defaulting.

pub mod constraints;
pub mod context;
pub mod defaults;
pub mod ids;
pub mod signature_env;
pub mod types;
pub mod body_infer;

pub use context::InferenceContext;
pub use constraints::{InferenceConstraint, InferenceIssue, InferenceIssueKind};
pub use defaults::{InferenceDefaults, LiteralDefaultKind};
pub use ids::TypeVarId;
pub use signature_env::{infer_function_signature_from_typed, InferFunctionSignature};
pub use types::{ConcreteType, InferenceType};
pub use body_infer::{infer_body_types, BodyInferIssue, BodyInferIssueKind, BodyInferenceTable, InferredCallTarget};
