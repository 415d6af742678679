use super::ids::TypeVarId;
use super::types::{ConcreteType, InferenceType};
use vstd::prelude::*;

verus! {

/// A constraint recorded while inferring.
#[derive(Debug)]
pub enum InferenceConstraint {
    Equal(InferenceType, InferenceType),
}

/// What went wrong in a unification.
#[derive(Debug, PartialEq, Eq)]
pub enum InferenceIssueKind {
    TypeMismatch { lhs: ConcreteType, rhs: ConcreteType },
    OccursCheckFailed { var: TypeVarId, ty: InferenceType },
}

impl Clone for InferenceIssueKind {
    fn clone(&self) -> (r: Self)
        ensures
            r == *self,
    {
        match self {
            InferenceIssueKind::TypeMismatch { lhs, rhs } => InferenceIssueKind::TypeMismatch {
                lhs: lhs.clone(),
                rhs: rhs.clone(),
            },
            InferenceIssueKind::OccursCheckFailed { var, ty } => InferenceIssueKind::OccursCheckFailed {
                var: *var,
                ty: ty.clone(),
            },
        }
    }
}

/// An issue reported by the inference engine.
#[derive(Debug, PartialEq, Eq)]
pub struct InferenceIssue {
    pub kind: InferenceIssueKind,
}

} // verus!
