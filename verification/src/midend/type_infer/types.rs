use super::ids::TypeVarId;
use crate::frontend::resolver::ItemId;
use crate::midend::type_check::{BuiltinType, Mutability, NamedTypeKind, Type};
use vstd::prelude::*;

verus! {

/// Concrete types handled by the inference engine.
#[derive(Debug, Eq)]
pub enum ConcreteType {
    Builtin(BuiltinType),
    Nominal { item_id: ItemId, kind: NamedTypeKind },
    Pointer { pointee: Box<ConcreteType>, mutability: Mutability },
    Optional(Box<ConcreteType>),
    Result { ok: Box<ConcreteType>, err: Box<ConcreteType> },
}

impl PartialEq for ConcreteType {
    fn eq(&self, other: &Self) -> (r: bool)
        decreases self,
    {
        match (self, other) {
            (ConcreteType::Builtin(a), ConcreteType::Builtin(b)) => *a == *b,
            (
                ConcreteType::Nominal { item_id: a_item, kind: a_kind },
                ConcreteType::Nominal { item_id: b_item, kind: b_kind },
            ) => *a_item == *b_item && *a_kind == *b_kind,
            (
                ConcreteType::Pointer { pointee: a_pointee, mutability: a_mutability },
                ConcreteType::Pointer { pointee: b_pointee, mutability: b_mutability },
            ) => *a_mutability == *b_mutability && (**a_pointee).eq(&**b_pointee),
            (ConcreteType::Optional(a), ConcreteType::Optional(b)) => (**a).eq(&**b),
            (
                ConcreteType::Result { ok: a_ok, err: a_err },
                ConcreteType::Result { ok: b_ok, err: b_err },
            ) => (**a_ok).eq(&**b_ok) && (**a_err).eq(&**b_err),
            _ => false,
        }
    }
}

impl vstd::std_specs::cmp::PartialEqSpecImpl for ConcreteType {
    open spec fn obeys_eq_spec() -> bool {
        true
    }

    open spec fn eq_spec(&self, other: &Self) -> bool {
        *self == *other
    }
}

impl Clone for ConcreteType {
    fn clone(&self) -> (r: Self)
        ensures
            r == *self,
        decreases self,
    {
        match self {
            ConcreteType::Builtin(b) => ConcreteType::Builtin(*b),
            ConcreteType::Nominal { item_id, kind } => ConcreteType::Nominal {
                item_id: *item_id,
                kind: *kind,
            },
            ConcreteType::Pointer { pointee, mutability } => ConcreteType::Pointer {
                pointee: Box::new((**pointee).clone()),
                mutability: *mutability,
            },
            ConcreteType::Optional(inner) => ConcreteType::Optional(Box::new((**inner).clone())),
            ConcreteType::Result { ok, err } => ConcreteType::Result {
                ok: Box::new((**ok).clone()),
                err: Box::new((**err).clone()),
            },
        }
    }
}

/// The concrete counterpart of a semantic type; the error type (at any
/// depth) has none.
pub open spec fn concrete_of(ty: Type) -> Option<ConcreteType>
    decreases ty,
{
    match ty {
        Type::Builtin(b) => Some(ConcreteType::Builtin(b)),
        Type::Named { item_id, kind } => Some(ConcreteType::Nominal { item_id, kind }),
        Type::Pointer { pointee, mutability } => match concrete_of(*pointee) {
            Some(inner) => Some(ConcreteType::Pointer { pointee: Box::new(inner), mutability }),
            None => None,
        },
        Type::Error => None,
    }
}

/// The semantic counterpart of a concrete type; optionals and results (at
/// any depth) have none.
pub open spec fn semantic_of(ty: ConcreteType) -> Option<Type>
    decreases ty,
{
    match ty {
        ConcreteType::Builtin(b) => Some(Type::Builtin(b)),
        ConcreteType::Nominal { item_id, kind } => Some(Type::Named { item_id, kind }),
        ConcreteType::Pointer { pointee, mutability } => match semantic_of(*pointee) {
            Some(inner) => Some(Type::Pointer { pointee: Box::new(inner), mutability }),
            None => None,
        },
        ConcreteType::Optional(_) => None,
        ConcreteType::Result { .. } => None,
    }
}

/// Converting a semantic type to a concrete one and back gives the original type.
pub proof fn lemma_semantic_concrete_roundtrip(ty: Type)
    requires
        concrete_of(ty) is Some,
    ensures
        semantic_of(concrete_of(ty).unwrap()) == Some(ty),
    decreases ty,
{
    if let Type::Pointer { pointee, mutability } = ty {
        lemma_semantic_concrete_roundtrip(*pointee);
    }
}

/// Converting a concrete type to a semantic one and back gives the original type.
pub proof fn lemma_concrete_semantic_roundtrip(ty: ConcreteType)
    requires
        semantic_of(ty) is Some,
    ensures
        concrete_of(semantic_of(ty).unwrap()) == Some(ty),
    decreases ty,
{
    if let ConcreteType::Pointer { pointee, mutability } = ty {
        lemma_concrete_semantic_roundtrip(*pointee);
    }
}

impl ConcreteType {
    /// Converts a semantic type into a concrete inference type when representable.
    pub fn from_semantic_type(ty: &Type) -> (r: Option<Self>)
        ensures
            r == concrete_of(*ty),
        decreases ty,
    {
        match ty {
            Type::Builtin(builtin) => Some(ConcreteType::Builtin(*builtin)),
            Type::Named { item_id, kind } => Some(ConcreteType::Nominal {
                item_id: *item_id,
                kind: *kind,
            }),
            Type::Pointer { pointee, mutability } => {
                match ConcreteType::from_semantic_type(&**pointee) {
                    Some(inner) => Some(
                        ConcreteType::Pointer { pointee: Box::new(inner), mutability: *mutability },
                    ),
                    None => None,
                }
            },
            Type::Error => None,
        }
    }

    /// Converts a concrete inference type back to semantic type when representable.
    pub fn to_semantic_type(&self) -> (r: Option<Type>)
        ensures
            r == semantic_of(*self),
        decreases self,
    {
        match self {
            ConcreteType::Builtin(builtin) => Some(Type::builtin(*builtin)),
            ConcreteType::Nominal { item_id, kind } => Some(Type::named(*item_id, *kind)),
            ConcreteType::Pointer { pointee, mutability } => {
                match (**pointee).to_semantic_type() {
                    Some(inner) => Some(Type::pointer(inner, *mutability)),
                    None => None,
                }
            },
            ConcreteType::Optional(_) => None,
            ConcreteType::Result { .. } => None,
        }
    }
}

/// Inference type domain: a known concrete type, an inference variable, or
/// the error type.
#[derive(Debug, Eq)]
pub enum InferenceType {
    Known(ConcreteType),
    Var(TypeVarId),
    Error,
}

impl PartialEq for InferenceType {
    fn eq(&self, other: &Self) -> (r: bool) {
        match (self, other) {
            (InferenceType::Known(a), InferenceType::Known(b)) => a.eq(b),
            (InferenceType::Var(a), InferenceType::Var(b)) => *a == *b,
            (InferenceType::Error, InferenceType::Error) => true,
            _ => false,
        }
    }
}

impl vstd::std_specs::cmp::PartialEqSpecImpl for InferenceType {
    open spec fn obeys_eq_spec() -> bool {
        true
    }

    open spec fn eq_spec(&self, other: &Self) -> bool {
        *self == *other
    }
}

impl Clone for InferenceType {
    fn clone(&self) -> (r: Self)
        ensures
            r == *self,
    {
        match self {
            InferenceType::Known(c) => InferenceType::Known(c.clone()),
            InferenceType::Var(v) => InferenceType::Var(*v),
            InferenceType::Error => InferenceType::Error,
        }
    }
}

impl InferenceType {
    /// The error type.
    pub fn error() -> (t: Self)
        ensures
            t == InferenceType::Error,
    {
        InferenceType::Error
    }

    /// A known concrete type.
    pub fn from_concrete(value: ConcreteType) -> (t: Self)
        ensures
            t == InferenceType::Known(value),
    {
        InferenceType::Known(value)
    }
}

} // verus!
