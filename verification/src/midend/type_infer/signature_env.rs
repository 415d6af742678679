use super::types::{concrete_of, ConcreteType, InferenceType};
use crate::midend::type_check::signatures::{TypedFunctionSignature, TypedParamLabel};
use crate::midend::type_check::Type;
use vstd::prelude::*;

verus! {

/// Inference-ready view of one typed function signature: labels kept, type
/// surfaces turned into inference-domain types.
#[derive(Debug)]
pub struct InferFunctionSignature {
    pub param_labels: Vec<TypedParamLabel>,
    pub param_types: Vec<InferenceType>,
    pub return_type: Option<InferenceType>,
}

/// The inference type of a semantic type: its concrete form, or the error
/// type when it has none.
pub open spec fn inference_type_of(ty: Type) -> InferenceType {
    match concrete_of(ty) {
        Some(c) => InferenceType::Known(c),
        None => InferenceType::Error,
    }
}

fn inference_type_from_semantic(ty: &Type) -> (r: InferenceType)
    ensures
        r == inference_type_of(*ty),
{
    match ConcreteType::from_semantic_type(ty) {
        Some(c) => InferenceType::Known(c),
        None => InferenceType::Error,
    }
}

/// Adapts a typed signature for inference.
pub fn infer_function_signature_from_typed(signature: &TypedFunctionSignature) -> (r:
    InferFunctionSignature)
    ensures
        r.param_labels@ == signature.param_labels@,
        r.param_types@.len() == signature.param_types@.len(),
        forall|i: int|
            0 <= i < signature.param_types@.len() ==> #[trigger] r.param_types@[i]
                == inference_type_of(signature.param_types@[i]),
        match signature.return_type {
            Some(t) => r.return_type == Some(inference_type_of(t)),
            None => r.return_type is None,
        },
{
    let mut param_labels: Vec<TypedParamLabel> = Vec::new();
    let mut i: usize = 0;
    while i < signature.param_labels.len()
        invariant
            i <= signature.param_labels@.len(),
            param_labels@ == signature.param_labels@.subrange(0, i as int),
        decreases signature.param_labels@.len() - i,
    {
        param_labels.push(signature.param_labels[i].clone());
        proof {
            assert(param_labels@ =~= signature.param_labels@.subrange(0, i as int + 1));
        }
        i = i + 1;
    }
    proof {
        assert(param_labels@ =~= signature.param_labels@);
    }
    let mut param_types: Vec<InferenceType> = Vec::new();
    let mut j: usize = 0;
    while j < signature.param_types.len()
        invariant
            j <= signature.param_types@.len(),
            param_types@.len() == j,
            forall|k: int| 0 <= k < j ==> #[trigger] param_types@[k] == inference_type_of(
                signature.param_types@[k],
            ),
        decreases signature.param_types@.len() - j,
    {
        param_types.push(inference_type_from_semantic(&signature.param_types[j]));
        j = j + 1;
    }
    let return_type = match &signature.return_type {
        Some(t) => Some(inference_type_from_semantic(t)),
        None => None,
    };
    InferFunctionSignature { param_labels, param_types, return_type }
}

} // verus!
