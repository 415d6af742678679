use crate::midend::type_check::BuiltinType;
use vstd::prelude::*;

verus! {

/// The kind of literal an inference variable was created for.
#[derive(Debug, Clone, Copy, PartialEq, Eq, Structural)]
pub enum LiteralDefaultKind {
    Integer,
    Float,
}

/// Builtin types chosen for literal variables that nothing else constrains.
#[derive(Debug, Clone, Copy, PartialEq, Eq, Structural)]
pub struct InferenceDefaults {
    pub integer_default: BuiltinType,
    pub float_default: BuiltinType,
}

impl Default for InferenceDefaults {
    /// Integers default to `i32`, floats to `f64`.
    fn default() -> (d: Self)
        ensures
            d.integer_default == BuiltinType::I32,
            d.float_default == BuiltinType::F64,
    {
        InferenceDefaults { integer_default: BuiltinType::I32, float_default: BuiltinType::F64 }
    }
}

/// The builtin type a literal of `kind` defaults to.
pub open spec fn default_for(defaults: InferenceDefaults, kind: LiteralDefaultKind) -> BuiltinType {
    match kind {
        LiteralDefaultKind::Integer => defaults.integer_default,
        LiteralDefaultKind::Float => defaults.float_default,
    }
}

} // verus!
