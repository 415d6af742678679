use crate::collections::MapKey;
use vstd::prelude::*;

verus! {

/// Identifier of an inference variable.
#[derive(Debug, Clone, Copy, PartialEq, Eq, Structural)]
pub struct TypeVarId(pub u32);

impl TypeVarId {
    /// Creates a variable id from its raw value.
    pub fn new(raw: u32) -> (id: Self)
        ensures
            id.0 == raw,
    {
        TypeVarId(raw)
    }

    /// Returns the raw value of this id.
    pub fn raw(self) -> (raw: u32)
        ensures
            raw == self.0,
    {
        self.0
    }
}

impl MapKey for TypeVarId {
    open spec fn key_lt(self, other: Self) -> bool {
        self.0 < other.0
    }

    proof fn lemma_key_lt_irreflexive(a: Self) {
    }

    proof fn lemma_key_lt_transitive(a: Self, b: Self, c: Self) {
    }

    proof fn lemma_key_lt_total(a: Self, b: Self) {
    }

    fn less_than(&self, other: &Self) -> (r: bool) {
        self.0 < other.0
    }

    fn same_key(&self, other: &Self) -> (r: bool) {
        self.0 == other.0
    }

    fn copy_key(&self) -> (r: Self) {
        *self
    }
}

} // verus!
