//! Typed declaration signatures and the table that holds them.

use crate::collections::sorted_map::{entries_contain, SortedMap};
use crate::frontend::resolver::{DeclarationOwner, ItemId, ItemKind};
use crate::frontend::semantic::types::Type;
use crate::frontend::source::FileId;
use vstd::prelude::*;

verus! {

#[derive(Debug)]
pub enum SignatureTypingIssueKind {
    UnresolvedPath { path: Vec<String> },
    InvalidTypeItem { path: Vec<String>, item_id: ItemId, item_kind: ItemKind },
    MissingResolvedItem { path: Vec<String>, item_id: ItemId },
    MissingGlobalItemMetadata { item_id: ItemId },
    UnsupportedTypeSurface { description: String },
}

#[derive(Debug)]
pub struct SignatureTypingIssue {
    pub owner: DeclarationOwner,
    pub containing_scope_file_id: Option<FileId>,
    pub kind: SignatureTypingIssueKind,
}

/// How a parameter's call-site label is given.
#[derive(Debug, PartialEq, Eq)]
pub enum TypedParamLabel {
    /// The parameter takes no label.
    Unlabeled,
    /// The parameter uses an explicit label.
    Explicit(String),
    /// The parameter's label is its name.
    FromName,
}

impl Clone for TypedParamLabel {
    fn clone(&self) -> (r: Self)
        ensures
            r == *self,
    {
        match self {
            TypedParamLabel::Unlabeled => TypedParamLabel::Unlabeled,
            TypedParamLabel::Explicit(s) => TypedParamLabel::Explicit(s.clone()),
            TypedParamLabel::FromName => TypedParamLabel::FromName,
        }
    }
}

#[derive(Debug, PartialEq, Eq)]
pub struct TypedFunctionSignature {
    pub param_labels: Vec<TypedParamLabel>,
    pub param_types: Vec<Type>,
    pub return_type: Option<Type>,
}

#[derive(Debug)]
pub struct TypedNamedFunctionSignature {
    pub name: String,
    pub signature: TypedFunctionSignature,
}

#[derive(Debug)]
pub struct TypedStructField {
    pub name: String,
    pub ty: Type,
}

#[derive(Debug)]
pub struct TypedStructSignatureData {
    pub fields: Vec<TypedStructField>,
    pub method_signatures: Vec<TypedNamedFunctionSignature>,
    pub initializer_signatures: Vec<TypedFunctionSignature>,
}

#[derive(Debug)]
pub struct TypedEnumCaseSignature {
    pub name: String,
    pub payload_types: Vec<Type>,
}

#[derive(Debug)]
pub struct TypedEnumSignatureData {
    pub case_signatures: Vec<TypedEnumCaseSignature>,
    pub method_signatures: Vec<TypedNamedFunctionSignature>,
    pub initializer_signatures: Vec<TypedFunctionSignature>,
}

#[derive(Debug)]
pub struct TypedProtocolProperty {
    pub name: String,
    pub ty: Type,
}

#[derive(Debug)]
pub struct TypedAssociatedTypeBounds {
    pub name: String,
    pub bounds: Vec<Type>,
}

#[derive(Debug)]
pub struct TypedProtocolSignatureData {
    pub inheritance_types: Vec<Type>,
    pub properties: Vec<TypedProtocolProperty>,
    pub method_signatures: Vec<TypedNamedFunctionSignature>,
    pub initializer_signatures: Vec<TypedFunctionSignature>,
    pub associated_type_bounds: Vec<TypedAssociatedTypeBounds>,
}

#[derive(Debug)]
pub struct TypedImplSignature {
    pub owner: DeclarationOwner,
    pub containing_scope_file_id: FileId,
    pub target: Type,
    pub conformance: Option<Type>,
    pub method_signatures: Vec<TypedNamedFunctionSignature>,
    pub initializer_signatures: Vec<TypedFunctionSignature>,
}

/// Typed signatures of all declarations, keyed by item id (impls by the
/// scope file that holds them).
pub struct TypedSignatureTable {
    pub functions: SortedMap<ItemId, TypedFunctionSignature>,
    pub structs: SortedMap<ItemId, TypedStructSignatureData>,
    pub enums: SortedMap<ItemId, TypedEnumSignatureData>,
    pub protocols: SortedMap<ItemId, TypedProtocolSignatureData>,
    pub impls_by_scope_file_id: SortedMap<FileId, Vec<TypedImplSignature>>,
    pub issues: Vec<SignatureTypingIssue>,
}

impl TypedSignatureTable {
    /// An empty table.
    pub fn new() -> (t: Self)
        ensures
            t.functions@.len() == 0,
            t.structs@.len() == 0,
            t.enums@.len() == 0,
            t.protocols@.len() == 0,
            t.impls_by_scope_file_id@.len() == 0,
            t.issues@.len() == 0,
    {
        TypedSignatureTable {
            functions: SortedMap::new(),
            structs: SortedMap::new(),
            enums: SortedMap::new(),
            protocols: SortedMap::new(),
            impls_by_scope_file_id: SortedMap::new(),
            issues: Vec::new(),
        }
    }

    /// The function signature of `item_id`, if any.
    pub fn function(&self, item_id: ItemId) -> (r: Option<&TypedFunctionSignature>)
        ensures
            match r {
                Some(s) => self.functions.spec_get(item_id) == Some(*s),
                None => self.functions.spec_get(item_id) is None,
            },
    {
        self.functions.get(&item_id)
    }

    /// The struct signature data of `item_id`, if any.
    pub fn struct_data(&self, item_id: ItemId) -> (r: Option<&TypedStructSignatureData>)
        ensures
            match r {
                Some(s) => self.structs.spec_get(item_id) == Some(*s),
                None => self.structs.spec_get(item_id) is None,
            },
    {
        self.structs.get(&item_id)
    }

    /// The enum signature data of `item_id`, if any.
    pub fn enum_data(&self, item_id: ItemId) -> (r: Option<&TypedEnumSignatureData>)
        ensures
            match r {
                Some(s) => self.enums.spec_get(item_id) == Some(*s),
                None => self.enums.spec_get(item_id) is None,
            },
    {
        self.enums.get(&item_id)
    }

    /// The protocol signature data of `item_id`, if any.
    pub fn protocol(&self, item_id: ItemId) -> (r: Option<&TypedProtocolSignatureData>)
        ensures
            match r {
                Some(s) => self.protocols.spec_get(item_id) == Some(*s),
                None => self.protocols.spec_get(item_id) is None,
            },
    {
        self.protocols.get(&item_id)
    }

    /// The impl signatures declared in scope file `scope_file_id`, empty when none.
    pub fn impls_in_scope(&self, scope_file_id: FileId) -> (r: &[TypedImplSignature])
        ensures
            match self.impls_by_scope_file_id.spec_get(scope_file_id) {
                Some(v) => r@ == v@,
                None => r@.len() == 0,
            },
    {
        match self.impls_by_scope_file_id.get(&scope_file_id) {
            Some(v) => v.as_slice(),
            None => &[],
        }
    }

    /// True when no signature of any kind is stored.
    pub fn is_empty(&self) -> (b: bool)
        ensures
            b == (self.functions@.len() == 0 && self.structs@.len() == 0 && self.enums@.len() == 0
                && self.protocols@.len() == 0 && self.impls_by_scope_file_id@.len() == 0),
    {
        self.functions.is_empty() && self.structs.is_empty() && self.enums.is_empty()
            && self.protocols.is_empty() && self.impls_by_scope_file_id.is_empty()
    }
}


/// An element-wise copy of a list of `Type`.
pub fn clone_type_list(v: &Vec<Type>) -> (r: Vec<Type>)
    ensures
        r@ == v@,
{
    let mut out: Vec<Type> = Vec::new();
    let mut i: usize = 0;
    while i < v.len()
        invariant
            i <= v@.len(),
            out@ == v@.subrange(0, i as int),
        decreases v@.len() - i,
    {
        out.push(v[i].clone());
        proof {
            assert(out@ =~= v@.subrange(0, i as int + 1));
        }
        i = i + 1;
    }
    proof {
        assert(out@ =~= v@);
    }
    out
}

/// An element-wise copy of a list of `TypedParamLabel`.
pub fn clone_typed_param_label_list(v: &Vec<TypedParamLabel>) -> (r: Vec<TypedParamLabel>)
    ensures
        r@ == v@,
{
    let mut out: Vec<TypedParamLabel> = Vec::new();
    let mut i: usize = 0;
    while i < v.len()
        invariant
            i <= v@.len(),
            out@ == v@.subrange(0, i as int),
        decreases v@.len() - i,
    {
        out.push(v[i].clone());
        proof {
            assert(out@ =~= v@.subrange(0, i as int + 1));
        }
        i = i + 1;
    }
    proof {
        assert(out@ =~= v@);
    }
    out
}

/// An element-wise copy of a list of `TypedStructField`.
pub fn clone_typed_struct_field_list(v: &Vec<TypedStructField>) -> (r: Vec<TypedStructField>)
    ensures
        r@ == v@,
{
    let mut out: Vec<TypedStructField> = Vec::new();
    let mut i: usize = 0;
    while i < v.len()
        invariant
            i <= v@.len(),
            out@ == v@.subrange(0, i as int),
        decreases v@.len() - i,
    {
        out.push(v[i].clone());
        proof {
            assert(out@ =~= v@.subrange(0, i as int + 1));
        }
        i = i + 1;
    }
    proof {
        assert(out@ =~= v@);
    }
    out
}

/// An element-wise copy of a list of `TypedProtocolProperty`.
pub fn clone_typed_protocol_property_list(v: &Vec<TypedProtocolProperty>) -> (r: Vec<TypedProtocolProperty>)
    ensures
        r@ == v@,
{
    let mut out: Vec<TypedProtocolProperty> = Vec::new();
    let mut i: usize = 0;
    while i < v.len()
        invariant
            i <= v@.len(),
            out@ == v@.subrange(0, i as int),
        decreases v@.len() - i,
    {
        out.push(v[i].clone());
        proof {
            assert(out@ =~= v@.subrange(0, i as int + 1));
        }
        i = i + 1;
    }
    proof {
        assert(out@ =~= v@);
    }
    out
}

/// An element-wise copy of a list of `TypedFunctionSignature`, equal in content.
pub fn clone_typed_function_signature_list(v: &Vec<TypedFunctionSignature>) -> (r: Vec<TypedFunctionSignature>)
    ensures
        r@.map_values(|x: TypedFunctionSignature| x@) == v@.map_values(|x: TypedFunctionSignature| x@),
{
    let mut out: Vec<TypedFunctionSignature> = Vec::new();
    let mut i: usize = 0;
    while i < v.len()
        invariant
            i <= v@.len(),
            out@.len() == i,
            forall|k: int| 0 <= k < i ==> #[trigger] out@[k]@ == v@[k]@,
        decreases v@.len() - i,
    {
        out.push(v[i].clone_content());
        i = i + 1;
    }
    proof {
        assert(out@.map_values(|x: TypedFunctionSignature| x@) =~= v@.map_values(|x: TypedFunctionSignature| x@));
    }
    out
}

/// An element-wise copy of a list of `TypedNamedFunctionSignature`, equal in content.
pub fn clone_typed_named_function_signature_list(v: &Vec<TypedNamedFunctionSignature>) -> (r: Vec<TypedNamedFunctionSignature>)
    ensures
        r@.map_values(|x: TypedNamedFunctionSignature| x@) == v@.map_values(|x: TypedNamedFunctionSignature| x@),
{
    let mut out: Vec<TypedNamedFunctionSignature> = Vec::new();
    let mut i: usize = 0;
    while i < v.len()
        invariant
            i <= v@.len(),
            out@.len() == i,
            forall|k: int| 0 <= k < i ==> #[trigger] out@[k]@ == v@[k]@,
        decreases v@.len() - i,
    {
        out.push(v[i].clone_content());
        i = i + 1;
    }
    proof {
        assert(out@.map_values(|x: TypedNamedFunctionSignature| x@) =~= v@.map_values(|x: TypedNamedFunctionSignature| x@));
    }
    out
}

/// An element-wise copy of a list of `TypedEnumCaseSignature`, equal in content.
pub fn clone_typed_enum_case_signature_list(v: &Vec<TypedEnumCaseSignature>) -> (r: Vec<TypedEnumCaseSignature>)
    ensures
        r@.map_values(|x: TypedEnumCaseSignature| x@) == v@.map_values(|x: TypedEnumCaseSignature| x@),
{
    let mut out: Vec<TypedEnumCaseSignature> = Vec::new();
    let mut i: usize = 0;
    while i < v.len()
        invariant
            i <= v@.len(),
            out@.len() == i,
            forall|k: int| 0 <= k < i ==> #[trigger] out@[k]@ == v@[k]@,
        decreases v@.len() - i,
    {
        out.push(v[i].clone_content());
        i = i + 1;
    }
    proof {
        assert(out@.map_values(|x: TypedEnumCaseSignature| x@) =~= v@.map_values(|x: TypedEnumCaseSignature| x@));
    }
    out
}

/// An element-wise copy of a list of `TypedAssociatedTypeBounds`, equal in content.
pub fn clone_typed_associated_type_bounds_list(v: &Vec<TypedAssociatedTypeBounds>) -> (r: Vec<TypedAssociatedTypeBounds>)
    ensures
        r@.map_values(|x: TypedAssociatedTypeBounds| x@) == v@.map_values(|x: TypedAssociatedTypeBounds| x@),
{
    let mut out: Vec<TypedAssociatedTypeBounds> = Vec::new();
    let mut i: usize = 0;
    while i < v.len()
        invariant
            i <= v@.len(),
            out@.len() == i,
            forall|k: int| 0 <= k < i ==> #[trigger] out@[k]@ == v@[k]@,
        decreases v@.len() - i,
    {
        out.push(v[i].clone_content());
        i = i + 1;
    }
    proof {
        assert(out@.map_values(|x: TypedAssociatedTypeBounds| x@) =~= v@.map_values(|x: TypedAssociatedTypeBounds| x@));
    }
    out
}

impl View for TypedFunctionSignature {
    type V = (Seq<TypedParamLabel>, Seq<Type>, Option<Type>);

    open spec fn view(&self) -> Self::V {
        (self.param_labels@, self.param_types@, self.return_type)
    }
}

impl TypedFunctionSignature {
    /// A copy with the same content.
    pub fn clone_content(&self) -> (r: Self)
        ensures
            r@ == self@,
    {
        let r = TypedFunctionSignature {
            param_labels: clone_typed_param_label_list(&self.param_labels),
            param_types: clone_type_list(&self.param_types),
            return_type: match &self.return_type {
                Some(t) => Some(t.clone()),
                None => None,
            },
        };
        proof {
            assert(r@ =~= self@);
        }
        r
    }
}

impl View for TypedNamedFunctionSignature {
    type V = (String, (Seq<TypedParamLabel>, Seq<Type>, Option<Type>));

    open spec fn view(&self) -> Self::V {
        (self.name, self.signature@)
    }
}

impl TypedNamedFunctionSignature {
    /// A copy with the same content.
    pub fn clone_content(&self) -> (r: Self)
        ensures
            r@ == self@,
    {
        let r = TypedNamedFunctionSignature {
            name: self.name.clone(),
            signature: self.signature.clone_content(),
        };
        proof {
            assert(r@ =~= self@);
        }
        r
    }
}

impl View for TypedEnumCaseSignature {
    type V = (String, Seq<Type>);

    open spec fn view(&self) -> Self::V {
        (self.name, self.payload_types@)
    }
}

impl TypedEnumCaseSignature {
    /// A copy with the same content.
    pub fn clone_content(&self) -> (r: Self)
        ensures
            r@ == self@,
    {
        let r = TypedEnumCaseSignature {
            name: self.name.clone(),
            payload_types: clone_type_list(&self.payload_types),
        };
        proof {
            assert(r@ =~= self@);
        }
        r
    }
}

impl View for TypedAssociatedTypeBounds {
    type V = (String, Seq<Type>);

    open spec fn view(&self) -> Self::V {
        (self.name, self.bounds@)
    }
}

impl TypedAssociatedTypeBounds {
    /// A copy with the same content.
    pub fn clone_content(&self) -> (r: Self)
        ensures
            r@ == self@,
    {
        let r = TypedAssociatedTypeBounds {
            name: self.name.clone(),
            bounds: clone_type_list(&self.bounds),
        };
        proof {
            assert(r@ =~= self@);
        }
        r
    }
}

impl View for TypedStructSignatureData {
    type V = (Seq<TypedStructField>, Seq<(String, (Seq<TypedParamLabel>, Seq<Type>, Option<Type>))>, Seq<(Seq<TypedParamLabel>, Seq<Type>, Option<Type>)>);

    open spec fn view(&self) -> Self::V {
        (self.fields@, self.method_signatures@.map_values(|m: TypedNamedFunctionSignature| m@), self.initializer_signatures@.map_values(|f: TypedFunctionSignature| f@))
    }
}

impl TypedStructSignatureData {
    /// A copy with the same content.
    pub fn clone_content(&self) -> (r: Self)
        ensures
            r@ == self@,
    {
        let r = TypedStructSignatureData {
            fields: clone_typed_struct_field_list(&self.fields),
            method_signatures: clone_typed_named_function_signature_list(&self.method_signatures),
            initializer_signatures: clone_typed_function_signature_list(&self.initializer_signatures),
        };
        proof {
            assert(r@ =~= self@);
        }
        r
    }
}

impl View for TypedEnumSignatureData {
    type V = (Seq<(String, Seq<Type>)>, Seq<(String, (Seq<TypedParamLabel>, Seq<Type>, Option<Type>))>, Seq<(Seq<TypedParamLabel>, Seq<Type>, Option<Type>)>);

    open spec fn view(&self) -> Self::V {
        (self.case_signatures@.map_values(|c: TypedEnumCaseSignature| c@), self.method_signatures@.map_values(|m: TypedNamedFunctionSignature| m@), self.initializer_signatures@.map_values(|f: TypedFunctionSignature| f@))
    }
}

impl TypedEnumSignatureData {
    /// A copy with the same content.
    pub fn clone_content(&self) -> (r: Self)
        ensures
            r@ == self@,
    {
        let r = TypedEnumSignatureData {
            case_signatures: clone_typed_enum_case_signature_list(&self.case_signatures),
            method_signatures: clone_typed_named_function_signature_list(&self.method_signatures),
            initializer_signatures: clone_typed_function_signature_list(&self.initializer_signatures),
        };
        proof {
            assert(r@ =~= self@);
        }
        r
    }
}

impl View for TypedProtocolSignatureData {
    type V = (Seq<Type>, Seq<TypedProtocolProperty>, Seq<(String, (Seq<TypedParamLabel>, Seq<Type>, Option<Type>))>, Seq<(Seq<TypedParamLabel>, Seq<Type>, Option<Type>)>, Seq<(String, Seq<Type>)>);

    open spec fn view(&self) -> Self::V {
        (self.inheritance_types@, self.properties@, self.method_signatures@.map_values(|m: TypedNamedFunctionSignature| m@), self.initializer_signatures@.map_values(|f: TypedFunctionSignature| f@), self.associated_type_bounds@.map_values(|b: TypedAssociatedTypeBounds| b@))
    }
}

impl TypedProtocolSignatureData {
    /// A copy with the same content.
    pub fn clone_content(&self) -> (r: Self)
        ensures
            r@ == self@,
    {
        let r = TypedProtocolSignatureData {
            inheritance_types: clone_type_list(&self.inheritance_types),
            properties: clone_typed_protocol_property_list(&self.properties),
            method_signatures: clone_typed_named_function_signature_list(&self.method_signatures),
            initializer_signatures: clone_typed_function_signature_list(&self.initializer_signatures),
            associated_type_bounds: clone_typed_associated_type_bounds_list(&self.associated_type_bounds),
        };
        proof {
            assert(r@ =~= self@);
        }
        r
    }
}

impl View for TypedImplSignature {
    type V = (DeclarationOwner, FileId, Type, Option<Type>, Seq<(String, (Seq<TypedParamLabel>, Seq<Type>, Option<Type>))>, Seq<(Seq<TypedParamLabel>, Seq<Type>, Option<Type>)>);

    open spec fn view(&self) -> Self::V {
        (self.owner, self.containing_scope_file_id, self.target, self.conformance, self.method_signatures@.map_values(|m: TypedNamedFunctionSignature| m@), self.initializer_signatures@.map_values(|f: TypedFunctionSignature| f@))
    }
}

impl TypedImplSignature {
    /// A copy with the same content.
    pub fn clone_content(&self) -> (r: Self)
        ensures
            r@ == self@,
    {
        let r = TypedImplSignature {
            owner: self.owner,
            containing_scope_file_id: self.containing_scope_file_id,
            target: self.target.clone(),
            conformance: match &self.conformance {
                Some(t) => Some(t.clone()),
                None => None,
            },
            method_signatures: clone_typed_named_function_signature_list(&self.method_signatures),
            initializer_signatures: clone_typed_function_signature_list(&self.initializer_signatures),
        };
        proof {
            assert(r@ =~= self@);
        }
        r
    }
}

impl Clone for TypedStructField {
    fn clone(&self) -> (r: Self)
        ensures
            r == *self,
    {
        TypedStructField { name: self.name.clone(), ty: self.ty.clone() }
    }
}

impl Clone for TypedProtocolProperty {
    fn clone(&self) -> (r: Self)
        ensures
            r == *self,
    {
        TypedProtocolProperty { name: self.name.clone(), ty: self.ty.clone() }
    }
}

} // verus!
