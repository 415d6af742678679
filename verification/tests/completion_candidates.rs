use core_x::frontend::resolver::ItemId;
use core_x::frontend::semantic::types::{BuiltinType, Mutability, NamedTypeKind, Type};
use core_x::midend::completion::candidates::{
    complete_associated_access, complete_enum_cases, complete_member_access, format_enum_variant_signature,
    format_function_signature, format_type,
};
use core_x::midend::completion::types::{CompletionCandidate, CompletionKind};
use core_x::midend::type_check::signatures::{
    TypedEnumCaseSignature, TypedEnumSignatureData, TypedFunctionSignature, TypedNamedFunctionSignature,
    TypedParamLabel, TypedSignatureTable, TypedStructField, TypedStructSignatureData,
};

fn sig(params: Vec<Type>, ret: Option<Type>) -> TypedFunctionSignature {
    let labels = params.iter().map(|_| TypedParamLabel::Unlabeled).collect();
    TypedFunctionSignature { param_labels: labels, param_types: params, return_type: ret }
}

fn i32_ty() -> Type {
    Type::Builtin(BuiltinType::I32)
}

fn table() -> TypedSignatureTable {
    let mut t = TypedSignatureTable::new();
    t.structs.insert(
        ItemId(3),
        TypedStructSignatureData {
            fields: vec![
                TypedStructField { name: "x".to_string(), ty: i32_ty() },
                TypedStructField {
                    name: "next".to_string(),
                    ty: Type::pointer(Type::named(ItemId(3), NamedTypeKind::Struct), Mutability::Mut),
                },
            ],
            method_signatures: vec![TypedNamedFunctionSignature {
                name: "length".to_string(),
                signature: sig(vec![], Some(Type::Builtin(BuiltinType::USize))),
            }],
            initializer_signatures: vec![sig(vec![i32_ty(), Type::Builtin(BuiltinType::Bool)], None)],
        },
    );
    t.enums.insert(
        ItemId(7),
        TypedEnumSignatureData {
            case_signatures: vec![
                TypedEnumCaseSignature { name: "Empty".to_string(), payload_types: vec![] },
                TypedEnumCaseSignature {
                    name: "Pair".to_string(),
                    payload_types: vec![i32_ty(), Type::pointer(Type::Error, Mutability::Const)],
                },
            ],
            method_signatures: vec![TypedNamedFunctionSignature {
                name: "flip".to_string(),
                signature: sig(vec![Type::named(ItemId(7), NamedTypeKind::Enum)], Some(i32_ty())),
            }],
            initializer_signatures: vec![],
        },
    );
    t
}

fn labels(cs: &[CompletionCandidate]) -> Vec<&str> {
    cs.iter().map(|c| c.label.as_str()).collect()
}

fn details(cs: &[CompletionCandidate]) -> Vec<&str> {
    cs.iter().map(|c| c.detail.as_deref().unwrap()).collect()
}

#[test]
fn format_type_shows_builtin_named_pointer_and_error() {
    assert_eq!(format_type(&i32_ty()), "i32");
    assert_eq!(format_type(&Type::named(ItemId(42), NamedTypeKind::Struct)), "NamedType(ItemId(42))");
    assert_eq!(format_type(&Type::pointer(Type::Builtin(BuiltinType::U8), Mutability::Mut)), "mut *u8");
    assert_eq!(format_type(&Type::pointer(Type::Builtin(BuiltinType::U8), Mutability::Const)), "*u8");
    assert_eq!(format_type(&Type::Error), "<error>");
}

#[test]
fn function_signature_text_joins_params_and_defaults_return_to_unit() {
    assert_eq!(format_function_signature(&sig(vec![], None)), "() -> ()");
    assert_eq!(
        format_function_signature(&sig(vec![i32_ty(), Type::Builtin(BuiltinType::String)], Some(i32_ty()))),
        "(i32, string) -> i32"
    );
}

#[test]
fn enum_case_text_omits_brackets_without_payload() {
    let empty = TypedEnumCaseSignature { name: "None".to_string(), payload_types: vec![] };
    assert_eq!(format_enum_variant_signature(&empty), "None");
    let some = TypedEnumCaseSignature { name: "Some".to_string(), payload_types: vec![i32_ty(), i32_ty()] };
    assert_eq!(format_enum_variant_signature(&some), "Some(i32, i32)");
}

#[test]
fn associated_access_on_struct_lists_initializers_then_methods() {
    let t = table();
    let cs = complete_associated_access(&t, &Type::named(ItemId(3), NamedTypeKind::Struct));
    assert_eq!(labels(&cs), vec!["init", "length"]);
    assert_eq!(details(&cs), vec!["(i32, bool) -> ()", "() -> usize"]);
    assert!(cs.iter().all(|c| c.kind == CompletionKind::Function));
    assert!(cs.iter().all(|c| c.metadata.item_id == Some(ItemId(3)) && c.metadata.ty.is_none()));
}

#[test]
fn associated_access_on_enum_lists_cases_then_methods() {
    let t = table();
    let cs = complete_associated_access(&t, &Type::named(ItemId(7), NamedTypeKind::Enum));
    assert_eq!(labels(&cs), vec!["Empty", "Pair", "flip"]);
    assert_eq!(details(&cs), vec!["Empty", "Pair(i32, *<error>)", "(NamedType(ItemId(7))) -> i32"]);
    assert_eq!(cs[0].kind, CompletionKind::EnumVariant);
    assert_eq!(cs[2].kind, CompletionKind::Function);
}

#[test]
fn member_access_on_struct_lists_fields_with_types_then_methods() {
    let t = table();
    let cs = complete_member_access(&t, &Type::named(ItemId(3), NamedTypeKind::Struct));
    assert_eq!(labels(&cs), vec!["x", "next", "length"]);
    assert_eq!(details(&cs), vec!["i32", "mut *NamedType(ItemId(3))", "() -> usize"]);
    assert_eq!(cs[0].kind, CompletionKind::Field);
    assert_eq!(cs[0].metadata.ty, Some(i32_ty()));
    assert_eq!(cs[2].metadata.ty, None);
}

#[test]
fn non_nominal_or_unknown_types_offer_nothing() {
    let t = table();
    assert!(complete_member_access(&t, &i32_ty()).is_empty());
    assert!(complete_associated_access(&t, &Type::Error).is_empty());
    assert!(complete_enum_cases(&t, &Type::named(ItemId(99), NamedTypeKind::Enum)).is_empty());
    assert!(complete_enum_cases(&t, &Type::named(ItemId(3), NamedTypeKind::Struct)).is_empty());
}

#[test]
fn enum_cases_lists_only_cases() {
    let t = table();
    let cs = complete_enum_cases(&t, &Type::named(ItemId(7), NamedTypeKind::Enum));
    assert_eq!(labels(&cs), vec!["Empty", "Pair"]);
    assert!(cs.iter().all(|c| c.kind == CompletionKind::EnumVariant && c.documentation.is_none()));
}
