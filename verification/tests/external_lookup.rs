use core_x::frontend::ast::Span;
use core_x::frontend::semantic::external_lookup::{ExternalDefinitionLocation, ExternalSemanticLookup};
use core_x::frontend::semantic::types::{BuiltinType, Type};
use core_x::midend::type_check::signatures::TypedFunctionSignature;

fn sig() -> TypedFunctionSignature {
    TypedFunctionSignature { param_labels: vec![], param_types: vec![], return_type: Some(Type::builtin(BuiltinType::I32)) }
}

#[test]
fn namespace_is_the_first_library_by_name() {
    let mut l = ExternalSemanticLookup::new();
    l.insert_extern_function("zlib".to_string(), "f".to_string(), sig());
    l.insert_extern_function("alib".to_string(), "f".to_string(), sig());
    assert_eq!(l.extern_namespace_for_function("f"), Some("alib"));
    assert_eq!(l.extern_namespace_for_function("g"), None);
}

#[test]
fn named_root_functions_are_no_libraries() {
    let mut l = ExternalSemanticLookup::new();
    l.insert_named_root_function("app".to_string(), vec!["shared_logic".to_string()], sig());
    assert_eq!(l.function_for_named_root_path("app", &["shared_logic".to_string()]), Some(&sig()));
    assert!(l.definition_for_named_root_path("app", &["shared_logic".to_string()]).is_none());
    assert!(l.function_for_named_root_path("util", &["shared_logic".to_string()]).is_none());
    assert!(!l.is_extern_library("app"));
    assert_eq!(l.extern_namespace_for_function("shared_logic"), None);
}

#[test]
fn extern_definition_alone_makes_a_library_without_the_function() {
    let mut l = ExternalSemanticLookup::new();
    let loc = ExternalDefinitionLocation { file_path: "/p/a.cx".to_string(), span: Span::new(0, 5) };
    l.insert_extern_definition("libc".to_string(), "malloc".to_string(), loc.clone());
    assert!(l.is_extern_library("libc"));
    assert_eq!(l.extern_function_definition("libc", "malloc"), Some(&loc));
    assert!(l.extern_function_signature("libc", "malloc").is_none());
    assert_eq!(l.extern_namespace_for_function("malloc"), None);
}
