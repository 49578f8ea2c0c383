use antikythera::type_mapping::{is_option_type, json_type_kind, unwrap_option_type, JsonTypeKind, RustType};

fn path(ident: &str) -> RustType {
    RustType::Path { ident: ident.to_string(), first_arg: None }
}

fn generic(ident: &str, arg: RustType) -> RustType {
    RustType::Path { ident: ident.to_string(), first_arg: Some(Box::new(arg)) }
}

#[test]
fn primitives_map_to_their_keywords() {
    assert_eq!(json_type_kind(&path("String")), JsonTypeKind::Primitive("string"));
    assert_eq!(json_type_kind(&path("str")), JsonTypeKind::Primitive("string"));
    assert_eq!(json_type_kind(&path("u64")), JsonTypeKind::Primitive("integer"));
    assert_eq!(json_type_kind(&path("isize")), JsonTypeKind::Primitive("integer"));
    assert_eq!(json_type_kind(&path("f32")), JsonTypeKind::Primitive("number"));
    assert_eq!(json_type_kind(&path("bool")), JsonTypeKind::Primitive("boolean"));
}

#[test]
fn collections_are_arrays_and_others_are_references() {
    assert_eq!(json_type_kind(&generic("Vec", path("u8"))), JsonTypeKind::Array);
    assert_eq!(json_type_kind(&generic("HashSet", path("String"))), JsonTypeKind::Array);
    assert_eq!(json_type_kind(&path("Address")), JsonTypeKind::Custom("Address".to_string()));
    assert_eq!(json_type_kind(&RustType::Other), JsonTypeKind::Primitive("string"));
}

#[test]
fn options_are_transparent() {
    let t = generic("Option", generic("Vec", path("i32")));
    assert!(is_option_type(&t));
    assert_eq!(json_type_kind(&t), JsonTypeKind::Array);
    match unwrap_option_type(&t) {
        RustType::Path { ident, .. } => assert_eq!(ident, "Vec"),
        RustType::Other => panic!("expected the inner type"),
    }
    assert_eq!(json_type_kind(&path("Option")), JsonTypeKind::Primitive("string"));
    assert!(!is_option_type(&path("Vec")));
    match unwrap_option_type(&path("Vec")) {
        RustType::Path { ident, .. } => assert_eq!(ident, "Vec"),
        RustType::Other => panic!("expected the type itself"),
    }
}
