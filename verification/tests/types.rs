use qt_auto_binding::diagnostic::{Level, Span};
use qt_auto_binding::parse::grammar::parse_type;
use qt_auto_binding::types::{create_unsupported, from_type, is_qobject, Type, TypeExpr};

fn parse_str(input: &str) -> TypeExpr {
    parse_type(input).unwrap()
}

#[test]
fn test_simple_types() {
    let result = parse_str("i32");
    assert_eq!(from_type(&result).unwrap(), Type::I32);

    let result = parse_str("u32");
    assert_eq!(from_type(&result).unwrap(), Type::U32);

    let result = parse_str("i64");
    assert_eq!(from_type(&result).unwrap(), Type::I64);

    let result = parse_str("u64");
    assert_eq!(from_type(&result).unwrap(), Type::U64);

    let result = parse_str("f32");
    assert_eq!(from_type(&result).unwrap(), Type::F32);

    let result = parse_str("f64");
    assert_eq!(from_type(&result).unwrap(), Type::F64);

    let result = parse_str("String");
    assert_eq!(from_type(&result).unwrap(), Type::String);
}

#[test]
fn test_byte_array() {
    let result = parse_str("Vec<u8>");
    assert_eq!(from_type(&result).unwrap(), Type::ByteArray);
}

#[test]
#[should_panic]
fn test_fully_qualified_path() {
    let result = parse_str("std::string::String");
    from_type(&result).unwrap();
}

#[test]
#[should_panic]
fn test_with_qself() {
    let result = parse_str("<Type>::String");
    from_type(&result).unwrap();
}

#[test]
#[should_panic]
fn test_with_parenthesis_arguments() {
    let result = parse_str("Vec(u8)");
    from_type(&result).unwrap();
}

#[test]
#[should_panic]
fn test_with_several_arguments() {
    let result = parse_str("Vec<u8, u8>");
    from_type(&result).unwrap();
}

#[test]
fn test_is_qobject() {
    let result = parse_str("QObject");
    assert!(is_qobject(&result));

    let result = parse_str("i32");
    assert!(!is_qobject(&result));

    let result = parse_str("Vec<i32>");
    assert!(!is_qobject(&result));
}

#[test]
fn owner_marker_resolves_to_the_owner_handle() {
    assert_eq!(from_type(&parse_str("QObject")).unwrap(), Type::QObject);
    assert_eq!(from_type(&parse_str(" QObject /* owner */ ")).unwrap(), Type::QObject);
    for other in ["::QObject", "qt::QObject", "QObject<T>", "<T>::QObject", "*mut QObject"] {
        let ty = parse_str(other);
        assert!(!is_qobject(&ty), "{}", other);
        assert!(from_type(&ty).is_err(), "{}", other);
    }
}

#[test]
fn other_spellings_are_not_supported() {
    for other in [
        "bool", "char", "u8", "usize", "string", "I32", "Vec<u16>", "Vec<Vec<u8>>", "Vec",
        "::i32", "std::vec::Vec<u8>", "Option<u8>", "(i32)", "&str", "*const i32", "[u8]",
        "Vec<u8<T>>", "Vec<::u8>",
    ] {
        let ty = parse_str(other);
        let diagnostic = from_type(&ty).err().unwrap();
        assert_eq!(diagnostic.level, Level::Error, "{}", other);
        assert_eq!(diagnostic.message, "This type is not supported by qt_binding");
        assert_eq!(diagnostic.spans, vec![ty.span]);
        assert_eq!(diagnostic.children.len(), 1);
        assert_eq!(diagnostic.children[0].level, Level::Help);
        assert_eq!(
            diagnostic.children[0].message,
            "Supported types are `i32`, `u32`, `i64`, `u64`, `f32`, `f64`, `String`, `Vec<u8>` and `QObject`."
        );
        assert!(diagnostic.children[0].spans.is_empty());
    }
}

#[test]
fn byte_vector_may_end_with_a_comma() {
    assert_eq!(from_type(&parse_str("Vec<u8,>")).unwrap(), Type::ByteArray);
    assert_eq!(from_type(&parse_str("Vec < u8 >")).unwrap(), Type::ByteArray);
}

#[test]
fn type_expression_keeps_its_place_and_pieces() {
    let ty = parse_str("  Vec<u8> ");
    assert_eq!(ty.span, Span { start: 2, end: 9 });
    assert_eq!(ty.pieces, vec!["Vec", "<", "u8", ">"]);
    let copy = ty.duplicate();
    assert_eq!(copy.span, ty.span);
    assert_eq!(copy.pieces, ty.pieces);
}

#[test]
fn create_unsupported_is_at_the_span() {
    let diagnostic = create_unsupported(Span { start: 3, end: 8 });
    assert_eq!(diagnostic.spans, vec![Span { start: 3, end: 8 }]);
    assert_eq!(diagnostic.level, Level::Error);
}
