use qt_auto_binding::diagnostic::{Level, Span};
use qt_auto_binding::model::{Field, Object};
use qt_auto_binding::parse::grammar::{
    checked_type, parse_field_text, parse_fields_text, parse_object_text, parse_type, read_type,
    type_error, PField,
};
use qt_auto_binding::parse::qobjects::{from_stream, Parser};
use qt_auto_binding::types::Type;

fn pieces(input: &str) -> Vec<String> {
    parse_type(input).unwrap().pieces
}

fn check_field(field: &PField, name: &str, ty: &str) {
    assert_eq!(field.name, name);
    assert_eq!(field.ty.pieces, pieces(ty));
}

#[test]
fn test_simple_field() {
    let result = parse_field_text("value: i32").unwrap();
    assert_eq!(result.name, "value");
    assert_eq!(result.ty.pieces, pieces("i32"));
    assert_eq!(result.name_span, Span { start: 0, end: 5 });
    assert_eq!(result.ty.span, Span { start: 7, end: 10 });
}

#[test]
fn test_qobject_field() {
    let result = parse_field_text("qobject: QObject").unwrap();
    assert_eq!(result.name, "qobject");
    assert_eq!(result.ty.pieces, pieces("QObject"));
}

#[test]
fn test_fields() {
    let fields = parse_fields_text("fields {qobject: QObject, value: i32}").unwrap();
    check_field(&fields[0], "qobject", "QObject");
    check_field(&fields[1], "value", "i32");
    assert_eq!(fields.len(), 2);
}

#[test]
fn test_fields_with_trailing_comma() {
    parse_fields_text("fields {qobject: QObject, value: i32,}").unwrap();
}

#[test]
fn test_fields_block() {
    let fields = parse_fields_text("fields {qobject: QObject, value: i32}").unwrap();
    check_field(&fields[0], "qobject", "QObject");
    check_field(&fields[1], "value", "i32");
}

#[test]
fn test_parse_empty_object() {
    let result = parse_object_text("object MyObject {}").unwrap();
    assert_eq!(result.name, "MyObject");
    assert!(result.fields.is_empty());
}

#[test]
fn test_parse_object() {
    let result = parse_object_text(
        r"object MyObject {
                fields {
                    qobject: QObject,
                    value: i32,
                    other_value: Vec<String>,
                }
            }",
    )
    .unwrap();
    let fields = result.fields;
    check_field(&fields[0], "qobject", "QObject");
    check_field(&fields[1], "value", "i32");
    check_field(&fields[2], "other_value", "Vec<String>");
    assert_eq!(fields[2].ty.pieces, vec!["Vec", "<", "String", ">"]);
}

#[test]
fn test_parse_object_with_trailing_comma_block() {
    parse_object_text(
        r"object MyObject {
                fields {
                    qobject: QObject,
                    value: i32,
                },
            }",
    )
    .unwrap();
}

#[test]
fn test_parse_object_with_several_fields_blocks() {
    let result = parse_object_text(
        r"object MyObject {
                fields {
                    qobject: QObject,
                },
                fields {
                    value: i32,
                }
            }",
    )
    .unwrap();
    let fields = result.fields;
    check_field(&fields[0], "qobject", "QObject");
    check_field(&fields[1], "value", "i32");
}

#[test]
fn test_parse_objects() {
    let parser = Parser::from_stream("object MyObject1 {} object MyObject2 {}");
    let objects = parser.pobjects;
    assert_eq!(objects[0].name, "MyObject1");
    assert_eq!(objects[1].name, "MyObject2");
}

#[test]
fn test_parser_empty_object() {
    let parser = Parser::from_stream("object MyObject {}");
    let objects = parser.pobjects;
    assert_eq!(objects[0].name, "MyObject");
}

#[test]
fn test_parser_reports_parse_error_1() {
    let parser = Parser::from_stream("not_object MyObject");
    let diagnostics = parser.diagnostics;
    assert_eq!(diagnostics.len(), 1);
    assert_eq!(diagnostics[0].message, "expected `object`");
    assert_eq!(diagnostics[0].spans, vec![Span { start: 0, end: 10 }]);
}

#[test]
fn test_parser_reports_parse_error_2() {
    let parser = Parser::from_stream("object");
    let diagnostics = parser.diagnostics;
    assert_eq!(diagnostics.len(), 1);
    assert_eq!(diagnostics[0].message, "expected identifier");
    assert_eq!(diagnostics[0].spans, vec![Span { start: 6, end: 6 }]);
}

#[test]
fn test_parser_reports_parse_error_3() {
    let parser = Parser::from_stream("object MyObject");
    let diagnostics = parser.diagnostics;
    assert_eq!(diagnostics.len(), 1);
    assert_eq!(diagnostics[0].message, "expected `{`");
}

#[test]
fn test_parser_reports_parse_error_4() {
    let parser = Parser::from_stream("object MyObject {");
    let diagnostics = parser.diagnostics;
    assert_eq!(diagnostics.len(), 1);
    assert_eq!(diagnostics[0].message, "expected `fields`");
}

#[test]
fn test_parser_reports_parse_error_5() {
    let parser = Parser::from_stream("object MyObject<T> {}");
    let diagnostics = parser.diagnostics;
    assert_eq!(diagnostics.len(), 1);
    assert_eq!(diagnostics[0].message, "expected `{`");
    assert_eq!(diagnostics[0].spans, vec![Span { start: 15, end: 16 }]);
}

#[test]
fn test_parser_reports_different_fields_with_the_same_name() {
    let parser = Parser::from_stream(
        r"object MyObject {
                fields {
                    field: i32,
                    field: u32,
                }
            }",
    );
    let diagnostics = parser.diagnostics;
    assert_eq!(diagnostics.len(), 1);
    assert!(parser.objects.is_empty());
}

#[test]
fn test_parser_reports_once_per_field_with_the_same_name() {
    let parser = Parser::from_stream(
        r"object MyObject {
                fields {
                    field: i32,
                    field: u32,
                    field: i64,
                    field: u64,
                }
            }",
    );
    let diagnostics = parser.diagnostics;
    assert_eq!(diagnostics.len(), 3);
}

#[test]
fn test_parser_reports_different_fields_with_qobject_type() {
    let parser = Parser::from_stream(
        r"object MyObject {
                fields {
                    field1: QObject,
                    field2: QObject,
                }
            }",
    );
    let diagnostics = parser.diagnostics;
    assert_eq!(diagnostics.len(), 1);
}

#[test]
fn duplicate_fields_point_at_the_first_declaration() {
    let input = "object O { fields { a: i32, a: u32, a: i64 } }";
    let diagnostics = from_stream(input).err().unwrap();
    assert_eq!(diagnostics.len(), 2);
    let first = Span { start: 20, end: 21 };
    let places = [Span { start: 28, end: 29 }, Span { start: 36, end: 37 }];
    for (diagnostic, place) in diagnostics.iter().zip(places.iter()) {
        assert_eq!(diagnostic.level, Level::Error);
        assert_eq!(diagnostic.message, "Field `a` is already declared");
        assert_eq!(diagnostic.spans, vec![*place]);
        assert_eq!(diagnostic.children.len(), 1);
        assert_eq!(diagnostic.children[0].level, Level::Note);
        assert_eq!(diagnostic.children[0].message, "`a` first declared here.");
        assert_eq!(diagnostic.children[0].spans, vec![first]);
    }
}

#[test]
fn second_owner_field_points_at_the_first() {
    let input = "object O { fields { a: QObject, b: QObject } }";
    let diagnostics = from_stream(input).err().unwrap();
    assert_eq!(diagnostics.len(), 1);
    assert_eq!(diagnostics[0].level, Level::Error);
    assert_eq!(diagnostics[0].message, "Duplicated `QObject` type field");
    assert_eq!(diagnostics[0].spans, vec![Span { start: 32, end: 33 }]);
    assert_eq!(diagnostics[0].children.len(), 1);
    assert_eq!(diagnostics[0].children[0].level, Level::Note);
    assert_eq!(diagnostics[0].children[0].message, "first declared here.");
    assert_eq!(
        diagnostics[0].children[0].spans,
        vec![Span { start: 23, end: 30 }]
    );
}

#[test]
fn every_check_and_the_resolver_report_one_field() {
    let input = "object O { fields { a: QObject, a: QObject, a: bool } }";
    let diagnostics = from_stream(input).err().unwrap();
    let messages: Vec<&str> = diagnostics.iter().map(|d| d.message.as_str()).collect();
    assert_eq!(
        messages,
        vec![
            "Field `a` is already declared",
            "Duplicated `QObject` type field",
            "Field `a` is already declared",
            "This type is not supported by qt_binding",
        ]
    );
}

#[test]
fn unsupported_type_drops_the_object_but_not_its_siblings() {
    let parser = Parser::from_stream(
        "object A { fields { a: bool, b: char } } object B { fields { x: Vec<u8> } }",
    );
    assert_eq!(parser.diagnostics.len(), 2);
    assert_eq!(parser.pobjects.len(), 2);
    assert_eq!(
        parser.objects,
        vec![Object::new(
            "B".to_string(),
            vec![Field::new("x".to_string(), Type::ByteArray)],
            None
        )]
    );
    assert!(from_stream(
        "object A { fields { a: bool, b: char } } object B { fields { x: Vec<u8> } }"
    )
    .is_err());
}

#[test]
fn empty_object_is_built_without_fields() {
    let objects = from_stream("object Foo {}").unwrap();
    assert_eq!(objects, vec![Object::new("Foo".to_string(), vec![], None)]);
    assert_eq!(objects[0].name(), "Foo");
    assert!(objects[0].fields().is_empty());
    assert_eq!(objects[0].qobject_field_name(), None);
}

#[test]
fn empty_text_has_no_object_and_no_diagnostic() {
    assert_eq!(from_stream("").unwrap(), vec![]);
    assert_eq!(from_stream("  // nothing\n /* at /* all */ */ ").unwrap(), vec![]);
}

#[test]
fn unterminated_input_is_one_diagnostic_and_no_object() {
    let parser = Parser::from_stream("object Foo { fields { a: i32 } ,");
    assert_eq!(parser.diagnostics.len(), 1);
    assert!(parser.objects.is_empty());
    assert!(parser.pobjects.is_empty());
    assert_eq!(parser.diagnostics[0].level, Level::Error);
    assert_eq!(parser.diagnostics[0].message, "expected `fields`");
    assert_eq!(parser.diagnostics[0].spans, vec![Span { start: 32, end: 32 }]);
    let diagnostics = from_stream("object Foo { fields { a: i32 } ,").err().unwrap();
    assert_eq!(diagnostics.len(), 1);
}

#[test]
fn object_is_built_with_resolved_fields_in_order() {
    let objects = from_stream(
        "object Person {
            fields { qobject: QObject, age: u32, },
            fields { name: String, data: Vec<u8>, ratio: f64 },
        }
        object Other { fields { a: i32, b: i64, c: u64, d: f32 } }",
    )
    .unwrap();
    assert_eq!(objects.len(), 2);
    assert_eq!(
        objects[0],
        Object::new(
            "Person".to_string(),
            vec![
                Field::new("qobject".to_string(), Type::QObject),
                Field::new("age".to_string(), Type::U32),
                Field::new("name".to_string(), Type::String),
                Field::new("data".to_string(), Type::ByteArray),
                Field::new("ratio".to_string(), Type::F64),
            ],
            Some("qobject".to_string())
        )
    );
    assert_eq!(objects[0].qobject_field_name(), Some("qobject"));
    assert_eq!(objects[0].fields()[1].name(), "age");
    assert_eq!(objects[0].fields()[1].ty(), &Type::U32);
    assert_eq!(objects[1].qobject_field_name(), None);
    assert_eq!(objects[1].fields().len(), 4);
}

#[test]
fn grammar_errors_by_place() {
    let cases = [
        ("object O { fields { : i32 } }", "expected identifier"),
        ("object O { fields { a i32 } }", "expected `:`"),
        ("object O { fields { a: } }", "expected a type"),
        ("object O { fields { a: + } }", "expected a type"),
        ("object O { fields { a: i32 b: u32 } }", "expected a type"),
        ("object O { fields { a: i32 } fields {} }", "expected `,` or `}`"),
        ("object O { fields [ a: i32 ] }", "expected `{`"),
        ("object O { other { a: i32 } }", "expected `fields`"),
        ("object O { fields { a: \"text } }", "unterminated comment or literal"),
        ("object O { /* fields { a: i32 } }", "unterminated comment or literal"),
    ];
    for (input, message) in cases.iter() {
        let diagnostics = from_stream(input).err().unwrap();
        assert_eq!(diagnostics.len(), 1, "{}", input);
        assert_eq!(diagnostics[0].message, *message, "{}", input);
        assert_eq!(diagnostics[0].level, Level::Error);
        assert_eq!(diagnostics[0].spans.len(), 1);
        assert!(diagnostics[0].children.is_empty());
    }
}

#[test]
fn text_entry_points_want_the_whole_text() {
    assert_eq!(
        parse_field_text("a: i32, b: u32").err().unwrap().message,
        "unexpected token"
    );
    assert_eq!(
        parse_fields_text("fields {} fields {}").err().unwrap().message,
        "unexpected token"
    );
    assert_eq!(
        parse_object_text("object A {} object B {}").err().unwrap().message,
        "unexpected token"
    );
    assert_eq!(parse_object_text("").err().unwrap().message, "expected `object`");
    assert_eq!(parse_type("").err().unwrap().message, "expected a type");
    assert_eq!(parse_type("i32 u32").err().unwrap().message, "expected a type");
    assert_eq!(parse_type("'a").err().unwrap().message, "expected a type");
}

#[test]
fn nested_types_run_to_the_comma_outside_brackets() {
    let fields = parse_fields_text("fields { a: HashMap<String, (u8, u8)>, b: [u8; 4] }").unwrap();
    assert_eq!(fields.len(), 2);
    assert_eq!(
        fields[0].ty.pieces,
        vec!["HashMap", "<", "String", ",", "(", "u8", ",", "u8", ")", ">"]
    );
    assert_eq!(fields[1].ty.pieces, vec!["[", "u8", ";", "4", "]"]);
    let fields = parse_fields_text("fields { f: Box<fn(u8) -> u8, u8>, g: r#type }").unwrap();
    assert_eq!(fields.len(), 2);
    assert_eq!(fields[0].ty.pieces.len(), 12);
}

#[test]
fn grammar_takes_any_tokens_as_a_type_and_the_check_comes_after() {
    let field = parse_field_text("a: + +").unwrap();
    assert_eq!(field.ty.text, "+ +");
    assert_eq!(field.ty.pieces, vec!["+", "+"]);
    assert!(!field.ty.is_valid());
    assert!(parse_field_text("a: Vec<u8>").unwrap().ty.is_valid());

    let parser = Parser::from_stream("object A { fields { a: i32, b: + } } object B {}");
    assert!(parser.pobjects.is_empty() && parser.objects.is_empty());
    assert_eq!(parser.diagnostics.len(), 1);
    assert_eq!(parser.diagnostics[0].message, "expected a type");
    assert_eq!(parser.diagnostics[0].spans, vec![Span { start: 31, end: 32 }]);
}

#[test]
fn first_invalid_type_in_the_order_of_the_fields() {
    let objects = vec![
        parse_object_text("object A { fields { a: i32, b: Vec<u8> } }").unwrap(),
        parse_object_text("object B { fields { a: i32, b: -, c: * } }").unwrap(),
    ];
    assert_eq!(
        Parser::find_invalid_type(&objects),
        Some(Span { start: 31, end: 32 })
    );
    let valid = vec![parse_object_text("object A { fields { a: i32, b: Vec<u8> } }").unwrap()];
    assert_eq!(Parser::find_invalid_type(&valid), None);
    assert_eq!(Parser::find_invalid_type(&vec![]), None);
}

#[test]
fn checked_hands_back_or_reports() {
    let objects = vec![parse_object_text("object A {}").unwrap()];
    let checked = Parser::checked(objects, None).unwrap();
    assert_eq!(checked.len(), 1);
    let diagnostic = Parser::checked(checked, Some(Span { start: 2, end: 5 }))
        .err()
        .unwrap();
    assert_eq!(diagnostic.level, Level::Error);
    assert_eq!(diagnostic.message, "expected a type");
    assert_eq!(diagnostic.spans, vec![Span { start: 2, end: 5 }]);
    assert!(diagnostic.children.is_empty());
    assert_eq!(type_error(Span { start: 1, end: 2 }).message, "expected a type");
}

#[test]
fn checked_type_follows_the_answer() {
    let ty = read_type("Vec ( u8").unwrap();
    assert_eq!(ty.text, "Vec ( u8");
    assert_eq!(ty.span, Span { start: 0, end: 8 });
    let ty = checked_type(ty, true).unwrap();
    let diagnostic = checked_type(ty, false).err().unwrap();
    assert_eq!(diagnostic.message, "expected a type");
    assert_eq!(diagnostic.spans, vec![Span { start: 0, end: 8 }]);
    assert!(parse_type("Vec ( u8").is_err());
    assert_eq!(read_type(" ").err().unwrap().message, "expected a type");
}
