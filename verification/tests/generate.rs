use qt_auto_binding::gen::{
    gen_class, gen_hooks, gen_implementation, gen_parts, gen_register, header, join, source, Part,
};
use qt_auto_binding::glue::{gen_bindings, gen_field, gen_object, gen_struct, module, spelling};
use qt_auto_binding::model::{Field, Object};
use qt_auto_binding::types::Type;

fn plain(name: &str) -> Object {
    Object::new(name.to_string(), vec![], None)
}

fn person() -> Object {
    Object::new(
        "Person".to_string(),
        vec![
            Field::new("qobject".to_string(), Type::QObject),
            Field::new("age".to_string(), Type::U32),
        ],
        Some("qobject".to_string()),
    )
}

const SOURCE_AB: &str = r#"#include "bindings.h"

extern "C" {
void *qt_binding_new_A(void *qptr);
void qt_binding_reset_A(void *data);
void *qt_binding_new_B(void *qptr);
void qt_binding_reset_B(void *data);
}

namespace qt_auto_binding {

A::A(QObject *parent)
    : QObject(parent)
    , m_data(qt_binding_new_A(this))
{
};

A::~A()
{
    qt_binding_reset_A(m_data);
}

B::B(QObject *parent)
    : QObject(parent)
    , m_data(qt_binding_new_B(this))
{
};

B::~B()
{
    qt_binding_reset_B(m_data);
}

} // namespace qt_auto_binding

extern "C" {

void qt_auto_binding_register_meta_types()
{
    qRegisterMetaType<qt_auto_binding::A *>();
    qRegisterMetaType<qt_auto_binding::B *>();
}

} // extern "C"
"#;

#[test]
fn source_for_two_objects() {
    assert_eq!(source(&vec![plain("A"), plain("B")]), SOURCE_AB);
}

#[test]
fn source_is_the_same_for_the_same_objects() {
    let objects = vec![plain("A"), person()];
    let again = vec![plain("A"), person()];
    assert_eq!(source(&objects), source(&again));
    assert_eq!(header(&objects), header(&again));
    assert_eq!(module(&objects), module(&again));
}

#[test]
fn reordering_swaps_the_blocks() {
    let forward = source(&vec![plain("A"), plain("B")]);
    let backward = source(&vec![plain("B"), plain("A")]);
    assert_ne!(forward, backward);
    let hooks_a = gen_hooks(&plain("A"));
    let hooks_b = gen_hooks(&plain("B"));
    assert!(forward.contains(&format!("{}\n{}", hooks_a, hooks_b)));
    assert!(backward.contains(&format!("{}\n{}", hooks_b, hooks_a)));
    let body_a = gen_implementation(&plain("A"));
    let body_b = gen_implementation(&plain("B"));
    assert!(forward.contains(&format!("{}\n\n{}", body_a, body_b)));
    assert!(backward.contains(&format!("{}\n\n{}", body_b, body_a)));
    let register_a = gen_register(&plain("A"));
    let register_b = gen_register(&plain("B"));
    assert!(forward.contains(&format!("{}\n{}", register_a, register_b)));
    assert!(backward.contains(&format!("{}\n{}", register_b, register_a)));
}

#[test]
fn source_without_objects() {
    assert_eq!(
        source(&vec![]),
        "#include \"bindings.h\"\n\nextern \"C\" {\n\n}\n\nnamespace qt_auto_binding {\n\n\n\n} // namespace qt_auto_binding\n\nextern \"C\" {\n\nvoid qt_auto_binding_register_meta_types()\n{\n\n}\n\n} // extern \"C\"\n"
    );
}

#[test]
fn parts_of_one_object() {
    assert_eq!(
        gen_hooks(&person()),
        "void *qt_binding_new_Person(void *qptr);\nvoid qt_binding_reset_Person(void *data);"
    );
    assert_eq!(
        gen_register(&person()),
        "    qRegisterMetaType<qt_auto_binding::Person *>();"
    );
    assert_eq!(
        gen_class(&person()),
        "class Person : public QObject\n{\n    Q_OBJECT\npublic:\n    explicit Person(QObject *parent = nullptr);\n    ~Person();\n\nprivate:\n    void *m_data;\n};"
    );
    assert_eq!(
        gen_parts(Part::Register, &vec![plain("A"), plain("B")]),
        vec![
            "    qRegisterMetaType<qt_auto_binding::A *>();".to_string(),
            "    qRegisterMetaType<qt_auto_binding::B *>();".to_string()
        ]
    );
    assert_eq!(
        gen_parts(Part::Hooks, &vec![plain("A")]),
        vec![gen_hooks(&plain("A"))]
    );
    assert_eq!(
        gen_parts(Part::Implementation, &vec![plain("A")]),
        vec![gen_implementation(&plain("A"))]
    );
    assert_eq!(
        gen_parts(Part::Class, &vec![plain("A")]),
        vec![gen_class(&plain("A"))]
    );
}

#[test]
fn header_for_one_object() {
    assert_eq!(
        header(&vec![plain("A")]),
        "#pragma once\n\n#include <QObject>\n\nnamespace qt_auto_binding {\n\nclass A : public QObject\n{\n    Q_OBJECT\npublic:\n    explicit A(QObject *parent = nullptr);\n    ~A();\n\nprivate:\n    void *m_data;\n};\n\n} // namespace qt_auto_binding\n"
    );
}

#[test]
fn join_puts_the_separator_between_parts() {
    assert_eq!(join(&vec![], ", "), "");
    assert_eq!(join(&vec!["a".to_string()], ", "), "a");
    assert_eq!(
        join(&vec!["a".to_string(), "".to_string(), "c".to_string()], ", "),
        "a, , c"
    );
}

#[test]
fn reset_clears_the_owner_handle_where_there_is_one() {
    assert_eq!(
        gen_bindings(&person()),
        r#"#[no_mangle]
pub extern "C" fn qt_binding_new_Person(qptr: *mut ::std::os::raw::c_void) -> *mut Person {
    let qobject = QObject::new(qptr);
    let ptr = Box::new(Person::new(qobject));
    Box::into_raw(ptr)
}

#[no_mangle]
pub extern "C" fn qt_binding_reset_Person(ptr: *mut Person) {
    unsafe {
        if let Some(instance) = ptr.as_mut() {
            instance.qobject.reset()
        }
    }
}"#
    );
    assert_eq!(
        gen_bindings(&plain("A")),
        r#"#[no_mangle]
pub extern "C" fn qt_binding_new_A(_: *mut ::std::os::raw::c_void) -> *mut A {
    let ptr = Box::new(A::new());
    Box::into_raw(ptr)
}

#[no_mangle]
pub extern "C" fn qt_binding_reset_A(_: *mut A) {}"#
    );
}

#[test]
fn struct_lists_the_fields_in_order() {
    assert_eq!(
        gen_struct(&person()),
        "pub struct Person {\n    qobject: QObject,\n    age: u32\n}"
    );
    assert_eq!(gen_struct(&plain("A")), "pub struct A {\n\n}");
    assert_eq!(
        gen_field(&Field::new("data".to_string(), Type::ByteArray)),
        "    data: Vec<u8>"
    );
    assert_eq!(
        gen_object(&plain("A")),
        format!("{}\n\n{}", gen_struct(&plain("A")), gen_bindings(&plain("A")))
    );
}

#[test]
fn module_ends_with_the_registration() {
    let text = module(&vec![plain("A"), person()]);
    assert_eq!(
        text,
        format!(
            "{}\n\n{}\n\npub fn register_meta_types() {{\n    unsafe {{ qt_auto_binding_register_meta_types(); }}\n}}\n\nextern \"C\" {{\n    fn qt_auto_binding_register_meta_types();\n}}\n",
            gen_object(&plain("A")),
            gen_object(&person())
        )
    );
}

#[test]
fn spelling_of_each_type() {
    let all = [
        (Type::I32, "i32"),
        (Type::U32, "u32"),
        (Type::I64, "i64"),
        (Type::U64, "u64"),
        (Type::F32, "f32"),
        (Type::F64, "f64"),
        (Type::String, "String"),
        (Type::ByteArray, "Vec<u8>"),
        (Type::QObject, "QObject"),
    ];
    for (ty, text) in all.iter() {
        assert_eq!(spelling(ty), *text);
    }
}
