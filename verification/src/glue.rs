//! Generation of the Rust side of the bindings: for each object its
//! struct and the two bridge functions that the C++ side calls, then the
//! function that registers the types.

use crate::gen::{join, joined};
use crate::model::{field_views, object_views, Field, FieldView, Object, ObjectView};
use crate::text::string_views;
use crate::types::Type;
use vstd::prelude::*;

verus! {

/// The spelling of a type.
pub open spec fn spelling_spec(ty: Type) -> Seq<char> {
    match ty {
        Type::I32 => "i32"@,
        Type::U32 => "u32"@,
        Type::I64 => "i64"@,
        Type::U64 => "u64"@,
        Type::F32 => "f32"@,
        Type::F64 => "f64"@,
        Type::String => "String"@,
        Type::ByteArray => "Vec<u8>"@,
        Type::QObject => "QObject"@,
    }
}

/// The spelling of a type.
pub fn spelling(ty: &Type) -> (result: &'static str)
    ensures
        result@ == spelling_spec(*ty),
{
    match ty {
        Type::I32 => "i32",
        Type::U32 => "u32",
        Type::I64 => "i64",
        Type::U64 => "u64",
        Type::F32 => "f32",
        Type::F64 => "f64",
        Type::String => "String",
        Type::ByteArray => "Vec<u8>",
        Type::QObject => "QObject",
    }
}

/// The declaration of a field in the struct of its object.
pub open spec fn field_spec(field: FieldView) -> Seq<char> {
    "    "@ + field.name + ": "@ + spelling_spec(field.ty)
}

/// The declarations of the fields of an object.
pub open spec fn field_parts(fields: Seq<FieldView>) -> Seq<Seq<char>> {
    fields.map_values(|field: FieldView| field_spec(field))
}

/// The struct of an object: its fields in their order, one on a line.
pub open spec fn struct_spec(object: ObjectView) -> Seq<char> {
    "pub struct "@ + object.name + " {\n"@ + joined(
        field_parts(object.fields),
        ",\n"@,
        object.fields.len() as int,
    ) + "\n}"@
}

/// The bridge functions of an object with the owner field `owner`: `new`
/// hands the owner to the object, and `reset` clears the owner handle, so
/// that nothing reaches the native object after it.
pub open spec fn owner_bindings_spec(name: Seq<char>, owner: Seq<char>) -> Seq<char> {
    "#[no_mangle]\npub extern \"C\" fn qt_binding_new_"@ + name
        + "(qptr: *mut ::std::os::raw::c_void) -> *mut "@ + name
        + " {\n    let qobject = QObject::new(qptr);\n    let ptr = Box::new("@ + name
        + "::new(qobject));\n    Box::into_raw(ptr)\n}\n\n#[no_mangle]\npub extern \"C\" fn qt_binding_reset_"@
        + name + "(ptr: *mut "@ + name
        + ") {\n    unsafe {\n        if let Some(instance) = ptr.as_mut() {\n            instance."@
        + owner + ".reset()\n        }\n    }\n}"@
}

/// The bridge functions of an object without owner field: `new` makes the
/// object, and `reset` does nothing.
pub open spec fn plain_bindings_spec(name: Seq<char>) -> Seq<char> {
    "#[no_mangle]\npub extern \"C\" fn qt_binding_new_"@ + name
        + "(_: *mut ::std::os::raw::c_void) -> *mut "@ + name + " {\n    let ptr = Box::new("@
        + name
        + "::new());\n    Box::into_raw(ptr)\n}\n\n#[no_mangle]\npub extern \"C\" fn qt_binding_reset_"@
        + name + "(_: *mut "@ + name + ") {}"@
}

/// The bridge functions of an object.
pub open spec fn bindings_spec(object: ObjectView) -> Seq<char> {
    match object.qobject_field_name {
        Some(owner) => owner_bindings_spec(object.name, owner),
        None => plain_bindings_spec(object.name),
    }
}

/// The text for one object: its struct, then its bridge functions.
pub open spec fn object_spec(object: ObjectView) -> Seq<char> {
    struct_spec(object) + "\n\n"@ + bindings_spec(object)
}

/// The text for each object.
pub open spec fn object_parts(objects: Seq<ObjectView>) -> Seq<Seq<char>> {
    objects.map_values(|object: ObjectView| object_spec(object))
}

/// The text for the objects, in their order, then the function that
/// registers their types.
pub open spec fn module_spec(objects: Seq<ObjectView>) -> Seq<char> {
    joined(object_parts(objects), "\n\n"@, objects.len() as int)
        + "\n\npub fn register_meta_types() {\n    unsafe { qt_auto_binding_register_meta_types(); }\n}\n\nextern \"C\" {\n    fn qt_auto_binding_register_meta_types();\n}\n"@
}

/// The declaration of a field in the struct of its object.
pub fn gen_field(field: &Field) -> (result: String)
    ensures
        result@ == field_spec(field@),
{
    let mut text = String::from_str("    ");
    text.append(field.name());
    text.append(": ");
    text.append(spelling(field.ty()));
    text
}

/// The struct of an object.
pub fn gen_struct(object: &Object) -> (result: String)
    ensures
        result@ == struct_spec(object@),
{
    let fields = object.fields();
    let mut parts: Vec<String> = Vec::new();
    let mut i: usize = 0;
    while i < fields.len()
        invariant
            i <= fields.len(),
            parts@.len() == i,
            forall|k: int| 0 <= k < i ==> (#[trigger] parts@[k])@ == field_spec(fields@[k]@),
        decreases fields.len() - i,
    {
        parts.push(gen_field(&fields[i]));
        i += 1;
    }
    proof {
        assert(string_views(parts@) =~= field_parts(field_views(fields@)));
    }
    let mut text = String::from_str("pub struct ");
    text.append(object.name());
    text.append(" {\n");
    text.append(join(&parts, ",\n").as_str());
    text.append("\n}");
    text
}

/// The bridge functions of an object: with an owner field, `reset` clears
/// the owner handle; without one it does nothing.
pub fn gen_bindings(object: &Object) -> (result: String)
    ensures
        result@ == bindings_spec(object@),
{
    let name = object.name();
    let mut text = String::from_str("#[no_mangle]\npub extern \"C\" fn qt_binding_new_");
    text.append(name);
    match object.qobject_field_name() {
        Some(owner) => {
            text.append("(qptr: *mut ::std::os::raw::c_void) -> *mut ");
            text.append(name);
            text.append(" {\n    let qobject = QObject::new(qptr);\n    let ptr = Box::new(");
            text.append(name);
            text.append(
                "::new(qobject));\n    Box::into_raw(ptr)\n}\n\n#[no_mangle]\npub extern \"C\" fn qt_binding_reset_",
            );
            text.append(name);
            text.append("(ptr: *mut ");
            text.append(name);
            text.append(
                ") {\n    unsafe {\n        if let Some(instance) = ptr.as_mut() {\n            instance.",
            );
            text.append(owner);
            text.append(".reset()\n        }\n    }\n}");
        },
        None => {
            text.append("(_: *mut ::std::os::raw::c_void) -> *mut ");
            text.append(name);
            text.append(" {\n    let ptr = Box::new(");
            text.append(name);
            text.append(
                "::new());\n    Box::into_raw(ptr)\n}\n\n#[no_mangle]\npub extern \"C\" fn qt_binding_reset_",
            );
            text.append(name);
            text.append("(_: *mut ");
            text.append(name);
            text.append(") {}");
        },
    }
    text
}

/// The text for one object: its struct, then its bridge functions.
pub fn gen_object(object: &Object) -> (result: String)
    ensures
        result@ == object_spec(object@),
{
    let mut text = gen_struct(object);
    text.append("\n\n");
    text.append(gen_bindings(object).as_str());
    text
}

/// Generates the Rust text for the objects, in their order.
pub fn module(objects: &Vec<Object>) -> (result: String)
    ensures
        result@ == module_spec(object_views(objects@)),
{
    let mut parts: Vec<String> = Vec::new();
    let mut i: usize = 0;
    while i < objects.len()
        invariant
            i <= objects.len(),
            parts@.len() == i,
            forall|k: int| 0 <= k < i ==> (#[trigger] parts@[k])@ == object_spec(objects@[k]@),
        decreases objects.len() - i,
    {
        parts.push(gen_object(&objects[i]));
        i += 1;
    }
    proof {
        assert(string_views(parts@) =~= object_parts(object_views(objects@)));
    }
    let mut text = join(&parts, "\n\n");
    text.append(
        "\n\npub fn register_meta_types() {\n    unsafe { qt_auto_binding_register_meta_types(); }\n}\n\nextern \"C\" {\n    fn qt_auto_binding_register_meta_types();\n}\n",
    );
    text
}

} // verus!
