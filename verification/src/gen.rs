//! Generation of the C++ side of the bindings: the declarations of the
//! bridge functions, the bodies of the wrapper classes, and the routine
//! that registers their types.
//!
//! The text follows the order of the objects, and nothing else decides
//! it: the same objects give the same text.

use crate::model::{object_views, Object, ObjectView};
use crate::text::string_views;
use vstd::prelude::*;

verus! {

/// The parts up to the `n`-th, with `sep` between them.
pub open spec fn joined(parts: Seq<Seq<char>>, sep: Seq<char>, n: int) -> Seq<char>
    decreases n,
{
    if n <= 0 {
        Seq::empty()
    } else if n == 1 {
        parts[0]
    } else {
        joined(parts, sep, n - 1) + sep + parts[n - 1]
    }
}

/// Joins the parts, with `sep` between them.
pub fn join(parts: &Vec<String>, sep: &str) -> (result: String)
    ensures
        result@ == joined(string_views(parts@), sep@, parts@.len() as int),
{
    let mut result = String::new();
    let mut i: usize = 0;
    while i < parts.len()
        invariant
            i <= parts.len(),
            result@ == joined(string_views(parts@), sep@, i as int),
        decreases parts.len() - i,
    {
        proof {
            assert(string_views(parts@)[i as int] == parts@[i as int]@);
        }
        if i > 0 {
            result.append(sep);
        } else {
            proof {
                assert(Seq::<char>::empty() + parts@[0]@ =~= parts@[0]@);
            }
        }
        result.append(parts[i].as_str());
        i += 1;
    }
    result
}

/// The declarations of the two bridge functions of an object.
pub open spec fn hooks_spec(name: Seq<char>) -> Seq<char> {
    "void *qt_binding_new_"@ + name + "(void *qptr);\nvoid qt_binding_reset_"@ + name
        + "(void *data);"@
}

/// The bodies of the constructor and the destructor of the wrapper class
/// of an object.
pub open spec fn implementation_spec(name: Seq<char>) -> Seq<char> {
    name + "::"@ + name + "(QObject *parent)\n    : QObject(parent)\n    , m_data(qt_binding_new_"@
        + name + "(this))\n{\n};\n\n"@ + name + "::~"@ + name + "()\n{\n    qt_binding_reset_"@
        + name + "(m_data);\n}"@
}

/// The line that registers the type of an object.
pub open spec fn register_spec(name: Seq<char>) -> Seq<char> {
    "    qRegisterMetaType<qt_auto_binding::"@ + name + " *>();"@
}

/// The declarations of the bridge functions of each object.
pub open spec fn hooks_parts(objects: Seq<ObjectView>) -> Seq<Seq<char>> {
    objects.map_values(|object: ObjectView| hooks_spec(object.name))
}

/// The class bodies of each object.
pub open spec fn implementation_parts(objects: Seq<ObjectView>) -> Seq<Seq<char>> {
    objects.map_values(|object: ObjectView| implementation_spec(object.name))
}

/// The registration line of each object.
pub open spec fn register_parts(objects: Seq<ObjectView>) -> Seq<Seq<char>> {
    objects.map_values(|object: ObjectView| register_spec(object.name))
}

/// The source text for the objects: the bridge declarations, one line
/// break between objects; the class bodies in the namespace, one empty
/// line between objects; and the registration routine, one line for each
/// object.
pub open spec fn source_spec(objects: Seq<ObjectView>) -> Seq<char> {
    "#include \"bindings.h\"\n\nextern \"C\" {\n"@ + joined(
        hooks_parts(objects),
        "\n"@,
        objects.len() as int,
    ) + "\n}\n\nnamespace qt_auto_binding {\n\n"@ + joined(
        implementation_parts(objects),
        "\n\n"@,
        objects.len() as int,
    )
        + "\n\n} // namespace qt_auto_binding\n\nextern \"C\" {\n\nvoid qt_auto_binding_register_meta_types()\n{\n"@
        + joined(register_parts(objects), "\n"@, objects.len() as int) + "\n}\n\n} // extern \"C\"\n"@
}

/// The declaration of the wrapper class of an object.
pub open spec fn class_spec(name: Seq<char>) -> Seq<char> {
    "class "@ + name + " : public QObject\n{\n    Q_OBJECT\npublic:\n    explicit "@ + name
        + "(QObject *parent = nullptr);\n    ~"@ + name + "();\n\nprivate:\n    void *m_data;\n};"@
}

/// The class declaration of each object.
pub open spec fn class_parts(objects: Seq<ObjectView>) -> Seq<Seq<char>> {
    objects.map_values(|object: ObjectView| class_spec(object.name))
}

/// The header text for the objects: the class declarations in the
/// namespace, one empty line between objects.
pub open spec fn header_spec(objects: Seq<ObjectView>) -> Seq<char> {
    "#pragma once\n\n#include <QObject>\n\nnamespace qt_auto_binding {\n\n"@ + joined(
        class_parts(objects),
        "\n\n"@,
        objects.len() as int,
    ) + "\n\n} // namespace qt_auto_binding\n"@
}

/// The declarations of the bridge functions of an object:
/// `qt_binding_new_<Name>` takes the owner and hands back the data,
/// `qt_binding_reset_<Name>` takes the data.
pub fn gen_hooks(object: &Object) -> (result: String)
    ensures
        result@ == hooks_spec(object@.name),
{
    let name = object.name();
    let mut text = String::from_str("void *qt_binding_new_");
    text.append(name);
    text.append("(void *qptr);\nvoid qt_binding_reset_");
    text.append(name);
    text.append("(void *data);");
    text
}

/// The constructor of the wrapper class, which calls the `new` bridge
/// with itself as the owner and keeps the data, and its destructor, which
/// hands the data to the `reset` bridge.
pub fn gen_implementation(object: &Object) -> (result: String)
    ensures
        result@ == implementation_spec(object@.name),
{
    let name = object.name();
    let mut text = String::from_str(name);
    text.append("::");
    text.append(name);
    text.append("(QObject *parent)\n    : QObject(parent)\n    , m_data(qt_binding_new_");
    text.append(name);
    text.append("(this))\n{\n};\n\n");
    text.append(name);
    text.append("::~");
    text.append(name);
    text.append("()\n{\n    qt_binding_reset_");
    text.append(name);
    text.append("(m_data);\n}");
    text
}

/// The line of the registration routine for an object.
pub fn gen_register(object: &Object) -> (result: String)
    ensures
        result@ == register_spec(object@.name),
{
    let mut text = String::from_str("    qRegisterMetaType<qt_auto_binding::");
    text.append(object.name());
    text.append(" *>();");
    text
}

/// The declaration of the wrapper class of an object.
pub fn gen_class(object: &Object) -> (result: String)
    ensures
        result@ == class_spec(object@.name),
{
    let name = object.name();
    let mut text = String::from_str("class ");
    text.append(name);
    text.append(" : public QObject\n{\n    Q_OBJECT\npublic:\n    explicit ");
    text.append(name);
    text.append("(QObject *parent = nullptr);\n    ~");
    text.append(name);
    text.append("();\n\nprivate:\n    void *m_data;\n};");
    text
}

/// Which text of an object a part holds.
#[derive(Clone, Copy, Debug, PartialEq, Eq, Structural)]
pub enum Part {
    /// Bridge declarations
    Hooks,
    /// Class bodies
    Implementation,
    /// Registration line
    Register,
    /// Class declaration
    Class,
}

/// The text of `part` for an object of the given name.
pub open spec fn part_spec(part: Part, name: Seq<char>) -> Seq<char> {
    match part {
        Part::Hooks => hooks_spec(name),
        Part::Implementation => implementation_spec(name),
        Part::Register => register_spec(name),
        Part::Class => class_spec(name),
    }
}

/// The text of `part` for each object.
pub open spec fn parts_spec(part: Part, objects: Seq<ObjectView>) -> Seq<Seq<char>> {
    objects.map_values(|object: ObjectView| part_spec(part, object.name))
}

/// The text of `part` for each object, in the order of the objects.
pub fn gen_parts(part: Part, objects: &Vec<Object>) -> (result: Vec<String>)
    ensures
        string_views(result@) == parts_spec(part, object_views(objects@)),
{
    let mut result: Vec<String> = Vec::new();
    let mut i: usize = 0;
    while i < objects.len()
        invariant
            i <= objects.len(),
            result@.len() == i,
            forall|k: int|
                0 <= k < i ==> (#[trigger] result@[k])@ == part_spec(part, objects@[k]@.name),
        decreases objects.len() - i,
    {
        let text = match part {
            Part::Hooks => gen_hooks(&objects[i]),
            Part::Implementation => gen_implementation(&objects[i]),
            Part::Register => gen_register(&objects[i]),
            Part::Class => gen_class(&objects[i]),
        };
        result.push(text);
        i += 1;
    }
    proof {
        assert(string_views(result@) =~= parts_spec(part, object_views(objects@)));
    }
    result
}

/// Generates the source text for the objects, in their order.
pub fn source(objects: &Vec<Object>) -> (result: String)
    ensures
        result@ == source_spec(object_views(objects@)),
{
    let hooks = join(&gen_parts(Part::Hooks, objects), "\n");
    let implementations = join(&gen_parts(Part::Implementation, objects), "\n\n");
    let register = join(&gen_parts(Part::Register, objects), "\n");
    proof {
        let views = object_views(objects@);
        assert(parts_spec(Part::Hooks, views) =~= hooks_parts(views));
        assert(parts_spec(Part::Implementation, views) =~= implementation_parts(views));
        assert(parts_spec(Part::Register, views) =~= register_parts(views));
    }
    let mut text = String::from_str("#include \"bindings.h\"\n\nextern \"C\" {\n");
    text.append(hooks.as_str());
    text.append("\n}\n\nnamespace qt_auto_binding {\n\n");
    text.append(implementations.as_str());
    text.append(
        "\n\n} // namespace qt_auto_binding\n\nextern \"C\" {\n\nvoid qt_auto_binding_register_meta_types()\n{\n",
    );
    text.append(register.as_str());
    text.append("\n}\n\n} // extern \"C\"\n");
    text
}

/// Generates the header text for the objects, in their order.
pub fn header(objects: &Vec<Object>) -> (result: String)
    ensures
        result@ == header_spec(object_views(objects@)),
{
    let classes = join(&gen_parts(Part::Class, objects), "\n\n");
    proof {
        let views = object_views(objects@);
        assert(parts_spec(Part::Class, views) =~= class_parts(views));
    }
    let mut text = String::from_str(
        "#pragma once\n\n#include <QObject>\n\nnamespace qt_auto_binding {\n\n",
    );
    text.append(classes.as_str());
    text.append("\n\n} // namespace qt_auto_binding\n");
    text
}

/// Objects that are equal by value give the same texts, character for
/// character.
pub proof fn lemma_same_objects_same_text(first: Seq<Object>, second: Seq<Object>)
    requires
        object_views(first) == object_views(second),
    ensures
        source_spec(object_views(first)) == source_spec(object_views(second)),
        header_spec(object_views(first)) == header_spec(object_views(second)),
{
}

/// With two objects, each list of the text holds the block of the first,
/// the separator and the block of the second: handing the two objects
/// over in the other order swaps the blocks and leaves each block as it
/// is.
pub proof fn lemma_two_blocks(part: Part, first: ObjectView, second: ObjectView, sep: Seq<char>)
    ensures
        joined(parts_spec(part, seq![first, second]), sep, 2) == part_spec(part, first.name) + sep
            + part_spec(part, second.name),
        joined(parts_spec(part, seq![second, first]), sep, 2) == part_spec(part, second.name) + sep
            + part_spec(part, first.name),
{
    let forward = parts_spec(part, seq![first, second]);
    let backward = parts_spec(part, seq![second, first]);
    assert(forward[0] == part_spec(part, first.name));
    assert(forward[1] == part_spec(part, second.name));
    assert(backward[0] == part_spec(part, second.name));
    assert(backward[1] == part_spec(part, first.name));
    assert(joined(forward, sep, 1) == forward[0]);
    assert(joined(backward, sep, 1) == backward[0]);
}

} // verus!
