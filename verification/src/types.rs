//! The supported field types and their resolution from type expressions.

use crate::diagnostic::{Diagnostic, Level, Span};
use crate::syntax::{is_type_syntax, type_syntax};
use crate::text::{str_eq, string_views};
use vstd::prelude::*;

verus! {

/// Types supported for the fields of an object
#[derive(Clone, Copy, Debug, PartialEq, Eq, Structural)]
pub enum Type {
    /// A 32 bits signed int, `i32`
    I32,
    /// A 32 bits unsigned int, `u32`
    U32,
    /// A 64 bits signed int, `i64`
    I64,
    /// A 64 bits unsigned int, `u64`
    U64,
    /// A 32 bits floating point, `f32`
    F32,
    /// A 64 bits floating point, `f64`
    F64,
    /// A string, `String`
    String,
    /// A byte array, `Vec<u8>`
    ByteArray,
    /// The handle to the enclosing native object, `QObject`
    QObject,
}

/// A type expression as it is written: its text, its tokens in order,
/// and its place. Each piece is one identifier, one literal or one
/// character of punctuation, so `Vec<u8>` has the four pieces `Vec`, `<`,
/// `u8`, `>`.
#[derive(Debug)]
pub struct TypeExpr {
    /// Place in the text
    pub span: Span,
    /// The expression as written, from its first to its last token
    pub text: String,
    /// Tokens of the expression
    pub pieces: Vec<String>,
}

impl TypeExpr {
    /// The pieces as plain values.
    pub open spec fn pieces_view(&self) -> Seq<Seq<char>> {
        string_views(self.pieces@)
    }

    /// Whether the expression is a type of Rust.
    pub fn is_valid(&self) -> (result: bool)
        ensures
            result == type_syntax(self.text@),
    {
        is_type_syntax(self.text.as_str())
    }

    /// A copy of the expression.
    pub fn duplicate(&self) -> (result: TypeExpr)
        ensures
            result.span == self.span,
            result.text@ == self.text@,
            result.pieces_view() == self.pieces_view(),
    {
        let mut pieces: Vec<String> = Vec::new();
        let mut i: usize = 0;
        while i < self.pieces.len()
            invariant
                i <= self.pieces.len(),
                pieces@.len() == i,
                forall|k: int| 0 <= k < i ==> (#[trigger] pieces@[k])@ == self.pieces@[k]@,
            decreases self.pieces.len() - i,
        {
            pieces.push(String::from_str(self.pieces[i].as_str()));
            i += 1;
        }
        proof {
            assert(string_views(pieces@) =~= string_views(self.pieces@));
        }
        TypeExpr { span: self.span, text: String::from_str(self.text.as_str()), pieces }
    }
}

/// Whether the expression is the one name `name`: a path of one segment,
/// without qualification and without arguments.
pub open spec fn is_name(pieces: Seq<Seq<char>>, name: Seq<char>) -> bool {
    pieces.len() == 1 && pieces[0] == name
}

/// Whether the expression is the owner marker, `QObject`.
pub open spec fn is_owner_marker(pieces: Seq<Seq<char>>) -> bool {
    is_name(pieces, "QObject"@)
}

/// Whether the expression is `Vec<u8>`: the one segment `Vec` with the one
/// argument `u8`, after which a comma may stand.
pub open spec fn is_byte_vector(pieces: Seq<Seq<char>>) -> bool {
    &&& pieces.len() == 4 || (pieces.len() == 5 && pieces[3] == ","@)
    &&& pieces[0] == "Vec"@
    &&& pieces[1] == "<"@
    &&& pieces[2] == "u8"@
    &&& pieces[pieces.len() - 1] == ">"@
}

/// The type that an expression stands for, if it is a supported one.
pub open spec fn resolve(pieces: Seq<Seq<char>>) -> Option<Type> {
    if is_name(pieces, "i32"@) {
        Some(Type::I32)
    } else if is_name(pieces, "u32"@) {
        Some(Type::U32)
    } else if is_name(pieces, "i64"@) {
        Some(Type::I64)
    } else if is_name(pieces, "u64"@) {
        Some(Type::U64)
    } else if is_name(pieces, "f32"@) {
        Some(Type::F32)
    } else if is_name(pieces, "f64"@) {
        Some(Type::F64)
    } else if is_name(pieces, "String"@) {
        Some(Type::String)
    } else if is_owner_marker(pieces) {
        Some(Type::QObject)
    } else if is_byte_vector(pieces) {
        Some(Type::ByteArray)
    } else {
        None
    }
}

/// The message of the diagnostic for an unsupported type.
pub open spec fn unsupported_message() -> Seq<char> {
    "This type is not supported by qt_binding"@
}

/// The help that goes with the diagnostic for an unsupported type.
pub open spec fn supported_help() -> Seq<char> {
    "Supported types are `i32`, `u32`, `i64`, `u64`, `f32`, `f64`, `String`, `Vec<u8>` and `QObject`."@
}

/// Whether `diagnostic` reports the expression at `span` as unsupported:
/// an error at the span, with the supported spellings as help.
pub open spec fn is_unsupported(diagnostic: Diagnostic, span: Span) -> bool {
    diagnostic.is_with_child(
        Level::Error,
        unsupported_message(),
        span,
        Level::Help,
        supported_help(),
        Seq::empty(),
    )
}

/// The diagnostic for an unsupported type at `span`.
pub fn create_unsupported(span: Span) -> (result: Diagnostic)
    ensures
        is_unsupported(result, span),
{
    let help = Diagnostic::new(Level::Help).with_message(
        "Supported types are `i32`, `u32`, `i64`, `u64`, `f32`, `f64`, `String`, `Vec<u8>` and `QObject`.",
    );
    Diagnostic::new(Level::Error).with_message("This type is not supported by qt_binding").with_span(
        span,
    ).add_child(help)
}

fn piece_is(ty: &TypeExpr, index: usize, text: &str) -> (result: bool)
    requires
        index < ty.pieces.len(),
    ensures
        result == (ty.pieces_view()[index as int] == text@),
{
    str_eq(ty.pieces[index].as_str(), text)
}

fn name_is(ty: &TypeExpr, name: &str) -> (result: bool)
    ensures
        result == is_name(ty.pieces_view(), name@),
{
    ty.pieces.len() == 1 && piece_is(ty, 0, name)
}

fn byte_vector(ty: &TypeExpr) -> (result: bool)
    ensures
        result == is_byte_vector(ty.pieces_view()),
{
    let n = ty.pieces.len();
    (n == 4 || (n == 5 && piece_is(ty, 3, ","))) && piece_is(ty, 0, "Vec") && piece_is(ty, 1, "<")
        && piece_is(ty, 2, "u8") && piece_is(ty, n - 1, ">")
}

/// Resolves a type expression into a [`Type`]
///
/// The supported spellings are `i32`, `u32`, `i64`, `u64`, `f32`, `f64`,
/// `String`, `Vec<u8>` and the owner marker `QObject`, each written as
/// one path segment without qualification. For anything else: one error
/// at the expression, with the supported spellings as help.
pub fn from_type(ty: &TypeExpr) -> (result: Result<Type, Diagnostic>)
    ensures
        match result {
            Ok(resolved) => resolve(ty.pieces_view()) == Some(resolved),
            Err(diagnostic) => resolve(ty.pieces_view()) is None && is_unsupported(
                diagnostic,
                ty.span,
            ),
        },
{
    if name_is(ty, "i32") {
        Ok(Type::I32)
    } else if name_is(ty, "u32") {
        Ok(Type::U32)
    } else if name_is(ty, "i64") {
        Ok(Type::I64)
    } else if name_is(ty, "u64") {
        Ok(Type::U64)
    } else if name_is(ty, "f32") {
        Ok(Type::F32)
    } else if name_is(ty, "f64") {
        Ok(Type::F64)
    } else if name_is(ty, "String") {
        Ok(Type::String)
    } else if name_is(ty, "QObject") {
        Ok(Type::QObject)
    } else if byte_vector(ty) {
        Ok(Type::ByteArray)
    } else {
        Err(create_unsupported(ty.span))
    }
}

/// Checks whether a type expression is the owner marker `QObject`: one
/// path segment of that exact name, without qualification or arguments.
pub fn is_qobject(ty: &TypeExpr) -> (result: bool)
    ensures
        result == is_owner_marker(ty.pieces_view()),
{
    name_is(ty, "QObject")
}

/// The owner marker and the resolver agree: an expression is the owner
/// marker exactly where it resolves to the owner handle.
pub proof fn lemma_owner_marker_agrees(pieces: Seq<Seq<char>>)
    ensures
        is_owner_marker(pieces) <==> resolve(pieces) == Some(Type::QObject),
{
    reveal_strlit("i32");
    reveal_strlit("u32");
    reveal_strlit("i64");
    reveal_strlit("u64");
    reveal_strlit("f32");
    reveal_strlit("f64");
    reveal_strlit("String");
    reveal_strlit("QObject");
    reveal_strlit("Vec");
    if is_owner_marker(pieces) {
        assert("QObject"@.len() == 7);
        assert(pieces[0].len() == 7);
    }
}

/// Each supported spelling resolves to its type, and every other single
/// name resolves to nothing.
pub proof fn lemma_resolve_names(name: Seq<char>)
    ensures
        name == "i32"@ ==> resolve(seq![name]) == Some(Type::I32),
        name == "u32"@ ==> resolve(seq![name]) == Some(Type::U32),
        name == "i64"@ ==> resolve(seq![name]) == Some(Type::I64),
        name == "u64"@ ==> resolve(seq![name]) == Some(Type::U64),
        name == "f32"@ ==> resolve(seq![name]) == Some(Type::F32),
        name == "f64"@ ==> resolve(seq![name]) == Some(Type::F64),
        name == "String"@ ==> resolve(seq![name]) == Some(Type::String),
        name == "QObject"@ ==> resolve(seq![name]) == Some(Type::QObject),
        resolve(seq!["Vec"@, "<"@, "u8"@, ">"@]) == Some(Type::ByteArray),
        name != "i32"@ && name != "u32"@ && name != "i64"@ && name != "u64"@ && name != "f32"@
            && name != "f64"@ && name != "String"@ && name != "QObject"@ ==> resolve(seq![name])
            is None,
{
    reveal_strlit("i32");
    reveal_strlit("u32");
    reveal_strlit("i64");
    reveal_strlit("u64");
    reveal_strlit("f32");
    reveal_strlit("f64");
    reveal_strlit("String");
    reveal_strlit("QObject");
    reveal_strlit("Vec");
    reveal_strlit("<");
    reveal_strlit("u8");
    reveal_strlit(">");
    let pieces = seq![name];
    assert(pieces.len() == 1 && pieces[0] == name);
    let vector = seq!["Vec"@, "<"@, "u8"@, ">"@];
    assert(vector.len() == 4 && vector[0] == "Vec"@ && vector[1] == "<"@ && vector[2] == "u8"@
        && vector[3] == ">"@);
    assert("Vec"@.len() == 3);
    assert("i32"@[0] == 'i' && "u32"@[0] == 'u' && "i64"@[0] == 'i' && "u64"@[0] == 'u'
        && "f32"@[0] == 'f' && "f64"@[0] == 'f' && "String"@[0] == 'S' && "QObject"@[0] == 'Q'
        && "Vec"@[0] == 'V');
    assert("i32"@[1] == '3' && "u32"@[1] == '3' && "i64"@[1] == '6' && "u64"@[1] == '6'
        && "f32"@[1] == '3' && "f64"@[1] == '6');
}

} // verus!
