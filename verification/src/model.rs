//! The metadata of objects: what the parser builds and the generator
//! reads.

use crate::types::Type;
use vstd::prelude::*;

verus! {

/// A `Field` as plain values.
pub struct FieldView {
    /// Name
    pub name: Seq<char>,
    /// Type
    pub ty: Type,
}

/// A field
///
/// The metadata of an object's field: its name and its type.
#[derive(Clone, Debug, PartialEq, Eq)]
pub struct Field {
    name: String,
    ty: Type,
}

impl View for Field {
    type V = FieldView;

    closed spec fn view(&self) -> FieldView {
        FieldView { name: self.name@, ty: self.ty }
    }
}

impl Field {
    /// Constructs a new `Field`
    pub fn new(name: String, ty: Type) -> (result: Self)
        ensures
            result@ == (FieldView { name: name@, ty }),
    {
        Field { name, ty }
    }

    /// Field's name
    pub fn name(&self) -> (result: &str)
        ensures
            result@ == self@.name,
    {
        self.name.as_str()
    }

    /// Field's type
    pub fn ty(&self) -> (result: &Type)
        ensures
            *result == self@.ty,
    {
        &self.ty
    }
}

/// The views of a sequence of fields.
pub open spec fn field_views(fields: Seq<Field>) -> Seq<FieldView> {
    fields.map_values(|field: Field| field@)
}

/// An `Object` as plain values.
pub struct ObjectView {
    /// Name
    pub name: Seq<char>,
    /// Fields, in the order in which they were declared
    pub fields: Seq<FieldView>,
    /// Name of the field that holds the owner handle
    pub qobject_field_name: Option<Seq<char>>,
}

impl ObjectView {
    /// No two fields share a name; at most one field is an owner handle,
    /// and the owner field's name is that field's name.
    pub open spec fn well_formed(self) -> bool {
        &&& forall|i: int, j: int|
            0 <= i < j < self.fields.len() ==> self.fields[i].name != self.fields[j].name
        &&& forall|i: int, j: int|
            0 <= i < j < self.fields.len() ==> !(self.fields[i].ty == Type::QObject
                && self.fields[j].ty == Type::QObject)
        &&& match self.qobject_field_name {
            Some(name) => exists|i: int|
                0 <= i < self.fields.len() && self.fields[i].ty == Type::QObject
                    && self.fields[i].name == name,
            None => forall|i: int| 0 <= i < self.fields.len() ==> self.fields[i].ty != Type::QObject,
        }
    }
}

/// An object
///
/// The metadata of one declared object.
#[derive(Clone, Debug, PartialEq, Eq)]
pub struct Object {
    name: String,
    fields: Vec<Field>,
    qobject_field_name: Option<String>,
}

impl View for Object {
    type V = ObjectView;

    closed spec fn view(&self) -> ObjectView {
        ObjectView {
            name: self.name@,
            fields: field_views(self.fields@),
            qobject_field_name: match self.qobject_field_name {
                Some(name) => Some(name@),
                None => None,
            },
        }
    }
}

impl Object {
    /// Constructs a new `Object`
    pub fn new(name: String, fields: Vec<Field>, qobject_field_name: Option<String>) -> (result:
        Self)
        ensures
            result@ == (ObjectView {
                name: name@,
                fields: field_views(fields@),
                qobject_field_name: match qobject_field_name {
                    Some(name) => Some(name@),
                    None => None,
                },
            }),
    {
        Object { name, fields, qobject_field_name }
    }

    /// Object's name
    pub fn name(&self) -> (result: &str)
        ensures
            result@ == self@.name,
    {
        self.name.as_str()
    }

    /// Object's fields
    pub fn fields(&self) -> (result: &Vec<Field>)
        ensures
            field_views(result@) == self@.fields,
    {
        &self.fields
    }

    /// Name of the object's owner-handle field
    pub fn qobject_field_name(&self) -> (result: Option<&str>)
        ensures
            match result {
                Some(name) => self@.qobject_field_name == Some(name@),
                None => self@.qobject_field_name is None,
            },
    {
        match &self.qobject_field_name {
            Some(name) => Some(name.as_str()),
            None => None,
        }
    }
}

/// The views of a sequence of objects.
pub open spec fn object_views(objects: Seq<Object>) -> Seq<ObjectView> {
    objects.map_values(|object: Object| object@)
}

} // verus!
