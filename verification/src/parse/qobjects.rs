//! From a text of object descriptions to the metadata of the objects.
//!
//! The text is split into tokens and parsed by the grammar; then every
//! field of every object goes through the checks and has its type
//! resolved. A field that fails leaves its diagnostics and its object is
//! not built; the other fields and objects are still looked at.

use crate::check::{
    check_fails, check_next, checks_next, checks_report, failures, first_declared, lemma_reports_count,
    result_diagnostics, Check, CheckView, Checker, UniqueFieldCheck, UniqueQObjectFieldCheck,
};
use crate::diagnostic::{Diagnostic, Span};
use crate::model::{field_views, object_views, Field, FieldView, Object, ObjectView};
use crate::parse::grammar::{
    field_matches, fields_facts, fields_match, is_syntax_diagnostic, is_type_error,
    objects_match, objects_of, parse_objects, range_text, type_error,
    syntax_diagnostic, token_text, token_texts, FieldFacts, FieldShape, ObjectShape, PField,
    PObject,
};
use crate::parse::lexer::{is_lex_error, lex, tokenize, Token};
use crate::syntax::type_syntax;
use crate::text::chars_of;
use crate::types::{
    from_type, is_owner_marker, is_qobject, is_unsupported, lemma_owner_marker_agrees, resolve,
    Type,
};
use vstd::prelude::*;

verus! {

/// What the builder reads of an object.
pub struct ObjectFacts {
    /// Name
    pub name: Seq<char>,
    /// Fields, in the order in which they are written
    pub fields: Seq<FieldFacts>,
}

impl PObject {
    /// What the builder reads of the object.
    pub open spec fn facts(&self) -> ObjectFacts {
        ObjectFacts { name: self.name@, fields: fields_facts(self.fields@) }
    }
}

/// The facts of a sequence of objects.
pub open spec fn objects_facts(objects: Seq<PObject>) -> Seq<ObjectFacts> {
    objects.map_values(|object: PObject| object.facts())
}

/// The checks that every object starts with: unique names, then a unique
/// owner handle, neither having seen a field.
pub open spec fn standard_checks() -> Seq<CheckView> {
    seq![CheckView::UniqueField(Seq::empty()), CheckView::UniqueQObjectField(None)]
}

/// What the checks remember after the first `n` fields.
pub open spec fn checks_after(fields: Seq<FieldFacts>, n: int) -> Seq<CheckView>
    decreases n,
{
    if n <= 0 {
        standard_checks()
    } else {
        checks_next(checks_after(fields, n - 1), fields[n - 1])
    }
}

/// The number of diagnostics for one field: one from each check that
/// reports it, and one more where its type is not supported.
pub open spec fn field_diagnostic_count(checks: Seq<CheckView>, field: FieldFacts) -> nat {
    failures(checks, field) + if field.resolved is None {
        1nat
    } else {
        0nat
    }
}

/// Whether `diagnostics` are those for one field: the reports of the
/// checks, then the one for an unsupported type.
pub open spec fn field_reports(
    checks: Seq<CheckView>,
    field: FieldFacts,
    diagnostics: Seq<Diagnostic>,
) -> bool {
    if field.resolved is None {
        &&& diagnostics.len() > 0
        &&& is_unsupported(diagnostics.last(), field.ty_span)
        &&& checks_report(checks, field, diagnostics.drop_last())
    } else {
        checks_report(checks, field, diagnostics)
    }
}

/// The number of diagnostics for the first `n` fields of an object.
pub open spec fn diagnostic_count(fields: Seq<FieldFacts>, n: int) -> nat
    decreases n,
{
    if n <= 0 {
        0
    } else {
        diagnostic_count(fields, n - 1) + field_diagnostic_count(
            checks_after(fields, n - 1),
            fields[n - 1],
        )
    }
}

/// Whether `diagnostics` are those for the first `n` fields of an object,
/// field after field.
pub open spec fn fields_report(fields: Seq<FieldFacts>, n: int, diagnostics: Seq<Diagnostic>) -> bool
    decreases n,
{
    if n <= 0 {
        diagnostics.len() == 0
    } else {
        let count = field_diagnostic_count(checks_after(fields, n - 1), fields[n - 1]);
        &&& count <= diagnostics.len()
        &&& field_reports(
            checks_after(fields, n - 1),
            fields[n - 1],
            diagnostics.subrange(diagnostics.len() - count, diagnostics.len() as int),
        )
        &&& fields_report(fields, n - 1, diagnostics.subrange(0, diagnostics.len() - count))
    }
}

/// The fields that are kept of the first `n`: those without diagnostic,
/// each with its resolved type, in order.
pub open spec fn kept_fields(fields: Seq<FieldFacts>, n: int) -> Seq<FieldView>
    decreases n,
{
    if n <= 0 {
        Seq::empty()
    } else if field_diagnostic_count(checks_after(fields, n - 1), fields[n - 1]) == 0 {
        kept_fields(fields, n - 1).push(
            FieldView { name: fields[n - 1].name, ty: fields[n - 1].resolved->0 },
        )
    } else {
        kept_fields(fields, n - 1)
    }
}

/// The name of the first field at or after `from` whose type is the
/// owner marker.
pub open spec fn first_owner(fields: Seq<FieldFacts>, from: int) -> Option<Seq<char>>
    decreases fields.len() - from,
{
    if from < 0 || from >= fields.len() {
        None
    } else if fields[from].owner {
        Some(fields[from].name)
    } else {
        first_owner(fields, from + 1)
    }
}

/// The object that is built, where no field has a diagnostic.
pub open spec fn built_object(object: ObjectFacts) -> Option<ObjectView> {
    if diagnostic_count(object.fields, object.fields.len() as int) == 0 {
        Some(
            ObjectView {
                name: object.name,
                fields: kept_fields(object.fields, object.fields.len() as int),
                qobject_field_name: first_owner(object.fields, 0),
            },
        )
    } else {
        None
    }
}

/// The objects that are built of the first `n`, in order.
pub open spec fn built_objects(objects: Seq<ObjectFacts>, n: int) -> Seq<ObjectView>
    decreases n,
{
    if n <= 0 {
        Seq::empty()
    } else {
        match built_object(objects[n - 1]) {
            Some(object) => built_objects(objects, n - 1).push(object),
            None => built_objects(objects, n - 1),
        }
    }
}

/// The number of diagnostics for the first `n` objects.
pub open spec fn unit_diagnostic_count(objects: Seq<ObjectFacts>, n: int) -> nat
    decreases n,
{
    if n <= 0 {
        0
    } else {
        unit_diagnostic_count(objects, n - 1) + diagnostic_count(
            objects[n - 1].fields,
            objects[n - 1].fields.len() as int,
        )
    }
}

/// Whether `diagnostics` are those for the first `n` objects, object
/// after object.
pub open spec fn unit_reports(objects: Seq<ObjectFacts>, n: int, diagnostics: Seq<Diagnostic>) -> bool
    decreases n,
{
    if n <= 0 {
        diagnostics.len() == 0
    } else {
        let fields = objects[n - 1].fields;
        let count = diagnostic_count(fields, fields.len() as int);
        &&& count <= diagnostics.len()
        &&& fields_report(
            fields,
            fields.len() as int,
            diagnostics.subrange(diagnostics.len() - count, diagnostics.len() as int),
        )
        &&& unit_reports(objects, n - 1, diagnostics.subrange(0, diagnostics.len() - count))
    }
}

/// The state of a parse: the objects as written, the objects built and
/// the diagnostics.
#[derive(Debug)]
pub struct Parser {
    /// Objects as written
    pub pobjects: Vec<PObject>,
    /// Objects built
    pub objects: Vec<Object>,
    /// Diagnostics
    pub diagnostics: Vec<Diagnostic>,
}

impl Parser {
    /// Builds the fields of one object and adds their diagnostics to
    /// `diagnostics`.
    ///
    /// Every field goes through the checks and has its type resolved,
    /// whatever happened to the fields before it. The fields are handed
    /// back where none has a diagnostic.
    pub fn create_fields(fields: &Vec<PField>, diagnostics: &mut Vec<Diagnostic>) -> (result:
        Option<Vec<Field>>)
        ensures
            final(diagnostics)@.len() == old(diagnostics)@.len() + diagnostic_count(
                fields_facts(fields@),
                fields@.len() as int,
            ),
            final(diagnostics)@.subrange(0, old(diagnostics)@.len() as int) == old(diagnostics)@,
            fields_report(
                fields_facts(fields@),
                fields@.len() as int,
                final(diagnostics)@.subrange(
                    old(diagnostics)@.len() as int,
                    final(diagnostics)@.len() as int,
                ),
            ),
            match result {
                Some(built) => diagnostic_count(fields_facts(fields@), fields@.len() as int) == 0
                    && field_views(built@) == kept_fields(
                    fields_facts(fields@),
                    fields@.len() as int,
                ),
                None => diagnostic_count(fields_facts(fields@), fields@.len() as int) > 0,
            },
    {
        let mut checker = Checker::new().with_check(
            Check::UniqueField(UniqueFieldCheck::new()),
        ).with_check(Check::UniqueQObjectField(UniqueQObjectFieldCheck::new()));
        let ghost facts = fields_facts(fields@);
        let ghost start = diagnostics@;
        let mut success = true;
        let mut result: Vec<Field> = Vec::new();
        let mut i: usize = 0;
        proof {
            assert(checker@ =~= standard_checks());
            assert(diagnostics@.subrange(0, start.len() as int) =~= start);
            assert(field_views(result@) =~= Seq::<FieldView>::empty());
        }
        while i < fields.len()
            invariant
                i <= fields.len(),
                facts == fields_facts(fields@),
                checker@ == checks_after(facts, i as int),
                diagnostics@.len() == start.len() + diagnostic_count(facts, i as int),
                diagnostics@.subrange(0, start.len() as int) == start,
                fields_report(
                    facts,
                    i as int,
                    diagnostics@.subrange(start.len() as int, diagnostics@.len() as int),
                ),
                success <==> diagnostic_count(facts, i as int) == 0,
                field_views(result@) == kept_fields(facts, i as int),
            decreases fields.len() - i,
        {
            let field = &fields[i];
            let ghost fact = facts[i as int];
            let ghost checks = checker@;
            let ghost before = diagnostics@;
            let ghost built = field_views(result@);
            proof {
                assert(fact == field.facts());
            }
            let checked = checker.check(field);
            let resolved = from_type(&field.ty);
            proof {
                lemma_reports_count(checks, fact, result_diagnostics(checked));
            }
            match (checked, resolved) {
                (Ok(_), Ok(ty)) => {
                    let built_field = Field::new(String::from_str(field.name.as_str()), ty);
                    result.push(built_field);
                    proof {
                        assert(field_views(result@) =~= built.push(
                            FieldView { name: fact.name, ty: fact.resolved->0 },
                        ));
                        assert(diagnostics@.subrange(
                            start.len() as int,
                            diagnostics@.len() as int,
                        ).subrange(0, diagnostics@.len() - start.len()) =~= diagnostics@.subrange(
                            start.len() as int,
                            diagnostics@.len() as int,
                        ));
                        assert(diagnostics@.subrange(
                            start.len() as int,
                            diagnostics@.len() as int,
                        ).subrange(
                            diagnostics@.len() - start.len(),
                            diagnostics@.len() - start.len(),
                        ) =~= Seq::<Diagnostic>::empty());
                    }
                },
                (checked, resolved) => {
                    let ghost reports = result_diagnostics(checked);
                    if let Err(mut reported) = checked {
                        diagnostics.append(&mut reported);
                    }
                    proof {
                        assert(diagnostics@ =~= before + reports);
                    }
                    let ghost middle = diagnostics@;
                    if let Err(diagnostic) = resolved {
                        diagnostics.push(diagnostic);
                    }
                    success = false;
                    proof {
                        let added = diagnostics@.subrange(
                            before.len() as int,
                            diagnostics@.len() as int,
                        );
                        let all = diagnostics@.subrange(
                            start.len() as int,
                            diagnostics@.len() as int,
                        );
                        let count = field_diagnostic_count(checks, fact);
                        assert(added.len() == count);
                        if fact.resolved is None {
                            assert(added.drop_last() =~= reports);
                        } else {
                            assert(added =~= reports);
                        }
                        assert(field_reports(checks, fact, added));
                        assert(all.subrange(all.len() - count, all.len() as int) =~= added);
                        assert(all.subrange(0, all.len() - count) =~= before.subrange(
                            start.len() as int,
                            before.len() as int,
                        ));
                        assert(diagnostics@.subrange(0, start.len() as int) =~= before.subrange(
                            0,
                            start.len() as int,
                        ));
                    }
                },
            }
            i += 1;
        }
        if success {
            Some(result)
        } else {
            None
        }
    }

    /// The name of the field that holds the owner handle: that of the
    /// first field whose type is the owner marker.
    pub fn create_qobject_field_name(fields: &Vec<PField>) -> (result: Option<String>)
        ensures
            match result {
                Some(name) => first_owner(fields_facts(fields@), 0) == Some(name@),
                None => first_owner(fields_facts(fields@), 0) is None,
            },
    {
        let mut i: usize = 0;
        while i < fields.len()
            invariant
                i <= fields.len(),
                first_owner(fields_facts(fields@), i as int) == first_owner(
                    fields_facts(fields@),
                    0,
                ),
            decreases fields.len() - i,
        {
            proof {
                assert(fields_facts(fields@)[i as int] == fields@[i as int].facts());
            }
            if let Some(name) = Parser::map_qobject_field_name(&fields[i]) {
                return Some(name);
            }
            i += 1;
        }
        None
    }

    /// The field's name, where its type is the owner marker.
    pub fn map_qobject_field_name(field: &PField) -> (result: Option<String>)
        ensures
            match result {
                Some(name) => field.facts().owner && name@ == field.name@,
                None => !field.facts().owner,
            },
    {
        if is_qobject(&field.ty) {
            Some(String::from_str(field.name.as_str()))
        } else {
            None
        }
    }

    /// Builds the objects from the objects as written: each object of
    /// which no field has a diagnostic, in order.
    fn with_objects(self) -> (result: Self)
        requires
            self.objects@.len() == 0,
            self.diagnostics@.len() == 0,
        ensures
            result.pobjects == self.pobjects,
            object_views(result.objects@) == built_objects(
                objects_facts(self.pobjects@),
                self.pobjects@.len() as int,
            ),
            result.diagnostics@.len() == unit_diagnostic_count(
                objects_facts(self.pobjects@),
                self.pobjects@.len() as int,
            ),
            unit_reports(
                objects_facts(self.pobjects@),
                self.pobjects@.len() as int,
                result.diagnostics@,
            ),
    {
        let pobjects = self.pobjects;
        let mut objects = self.objects;
        let mut diagnostics = self.diagnostics;
        let ghost facts = objects_facts(pobjects@);
        let mut i: usize = 0;
        proof {
            assert(object_views(objects@) =~= Seq::<ObjectView>::empty());
        }
        while i < pobjects.len()
            invariant
                i <= pobjects.len(),
                facts == objects_facts(pobjects@),
                object_views(objects@) == built_objects(facts, i as int),
                diagnostics@.len() == unit_diagnostic_count(facts, i as int),
                unit_reports(facts, i as int, diagnostics@),
            decreases pobjects.len() - i,
        {
            let object = &pobjects[i];
            let ghost before = diagnostics@;
            let ghost built = object_views(objects@);
            proof {
                assert(facts[i as int] == object.facts());
            }
            let fields = Parser::create_fields(&object.fields, &mut diagnostics);
            if let Some(fields) = fields {
                let name = String::from_str(object.name.as_str());
                let qobject_field_name = Parser::create_qobject_field_name(&object.fields);
                let object = Object::new(name, fields, qobject_field_name);
                let ghost view = object@;
                objects.push(object);
                proof {
                    assert(object_views(objects@) =~= built.push(view));
                }
            }
            proof {
                let count = diagnostic_count(
                    facts[i as int].fields,
                    facts[i as int].fields.len() as int,
                );
                assert(diagnostics@.subrange(0, diagnostics@.len() - count) =~= before);
            }
            i += 1;
        }
        Parser { pobjects, objects, diagnostics }
    }

    /// The state after the grammar has answered: the objects built from
    /// the objects as written, or the one diagnostic of the grammar.
    pub fn from_result(objects: Result<Vec<PObject>, Diagnostic>) -> (result: Self)
        ensures
            match objects {
                Ok(pobjects) => {
                    &&& result.pobjects == pobjects
                    &&& object_views(result.objects@) == built_objects(
                        objects_facts(pobjects@),
                        pobjects@.len() as int,
                    )
                    &&& result.diagnostics@.len() == unit_diagnostic_count(
                        objects_facts(pobjects@),
                        pobjects@.len() as int,
                    )
                    &&& unit_reports(
                        objects_facts(pobjects@),
                        pobjects@.len() as int,
                        result.diagnostics@,
                    )
                },
                Err(diagnostic) => {
                    &&& result.pobjects@.len() == 0
                    &&& result.objects@.len() == 0
                    &&& result.diagnostics@ == seq![diagnostic]
                },
            },
    {
        match objects {
            Ok(pobjects) => {
                let parser = Parser { pobjects, objects: Vec::new(), diagnostics: Vec::new() };
                parser.with_objects()
            },
            Err(diagnostic) => {
                let mut diagnostics: Vec<Diagnostic> = Vec::new();
                diagnostics.push(diagnostic);
                Parser { pobjects: Vec::new(), objects: Vec::new(), diagnostics }
            },
        }
    }
}

/// What the builder reads of the field that stands at `shape`.
pub open spec fn shape_facts(src: Seq<char>, tokens: Seq<Token>, shape: FieldShape) -> FieldFacts {
    let pieces = token_texts(src, tokens.subrange(shape.ty_start, shape.ty_end));
    FieldFacts {
        name: token_text(src, tokens[shape.name]),
        name_span: tokens[shape.name].span,
        ty_span: Span {
            start: tokens[shape.ty_start].span.start,
            end: tokens[shape.ty_end - 1].span.end,
        },
        ty_text: range_text(src, tokens, shape.ty_start, shape.ty_end),
        owner: is_owner_marker(pieces),
        resolved: resolve(pieces),
    }
}

/// What the builder reads of the object that stands at `shape`.
pub open spec fn object_shape_facts(src: Seq<char>, tokens: Seq<Token>, shape: ObjectShape) -> ObjectFacts {
    ObjectFacts {
        name: token_text(src, tokens[shape.name]),
        fields: shape.fields.map_values(|field: FieldShape| shape_facts(src, tokens, field)),
    }
}

/// What the builder reads of the objects that stand at `shapes`.
pub open spec fn unit_facts(src: Seq<char>, tokens: Seq<Token>, shapes: Seq<ObjectShape>) -> Seq<
    ObjectFacts,
> {
    shapes.map_values(|shape: ObjectShape| object_shape_facts(src, tokens, shape))
}

/// Objects that match shapes have the facts of the shapes.
pub proof fn lemma_match_facts(
    src: Seq<char>,
    tokens: Seq<Token>,
    shapes: Seq<ObjectShape>,
    objects: Seq<PObject>,
)
    requires
        objects_match(src, tokens, shapes, objects),
    ensures
        objects_facts(objects) == unit_facts(src, tokens, shapes),
{
    assert forall|i: int| 0 <= i < shapes.len() implies (#[trigger] objects[i]).facts()
        == object_shape_facts(src, tokens, shapes[i]) by {
        let shape = shapes[i];
        let object = objects[i];
        assert(fields_match(src, tokens, shape.fields, object.fields@));
        assert forall|j: int| 0 <= j < shape.fields.len() implies (
        #[trigger] object.fields@[j]).facts() == shape_facts(src, tokens, shape.fields[j]) by {
            assert(field_matches(src, tokens, shape.fields[j], object.fields@[j]));
        }
        assert(fields_facts(object.fields@) =~= shape.fields.map_values(
            |field: FieldShape| shape_facts(src, tokens, field),
        ));
    }
    assert(objects_facts(objects) =~= unit_facts(src, tokens, shapes));
}

/// The place of the first type expression, from field `j` of object `i`
/// on, that is no type of Rust.
pub open spec fn invalid_type_from(objects: Seq<ObjectFacts>, i: int, j: int) -> Option<Span>
    decreases objects.len() - i, (if 0 <= i < objects.len() {
            objects[i].fields.len() - j
        } else {
            0
        }),
{
    if i < 0 || i >= objects.len() {
        None
    } else if j < 0 || j >= objects[i].fields.len() {
        invalid_type_from(objects, i + 1, 0)
    } else if !type_syntax(objects[i].fields[j].ty_text) {
        Some(objects[i].fields[j].ty_span)
    } else {
        invalid_type_from(objects, i, j + 1)
    }
}

/// The place of the first type expression that is no type of Rust.
pub open spec fn invalid_type(objects: Seq<ObjectFacts>) -> Option<Span> {
    invalid_type_from(objects, 0, 0)
}

/// What the builder reads of the objects of a text; nothing where the
/// text breaks the grammar or has a type expression that is no type.
pub open spec fn stream_facts(src: Seq<char>) -> Option<Seq<ObjectFacts>> {
    match lex(src) {
        Err(_) => None,
        Ok(tokens) => match objects_of(src, tokens) {
            Err(_) => None,
            Ok(shapes) => if invalid_type(unit_facts(src, tokens, shapes)) is Some {
                None
            } else {
                Some(unit_facts(src, tokens, shapes))
            },
        },
    }
}

/// The objects that a text describes: those built from what the grammar
/// finds, and none where the text breaks the grammar.
pub open spec fn stream_objects(src: Seq<char>) -> Seq<ObjectView> {
    match stream_facts(src) {
        None => Seq::empty(),
        Some(facts) => built_objects(facts, facts.len() as int),
    }
}

/// The number of diagnostics for a text: one where it breaks the grammar,
/// else those of its fields.
pub open spec fn stream_diagnostic_count(src: Seq<char>) -> nat {
    match stream_facts(src) {
        None => 1,
        Some(facts) => unit_diagnostic_count(facts, facts.len() as int),
    }
}

/// Whether `diagnostics` are those for a text: the one of the tokens, of
/// the grammar or of the first expression that is no type where the text
/// has such a fault, else those of the fields, object after object.
pub open spec fn stream_reports(src: Seq<char>, diagnostics: Seq<Diagnostic>) -> bool {
    &&& diagnostics.len() == stream_diagnostic_count(src)
    &&& match lex(src) {
        Err(pos) => is_lex_error(diagnostics[0], pos),
        Ok(tokens) => match objects_of(src, tokens) {
            Err(error) => is_syntax_diagnostic(diagnostics[0], tokens, src.len() as int, error),
            Ok(shapes) => match invalid_type(unit_facts(src, tokens, shapes)) {
                Some(span) => is_type_error(diagnostics[0], span),
                None => unit_reports(
                    unit_facts(src, tokens, shapes),
                    shapes.len() as int,
                    diagnostics,
                ),
            },
        },
    }
}

impl Parser {
    /// The place of the first type expression, in the order in which the
    /// fields are written, that is no type of Rust.
    pub fn find_invalid_type(pobjects: &Vec<PObject>) -> (result: Option<Span>)
        ensures
            result == invalid_type(objects_facts(pobjects@)),
    {
        let ghost facts = objects_facts(pobjects@);
        let mut i: usize = 0;
        while i < pobjects.len()
            invariant
                i <= pobjects.len(),
                facts == objects_facts(pobjects@),
                invalid_type_from(facts, i as int, 0) == invalid_type(facts),
            decreases pobjects.len() - i,
        {
            let fields = &pobjects[i].fields;
            proof {
                assert(facts[i as int] == pobjects@[i as int].facts());
            }
            let mut j: usize = 0;
            while j < fields.len()
                invariant
                    i < pobjects.len(),
                    j <= fields.len(),
                    fields == &pobjects@[i as int].fields,
                    facts == objects_facts(pobjects@),
                    facts[i as int].fields == fields_facts(fields@),
                    invalid_type_from(facts, i as int, j as int) == invalid_type(facts),
                decreases fields.len() - j,
            {
                proof {
                    assert(fields_facts(fields@)[j as int] == fields@[j as int].facts());
                }
                if !fields[j].ty.is_valid() {
                    return Some(fields[j].ty.span);
                }
                j += 1;
            }
            i += 1;
        }
        None
    }

    /// Hands the objects as written back where no type expression is
    /// invalid; else the diagnostic at the place of the invalid one.
    pub fn checked(pobjects: Vec<PObject>, invalid: Option<Span>) -> (result: Result<
        Vec<PObject>,
        Diagnostic,
    >)
        ensures
            match result {
                Ok(checked) => invalid is None && checked == pobjects,
                Err(diagnostic) => invalid is Some && is_type_error(diagnostic, invalid->0),
            },
    {
        match invalid {
            None => Ok(pobjects),
            Some(span) => Err(type_error(span)),
        }
    }

    /// Parses a text of object descriptions.
    pub fn from_stream(input: &str) -> (result: Self)
        ensures
            object_views(result.objects@) == stream_objects(input@),
            stream_reports(input@, result.diagnostics@),
    {
        let chars = chars_of(input);
        let parsed = match tokenize(&chars) {
            Err(diagnostic) => Err(diagnostic),
            Ok(tokens) => match parse_objects(&chars, &tokens) {
                Ok(pobjects) => {
                    proof {
                        lemma_match_facts(
                            chars@,
                            tokens@,
                            objects_of(chars@, tokens@)->Ok_0,
                            pobjects@,
                        );
                    }
                    let invalid = Parser::find_invalid_type(&pobjects);
                    Parser::checked(pobjects, invalid)
                },
                Err(error) => Err(syntax_diagnostic(&chars, &tokens, error)),
            },
        };
        let result = Parser::from_result(parsed);
        proof {
            if parsed is Err {
                assert(object_views(result.objects@) =~= Seq::<ObjectView>::empty());
            }
        }
        result
    }
}

/// Parses a text of object descriptions into the metadata of the objects
///
/// Hands back the objects, in the order in which they are written, where
/// there is no diagnostic at all; else the diagnostics and no object. A
/// text that breaks the grammar has exactly one diagnostic.
pub fn from_stream(input: &str) -> (result: Result<Vec<Object>, Vec<Diagnostic>>)
    ensures
        result is Ok <==> stream_diagnostic_count(input@) == 0,
        match result {
            Ok(objects) => object_views(objects@) == stream_objects(input@) && forall|i: int|
                0 <= i < objects@.len() ==> (#[trigger] objects@[i])@.well_formed(),
            Err(diagnostics) => stream_reports(input@, diagnostics@),
        },
{
    let parser = Parser::from_stream(input);
    proof {
        lemma_stream_objects_well_formed(input@);
        assert forall|i: int| 0 <= i < parser.objects@.len() implies (
        #[trigger] parser.objects@[i])@.well_formed() by {
            assert(object_views(parser.objects@)[i] == parser.objects@[i]@);
        }
    }
    if parser.diagnostics.len() == 0 {
        Ok(parser.objects)
    } else {
        Err(parser.diagnostics)
    }
}

/// Of two fields of different names that both have the owner marker as
/// their type, the first has no diagnostic and the second has exactly
/// one, so their object has exactly one.
pub proof fn lemma_two_owner_fields(first: FieldFacts, second: FieldFacts)
    requires
        first.owner,
        second.owner,
        first.resolved is Some,
        second.resolved is Some,
        first.name != second.name,
    ensures
        field_diagnostic_count(checks_after(seq![first, second], 0), first) == 0,
        field_diagnostic_count(checks_after(seq![first, second], 1), second) == 1,
        checks_after(seq![first, second], 1)[1] == CheckView::UniqueQObjectField(
            Some(first.ty_span),
        ),
        diagnostic_count(seq![first, second], 2) == 1,
{
    let fields = seq![first, second];
    let start = checks_after(fields, 0);
    assert(start == standard_checks());
    lemma_failures_two(start, first);
    let names = Seq::<(Seq<char>, Span)>::empty();
    assert(first_declared(names, first.name, 0) is None);
    assert(failures(start, first) == 0);
    let after = checks_after(fields, 1);
    assert(after == checks_next(checks_after(fields, 0), fields[0]));
    assert(after.len() == 2);
    let seen = names.push((first.name, first.name_span));
    assert(after[0] == CheckView::UniqueField(seen));
    assert(after[1] == CheckView::UniqueQObjectField(Some(first.ty_span)));
    lemma_failures_two(after, second);
    assert(first_declared(seen, second.name, 1) is None);
    assert(first_declared(seen, second.name, 0) is None);
    assert(failures(after, second) == 1);
    assert(diagnostic_count(fields, 0) == 0);
    assert(diagnostic_count(fields, 1) == 0);
    assert(fields[1] == second);
}

/// The failures of two checks are those of the first and of the second.
pub proof fn lemma_failures_two(checks: Seq<CheckView>, field: FieldFacts)
    requires
        checks.len() == 2,
    ensures
        failures(checks, field) == (if check_fails(checks[0], field) {
            1nat
        } else {
            0nat
        }) + (if check_fails(checks[1], field) {
            1nat
        } else {
            0nat
        }),
{
    let head = checks.drop_last();
    let none = head.drop_last();
    assert(head.len() == 1);
    assert(head.last() == checks[0]);
    assert(none.len() == 0);
    assert(failures(none, field) == 0);
    assert(failures(head, field) == failures(none, field) + (if check_fails(head.last(), field) {
        1nat
    } else {
        0nat
    }));
    assert(checks.last() == checks[1]);
    assert(failures(checks, field) == failures(head, field) + (if check_fails(
        checks.last(),
        field,
    ) {
        1nat
    } else {
        0nat
    }));
}

/// Of fields that all have one name, a type that is supported and not the
/// owner marker, the first has no diagnostic and every other has exactly
/// one, from the check of names, which remembers the first field alone:
/// an object with `n` such fields has `n - 1` diagnostics, each at one
/// of the later fields with a note at the first.
pub proof fn lemma_repeated_name(fields: Seq<FieldFacts>, n: int)
    requires
        1 <= n <= fields.len(),
        forall|i: int| 0 <= i < fields.len() ==> (#[trigger] fields[i]).name == fields[0].name,
        forall|i: int| 0 <= i < fields.len() ==> !(#[trigger] fields[i]).owner,
        forall|i: int| 0 <= i < fields.len() ==> (#[trigger] fields[i]).resolved is Some,
    ensures
        diagnostic_count(fields, n) == n - 1,
        checks_after(fields, n) == seq![
            CheckView::UniqueField(seq![(fields[0].name, fields[0].name_span)]),
            CheckView::UniqueQObjectField(None),
        ],
        field_diagnostic_count(checks_after(fields, 0), fields[0]) == 0,
        n >= 2 ==> field_diagnostic_count(checks_after(fields, n - 1), fields[n - 1]) == 1,
    decreases n,
{
    let seen = seq![(fields[0].name, fields[0].name_span)];
    let later = seq![CheckView::UniqueField(seen), CheckView::UniqueQObjectField(None)];
    let start = checks_after(fields, 0);
    assert(start == standard_checks());
    lemma_failures_two(start, fields[0]);
    let names = Seq::<(Seq<char>, Span)>::empty();
    assert(first_declared(names, fields[0].name, 0) is None);
    assert(diagnostic_count(fields, 0) == 0);
    if n == 1 {
        assert(checks_after(fields, 1) == checks_next(start, fields[0]));
        assert(names.push((fields[0].name, fields[0].name_span)) =~= seen);
        assert(checks_after(fields, 1) =~= later);
    } else {
        lemma_repeated_name(fields, n - 1);
        let before = checks_after(fields, n - 1);
        assert(before == later);
        lemma_failures_two(before, fields[n - 1]);
        assert(first_declared(seen, fields[n - 1].name, 0) == Some(fields[0].name_span));
        assert(checks_after(fields, n) == checks_next(before, fields[n - 1]));
        assert(checks_after(fields, n) =~= later);
    }
}

/// A text that breaks the grammar, or has a type expression that is no
/// type, has exactly one diagnostic and no object.
pub proof fn lemma_broken_text(src: Seq<char>)
    requires
        stream_facts(src) is None,
    ensures
        stream_diagnostic_count(src) == 1,
        stream_objects(src).len() == 0,
{
}

/// An object without fields is built, with no field and no owner field.
pub proof fn lemma_empty_object(name: Seq<char>)
    ensures
        built_object(ObjectFacts { name, fields: Seq::empty() }) == Some(
            ObjectView { name, fields: Seq::empty(), qobject_field_name: None },
        ),
{
    let fields = Seq::<FieldFacts>::empty();
    assert(diagnostic_count(fields, 0) == 0);
    assert(kept_fields(fields, 0) == Seq::<FieldView>::empty());
    assert(first_owner(fields, 0) is None);
}

/// Whether the facts of each field agree on the owner marker: a field is
/// marked as owner exactly where its type resolves to the owner handle.
pub open spec fn consistent(fields: Seq<FieldFacts>) -> bool {
    forall|i: int|
        0 <= i < fields.len() ==> ((#[trigger] fields[i]).owner <==> fields[i].resolved == Some(
            Type::QObject,
        ))
}

/// The names of the first `n` fields, each with its place.
pub open spec fn declared(fields: Seq<FieldFacts>, n: int) -> Seq<(Seq<char>, Span)> {
    Seq::new(n as nat, |i: int| (fields[i].name, fields[i].name_span))
}

/// A name that has no first declaration is none of the names.
pub proof fn lemma_not_declared(seen: Seq<(Seq<char>, Span)>, name: Seq<char>, from: int)
    requires
        0 <= from <= seen.len(),
        first_declared(seen, name, from) is None,
    ensures
        forall|i: int| from <= i < seen.len() ==> seen[i].0 != name,
    decreases seen.len() - from,
{
    if from < seen.len() {
        lemma_not_declared(seen, name, from + 1);
    }
}

/// The first owner is the name of a field marked as owner, and there is
/// none only where no field is marked.
pub proof fn lemma_first_owner(fields: Seq<FieldFacts>, from: int)
    requires
        0 <= from <= fields.len(),
    ensures
        match first_owner(fields, from) {
            Some(name) => exists|i: int|
                from <= i < fields.len() && fields[i].owner && fields[i].name == name,
            None => forall|i: int| from <= i < fields.len() ==> !fields[i].owner,
        },
    decreases fields.len() - from,
{
    if from < fields.len() {
        if fields[from].owner {
            assert(from <= from < fields.len() && fields[from].owner && fields[from].name
                == fields[from].name);
        } else {
            lemma_first_owner(fields, from + 1);
        }
    }
}

/// Where the first `n` fields have no diagnostic, all of them are kept,
/// no two of them share a name, at most one of them is marked as owner,
/// and the checks remember them all.
pub proof fn lemma_clean_fields(fields: Seq<FieldFacts>, n: int)
    requires
        0 <= n <= fields.len(),
        diagnostic_count(fields, n) == 0,
    ensures
        checks_after(fields, n).len() == 2,
        checks_after(fields, n)[0] == CheckView::UniqueField(declared(fields, n)),
        checks_after(fields, n)[1] is UniqueQObjectField,
        checks_after(fields, n)[1]->UniqueQObjectField_0 is Some <==> exists|i: int|
            0 <= i < n && fields[i].owner,
        kept_fields(fields, n) == Seq::new(
            n as nat,
            |i: int| FieldView { name: fields[i].name, ty: fields[i].resolved->0 },
        ),
        forall|i: int, j: int| 0 <= i < j < n ==> fields[i].name != fields[j].name,
        forall|i: int, j: int| 0 <= i < j < n ==> !(fields[i].owner && fields[j].owner),
        forall|i: int| 0 <= i < n ==> (#[trigger] fields[i]).resolved is Some,
    decreases n,
{
    if n == 0 {
        assert(declared(fields, 0) =~= Seq::<(Seq<char>, Span)>::empty());
        assert(kept_fields(fields, 0) =~= Seq::new(
            0nat,
            |i: int| FieldView { name: fields[i].name, ty: fields[i].resolved->0 },
        ));
    } else {
        lemma_clean_fields(fields, n - 1);
        let before = checks_after(fields, n - 1);
        let field = fields[n - 1];
        lemma_failures_two(before, field);
        let seen = declared(fields, n - 1);
        assert(first_declared(seen, field.name, 0) is None);
        lemma_not_declared(seen, field.name, 0);
        assert forall|i: int, j: int| 0 <= i < j < n implies fields[i].name != fields[j].name by {
            if j == n - 1 {
                assert(seen[i].0 == fields[i].name);
            }
        }
        let after = checks_after(fields, n);
        assert(after == checks_next(before, field));
        assert(after[0] == check_next(before[0], field));
        assert(after[1] == check_next(before[1], field));
        assert(seen.push((field.name, field.name_span)) =~= declared(fields, n));
        assert(kept_fields(fields, n) =~= Seq::new(
            n as nat,
            |i: int| FieldView { name: fields[i].name, ty: fields[i].resolved->0 },
        ));
        let first = before[1]->UniqueQObjectField_0;
        if first is Some {
            let i = choose|i: int| 0 <= i < n - 1 && fields[i].owner;
            assert(0 <= i < n && fields[i].owner);
        }
        if field.owner {
            assert(0 <= n - 1 < n && fields[n - 1].owner);
        }
    }
}

/// An object that is built is well formed: no two of its fields share a
/// name, at most one of them is an owner handle, and the owner field's
/// name is that field's name.
pub proof fn lemma_built_object_well_formed(object: ObjectFacts)
    requires
        consistent(object.fields),
        built_object(object) is Some,
    ensures
        built_object(object)->0.well_formed(),
{
    let fields = object.fields;
    let n = fields.len() as int;
    lemma_clean_fields(fields, n);
    lemma_first_owner(fields, 0);
    let built = built_object(object)->0;
    assert(built.fields.len() == n);
    assert forall|i: int| 0 <= i < n implies (#[trigger] built.fields[i]).name == fields[i].name
        && (built.fields[i].ty == Type::QObject <==> fields[i].owner) by {
        assert(fields[i].resolved is Some);
        assert(fields[i].owner <==> fields[i].resolved == Some(Type::QObject));
    }
    match built.qobject_field_name {
        Some(name) => {
            let i = choose|i: int| 0 <= i < fields.len() && fields[i].owner && fields[i].name == name;
            assert(built.fields[i].ty == Type::QObject && built.fields[i].name == name);
        },
        None => {},
    }
}

/// Every object that is built of objects with consistent facts is well
/// formed.
pub proof fn lemma_built_objects_well_formed(objects: Seq<ObjectFacts>, n: int)
    requires
        0 <= n <= objects.len(),
        forall|k: int| 0 <= k < objects.len() ==> consistent((#[trigger] objects[k]).fields),
    ensures
        forall|i: int|
            0 <= i < built_objects(objects, n).len() ==> (#[trigger] built_objects(
                objects,
                n,
            )[i]).well_formed(),
    decreases n,
{
    if n > 0 {
        lemma_built_objects_well_formed(objects, n - 1);
        let before = built_objects(objects, n - 1);
        let all = built_objects(objects, n);
        assert(consistent(objects[n - 1].fields));
        if built_object(objects[n - 1]) is Some {
            lemma_built_object_well_formed(objects[n - 1]);
            assert(all == before.push(built_object(objects[n - 1])->0));
        } else {
            assert(all == before);
        }
        assert forall|i: int| 0 <= i < all.len() implies (#[trigger] all[i]).well_formed() by {
            if i < before.len() {
                assert(all[i] == before[i]);
            }
        }
    }
}

/// Every object that a text describes is well formed.
pub proof fn lemma_stream_objects_well_formed(src: Seq<char>)
    ensures
        forall|i: int|
            0 <= i < stream_objects(src).len() ==> (#[trigger] stream_objects(
                src,
            )[i]).well_formed(),
{
    if let Ok(tokens) = lex(src) {
        if let Ok(shapes) = objects_of(src, tokens) {
            let facts = unit_facts(src, tokens, shapes);
            assert(facts.len() == shapes.len());
            assert forall|k: int| 0 <= k < facts.len() implies consistent(
                (#[trigger] facts[k]).fields,
            ) by {
                let fields = facts[k].fields;
                assert forall|i: int| 0 <= i < fields.len() implies ((#[trigger] fields[i]).owner
                    <==> fields[i].resolved == Some(Type::QObject)) by {
                    let shape = shapes[k].fields[i];
                    lemma_owner_marker_agrees(
                        token_texts(src, tokens.subrange(shape.ty_start, shape.ty_end)),
                    );
                }
            }
            lemma_built_objects_well_formed(facts, shapes.len() as int);
        }
    }
}

} // verus!
