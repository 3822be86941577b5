//! The grammar of object descriptions, over tokens:
//!
//! ```text
//! Objects     := Object*
//! Object      := "object" Name "{" (FieldsBlock ("," FieldsBlock)* ","?)? "}"
//! FieldsBlock := "fields" "{" (Field ("," Field)* ","?)? "}"
//! Field       := Name ":" Type
//! ```
//!
//! A type is what stands before the next comma or closing brace outside
//! any bracket, and is not empty. Whether it is a type of Rust is not the
//! grammar's to say.

use crate::diagnostic::{Diagnostic, Level, Span};
use crate::parse::lexer::{is_lex_error, lex, tokenize, tokens_in, Token, TokenKind};
use crate::syntax::type_syntax;
use crate::text::{chars_of, str_eq, string_of, string_views};
use crate::types::{is_owner_marker, resolve, Type, TypeExpr};
use vstd::prelude::*;

verus! {

/// A field as written: its name and its type expression.
#[derive(Debug)]
pub struct PField {
    /// Name
    pub name: String,
    /// Place of the name
    pub name_span: Span,
    /// Type expression
    pub ty: TypeExpr,
}

/// What the checks and the builder read of a field.
pub struct FieldFacts {
    /// Name
    pub name: Seq<char>,
    /// Place of the name
    pub name_span: Span,
    /// Place of the type expression
    pub ty_span: Span,
    /// The type expression as written
    pub ty_text: Seq<char>,
    /// Whether the type expression is the owner marker
    pub owner: bool,
    /// The type that the expression stands for, if supported
    pub resolved: Option<Type>,
}

impl PField {
    /// What the checks and the builder read of the field.
    pub open spec fn facts(&self) -> FieldFacts {
        FieldFacts {
            name: self.name@,
            name_span: self.name_span,
            ty_span: self.ty.span,
            ty_text: self.ty.text@,
            owner: is_owner_marker(self.ty.pieces_view()),
            resolved: resolve(self.ty.pieces_view()),
        }
    }
}

/// The facts of a sequence of fields.
pub open spec fn fields_facts(fields: Seq<PField>) -> Seq<FieldFacts> {
    fields.map_values(|field: PField| field.facts())
}

/// An object as written: its name and the fields of all its blocks, in
/// the order in which they are written.
#[derive(Debug)]
pub struct PObject {
    /// Name
    pub name: String,
    /// Place of the name
    pub name_span: Span,
    /// Fields
    pub fields: Vec<PField>,
}

/// What the grammar wants at a place.
#[derive(Clone, Copy, Debug, PartialEq, Eq, Structural)]
pub enum Expected {
    /// The keyword `object`
    Object,
    /// The keyword `fields`
    Fields,
    /// An identifier
    Identifier,
    /// `{`
    OpenBrace,
    /// `:`
    Colon,
    /// A type
    Type,
    /// `,` or `}`
    CommaOrCloseBrace,
    /// The end of the text
    End,
}

/// A violation of the grammar: the index of the offending token, which is
/// the number of tokens where the input ends too early, and what was
/// expected there.
#[derive(Clone, Copy, Debug, PartialEq, Eq, Structural)]
pub struct SyntaxError {
    /// Index of the offending token
    pub at: usize,
    /// What was expected
    pub expected: Expected,
}

/// Where a field stands among the tokens.
pub struct FieldShape {
    /// Index of the name
    pub name: int,
    /// Index of the first token of the type
    pub ty_start: int,
    /// Index after the last token of the type
    pub ty_end: int,
}

/// Where an object stands among the tokens.
pub struct ObjectShape {
    /// Index of the name
    pub name: int,
    /// Its fields
    pub fields: Seq<FieldShape>,
}

/// The text of a token.
pub open spec fn token_text(src: Seq<char>, token: Token) -> Seq<char> {
    src.subrange(token.span.start as int, token.span.end as int)
}

/// The texts of some tokens.
pub open spec fn token_texts(src: Seq<char>, tokens: Seq<Token>) -> Seq<Seq<char>> {
    tokens.map_values(|token: Token| token_text(src, token))
}

/// Whether the token at `pos` is the punctuation `c`.
pub open spec fn punct_at(tokens: Seq<Token>, pos: int, c: char) -> bool {
    0 <= pos < tokens.len() && tokens[pos].kind == TokenKind::Punct(c)
}

/// Whether the token at `pos` is an identifier.
pub open spec fn ident_at(tokens: Seq<Token>, pos: int) -> bool {
    0 <= pos < tokens.len() && tokens[pos].kind == TokenKind::Ident
}

/// Whether the token at `pos` is the identifier `word`.
pub open spec fn keyword_at(src: Seq<char>, tokens: Seq<Token>, pos: int, word: Seq<char>) -> bool {
    ident_at(tokens, pos) && token_text(src, tokens[pos]) == word
}

/// Whether the token opens a bracket.
pub open spec fn opens(kind: TokenKind) -> bool {
    kind == TokenKind::Punct('<') || kind == TokenKind::Punct('(') || kind == TokenKind::Punct('[')
        || kind == TokenKind::Punct('{')
}

/// Whether the token closes a bracket.
pub open spec fn closes(kind: TokenKind) -> bool {
    kind == TokenKind::Punct('>') || kind == TokenKind::Punct(')') || kind == TokenKind::Punct(']')
        || kind == TokenKind::Punct('}')
}

/// Whether the token at `pos` is the `>` of an arrow `->`.
pub open spec fn arrow_at(tokens: Seq<Token>, pos: int) -> bool {
    &&& 0 < pos < tokens.len()
    &&& tokens[pos].kind == TokenKind::Punct('>')
    &&& tokens[pos - 1].kind == TokenKind::Punct('-')
    &&& tokens[pos - 1].span.end == tokens[pos].span.start
}

/// The index at which a type that holds `pos` ends, with `depth` brackets
/// open: that of the first comma or closing brace outside any bracket, or
/// the number of tokens. The `>` of an arrow closes nothing.
pub open spec fn type_end(tokens: Seq<Token>, pos: int, depth: nat) -> int
    decreases tokens.len() - pos,
{
    if pos < 0 || pos >= tokens.len() {
        pos
    } else {
        let kind = tokens[pos].kind;
        if depth == 0 && (kind == TokenKind::Punct(',') || kind == TokenKind::Punct('}')) {
            pos
        } else if opens(kind) {
            type_end(tokens, pos + 1, depth + 1)
        } else if closes(kind) && depth > 0 && !arrow_at(tokens, pos) {
            type_end(tokens, pos + 1, (depth - 1) as nat)
        } else {
            type_end(tokens, pos + 1, depth)
        }
    }
}

/// The text from the first to the last of the tokens `from..to`.
pub open spec fn range_text(src: Seq<char>, tokens: Seq<Token>, from: int, to: int) -> Seq<char> {
    src.subrange(tokens[from].span.start as int, tokens[to - 1].span.end as int)
}

/// The field that starts at `pos`, and the index after it.
pub open spec fn field_at(src: Seq<char>, tokens: Seq<Token>, pos: int) -> Result<
    (FieldShape, int),
    SyntaxError,
> {
    if !ident_at(tokens, pos) {
        Err(SyntaxError { at: pos as usize, expected: Expected::Identifier })
    } else if !punct_at(tokens, pos + 1, ':') {
        Err(SyntaxError { at: (pos + 1) as usize, expected: Expected::Colon })
    } else {
        let end = type_end(tokens, pos + 2, 0);
        if pos + 2 < end <= tokens.len() {
            Ok((FieldShape { name: pos, ty_start: pos + 2, ty_end: end }, end))
        } else {
            Err(SyntaxError { at: (pos + 2) as usize, expected: Expected::Type })
        }
    }
}

/// The fields from `pos` to the brace that closes their block, after
/// those in `acc`, and the index after that brace.
pub open spec fn field_list_from(
    src: Seq<char>,
    tokens: Seq<Token>,
    pos: int,
    acc: Seq<FieldShape>,
) -> Result<(Seq<FieldShape>, int), SyntaxError>
    decreases tokens.len() - pos,
{
    if punct_at(tokens, pos, '}') {
        Ok((acc, pos + 1))
    } else {
        match field_at(src, tokens, pos) {
            Err(error) => Err(error),
            Ok((field, next)) => if punct_at(tokens, next, '}') {
                Ok((acc.push(field), next + 1))
            } else if punct_at(tokens, next, ',') && pos < next {
                field_list_from(src, tokens, next + 1, acc.push(field))
            } else {
                Err(SyntaxError { at: next as usize, expected: Expected::CommaOrCloseBrace })
            },
        }
    }
}

/// The fields of the block that starts at `pos`, after those in `acc`,
/// and the index after the block.
pub open spec fn fields_block_at(
    src: Seq<char>,
    tokens: Seq<Token>,
    pos: int,
    acc: Seq<FieldShape>,
) -> Result<(Seq<FieldShape>, int), SyntaxError> {
    if !keyword_at(src, tokens, pos, "fields"@) {
        Err(SyntaxError { at: pos as usize, expected: Expected::Fields })
    } else if !punct_at(tokens, pos + 1, '{') {
        Err(SyntaxError { at: (pos + 1) as usize, expected: Expected::OpenBrace })
    } else {
        field_list_from(src, tokens, pos + 2, acc)
    }
}

/// The fields of the blocks from `pos` to the brace that closes their
/// object, after those in `acc`, and the index after that brace.
pub open spec fn block_list_from(
    src: Seq<char>,
    tokens: Seq<Token>,
    pos: int,
    acc: Seq<FieldShape>,
) -> Result<(Seq<FieldShape>, int), SyntaxError>
    decreases tokens.len() - pos,
{
    if punct_at(tokens, pos, '}') {
        Ok((acc, pos + 1))
    } else {
        match fields_block_at(src, tokens, pos, acc) {
            Err(error) => Err(error),
            Ok((fields, next)) => if punct_at(tokens, next, '}') {
                Ok((fields, next + 1))
            } else if punct_at(tokens, next, ',') && pos < next {
                block_list_from(src, tokens, next + 1, fields)
            } else {
                Err(SyntaxError { at: next as usize, expected: Expected::CommaOrCloseBrace })
            },
        }
    }
}

/// The object that starts at `pos`, and the index after it.
pub open spec fn object_at(src: Seq<char>, tokens: Seq<Token>, pos: int) -> Result<
    (ObjectShape, int),
    SyntaxError,
> {
    if !keyword_at(src, tokens, pos, "object"@) {
        Err(SyntaxError { at: pos as usize, expected: Expected::Object })
    } else if !ident_at(tokens, pos + 1) {
        Err(SyntaxError { at: (pos + 1) as usize, expected: Expected::Identifier })
    } else if !punct_at(tokens, pos + 2, '{') {
        Err(SyntaxError { at: (pos + 2) as usize, expected: Expected::OpenBrace })
    } else {
        match block_list_from(src, tokens, pos + 3, Seq::empty()) {
            Err(error) => Err(error),
            Ok((fields, next)) => Ok((ObjectShape { name: pos + 1, fields }, next)),
        }
    }
}

/// The objects from `pos` to the end of the tokens, after those in `acc`.
pub open spec fn objects_from(
    src: Seq<char>,
    tokens: Seq<Token>,
    pos: int,
    acc: Seq<ObjectShape>,
) -> Result<Seq<ObjectShape>, SyntaxError>
    decreases tokens.len() - pos,
{
    if pos < 0 || pos >= tokens.len() {
        Ok(acc)
    } else {
        match object_at(src, tokens, pos) {
            Err(error) => Err(error),
            Ok((object, next)) => if pos < next <= tokens.len() {
                objects_from(src, tokens, next, acc.push(object))
            } else {
                Ok(acc.push(object))
            },
        }
    }
}

/// The objects that the tokens describe.
pub open spec fn objects_of(src: Seq<char>, tokens: Seq<Token>) -> Result<
    Seq<ObjectShape>,
    SyntaxError,
> {
    objects_from(src, tokens, 0, Seq::empty())
}

/// Whether `field` is the field that stands at `shape`.
pub open spec fn field_matches(
    src: Seq<char>,
    tokens: Seq<Token>,
    shape: FieldShape,
    field: PField,
) -> bool {
    &&& 0 <= shape.name < tokens.len()
    &&& 0 <= shape.ty_start < shape.ty_end <= tokens.len()
    &&& field.name@ == token_text(src, tokens[shape.name])
    &&& field.name_span == tokens[shape.name].span
    &&& field.ty.span == (Span {
        start: tokens[shape.ty_start].span.start,
        end: tokens[shape.ty_end - 1].span.end,
    })
    &&& field.ty.text@ == range_text(src, tokens, shape.ty_start, shape.ty_end)
    &&& field.ty.pieces_view() == token_texts(src, tokens.subrange(shape.ty_start, shape.ty_end))
}

/// Whether `fields` are the fields that stand at `shapes`, one for one.
pub open spec fn fields_match(
    src: Seq<char>,
    tokens: Seq<Token>,
    shapes: Seq<FieldShape>,
    fields: Seq<PField>,
) -> bool {
    &&& shapes.len() == fields.len()
    &&& forall|i: int|
        0 <= i < shapes.len() ==> field_matches(src, tokens, #[trigger] shapes[i], fields[i])
}

/// Whether `object` is the object that stands at `shape`.
pub open spec fn object_matches(
    src: Seq<char>,
    tokens: Seq<Token>,
    shape: ObjectShape,
    object: PObject,
) -> bool {
    &&& 0 <= shape.name < tokens.len()
    &&& object.name@ == token_text(src, tokens[shape.name])
    &&& object.name_span == tokens[shape.name].span
    &&& fields_match(src, tokens, shape.fields, object.fields@)
}

/// Whether `objects` are the objects that stand at `shapes`, one for one.
pub open spec fn objects_match(
    src: Seq<char>,
    tokens: Seq<Token>,
    shapes: Seq<ObjectShape>,
    objects: Seq<PObject>,
) -> bool {
    &&& shapes.len() == objects.len()
    &&& forall|i: int|
        0 <= i < shapes.len() ==> object_matches(src, tokens, #[trigger] shapes[i], objects[i])
}

fn is_punct(tokens: &Vec<Token>, pos: usize, c: char) -> (result: bool)
    ensures
        result == punct_at(tokens@, pos as int, c),
{
    pos < tokens.len() && tokens[pos].kind == TokenKind::Punct(c)
}

fn is_ident(tokens: &Vec<Token>, pos: usize) -> (result: bool)
    ensures
        result == ident_at(tokens@, pos as int),
{
    pos < tokens.len() && tokens[pos].kind == TokenKind::Ident
}

fn text_of(chars: &Vec<char>, tokens: &Vec<Token>, pos: usize) -> (result: String)
    requires
        tokens_in(tokens@, chars@.len() as int),
        pos < tokens.len(),
    ensures
        result@ == token_text(chars@, tokens@[pos as int]),
{
    let token = tokens[pos];
    string_of(chars, token.span.start, token.span.end)
}

fn is_keyword(chars: &Vec<char>, tokens: &Vec<Token>, pos: usize, word: &str) -> (result: bool)
    requires
        tokens_in(tokens@, chars@.len() as int),
    ensures
        result == keyword_at(chars@, tokens@, pos as int, word@),
{
    if is_ident(tokens, pos) {
        let text = text_of(chars, tokens, pos);
        str_eq(text.as_str(), word)
    } else {
        false
    }
}

fn opening(kind: TokenKind) -> (result: bool)
    ensures
        result == opens(kind),
{
    kind == TokenKind::Punct('<') || kind == TokenKind::Punct('(') || kind == TokenKind::Punct('[')
        || kind == TokenKind::Punct('{')
}

fn closing(kind: TokenKind) -> (result: bool)
    ensures
        result == closes(kind),
{
    kind == TokenKind::Punct('>') || kind == TokenKind::Punct(')') || kind == TokenKind::Punct(']')
        || kind == TokenKind::Punct('}')
}

fn is_arrow(tokens: &Vec<Token>, pos: usize) -> (result: bool)
    ensures
        result == arrow_at(tokens@, pos as int),
{
    0 < pos && pos < tokens.len() && tokens[pos].kind == TokenKind::Punct('>') && tokens[pos
        - 1].kind == TokenKind::Punct('-') && tokens[pos - 1].span.end == tokens[pos].span.start
}

fn scan_type(tokens: &Vec<Token>, start: usize) -> (result: usize)
    requires
        start <= tokens.len(),
    ensures
        result == type_end(tokens@, start as int, 0),
        start <= result <= tokens.len(),
{
    let mut i: usize = start;
    let mut depth: usize = 0;
    while i < tokens.len()
        invariant
            start <= i <= tokens.len(),
            depth <= i - start,
            type_end(tokens@, i as int, depth as nat) == type_end(tokens@, start as int, 0),
        decreases tokens.len() - i,
    {
        let kind = tokens[i].kind;
        if depth == 0 && (kind == TokenKind::Punct(',') || kind == TokenKind::Punct('}')) {
            return i;
        } else if opening(kind) {
            depth += 1;
        } else if closing(kind) && depth > 0 && !is_arrow(tokens, i) {
            depth -= 1;
        }
        i += 1;
    }
    i
}

fn pieces_of(chars: &Vec<char>, tokens: &Vec<Token>, from: usize, to: usize) -> (result: Vec<
    String,
>)
    requires
        tokens_in(tokens@, chars@.len() as int),
        from <= to <= tokens.len(),
    ensures
        string_views(result@) == token_texts(chars@, tokens@.subrange(from as int, to as int)),
{
    let mut result: Vec<String> = Vec::new();
    let mut i: usize = from;
    while i < to
        invariant
            tokens_in(tokens@, chars@.len() as int),
            from <= i <= to <= tokens.len(),
            result@.len() == i - from,
            forall|k: int|
                0 <= k < i - from ==> (#[trigger] result@[k])@ == token_text(
                    chars@,
                    tokens@[from + k],
                ),
        decreases to - i,
    {
        result.push(text_of(chars, tokens, i));
        i += 1;
    }
    proof {
        assert(string_views(result@) =~= token_texts(
            chars@,
            tokens@.subrange(from as int, to as int),
        ));
    }
    result
}

fn parse_field(chars: &Vec<char>, tokens: &Vec<Token>, pos: usize) -> (result: Result<
    (PField, usize),
    SyntaxError,
>)
    requires
        tokens_in(tokens@, chars@.len() as int),
        pos <= tokens.len(),
    ensures
        match result {
            Ok((field, next)) => match field_at(chars@, tokens@, pos as int) {
                Ok((shape, end)) => end == next && pos < next <= tokens.len() && field_matches(
                    chars@,
                    tokens@,
                    shape,
                    field,
                ),
                Err(_) => false,
            },
            Err(error) => field_at(chars@, tokens@, pos as int) == Err::<
                (FieldShape, int),
                SyntaxError,
            >(error),
        },
{
    if !is_ident(tokens, pos) {
        return Err(SyntaxError { at: pos, expected: Expected::Identifier });
    }
    if !is_punct(tokens, pos + 1, ':') {
        return Err(SyntaxError { at: pos + 1, expected: Expected::Colon });
    }
    let end = scan_type(tokens, pos + 2);
    if pos + 2 < end {
        let start = tokens[pos + 2].span.start;
        let stop = tokens[end - 1].span.end;
        proof {
            assert(tokens@[pos + 2].span.end <= tokens@[end - 1].span.end) by {
                if pos + 2 < end - 1 {
                    assert(tokens@[pos + 2].span.end <= tokens@[end - 1].span.start);
                }
            }
        }
        let text = string_of(chars, start, stop);
        let name = text_of(chars, tokens, pos);
        let pieces = pieces_of(chars, tokens, pos + 2, end);
        let ty = TypeExpr { span: Span { start, end: stop }, text, pieces };
        return Ok((PField { name, name_span: tokens[pos].span, ty }, end));
    }
    Err(SyntaxError { at: pos + 2, expected: Expected::Type })
}

fn parse_field_list(
    chars: &Vec<char>,
    tokens: &Vec<Token>,
    start: usize,
    fields: &mut Vec<PField>,
    Ghost(shapes): Ghost<Seq<FieldShape>>,
) -> (result: Result<usize, SyntaxError>)
    requires
        tokens_in(tokens@, chars@.len() as int),
        start <= tokens.len(),
        fields_match(chars@, tokens@, shapes, old(fields)@),
    ensures
        match result {
            Ok(next) => match field_list_from(chars@, tokens@, start as int, shapes) {
                Ok((all, end)) => end == next && start < next <= tokens.len() && fields_match(
                    chars@,
                    tokens@,
                    all,
                    final(fields)@,
                ),
                Err(_) => false,
            },
            Err(error) => field_list_from(chars@, tokens@, start as int, shapes) == Err::<
                (Seq<FieldShape>, int),
                SyntaxError,
            >(error),
        },
{
    let mut pos: usize = start;
    let ghost mut acc = shapes;
    loop
        invariant
            tokens_in(tokens@, chars@.len() as int),
            start <= pos <= tokens.len(),
            fields_match(chars@, tokens@, acc, fields@),
            field_list_from(chars@, tokens@, pos as int, acc) == field_list_from(
                chars@,
                tokens@,
                start as int,
                shapes,
            ),
        decreases tokens.len() - pos,
    {
        if is_punct(tokens, pos, '}') {
            return Ok(pos + 1);
        }
        match parse_field(chars, tokens, pos) {
            Err(error) => {
                return Err(error);
            },
            Ok((field, next)) => {
                proof {
                    let shape = field_at(chars@, tokens@, pos as int)->Ok_0.0;
                    assert(fields_match(chars@, tokens@, acc.push(shape), fields@.push(field)));
                    acc = acc.push(shape);
                }
                fields.push(field);
                if is_punct(tokens, next, '}') {
                    return Ok(next + 1);
                } else if is_punct(tokens, next, ',') {
                    pos = next + 1;
                } else {
                    return Err(SyntaxError { at: next, expected: Expected::CommaOrCloseBrace });
                }
            },
        }
    }
}

fn parse_fields_block(
    chars: &Vec<char>,
    tokens: &Vec<Token>,
    pos: usize,
    fields: &mut Vec<PField>,
    Ghost(shapes): Ghost<Seq<FieldShape>>,
) -> (result: Result<usize, SyntaxError>)
    requires
        tokens_in(tokens@, chars@.len() as int),
        pos <= tokens.len(),
        fields_match(chars@, tokens@, shapes, old(fields)@),
    ensures
        match result {
            Ok(next) => match fields_block_at(chars@, tokens@, pos as int, shapes) {
                Ok((all, end)) => end == next && pos < next <= tokens.len() && fields_match(
                    chars@,
                    tokens@,
                    all,
                    final(fields)@,
                ),
                Err(_) => false,
            },
            Err(error) => fields_block_at(chars@, tokens@, pos as int, shapes) == Err::<
                (Seq<FieldShape>, int),
                SyntaxError,
            >(error),
        },
{
    if !is_keyword(chars, tokens, pos, "fields") {
        return Err(SyntaxError { at: pos, expected: Expected::Fields });
    }
    if !is_punct(tokens, pos + 1, '{') {
        return Err(SyntaxError { at: pos + 1, expected: Expected::OpenBrace });
    }
    parse_field_list(chars, tokens, pos + 2, fields, Ghost(shapes))
}

fn parse_block_list(chars: &Vec<char>, tokens: &Vec<Token>, start: usize) -> (result: Result<
    (Vec<PField>, usize),
    SyntaxError,
>)
    requires
        tokens_in(tokens@, chars@.len() as int),
        start <= tokens.len(),
    ensures
        match result {
            Ok((fields, next)) => match block_list_from(
                chars@,
                tokens@,
                start as int,
                Seq::empty(),
            ) {
                Ok((all, end)) => end == next && start < next <= tokens.len() && fields_match(
                    chars@,
                    tokens@,
                    all,
                    fields@,
                ),
                Err(_) => false,
            },
            Err(error) => block_list_from(chars@, tokens@, start as int, Seq::empty()) == Err::<
                (Seq<FieldShape>, int),
                SyntaxError,
            >(error),
        },
{
    let mut fields: Vec<PField> = Vec::new();
    let mut pos: usize = start;
    let ghost mut acc = Seq::<FieldShape>::empty();
    loop
        invariant
            tokens_in(tokens@, chars@.len() as int),
            start <= pos <= tokens.len(),
            fields_match(chars@, tokens@, acc, fields@),
            block_list_from(chars@, tokens@, pos as int, acc) == block_list_from(
                chars@,
                tokens@,
                start as int,
                Seq::empty(),
            ),
        decreases tokens.len() - pos,
    {
        if is_punct(tokens, pos, '}') {
            return Ok((fields, pos + 1));
        }
        match parse_fields_block(chars, tokens, pos, &mut fields, Ghost(acc)) {
            Err(error) => {
                return Err(error);
            },
            Ok(next) => {
                proof {
                    acc = fields_block_at(chars@, tokens@, pos as int, acc)->Ok_0.0;
                }
                if is_punct(tokens, next, '}') {
                    return Ok((fields, next + 1));
                } else if is_punct(tokens, next, ',') {
                    pos = next + 1;
                } else {
                    return Err(SyntaxError { at: next, expected: Expected::CommaOrCloseBrace });
                }
            },
        }
    }
}

fn parse_object(chars: &Vec<char>, tokens: &Vec<Token>, pos: usize) -> (result: Result<
    (PObject, usize),
    SyntaxError,
>)
    requires
        tokens_in(tokens@, chars@.len() as int),
        pos < tokens.len(),
    ensures
        match result {
            Ok((object, next)) => match object_at(chars@, tokens@, pos as int) {
                Ok((shape, end)) => end == next && pos < next <= tokens.len() && object_matches(
                    chars@,
                    tokens@,
                    shape,
                    object,
                ),
                Err(_) => false,
            },
            Err(error) => object_at(chars@, tokens@, pos as int) == Err::<
                (ObjectShape, int),
                SyntaxError,
            >(error),
        },
{
    if !is_keyword(chars, tokens, pos, "object") {
        return Err(SyntaxError { at: pos, expected: Expected::Object });
    }
    if !is_ident(tokens, pos + 1) {
        return Err(SyntaxError { at: pos + 1, expected: Expected::Identifier });
    }
    if !is_punct(tokens, pos + 2, '{') {
        return Err(SyntaxError { at: pos + 2, expected: Expected::OpenBrace });
    }
    match parse_block_list(chars, tokens, pos + 3) {
        Err(error) => Err(error),
        Ok((fields, next)) => {
            let name = text_of(chars, tokens, pos + 1);
            Ok((PObject { name, name_span: tokens[pos + 1].span, fields }, next))
        },
    }
}

/// Parses the tokens of a text into the objects that they describe.
///
/// The objects come in the order in which they are written, each with
/// the fields of all its blocks in that order. The first violation of the
/// grammar ends the parse and is the one error.
pub fn parse_objects(chars: &Vec<char>, tokens: &Vec<Token>) -> (result: Result<
    Vec<PObject>,
    SyntaxError,
>)
    requires
        tokens_in(tokens@, chars@.len() as int),
    ensures
        match result {
            Ok(objects) => match objects_of(chars@, tokens@) {
                Ok(shapes) => objects_match(chars@, tokens@, shapes, objects@),
                Err(_) => false,
            },
            Err(error) => objects_of(chars@, tokens@) == Err::<Seq<ObjectShape>, SyntaxError>(
                error,
            ),
        },
{
    let mut objects: Vec<PObject> = Vec::new();
    let mut pos: usize = 0;
    let ghost mut acc = Seq::<ObjectShape>::empty();
    while pos < tokens.len()
        invariant
            tokens_in(tokens@, chars@.len() as int),
            pos <= tokens.len(),
            objects_match(chars@, tokens@, acc, objects@),
            objects_from(chars@, tokens@, pos as int, acc) == objects_of(chars@, tokens@),
        decreases tokens.len() - pos,
    {
        match parse_object(chars, tokens, pos) {
            Err(error) => {
                return Err(error);
            },
            Ok((object, next)) => {
                proof {
                    let shape = object_at(chars@, tokens@, pos as int)->Ok_0.0;
                    assert(objects_match(chars@, tokens@, acc.push(shape), objects@.push(object)));
                    acc = acc.push(shape);
                }
                objects.push(object);
                pos = next;
            },
        }
    }
    Ok(objects)
}

/// The message for what was expected.
pub open spec fn expected_message(expected: Expected) -> Seq<char> {
    match expected {
        Expected::Object => "expected `object`"@,
        Expected::Fields => "expected `fields`"@,
        Expected::Identifier => "expected identifier"@,
        Expected::OpenBrace => "expected `{`"@,
        Expected::Colon => "expected `:`"@,
        Expected::Type => "expected a type"@,
        Expected::CommaOrCloseBrace => "expected `,` or `}`"@,
        Expected::End => "unexpected token"@,
    }
}

/// The place of a violation: that of the offending token, or the end of
/// the text where the tokens end too early.
pub open spec fn error_span(tokens: Seq<Token>, len: int, at: int) -> Span {
    if 0 <= at < tokens.len() {
        tokens[at].span
    } else {
        Span { start: len as usize, end: len as usize }
    }
}

/// Whether `diagnostic` reports the violation `error`: one error at the
/// offending token, without children.
pub open spec fn is_syntax_diagnostic(
    diagnostic: Diagnostic,
    tokens: Seq<Token>,
    len: int,
    error: SyntaxError,
) -> bool {
    diagnostic.is_plain(
        Level::Error,
        expected_message(error.expected),
        error_span(tokens, len, error.at as int),
    )
}

/// The diagnostic for a violation of the grammar.
pub fn syntax_diagnostic(chars: &Vec<char>, tokens: &Vec<Token>, error: SyntaxError) -> (result:
    Diagnostic)
    ensures
        is_syntax_diagnostic(result, tokens@, chars@.len() as int, error),
{
    let message = match error.expected {
        Expected::Object => "expected `object`",
        Expected::Fields => "expected `fields`",
        Expected::Identifier => "expected identifier",
        Expected::OpenBrace => "expected `{`",
        Expected::Colon => "expected `:`",
        Expected::Type => "expected a type",
        Expected::CommaOrCloseBrace => "expected `,` or `}`",
        Expected::End => "unexpected token",
    };
    let span = if error.at < tokens.len() {
        tokens[error.at].span
    } else {
        Span { start: chars.len(), end: chars.len() }
    };
    Diagnostic::new(Level::Error).with_message(message).with_span(span)
}

/// The violation where something that ends at `next` should be the whole
/// of the tokens and is not.
pub open spec fn whole(tokens: Seq<Token>, next: int) -> Option<SyntaxError> {
    if next == tokens.len() {
        None
    } else {
        Some(SyntaxError { at: next as usize, expected: Expected::End })
    }
}

/// Reads a text as one type expression: all of its tokens, of which
/// there must be one at least.
///
/// Fails with one diagnostic where the text has a comment or literal
/// that never ends, and where it has no token.
pub fn read_type(input: &str) -> (result: Result<TypeExpr, Diagnostic>)
    ensures
        match lex(input@) {
            Err(pos) => result is Err && is_lex_error(result->Err_0, pos),
            Ok(tokens) => if tokens.len() == 0 {
                result is Err && is_syntax_diagnostic(
                    result->Err_0,
                    tokens,
                    input@.len() as int,
                    SyntaxError { at: 0, expected: Expected::Type },
                )
            } else {
                &&& result is Ok
                &&& result->Ok_0.pieces_view() == token_texts(input@, tokens)
                &&& result->Ok_0.text@ == range_text(input@, tokens, 0, tokens.len() as int)
                &&& result->Ok_0.span == (Span {
                    start: tokens[0].span.start,
                    end: tokens[tokens.len() - 1].span.end,
                })
            },
        },
{
    let chars = chars_of(input);
    let tokens = match tokenize(&chars) {
        Ok(tokens) => tokens,
        Err(diagnostic) => {
            return Err(diagnostic);
        },
    };
    let n = tokens.len();
    if n > 0 {
        let start = tokens[0].span.start;
        let stop = tokens[n - 1].span.end;
        proof {
            if 0 < n - 1 {
                assert(tokens@[0].span.end <= tokens@[n - 1].span.start);
            }
        }
        let text = string_of(&chars, start, stop);
        let pieces = pieces_of(&chars, &tokens, 0, n);
        proof {
            assert(tokens@.subrange(0, n as int) =~= tokens@);
        }
        return Ok(TypeExpr { span: Span { start, end: stop }, text, pieces });
    }
    Err(syntax_diagnostic(&chars, &tokens, SyntaxError { at: 0, expected: Expected::Type }))
}

/// Whether `diagnostic` reports that what stands at `span` is no type: one
/// error at the span, without children.
pub open spec fn is_type_error(diagnostic: Diagnostic, span: Span) -> bool {
    diagnostic.is_plain(Level::Error, expected_message(Expected::Type), span)
}

/// The diagnostic for something at `span` that is no type.
pub fn type_error(span: Span) -> (result: Diagnostic)
    ensures
        is_type_error(result, span),
{
    Diagnostic::new(Level::Error).with_message("expected a type").with_span(span)
}

/// Hands the expression back where `valid` says that it is a type of
/// Rust; else the diagnostic at its place.
pub fn checked_type(ty: TypeExpr, valid: bool) -> (result: Result<TypeExpr, Diagnostic>)
    ensures
        match result {
            Ok(checked) => valid && checked == ty,
            Err(diagnostic) => !valid && is_type_error(diagnostic, ty.span),
        },
{
    if valid {
        Ok(ty)
    } else {
        Err(type_error(ty.span))
    }
}

/// Parses a text as one type expression, which must be a type of Rust.
pub fn parse_type(input: &str) -> (result: Result<TypeExpr, Diagnostic>)
    ensures
        match lex(input@) {
            Err(pos) => result is Err && is_lex_error(result->Err_0, pos),
            Ok(tokens) => if tokens.len() == 0 {
                result is Err && is_syntax_diagnostic(
                    result->Err_0,
                    tokens,
                    input@.len() as int,
                    SyntaxError { at: 0, expected: Expected::Type },
                )
            } else if type_syntax(range_text(input@, tokens, 0, tokens.len() as int)) {
                &&& result is Ok
                &&& result->Ok_0.pieces_view() == token_texts(input@, tokens)
                &&& result->Ok_0.text@ == range_text(input@, tokens, 0, tokens.len() as int)
                &&& result->Ok_0.span == (Span {
                    start: tokens[0].span.start,
                    end: tokens[tokens.len() - 1].span.end,
                })
            } else {
                result is Err && is_type_error(
                    result->Err_0,
                    Span { start: tokens[0].span.start, end: tokens[tokens.len() - 1].span.end },
                )
            },
        },
{
    match read_type(input) {
        Ok(ty) => {
            let valid = ty.is_valid();
            checked_type(ty, valid)
        },
        Err(diagnostic) => Err(diagnostic),
    }
}

/// Parses a text as one field, `name: type`.
pub fn parse_field_text(input: &str) -> (result: Result<PField, Diagnostic>)
    ensures
        match lex(input@) {
            Err(pos) => result is Err && is_lex_error(result->Err_0, pos),
            Ok(tokens) => match field_at(input@, tokens, 0) {
                Err(error) => result is Err && is_syntax_diagnostic(
                    result->Err_0,
                    tokens,
                    input@.len() as int,
                    error,
                ),
                Ok((shape, next)) => match whole(tokens, next) {
                    Some(error) => result is Err && is_syntax_diagnostic(
                        result->Err_0,
                        tokens,
                        input@.len() as int,
                        error,
                    ),
                    None => result is Ok && field_matches(input@, tokens, shape, result->Ok_0),
                },
            },
        },
{
    let chars = chars_of(input);
    let tokens = match tokenize(&chars) {
        Ok(tokens) => tokens,
        Err(diagnostic) => {
            return Err(diagnostic);
        },
    };
    match parse_field(&chars, &tokens, 0) {
        Err(error) => Err(syntax_diagnostic(&chars, &tokens, error)),
        Ok((field, next)) => {
            if next == tokens.len() {
                Ok(field)
            } else {
                Err(
                    syntax_diagnostic(
                        &chars,
                        &tokens,
                        SyntaxError { at: next, expected: Expected::End },
                    ),
                )
            }
        },
    }
}

/// Parses a text as one block of fields, `fields { .. }`.
pub fn parse_fields_text(input: &str) -> (result: Result<Vec<PField>, Diagnostic>)
    ensures
        match lex(input@) {
            Err(pos) => result is Err && is_lex_error(result->Err_0, pos),
            Ok(tokens) => match fields_block_at(input@, tokens, 0, Seq::empty()) {
                Err(error) => result is Err && is_syntax_diagnostic(
                    result->Err_0,
                    tokens,
                    input@.len() as int,
                    error,
                ),
                Ok((shapes, next)) => match whole(tokens, next) {
                    Some(error) => result is Err && is_syntax_diagnostic(
                        result->Err_0,
                        tokens,
                        input@.len() as int,
                        error,
                    ),
                    None => result is Ok && fields_match(input@, tokens, shapes, result->Ok_0@),
                },
            },
        },
{
    let chars = chars_of(input);
    let tokens = match tokenize(&chars) {
        Ok(tokens) => tokens,
        Err(diagnostic) => {
            return Err(diagnostic);
        },
    };
    let mut fields: Vec<PField> = Vec::new();
    match parse_fields_block(&chars, &tokens, 0, &mut fields, Ghost(Seq::empty())) {
        Err(error) => Err(syntax_diagnostic(&chars, &tokens, error)),
        Ok(next) => {
            if next == tokens.len() {
                Ok(fields)
            } else {
                Err(
                    syntax_diagnostic(
                        &chars,
                        &tokens,
                        SyntaxError { at: next, expected: Expected::End },
                    ),
                )
            }
        },
    }
}

/// Parses a text as one object, `object Name { .. }`.
pub fn parse_object_text(input: &str) -> (result: Result<PObject, Diagnostic>)
    ensures
        match lex(input@) {
            Err(pos) => result is Err && is_lex_error(result->Err_0, pos),
            Ok(tokens) => match object_at(input@, tokens, 0) {
                Err(error) => result is Err && is_syntax_diagnostic(
                    result->Err_0,
                    tokens,
                    input@.len() as int,
                    error,
                ),
                Ok((shape, next)) => match whole(tokens, next) {
                    Some(error) => result is Err && is_syntax_diagnostic(
                        result->Err_0,
                        tokens,
                        input@.len() as int,
                        error,
                    ),
                    None => result is Ok && object_matches(input@, tokens, shape, result->Ok_0),
                },
            },
        },
{
    let chars = chars_of(input);
    let tokens = match tokenize(&chars) {
        Ok(tokens) => tokens,
        Err(diagnostic) => {
            return Err(diagnostic);
        },
    };
    if tokens.len() == 0 {
        return Err(
            syntax_diagnostic(&chars, &tokens, SyntaxError { at: 0, expected: Expected::Object }),
        );
    }
    match parse_object(&chars, &tokens, 0) {
        Err(error) => Err(syntax_diagnostic(&chars, &tokens, error)),
        Ok((object, next)) => {
            if next == tokens.len() {
                Ok(object)
            } else {
                Err(
                    syntax_diagnostic(
                        &chars,
                        &tokens,
                        SyntaxError { at: next, expected: Expected::End },
                    ),
                )
            }
        },
    }
}

} // verus!
