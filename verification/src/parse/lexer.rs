//! Tokens: identifiers, literals and punctuation, with their places in
//! the text. Whitespace and comments separate tokens and are dropped.

use crate::diagnostic::{Diagnostic, Level, Span};
use vstd::prelude::*;

verus! {

/// The kind of a token.
#[derive(Clone, Copy, Debug, PartialEq, Eq, Structural)]
pub enum TokenKind {
    /// An identifier or a keyword
    Ident,
    /// A number, a string or a character
    Literal,
    /// One character of punctuation, a bracket included
    Punct(char),
}

/// A token: its kind and where it stands.
#[derive(Clone, Copy, Debug, PartialEq, Eq, Structural)]
pub struct Token {
    /// Kind
    pub kind: TokenKind,
    /// Place in the text
    pub span: Span,
}

/// Whether the character separates tokens.
pub open spec fn is_space(c: char) -> bool {
    c == ' ' || c == '\t' || c == '\n' || c == '\r'
}

/// Whether the character is a decimal digit.
pub open spec fn is_digit(c: char) -> bool {
    '0' <= c && c <= '9'
}

/// Whether an identifier can start with the character.
pub open spec fn is_ident_start(c: char) -> bool {
    ('a' <= c && c <= 'z') || ('A' <= c && c <= 'Z') || c == '_' || c > '\x7f'
}

/// Whether an identifier can go on with the character.
pub open spec fn is_ident_continue(c: char) -> bool {
    is_ident_start(c) || is_digit(c)
}

/// The end of the run of identifier characters that holds `pos`.
pub open spec fn run_end(s: Seq<char>, pos: int) -> int
    decreases s.len() - pos,
{
    if 0 <= pos < s.len() && is_ident_continue(s[pos]) {
        run_end(s, pos + 1)
    } else {
        pos
    }
}

/// The position of the first line feed at or after `pos`, or the end.
pub open spec fn line_end(s: Seq<char>, pos: int) -> int
    decreases s.len() - pos,
{
    if 0 <= pos < s.len() && s[pos] != '\n' {
        line_end(s, pos + 1)
    } else {
        pos
    }
}

/// The position after the `*/` that closes a block comment whose inside
/// starts at `pos`, with `depth` more comments open around it.
pub open spec fn block_comment_end(s: Seq<char>, pos: int, depth: nat) -> Option<int>
    decreases s.len() - pos,
{
    if pos < 0 || pos + 1 >= s.len() {
        None
    } else if s[pos] == '*' && s[pos + 1] == '/' {
        if depth == 0 {
            Some(pos + 2)
        } else {
            block_comment_end(s, pos + 2, (depth - 1) as nat)
        }
    } else if s[pos] == '/' && s[pos + 1] == '*' {
        block_comment_end(s, pos + 2, depth + 1)
    } else {
        block_comment_end(s, pos + 1, depth)
    }
}

/// The position after the character `quote` that closes a literal whose
/// inside starts at `pos`; a backslash takes the next character with it.
pub open spec fn quoted_end(s: Seq<char>, pos: int, quote: char) -> Option<int>
    decreases s.len() - pos,
{
    if pos < 0 || pos >= s.len() {
        None
    } else if s[pos] == quote {
        Some(pos + 1)
    } else if s[pos] == '\\' {
        if pos + 1 < s.len() {
            quoted_end(s, pos + 2, quote)
        } else {
            None
        }
    } else {
        quoted_end(s, pos + 1, quote)
    }
}

/// The position of the first character at or after `pos` that is no `#`.
pub open spec fn hashes_end(s: Seq<char>, pos: int) -> int
    decreases s.len() - pos,
{
    if 0 <= pos < s.len() && s[pos] == '#' {
        hashes_end(s, pos + 1)
    } else {
        pos
    }
}

/// The position after the end of a raw string whose inside starts at
/// `pos`: after the first quote that `hashes` characters `#` follow.
pub open spec fn raw_end(s: Seq<char>, pos: int, hashes: int) -> Option<int>
    decreases s.len() - pos,
{
    if pos < 0 || pos >= s.len() {
        None
    } else if s[pos] == '"' && hashes_end(s, pos + 1) - (pos + 1) >= hashes {
        Some(pos + 1 + hashes)
    } else {
        raw_end(s, pos + 1, hashes)
    }
}

/// Where the characters `#` of a raw string start, where `pos` holds the
/// `r` or `br` of one: after it come any number of `#` and a quote.
pub open spec fn raw_start(s: Seq<char>, pos: int) -> Option<int> {
    let after = if s[pos] == 'r' {
        pos + 1
    } else if s[pos] == 'b' && pos + 1 < s.len() && s[pos + 1] == 'r' {
        pos + 2
    } else {
        -1
    };
    if after >= 0 && hashes_end(s, after) < s.len() && s[hashes_end(s, after)] == '"' {
        Some(after)
    } else {
        None
    }
}

/// A span from two positions.
pub open spec fn span_of(start: int, end: int) -> Span {
    Span { start: start as usize, end: end as usize }
}

/// What one step at `pos` finds.
pub enum Step {
    /// Nothing to keep, go on at the position
    Skip(int),
    /// A token that ends at the position
    Token(TokenKind, int),
    /// A comment or literal that never ends
    Unterminated,
}

/// The step at `pos`, which is inside the text.
pub open spec fn step_at(s: Seq<char>, pos: int) -> Step {
    let c = s[pos];
    if is_space(c) {
        Step::Skip(pos + 1)
    } else if c == '/' && pos + 1 < s.len() && s[pos + 1] == '/' {
        Step::Skip(line_end(s, pos + 2))
    } else if c == '/' && pos + 1 < s.len() && s[pos + 1] == '*' {
        match block_comment_end(s, pos + 2, 0) {
            Some(end) => Step::Skip(end),
            None => Step::Unterminated,
        }
    } else if raw_start(s, pos) is Some {
        let first = raw_start(s, pos)->0;
        let quote = hashes_end(s, first);
        match raw_end(s, quote + 1, quote - first) {
            Some(end) => Step::Token(TokenKind::Literal, end),
            None => Step::Unterminated,
        }
    } else if is_ident_start(c) {
        Step::Token(TokenKind::Ident, run_end(s, pos + 1))
    } else if is_digit(c) {
        Step::Token(TokenKind::Literal, run_end(s, pos + 1))
    } else if c == '"' {
        match quoted_end(s, pos + 1, '"') {
            Some(end) => Step::Token(TokenKind::Literal, end),
            None => Step::Unterminated,
        }
    } else if c == '\'' && pos + 1 < s.len() && s[pos + 1] == '\\' {
        match quoted_end(s, pos + 1, '\'') {
            Some(end) => Step::Token(TokenKind::Literal, end),
            None => Step::Unterminated,
        }
    } else if c == '\'' && pos + 2 < s.len() && s[pos + 2] == '\'' {
        Step::Token(TokenKind::Literal, pos + 3)
    } else {
        Step::Token(TokenKind::Punct(c), pos + 1)
    }
}

/// The tokens of `s` from `pos` on, after those in `acc`; or the position
/// at which a comment or a literal starts that never ends.
pub open spec fn lex_from(s: Seq<char>, pos: int, acc: Seq<Token>) -> Result<Seq<Token>, int>
    decreases s.len() - pos,
{
    if pos < 0 || pos >= s.len() {
        Ok(acc)
    } else {
        match step_at(s, pos) {
            Step::Skip(next) => if pos < next <= s.len() {
                lex_from(s, next, acc)
            } else {
                Err(pos)
            },
            Step::Token(kind, next) => if pos < next <= s.len() {
                lex_from(s, next, acc.push(Token { kind, span: span_of(pos, next) }))
            } else {
                Err(pos)
            },
            Step::Unterminated => Err(pos),
        }
    }
}

/// The tokens of a text.
pub open spec fn lex(s: Seq<char>) -> Result<Seq<Token>, int> {
    lex_from(s, 0, Seq::empty())
}

/// Every token lies inside the text, is not empty, and starts where the
/// one before it ends or later.
pub open spec fn tokens_in(tokens: Seq<Token>, len: int) -> bool {
    &&& forall|i: int|
        0 <= i < tokens.len() ==> (#[trigger] tokens[i]).span.start < tokens[i].span.end
            && tokens[i].span.end <= len
    &&& forall|i: int, j: int|
        0 <= i < j < tokens.len() ==> (#[trigger] tokens[i]).span.end <= (
        #[trigger] tokens[j]).span.start
}

fn space(c: char) -> (result: bool)
    ensures
        result == is_space(c),
{
    c == ' ' || c == '\t' || c == '\n' || c == '\r'
}

fn digit(c: char) -> (result: bool)
    ensures
        result == is_digit(c),
{
    '0' <= c && c <= '9'
}

fn ident_start(c: char) -> (result: bool)
    ensures
        result == is_ident_start(c),
{
    ('a' <= c && c <= 'z') || ('A' <= c && c <= 'Z') || c == '_' || c > '\x7f'
}

fn scan_run(chars: &Vec<char>, start: usize) -> (result: usize)
    requires
        start <= chars.len(),
    ensures
        result == run_end(chars@, start as int),
        start <= result <= chars.len(),
{
    let mut i: usize = start;
    while i < chars.len() && (ident_start(chars[i]) || digit(chars[i]))
        invariant
            start <= i <= chars.len(),
            run_end(chars@, i as int) == run_end(chars@, start as int),
        decreases chars.len() - i,
    {
        i += 1;
    }
    i
}

fn scan_line(chars: &Vec<char>, start: usize) -> (result: usize)
    requires
        start <= chars.len(),
    ensures
        result == line_end(chars@, start as int),
        start <= result <= chars.len(),
{
    let mut i: usize = start;
    while i < chars.len() && chars[i] != '\n'
        invariant
            start <= i <= chars.len(),
            line_end(chars@, i as int) == line_end(chars@, start as int),
        decreases chars.len() - i,
    {
        i += 1;
    }
    i
}

fn scan_block_comment(chars: &Vec<char>, start: usize) -> (result: Option<usize>)
    requires
        start <= chars.len(),
    ensures
        match result {
            Some(end) => block_comment_end(chars@, start as int, 0) == Some(end as int) && start
                < end <= chars.len(),
            None => block_comment_end(chars@, start as int, 0) is None,
        },
{
    let mut i: usize = start;
    let mut depth: usize = 0;
    while i < chars.len() && i + 1 < chars.len()
        invariant
            start <= i <= chars.len(),
            depth <= i - start,
            block_comment_end(chars@, i as int, depth as nat) == block_comment_end(
                chars@,
                start as int,
                0,
            ),
        decreases chars.len() - i,
    {
        if chars[i] == '*' && chars[i + 1] == '/' {
            if depth == 0 {
                return Some(i + 2);
            }
            depth -= 1;
            i += 2;
        } else if chars[i] == '/' && chars[i + 1] == '*' {
            depth += 1;
            i += 2;
        } else {
            i += 1;
        }
    }
    None
}

fn scan_hashes(chars: &Vec<char>, start: usize) -> (result: usize)
    requires
        start <= chars.len(),
    ensures
        result == hashes_end(chars@, start as int),
        start <= result <= chars.len(),
{
    let mut i: usize = start;
    while i < chars.len() && chars[i] == '#'
        invariant
            start <= i <= chars.len(),
            hashes_end(chars@, i as int) == hashes_end(chars@, start as int),
        decreases chars.len() - i,
    {
        i += 1;
    }
    i
}

fn scan_raw(chars: &Vec<char>, start: usize, hashes: usize) -> (result: Option<usize>)
    requires
        start <= chars.len(),
        hashes <= start,
    ensures
        match result {
            Some(end) => raw_end(chars@, start as int, hashes as int) == Some(end as int) && start
                < end <= chars.len(),
            None => raw_end(chars@, start as int, hashes as int) is None,
        },
{
    let mut i: usize = start;
    while i < chars.len()
        invariant
            start <= i <= chars.len(),
            hashes <= start,
            raw_end(chars@, i as int, hashes as int) == raw_end(
                chars@,
                start as int,
                hashes as int,
            ),
        decreases chars.len() - i,
    {
        if chars[i] == '"' {
            let after = scan_hashes(chars, i + 1);
            if after - (i + 1) >= hashes {
                return Some(i + 1 + hashes);
            }
        }
        i += 1;
    }
    None
}

fn find_raw_start(chars: &Vec<char>, pos: usize) -> (result: Option<usize>)
    requires
        pos < chars.len(),
    ensures
        match result {
            Some(first) => raw_start(chars@, pos as int) == Some(first as int) && pos < first
                <= chars.len() && first <= pos + 2,
            None => raw_start(chars@, pos as int) is None,
        },
{
    let first = if chars[pos] == 'r' {
        pos + 1
    } else if chars[pos] == 'b' && pos + 1 < chars.len() && chars[pos + 1] == 'r' {
        pos + 2
    } else {
        return None;
    };
    let quote = scan_hashes(chars, first);
    if quote < chars.len() && chars[quote] == '"' {
        Some(first)
    } else {
        None
    }
}

fn scan_quoted(chars: &Vec<char>, start: usize, quote: char) -> (result: Option<usize>)
    requires
        start <= chars.len(),
    ensures
        match result {
            Some(end) => quoted_end(chars@, start as int, quote) == Some(end as int) && start
                < end <= chars.len(),
            None => quoted_end(chars@, start as int, quote) is None,
        },
{
    let mut i: usize = start;
    while i < chars.len()
        invariant
            start <= i,
            quoted_end(chars@, i as int, quote) == quoted_end(chars@, start as int, quote),
        decreases chars.len() - i,
    {
        if chars[i] == quote {
            return Some(i + 1);
        } else if chars[i] == '\\' {
            if i + 1 < chars.len() {
                i += 2;
            } else {
                return None;
            }
        } else {
            i += 1;
        }
    }
    None
}

/// The diagnostic for a comment or literal that starts at `pos` and
/// never ends.
pub open spec fn is_lex_error(diagnostic: Diagnostic, pos: int) -> bool {
    diagnostic.is_plain(Level::Error, "unterminated comment or literal"@, span_of(pos, pos + 1))
}

/// Splits a text into tokens.
///
/// Fails, with one diagnostic at the place, on a block comment, a string
/// or a character literal that never ends.
pub fn tokenize(chars: &Vec<char>) -> (result: Result<Vec<Token>, Diagnostic>)
    ensures
        match result {
            Ok(tokens) => lex(chars@) == Ok::<Seq<Token>, int>(tokens@) && tokens_in(
                tokens@,
                chars@.len() as int,
            ),
            Err(diagnostic) => lex(chars@) is Err && is_lex_error(diagnostic, lex(chars@)->Err_0),
        },
{
    let mut tokens: Vec<Token> = Vec::new();
    let mut pos: usize = 0;
    let len = chars.len();
    while pos < len
        invariant
            len == chars.len(),
            pos <= len,
            lex_from(chars@, pos as int, tokens@) == lex(chars@),
            tokens_in(tokens@, pos as int),
        decreases len - pos,
    {
        let c = chars[pos];
        let mut kind = TokenKind::Punct(c);
        let mut keep = true;
        let mut end: Option<usize> = Some(pos + 1);
        if space(c) {
            keep = false;
        } else if c == '/' && pos + 1 < len && chars[pos + 1] == '/' {
            keep = false;
            end = Some(scan_line(chars, pos + 2));
        } else if c == '/' && pos + 1 < len && chars[pos + 1] == '*' {
            keep = false;
            end = scan_block_comment(chars, pos + 2);
        } else if let Some(first) = find_raw_start(chars, pos) {
            let quote = scan_hashes(chars, first);
            kind = TokenKind::Literal;
            end = scan_raw(chars, quote + 1, quote - first);
        } else if ident_start(c) {
            kind = TokenKind::Ident;
            end = Some(scan_run(chars, pos + 1));
        } else if digit(c) {
            kind = TokenKind::Literal;
            end = Some(scan_run(chars, pos + 1));
        } else if c == '"' {
            kind = TokenKind::Literal;
            end = scan_quoted(chars, pos + 1, '"');
        } else if c == '\'' && pos + 1 < len && chars[pos + 1] == '\\' {
            kind = TokenKind::Literal;
            end = scan_quoted(chars, pos + 1, '\'');
        } else if c == '\'' && pos + 1 < len && pos + 2 < len && chars[pos + 2] == '\'' {
            kind = TokenKind::Literal;
            end = Some(pos + 3);
        }
        match end {
            None => {
                let span = Span { start: pos, end: pos + 1 };
                return Err(
                    Diagnostic::new(Level::Error).with_message(
                        "unterminated comment or literal",
                    ).with_span(span),
                );
            },
            Some(next) => {
                if keep {
                    let ghost before = tokens@;
                    tokens.push(Token { kind, span: Span { start: pos, end: next } });
                    proof {
                        assert(tokens@ == before.push(
                            Token { kind, span: span_of(pos as int, next as int) },
                        ));
                    }
                }
                pos = next;
            },
        }
    }
    Ok(tokens)
}

} // verus!
