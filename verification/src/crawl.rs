//! Discovery of the object descriptions of a project.
//!
//! A project is a tree of modules, each in a file of its own. The crawl
//! visits the entry module, then its child modules in the order of their
//! declaration, each with its own children before the next. Reading the
//! files is the caller's part: the crawler says which module comes next
//! and takes its content.

use crate::model::{object_views, Object, ObjectView};
use crate::parse::grammar::{ident_at, keyword_at, punct_at, token_text};
use crate::parse::lexer::{lex, tokenize, tokens_in, Token, TokenKind};
use crate::parse::qobjects::{from_stream, stream_diagnostic_count, stream_objects};
use crate::syntax::{is_source_syntax, source_syntax};
use crate::text::{chars_of, join_path, join_path_spec, str_eq, string_of, string_views};
use vstd::prelude::*;

verus! {

/// Error of a crawl
#[derive(Debug)]
pub enum Error {
    /// The file of a module could not be read.
    IO {
        /// Which module, and where
        message: String,
        /// Cause, as text
        error: String,
    },
    /// A module is no Rust source, or one of its object descriptions has
    /// diagnostics.
    Source,
    /// Two objects of the project have the same name.
    DuplicatedObject {
        /// The name
        name: String,
    },
}

/// The text of a crawl error.
pub open spec fn error_message_spec(error: Error) -> Seq<char> {
    match error {
        Error::IO { message, error } => message@,
        Error::Source => "Cannot compile source code. Check Rust compilation issues"@,
        Error::DuplicatedObject { name } => "Duplicated object `"@ + name@ + "`"@,
    }
}

impl Error {
    /// The error as a message for the user.
    pub fn message(&self) -> (result: String)
        ensures
            result@ == error_message_spec(*self),
    {
        match self {
            Error::IO { message, error } => String::from_str(message.as_str()),
            Error::Source => String::from_str(
                "Cannot compile source code. Check Rust compilation issues",
            ),
            Error::DuplicatedObject { name } => {
                let mut text = String::from_str("Duplicated object `");
                text.append(name.as_str());
                text.append("`");
                text
            },
        }
    }
}

/// Where the file of a module is looked for.
pub struct ModuleFsReader;

impl ModuleFsReader {
    /// The file `<module>.rs` under `path`.
    pub fn file_path(path: &str, module: &str) -> (result: String)
        ensures
            result@ == join_path_spec(path@, module@ + ".rs"@, '/'),
    {
        let file = String::from_str(module).concat(".rs");
        join_path(path, file.as_str(), '/')
    }

    /// The file `mod.rs` in the directory `<module>` under `path`.
    pub fn mod_path(path: &str, module: &str) -> (result: String)
        ensures
            result@ == join_path_spec(join_path_spec(path@, module@, '/'), "mod.rs"@, '/'),
    {
        let directory = join_path(path, module, '/');
        join_path(directory.as_str(), "mod.rs", '/')
    }
}

/// What a module holds for the crawl, as plain values.
pub struct ScanView {
    /// Names of the child modules that have a file of their own
    pub sub_modules: Seq<Seq<char>>,
    /// Objects described in the module
    pub objects: Seq<ObjectView>,
    /// Whether a description in the module has diagnostics
    pub has_error: bool,
}

/// What a module holds for the crawl.
#[derive(Debug)]
pub struct ModuleVisitor {
    /// Names of the child modules that have a file of their own
    pub sub_modules: Vec<String>,
    /// Objects described in the module
    pub objects: Vec<Object>,
    /// Whether a description in the module has diagnostics
    pub has_error: bool,
}

impl View for ModuleVisitor {
    type V = ScanView;

    open spec fn view(&self) -> ScanView {
        ScanView {
            sub_modules: string_views(self.sub_modules@),
            objects: object_views(self.objects@),
            has_error: self.has_error,
        }
    }
}

/// Whether the token opens a group.
pub open spec fn group_opens(kind: TokenKind) -> bool {
    kind == TokenKind::Punct('(') || kind == TokenKind::Punct('[') || kind == TokenKind::Punct('{')
}

/// Whether the token closes a group.
pub open spec fn group_closes(kind: TokenKind) -> bool {
    kind == TokenKind::Punct(')') || kind == TokenKind::Punct(']') || kind == TokenKind::Punct('}')
}

/// The index of the token that closes the group whose inside holds
/// `pos`, with `depth` more groups open inside it.
pub open spec fn close_of(tokens: Seq<Token>, pos: int, depth: nat) -> Option<int>
    decreases tokens.len() - pos,
{
    if pos < 0 || pos >= tokens.len() {
        None
    } else if group_closes(tokens[pos].kind) {
        if depth == 0 {
            Some(pos)
        } else {
            close_of(tokens, pos + 1, (depth - 1) as nat)
        }
    } else if group_opens(tokens[pos].kind) {
        close_of(tokens, pos + 1, depth + 1)
    } else {
        close_of(tokens, pos + 1, depth)
    }
}

/// What the crawl holds after the tokens at `pos`, and where it goes on.
///
/// `mod name;` declares a child module with a file of its own. The body
/// of `mod name { .. }` is passed over, and so is what a macro is called
/// with, but for `qobjects`, called by that name alone: what it is called
/// with is a text of object descriptions, whose objects are added where
/// it has no diagnostic.
pub open spec fn scan_step(src: Seq<char>, tokens: Seq<Token>, pos: int, acc: ScanView) -> (
    ScanView,
    int,
) {
    if keyword_at(src, tokens, pos, "mod"@) && ident_at(tokens, pos + 1) {
        if punct_at(tokens, pos + 2, ';') {
            (
                ScanView {
                    sub_modules: acc.sub_modules.push(token_text(src, tokens[pos + 1])),
                    objects: acc.objects,
                    has_error: acc.has_error,
                },
                pos + 3,
            )
        } else if punct_at(tokens, pos + 2, '{') {
            match close_of(tokens, pos + 3, 0) {
                Some(close) => (acc, close + 1),
                None => (acc, tokens.len() as int),
            }
        } else {
            (acc, pos + 1)
        }
    } else if ident_at(tokens, pos) && punct_at(tokens, pos + 1, '!') {
        let open = if ident_at(tokens, pos + 2) {
            pos + 3
        } else {
            pos + 2
        };
        if 0 <= open < tokens.len() && group_opens(tokens[open].kind) {
            match close_of(tokens, open + 1, 0) {
                Some(close) => if open == pos + 2 && keyword_at(src, tokens, pos, "qobjects"@)
                    && !punct_at(tokens, pos - 1, ':') {
                    let text = src.subrange(
                        tokens[open].span.end as int,
                        tokens[close].span.start as int,
                    );
                    if stream_diagnostic_count(text) == 0 {
                        (
                            ScanView {
                                sub_modules: acc.sub_modules,
                                objects: acc.objects + stream_objects(text),
                                has_error: acc.has_error,
                            },
                            close + 1,
                        )
                    } else {
                        (
                            ScanView {
                                sub_modules: acc.sub_modules,
                                objects: acc.objects,
                                has_error: true,
                            },
                            close + 1,
                        )
                    }
                } else {
                    (acc, close + 1)
                },
                None => (acc, tokens.len() as int),
            }
        } else {
            (acc, pos + 1)
        }
    } else {
        (acc, pos + 1)
    }
}

/// What the crawl holds after the tokens from `pos` on.
pub open spec fn scan_from(src: Seq<char>, tokens: Seq<Token>, pos: int, acc: ScanView) -> ScanView
    decreases tokens.len() - pos,
{
    if pos < 0 || pos >= tokens.len() {
        acc
    } else {
        let (next_acc, next) = scan_step(src, tokens, pos, acc);
        if pos < next <= tokens.len() {
            scan_from(src, tokens, next, next_acc)
        } else {
            next_acc
        }
    }
}

/// What a module holds for the crawl, where `syntax_ok` says whether its
/// text is Rust source; nothing where it is none, or where a description
/// in it has diagnostics.
pub open spec fn module_scan_with(src: Seq<char>, syntax_ok: bool) -> Option<ScanView> {
    if !syntax_ok {
        None
    } else {
        match lex(src) {
            Err(_) => None,
            Ok(tokens) => {
                let scan = scan_from(
                    src,
                    tokens,
                    0,
                    ScanView {
                        sub_modules: Seq::empty(),
                        objects: Seq::empty(),
                        has_error: false,
                    },
                );
                if scan.has_error {
                    None
                } else {
                    Some(scan)
                }
            },
        }
    }
}

/// What a module holds for the crawl; nothing where the text is no Rust
/// source or a description in it has diagnostics.
pub open spec fn module_scan(src: Seq<char>) -> Option<ScanView> {
    module_scan_with(src, source_syntax(src))
}

fn opening(kind: TokenKind) -> (result: bool)
    ensures
        result == group_opens(kind),
{
    kind == TokenKind::Punct('(') || kind == TokenKind::Punct('[') || kind == TokenKind::Punct('{')
}

fn closing(kind: TokenKind) -> (result: bool)
    ensures
        result == group_closes(kind),
{
    kind == TokenKind::Punct(')') || kind == TokenKind::Punct(']') || kind == TokenKind::Punct('}')
}

fn find_close(tokens: &Vec<Token>, start: usize) -> (result: Option<usize>)
    requires
        start <= tokens.len(),
    ensures
        match result {
            Some(close) => close_of(tokens@, start as int, 0) == Some(close as int) && start
                <= close < tokens.len(),
            None => close_of(tokens@, start as int, 0) is None,
        },
{
    let mut i: usize = start;
    let mut depth: usize = 0;
    while i < tokens.len()
        invariant
            start <= i <= tokens.len(),
            depth <= i - start,
            close_of(tokens@, i as int, depth as nat) == close_of(tokens@, start as int, 0),
        decreases tokens.len() - i,
    {
        let kind = tokens[i].kind;
        if closing(kind) {
            if depth == 0 {
                return Some(i);
            }
            depth -= 1;
        } else if opening(kind) {
            depth += 1;
        }
        i += 1;
    }
    None
}

fn token_is(tokens: &Vec<Token>, pos: usize, kind: TokenKind) -> (result: bool)
    ensures
        result == (pos < tokens@.len() && tokens@[pos as int].kind == kind),
{
    pos < tokens.len() && tokens[pos].kind == kind
}

fn word_is(chars: &Vec<char>, tokens: &Vec<Token>, pos: usize, word: &str) -> (result: bool)
    requires
        tokens_in(tokens@, chars@.len() as int),
    ensures
        result == keyword_at(chars@, tokens@, pos as int, word@),
{
    if token_is(tokens, pos, TokenKind::Ident) {
        let text = string_of(chars, tokens[pos].span.start, tokens[pos].span.end);
        str_eq(text.as_str(), word)
    } else {
        false
    }
}

impl ModuleVisitor {
    /// A visitor that has found nothing.
    pub fn new() -> (result: Self)
        ensures
            result@ == (ScanView {
                sub_modules: Seq::empty(),
                objects: Seq::empty(),
                has_error: false,
            }),
    {
        let result = ModuleVisitor {
            sub_modules: Vec::new(),
            objects: Vec::new(),
            has_error: false,
        };
        proof {
            assert(result@.sub_modules =~= Seq::<Seq<char>>::empty());
            assert(result@.objects =~= Seq::<ObjectView>::empty());
        }
        result
    }

    fn visit_macro(&mut self, chars: &Vec<char>, from: usize, to: usize)
        requires
            from <= to <= chars.len(),
        ensures
            final(self)@ == ({
                let text = chars@.subrange(from as int, to as int);
                if stream_diagnostic_count(text) == 0 {
                    ScanView {
                        sub_modules: old(self)@.sub_modules,
                        objects: old(self)@.objects + stream_objects(text),
                        has_error: old(self)@.has_error,
                    }
                } else {
                    ScanView {
                        sub_modules: old(self)@.sub_modules,
                        objects: old(self)@.objects,
                        has_error: true,
                    }
                }
            }),
    {
        let text = string_of(chars, from, to);
        let ghost before = self@;
        match from_stream(text.as_str()) {
            Ok(mut objects) => {
                let ghost added = object_views(objects@);
                self.objects.append(&mut objects);
                proof {
                    assert(object_views(self.objects@) =~= before.objects + added);
                }
            },
            Err(_) => {
                self.has_error = true;
            },
        }
    }

    fn visit_tokens(&mut self, chars: &Vec<char>, tokens: &Vec<Token>)
        requires
            tokens_in(tokens@, chars@.len() as int),
        ensures
            final(self)@ == scan_from(chars@, tokens@, 0, old(self)@),
    {
        let mut pos: usize = 0;
        let len = tokens.len();
        while pos < len
            invariant
                len == tokens.len(),
                pos <= len,
                tokens_in(tokens@, chars@.len() as int),
                scan_from(chars@, tokens@, pos as int, self@) == scan_from(
                    chars@,
                    tokens@,
                    0,
                    old(self)@,
                ),
            decreases len - pos,
        {
            let ghost before = self@;
            let mut next: usize = pos + 1;
            if word_is(chars, tokens, pos, "mod") && token_is(tokens, pos + 1, TokenKind::Ident) {
                if token_is(tokens, pos + 2, TokenKind::Punct(';')) {
                    let name = string_of(
                        chars,
                        tokens[pos + 1].span.start,
                        tokens[pos + 1].span.end,
                    );
                    self.sub_modules.push(name);
                    next = pos + 3;
                    proof {
                        assert(string_views(self.sub_modules@) =~= before.sub_modules.push(
                            token_text(chars@, tokens@[pos + 1]),
                        ));
                    }
                } else if token_is(tokens, pos + 2, TokenKind::Punct('{')) {
                    next = match find_close(tokens, pos + 3) {
                        Some(close) => close + 1,
                        None => len,
                    };
                }
            } else if token_is(tokens, pos, TokenKind::Ident) && token_is(
                tokens,
                pos + 1,
                TokenKind::Punct('!'),
            ) {
                let open = if token_is(tokens, pos + 2, TokenKind::Ident) {
                    pos + 3
                } else {
                    pos + 2
                };
                if open < len && opening(tokens[open].kind) {
                    match find_close(tokens, open + 1) {
                        Some(close) => {
                            let qualified = pos > 0 && token_is(
                                tokens,
                                pos - 1,
                                TokenKind::Punct(':'),
                            );
                            if open == pos + 2 && word_is(chars, tokens, pos, "qobjects")
                                && !qualified {
                                let from = tokens[open].span.end;
                                let to = tokens[close].span.start;
                                self.visit_macro(chars, from, to);
                            }
                            next = close + 1;
                        },
                        None => {
                            next = len;
                        },
                    }
                }
            }
            proof {
                assert(scan_step(chars@, tokens@, pos as int, before) == (self@, next as int));
            }
            pos = next;
        }
    }
}

/// Scans the text of a module, of which `syntax_ok` says whether it is
/// Rust source: its child modules and its objects.
///
/// Fails with `Source` where the text is no Rust source, or where one of
/// its object descriptions has diagnostics.
pub fn scan_source(content: &str, syntax_ok: bool) -> (result: Result<ModuleVisitor, Error>)
    ensures
        match result {
            Ok(visitor) => module_scan_with(content@, syntax_ok) == Some(visitor@),
            Err(error) => error is Source && module_scan_with(content@, syntax_ok) is None,
        },
{
    if !syntax_ok {
        return Err(Error::Source);
    }
    let chars = chars_of(content);
    match tokenize(&chars) {
        Err(_) => Err(Error::Source),
        Ok(tokens) => {
            let mut visitor = ModuleVisitor::new();
            visitor.visit_tokens(&chars, &tokens);
            if visitor.has_error {
                Err(Error::Source)
            } else {
                Ok(visitor)
            }
        },
    }
}

/// Scans the text of a module: its child modules and its objects.
///
/// Fails with `Source` where the text is no Rust source, or where one of
/// its object descriptions has diagnostics.
pub fn scan_module(content: &str) -> (result: Result<ModuleVisitor, Error>)
    ensures
        match result {
            Ok(visitor) => module_scan(content@) == Some(visitor@),
            Err(error) => error is Source && module_scan(content@) is None,
        },
{
    let syntax_ok = is_source_syntax(content);
    scan_source(content, syntax_ok)
}

/// A module of the project: the directory in which its file is looked
/// for, and its name.
#[derive(Debug)]
pub struct ModulePath {
    /// Directory
    pub path: String,
    /// Name of the module
    pub module: String,
}

/// The views of a sequence of module paths.
pub open spec fn module_views(modules: Seq<ModulePath>) -> Seq<(Seq<char>, Seq<char>)> {
    modules.map_values(|module: ModulePath| (module.path@, module.module@))
}

/// The directory in which the children of a module are looked for: that
/// of the module itself for the entry module, else the directory named
/// after the module in it.
pub open spec fn new_path_spec(root: Seq<char>, path: Seq<char>, module: Seq<char>) -> Seq<char> {
    if module == root {
        path
    } else {
        join_path_spec(path, module, '/')
    }
}

/// The children of a module as they are put on the stack of modules to
/// visit: the first declared on top, that is last.
pub open spec fn children_stack(path: Seq<char>, sub_modules: Seq<Seq<char>>) -> Seq<
    (Seq<char>, Seq<char>),
> {
    Seq::new(sub_modules.len(), |k: int| (path, sub_modules[sub_modules.len() - 1 - k]))
}

/// The children of a module are visited in the order of their
/// declaration: the first declared is on top of the stack, and under it
/// stand the others as if they alone had been declared. So a child is
/// visited with all that it brings before the child declared after it.
pub proof fn lemma_children_order(path: Seq<char>, sub_modules: Seq<Seq<char>>)
    requires
        sub_modules.len() > 0,
    ensures
        children_stack(path, sub_modules).last() == (path, sub_modules[0]),
        children_stack(path, sub_modules).drop_last() == children_stack(
            path,
            sub_modules.drop_first(),
        ),
{
    let all = children_stack(path, sub_modules);
    let rest = children_stack(path, sub_modules.drop_first());
    assert(all.drop_last().len() == rest.len());
    assert forall|k: int| 0 <= k < rest.len() implies all.drop_last()[k] == rest[k] by {
        assert(sub_modules.drop_first()[sub_modules.len() - 2 - k] == sub_modules[sub_modules.len()
            - 1 - k]);
    }
    assert(all.drop_last() =~= rest);
}

/// The first name, at or after position `from`, that an earlier object
/// has.
pub open spec fn first_duplicate(names: Seq<Seq<char>>, from: int) -> Option<Seq<char>>
    decreases names.len() - from,
{
    if from < 0 || from >= names.len() {
        None
    } else if names.subrange(0, from).contains(names[from]) {
        Some(names[from])
    } else {
        first_duplicate(names, from + 1)
    }
}

/// The names of some objects.
pub open spec fn object_names(objects: Seq<ObjectView>) -> Seq<Seq<char>> {
    objects.map_values(|object: ObjectView| object.name)
}

/// Where no name is a duplicate, no two objects share a name; where one
/// is, two objects have it.
pub proof fn lemma_first_duplicate(names: Seq<Seq<char>>, from: int)
    requires
        0 <= from <= names.len(),
    ensures
        match first_duplicate(names, from) {
            None => forall|i: int, j: int|
                0 <= i < j < names.len() && from <= j ==> names[i] != names[j],
            Some(name) => exists|i: int, j: int|
                0 <= i < j < names.len() && names[i] == name && names[j] == name,
        },
    decreases names.len() - from,
{
    if from < names.len() {
        if names.subrange(0, from).contains(names[from]) {
            let i = choose|i: int|
                0 <= i < names.subrange(0, from).len() && names.subrange(0, from)[i]
                    == names[from];
            assert(0 <= i < from && names[i] == names[from] && names[from] == names[from]);
        } else {
            lemma_first_duplicate(names, from + 1);
            if first_duplicate(names, from + 1) is None {
                assert forall|i: int, j: int|
                    0 <= i < j < names.len() && from <= j implies names[i] != names[j] by {
                    if j == from {
                        assert(names.subrange(0, from)[i] == names[i]);
                    }
                }
            }
        }
    }
}

/// The state of a crawl: the modules still to visit, the next one last,
/// and the objects found so far.
#[derive(Debug)]
pub struct Crawler {
    root: String,
    pending: Vec<ModulePath>,
    objects: Vec<Object>,
}

impl Crawler {
    /// The name of the entry module.
    pub closed spec fn root(&self) -> Seq<char> {
        self.root@
    }

    /// The modules still to visit; the next one is the last.
    pub closed spec fn pending(&self) -> Seq<(Seq<char>, Seq<char>)> {
        module_views(self.pending@)
    }

    /// The objects found so far, in the order of discovery.
    pub closed spec fn objects(&self) -> Seq<ObjectView> {
        object_views(self.objects@)
    }

    /// A crawl that starts at the module `entry_module`, looked for in
    /// `entry_path`.
    pub fn new(entry_path: &str, entry_module: &str) -> (result: Self)
        ensures
            result.root() == entry_module@,
            result.pending() == seq![(entry_path@, entry_module@)],
            result.objects() == Seq::<ObjectView>::empty(),
    {
        let mut pending: Vec<ModulePath> = Vec::new();
        pending.push(
            ModulePath {
                path: String::from_str(entry_path),
                module: String::from_str(entry_module),
            },
        );
        let result = Crawler {
            root: String::from_str(entry_module),
            pending,
            objects: Vec::new(),
        };
        proof {
            assert(result.pending() =~= seq![(entry_path@, entry_module@)]);
            assert(result.objects() =~= Seq::<ObjectView>::empty());
        }
        result
    }

    /// The module to visit next, or `None` when the whole tree has been
    /// visited.
    pub fn next_module(&self) -> (result: Option<&ModulePath>)
        ensures
            match result {
                Some(module) => self.pending().len() > 0 && self.pending().last() == (
                    module.path@,
                    module.module@,
                ),
                None => self.pending().len() == 0,
            },
    {
        let n = self.pending.len();
        if n == 0 {
            None
        } else {
            Some(&self.pending[n - 1])
        }
    }

    /// The directory in which the children of `module`, itself looked for
    /// in `path`, are looked for.
    pub fn create_new_path(&self, path: &str, module: &str) -> (result: String)
        ensures
            result@ == new_path_spec(self.root(), path@, module@),
    {
        if str_eq(module, self.root.as_str()) {
            String::from_str(path)
        } else {
            join_path(path, module, '/')
        }
    }

    /// Takes what reading the next module gave, and visits the module.
    ///
    /// Where the file could not be read: `IO`, with the module and its
    /// directory in the message. Where its text is no Rust source or a
    /// description in it has diagnostics: `Source`. In both cases the
    /// crawl is left as it was. Else the objects of the module are added
    /// to those found, and its children take its place among the modules
    /// to visit, the first declared next. Where no module is left to
    /// visit, nothing happens.
    pub fn visit(&mut self, content: Result<String, String>) -> (result: Result<(), Error>)
        ensures
            final(self).root() == old(self).root(),
            old(self).pending().len() == 0 ==> result is Ok && final(self).pending() == old(
                self,
            ).pending() && final(self).objects() == old(self).objects(),
            old(self).pending().len() > 0 ==> match result {
                Ok(_) => {
                    let (path, module) = old(self).pending().last();
                    &&& content is Ok
                    &&& module_scan(content->Ok_0@) is Some
                    &&& final(self).objects() == old(self).objects() + module_scan(
                        content->Ok_0@,
                    )->0.objects
                    &&& final(self).pending() == old(self).pending().drop_last() + children_stack(
                        new_path_spec(old(self).root(), path, module),
                        module_scan(content->Ok_0@)->0.sub_modules,
                    )
                },
                Err(error) => {
                    let (path, module) = old(self).pending().last();
                    &&& final(self).pending() == old(self).pending()
                    &&& final(self).objects() == old(self).objects()
                    &&& match error {
                        Error::IO { message, error: cause } => content == Err::<String, String>(
                            cause,
                        ) && message@ == "Failed to read module "@ + module + " in "@ + path,
                        Error::Source => content is Ok && module_scan(content->Ok_0@) is None,
                        Error::DuplicatedObject { name } => false,
                    }
                },
            },
    {
        if self.pending.len() == 0 {
            return Ok(());
        }
        let n = self.pending.len();
        let ghost before_pending = self.pending();
        let ghost before_objects = self.objects();
        proof {
            assert(before_pending.last() == (self.pending@[n - 1].path@, self.pending@[n - 1].module@));
        }
        let text = match content {
            Ok(text) => text,
            Err(cause) => {
                let current = &self.pending[n - 1];
                let mut message = String::from_str("Failed to read module ");
                message.append(current.module.as_str());
                message.append(" in ");
                message.append(current.path.as_str());
                return Err(Error::IO { message, error: cause });
            },
        };
        let visitor = match scan_module(text.as_str()) {
            Ok(visitor) => visitor,
            Err(error) => {
                return Err(error);
            },
        };
        let current = match self.pending.pop() {
            Some(current) => current,
            None => {
                return Ok(());
            },
        };
        proof {
            assert(module_views(self.pending@) =~= before_pending.drop_last());
        }
        let new_path = self.create_new_path(current.path.as_str(), current.module.as_str());
        let mut found = visitor.objects;
        let ghost added = object_views(found@);
        self.objects.append(&mut found);
        proof {
            assert(object_views(self.objects@) =~= before_objects + added);
        }
        let sub_modules = visitor.sub_modules;
        let count = sub_modules.len();
        let ghost stack = children_stack(new_path@, string_views(sub_modules@));
        let mut k: usize = 0;
        while k < count
            invariant
                k <= count,
                count == sub_modules.len(),
                stack == children_stack(new_path@, string_views(sub_modules@)),
                module_views(self.pending@) == before_pending.drop_last() + stack.subrange(
                    0,
                    k as int,
                ),
                self.root@ == old(self).root@,
                object_views(self.objects@) == before_objects + added,
            decreases count - k,
        {
            let ghost pushed = module_views(self.pending@);
            let child = ModulePath {
                path: String::from_str(new_path.as_str()),
                module: String::from_str(sub_modules[count - 1 - k].as_str()),
            };
            self.pending.push(child);
            proof {
                assert(string_views(sub_modules@)[count - 1 - k] == sub_modules@[count - 1 - k]@);
                assert(module_views(self.pending@) =~= pushed.push(stack[k as int]));
                assert(stack.subrange(0, k + 1) =~= stack.subrange(0, k as int).push(
                    stack[k as int],
                ));
                assert(pushed.push(stack[k as int]) =~= before_pending.drop_last()
                    + stack.subrange(0, k + 1));
            }
            k += 1;
        }
        proof {
            assert(stack.subrange(0, count as int) =~= stack);
        }
        Ok(())
    }

    /// Checks that no two of the objects found share a name: else
    /// `DuplicatedObject`, with the first name, in the order of discovery,
    /// that an earlier object has.
    pub fn check(&self) -> (result: Result<(), Error>)
        ensures
            match result {
                Ok(_) => first_duplicate(object_names(self.objects()), 0) is None,
                Err(Error::DuplicatedObject { name }) => first_duplicate(
                    object_names(self.objects()),
                    0,
                ) == Some(name@),
                Err(_) => false,
            },
    {
        let ghost names = object_names(self.objects());
        let mut j: usize = 0;
        while j < self.objects.len()
            invariant
                j <= self.objects.len(),
                names == object_names(object_views(self.objects@)),
                first_duplicate(names, j as int) == first_duplicate(names, 0),
            decreases self.objects.len() - j,
        {
            let name = self.objects[j].name();
            proof {
                assert(names[j as int] == name@);
            }
            let mut i: usize = 0;
            while i < j
                invariant
                    i <= j < self.objects.len(),
                    names == object_names(object_views(self.objects@)),
                    names[j as int] == name@,
                    first_duplicate(names, j as int) == first_duplicate(names, 0),
                    forall|k: int| 0 <= k < i ==> names[k] != name@,
                decreases j - i,
            {
                proof {
                    assert(names[i as int] == self.objects@[i as int]@.name);
                }
                if str_eq(self.objects[i].name(), name) {
                    proof {
                        let earlier = names.subrange(0, j as int);
                        assert(earlier[i as int] == names[j as int]);
                        assert(earlier.contains(names[j as int]));
                    }
                    return Err(Error::DuplicatedObject { name: String::from_str(name) });
                }
                i += 1;
            }
            proof {
                assert(!names.subrange(0, j as int).contains(names[j as int]));
            }
            j += 1;
        }
        Ok(())
    }

    /// Ends the crawl: the objects found, in the order of discovery, where
    /// no two of them share a name; else `DuplicatedObject`, with the first
    /// name, in that order, that an earlier object has.
    pub fn finish(self) -> (result: Result<Vec<Object>, Error>)
        ensures
            match result {
                Ok(objects) => {
                    &&& object_views(objects@) == self.objects()
                    &&& first_duplicate(object_names(self.objects()), 0) is None
                    &&& forall|i: int, j: int|
                        0 <= i < j < self.objects().len() ==> self.objects()[i].name
                            != self.objects()[j].name
                },
                Err(Error::DuplicatedObject { name }) => {
                    &&& first_duplicate(object_names(self.objects()), 0) == Some(name@)
                    &&& exists|i: int, j: int|
                        0 <= i < j < self.objects().len() && self.objects()[i].name == name@
                            && self.objects()[j].name == name@
                },
                Err(_) => false,
            },
    {
        proof {
            let names = object_names(self.objects());
            lemma_first_duplicate(names, 0);
            match first_duplicate(names, 0) {
                None => {
                    assert forall|i: int, j: int|
                        0 <= i < j < self.objects().len() implies self.objects()[i].name
                        != self.objects()[j].name by {
                        assert(names[i] != names[j]);
                    }
                },
                Some(name) => {
                    let (i, j) = choose|i: int, j: int|
                        0 <= i < j < names.len() && names[i] == name && names[j] == name;
                    assert(0 <= i < j < self.objects().len() && self.objects()[i].name == name
                        && self.objects()[j].name == name);
                },
            }
        }
        match self.check() {
            Ok(_) => Ok(self.objects),
            Err(error) => Err(error),
        }
    }
}

} // verus!
