//! Diagnostics: leveled messages with source spans and attached notes.

use vstd::prelude::*;

verus! {

/// A diagnostic level
#[derive(Clone, Copy, Debug, PartialEq, Eq, Structural)]
pub enum Level {
    /// An error
    Error,
    /// A warning
    Warning,
    /// A note
    Note,
    /// A help
    Help,
}

impl Level {
    /// The word that stands before a message of the level.
    pub open spec fn prefix_spec(self) -> Seq<char> {
        match self {
            Level::Error => "Error"@,
            Level::Warning => "Warning"@,
            Level::Note => "Note"@,
            Level::Help => "Help"@,
        }
    }

    /// The word that stands before a message of the level.
    pub fn prefix(&self) -> (result: &'static str)
        ensures
            result@ == self.prefix_spec(),
    {
        match self {
            Level::Error => "Error",
            Level::Warning => "Warning",
            Level::Note => "Note",
            Level::Help => "Help",
        }
    }
}

/// A region of the input, as a half-open range of character positions.
#[derive(Clone, Copy, Debug, PartialEq, Eq, Structural)]
pub struct Span {
    /// Position of the first character
    pub start: usize,
    /// Position after the last character
    pub end: usize,
}

/// A diagnostic
///
/// A diagnostic is a plain value: building one has no effect. A diagnostic
/// without spans applies to the whole input.
#[derive(Debug)]
pub struct Diagnostic {
    /// Level
    pub level: Level,
    /// Message
    pub message: String,
    /// Spans
    pub spans: Vec<Span>,
    /// Children
    pub children: Vec<Diagnostic>,
}

impl Diagnostic {
    /// Whether the diagnostic has the given level and message, the one
    /// given span and no child.
    pub open spec fn is_plain(&self, level: Level, message: Seq<char>, span: Span) -> bool {
        &&& self.level == level
        &&& self.message@ == message
        &&& self.spans@ == seq![span]
        &&& self.children@.len() == 0
    }

    /// Whether the diagnostic has the given level and message, the one
    /// given span, and one child of the given level and message with
    /// the given spans and no child of its own.
    pub open spec fn is_with_child(
        &self,
        level: Level,
        message: Seq<char>,
        span: Span,
        child_level: Level,
        child_message: Seq<char>,
        child_spans: Seq<Span>,
    ) -> bool {
        &&& self.level == level
        &&& self.message@ == message
        &&& self.spans@ == seq![span]
        &&& self.children@.len() == 1
        &&& self.children@[0].level == child_level
        &&& self.children@[0].message@ == child_message
        &&& self.children@[0].spans@ == child_spans
        &&& self.children@[0].children@.len() == 0
    }

    /// Creates a new diagnostic with an empty message, no span and no child.
    pub fn new(level: Level) -> (result: Self)
        ensures
            result.level == level,
            result.message@ == Seq::<char>::empty(),
            result.spans@ == Seq::<Span>::empty(),
            result.children@ == Seq::<Diagnostic>::empty(),
    {
        Diagnostic { level, message: String::new(), spans: Vec::new(), children: Vec::new() }
    }

    /// Set the diagnostic's message
    pub fn with_message(self, message: &str) -> (result: Self)
        ensures
            result.message@ == message@,
            result.level == self.level,
            result.spans == self.spans,
            result.children == self.children,
    {
        Diagnostic {
            level: self.level,
            message: String::from_str(message),
            spans: self.spans,
            children: self.children,
        }
    }

    /// Set the diagnostic's span
    pub fn with_span(self, span: Span) -> (result: Self)
        ensures
            result.spans@ == seq![span],
            result.level == self.level,
            result.message == self.message,
            result.children == self.children,
    {
        let mut spans: Vec<Span> = Vec::new();
        spans.push(span);
        Diagnostic { level: self.level, message: self.message, spans, children: self.children }
    }

    /// Set the diagnostic's spans
    pub fn with_spans(self, spans: Vec<Span>) -> (result: Self)
        ensures
            result.spans == spans,
            result.level == self.level,
            result.message == self.message,
            result.children == self.children,
    {
        Diagnostic { level: self.level, message: self.message, spans, children: self.children }
    }

    /// Add a child diagnostic after the children already attached.
    pub fn add_child(self, child: Diagnostic) -> (result: Self)
        ensures
            result.children@ == self.children@.push(child),
            result.level == self.level,
            result.message == self.message,
            result.spans == self.spans,
    {
        let mut children = self.children;
        children.push(child);
        Diagnostic { level: self.level, message: self.message, spans: self.spans, children }
    }

    /// The diagnostic as one line of text where spans cannot be shown:
    /// the message alone for an error, else the level, a colon and the
    /// message.
    pub open spec fn flat_text_spec(&self) -> Seq<char> {
        match self.level {
            Level::Error => self.message@,
            _ => self.level.prefix_spec() + ": "@ + self.message@,
        }
    }

    /// Whether the diagnostic ends the work: errors do.
    pub fn is_fatal(&self) -> (result: bool)
        ensures
            result == (self.level == Level::Error),
    {
        self.level == Level::Error
    }

    /// The diagnostic as one line of text.
    pub fn flat_text(&self) -> (result: String)
        ensures
            result@ == self.flat_text_spec(),
    {
        match self.level {
            Level::Error => String::from_str(self.message.as_str()),
            _ => {
                let mut text = String::from_str(self.level.prefix());
                text.append(": ");
                text.append(self.message.as_str());
                text
            },
        }
    }
}

} // verus!
