//! The one located error that a failing pass reports.

use vstd::prelude::*;

verus! {

/// What the parser needed at the place where it stopped.
#[derive(Clone, Copy, Debug, PartialEq, Eq, Structural)]
pub enum Expected {
    /// A text that can be split into tokens.
    Tokens,
    /// The name of a rule or of a field.
    Identifier,
    /// The `->` after a rule's name.
    Arrow,
    /// A type expression between the parentheses after a field's name.
    Type,
    /// The `,` or `|` that ends a field.
    Separator,
}

/// The kinds of error.
#[derive(Clone, Copy, Debug, PartialEq, Eq, Structural)]
pub enum ErrorKind {
    /// The tokens do not continue the grammar's syntax.
    Syntax(Expected),
    /// A rule has no field.
    EmptyRule,
    /// A rule has fields that end in `,` and fields that end in `|`.
    MixedSeparator,
    /// A field of a comma-separated rule has no payload type.
    MissingType,
}

/// An error with its place in the source.
#[derive(Clone, Debug, PartialEq, Eq)]
pub struct Diagnostic {
    pub kind: ErrorKind,
    /// The index of the offending token in the token sequence; the length of
    /// the sequence where the input ended too early.
    pub position: usize,
    /// The offending identifier, for the errors that name one.
    pub identifier: Option<String>,
}

/// The mathematical value of a [`Diagnostic`].
pub struct DiagnosticModel {
    pub kind: ErrorKind,
    pub position: int,
    pub identifier: Option<Seq<char>>,
}

impl View for Diagnostic {
    type V = DiagnosticModel;

    open spec fn view(&self) -> DiagnosticModel {
        DiagnosticModel {
            kind: self.kind,
            position: self.position as int,
            identifier: match self.identifier {
                Some(name) => Some(name@),
                None => None,
            },
        }
    }
}

/// The syntax error at a token.
pub open spec fn syntax_error(position: int, expected: Expected) -> DiagnosticModel {
    DiagnosticModel { kind: ErrorKind::Syntax(expected), position, identifier: None }
}

/// The text that explains an error of the given kind.
pub open spec fn message_text(kind: ErrorKind) -> Seq<char> {
    match kind {
        ErrorKind::Syntax(Expected::Tokens) => "Expected a sequence of tokens"@,
        ErrorKind::Syntax(Expected::Identifier) => "Expected an identifier"@,
        ErrorKind::Syntax(Expected::Arrow) => "Expected '->' after the name of a rule"@,
        ErrorKind::Syntax(Expected::Type) => "Expected a type between the parentheses"@,
        ErrorKind::Syntax(Expected::Separator) => "Expected '|' for enums or ',' for structs"@,
        ErrorKind::EmptyRule => "Invalid Rule. Expected at least one symbol"@,
        ErrorKind::MixedSeparator => "Expected either '|' or  ',' in a rule, not both"@,
        ErrorKind::MissingType => "Comma separated rules must have types in its fields"@,
    }
}

impl Diagnostic {
    /// The syntax error at the token with index `position`.
    pub fn syntax(position: usize, expected: Expected) -> (d: Diagnostic)
        ensures
            d@ == syntax_error(position as int, expected),
    {
        Diagnostic { kind: ErrorKind::Syntax(expected), position, identifier: None }
    }

    /// The message for a reader.
    pub fn message(&self) -> (text: String)
        ensures
            text@ == message_text(self.kind),
    {
        match self.kind {
            ErrorKind::Syntax(Expected::Tokens) => "Expected a sequence of tokens".to_owned(),
            ErrorKind::Syntax(Expected::Identifier) => "Expected an identifier".to_owned(),
            ErrorKind::Syntax(Expected::Arrow) => "Expected '->' after the name of a rule".to_owned(),
            ErrorKind::Syntax(Expected::Type) => "Expected a type between the parentheses".to_owned(),
            ErrorKind::Syntax(Expected::Separator) => "Expected '|' for enums or ',' for structs".to_owned(),
            ErrorKind::EmptyRule => "Invalid Rule. Expected at least one symbol".to_owned(),
            ErrorKind::MixedSeparator => "Expected either '|' or  ',' in a rule, not both".to_owned(),
            ErrorKind::MissingType => "Comma separated rules must have types in its fields".to_owned(),
        }
    }
}

} // verus!
