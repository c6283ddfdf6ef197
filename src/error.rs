//! Diagnostics: what went wrong, and where.
use crate::parse_duration::DurationError;
use crate::token::{push_char, Span};
use vstd::prelude::*;

verus! {

/// A key of the configuration.
#[derive(Clone, Copy, Debug, PartialEq, Eq, Structural)]
pub enum Attribute {
    Duration,
    OnError,
}

/// What rule of the input grammars was broken.
#[derive(Debug, PartialEq, Eq)]
pub enum ErrorKind {
    /// The configuration lacks this key.
    MissingAttribute(Attribute),
    /// The configuration gives this key twice.
    DuplicateAttribute(Attribute),
    /// The configuration names a key that is not known.
    UnknownAttribute(String),
    /// A token stands where another kind of token was expected.
    UnexpectedToken,
    /// A key is not followed by `=`.
    MissingEquals(Attribute),
    /// A key and its `=` are not followed by a value.
    MissingValue(Attribute),
    /// `on_error` is given a literal other than `"panic"`.
    UnsupportedLiteral,
    /// `duration` is given a literal that is no valid duration.
    InvalidDuration(DurationError),
    /// The item has no `fn` keyword.
    MissingFunctionDeclaration,
    /// The item has no `async` keyword.
    NotAsyncFunction,
    /// The item does not end in a braced body.
    MissingFunctionBody,
    /// The item's function name was not found.
    MissingFunctionName,
}

/// A failure, with the source position it points at when that is known.
#[derive(Debug, PartialEq, Eq)]
pub enum Error {
    Positioned(ErrorKind, Span),
    PositionMissing(ErrorKind),
}

/// A failure with its position settled, ready to be reported.
#[derive(Debug, PartialEq, Eq)]
pub struct Diagnostic {
    pub kind: ErrorKind,
    pub span: Span,
}

impl Error {
    pub fn missing_span(kind: ErrorKind) -> (r: Error)
        ensures
            r == Error::PositionMissing(kind),
    {
        Error::PositionMissing(kind)
    }

    pub fn with_span(span: Span, kind: ErrorKind) -> (r: Error)
        ensures
            r == Error::Positioned(kind, span),
    {
        Error::Positioned(kind, span)
    }

    /// Gives the error the position `span` if it has none yet; a position
    /// it has is kept.
    pub fn with_span_if_missing(self, span: Span) -> (r: Error)
        ensures
            r == self.position_or(span),
    {
        match self {
            Error::Positioned(kind, s) => Error::Positioned(kind, s),
            Error::PositionMissing(kind) => Error::Positioned(kind, span),
        }
    }

    /// Settles the error's position, falling back to `span` where it has
    /// none.
    pub fn into_to_syn_with_fallback_span(self, span: Span) -> (r: Diagnostic)
        ensures
            self.position_or(span) == Error::Positioned(r.kind, r.span),
    {
        match self {
            Error::Positioned(kind, s) => Diagnostic { kind, span: s },
            Error::PositionMissing(kind) => Diagnostic { kind, span },
        }
    }

    pub open spec fn position_or(self, span: Span) -> Error {
        match self {
            Error::Positioned(kind, s) => Error::Positioned(kind, s),
            Error::PositionMissing(kind) => Error::Positioned(kind, span),
        }
    }
}

pub open spec fn attribute_name(a: Attribute) -> Seq<char> {
    match a {
        Attribute::Duration => "duration"@,
        Attribute::OnError => "on_error"@,
    }
}

pub open spec fn duration_error_message(e: DurationError) -> Seq<char> {
    match e {
        DurationError::EmptyNumericSection => "failed to parse number: empty section"@,
        DurationError::InvalidNumber => "failed to parse number: not a 64-bit decimal"@,
        DurationError::UnknownUnit(c) => "unknown unit start: '"@ + seq![c] + "'"@,
        DurationError::UnfinishedCalculation => "duration ends in a number without a unit"@,
        DurationError::ZeroDuration => "duration adds up to zero"@,
    }
}

pub open spec fn message_of(kind: ErrorKind) -> Seq<char> {
    match kind {
        ErrorKind::MissingAttribute(a) => "Missing '"@ + attribute_name(a) + "' attribute"@,
        ErrorKind::DuplicateAttribute(a) => "Duplicate '"@ + attribute_name(a) + "' attribute"@,
        ErrorKind::UnknownAttribute(name) => "Unknown attribute: "@ + name@,
        ErrorKind::UnexpectedToken => "Unexpected token"@,
        ErrorKind::MissingEquals(a) => "Expected '=' after '"@ + attribute_name(a) + "'"@,
        ErrorKind::MissingValue(a) => "Expected a value after '"@ + attribute_name(a) + " ='"@,
        ErrorKind::UnsupportedLiteral => "Got 'on_error' str literal, expected only 'panic'"@,
        ErrorKind::InvalidDuration(e) => duration_error_message(e),
        ErrorKind::MissingFunctionDeclaration =>
            "'timeout' macro used on something without a 'fn' declaration"@,
        ErrorKind::NotAsyncFunction => "'timeout' macro only allowed on async functions"@,
        ErrorKind::MissingFunctionBody => "'timeout' macro used on something without a body"@,
        ErrorKind::MissingFunctionName => "'timeout' macro unable to find fn name"@,
    }
}

fn attribute_str(a: Attribute) -> (r: &'static str)
    ensures
        r@ == attribute_name(a),
{
    match a {
        Attribute::Duration => "duration",
        Attribute::OnError => "on_error",
    }
}

/// `before`, the key's name, then `after`.
fn around_attribute(before: &str, a: Attribute, after: &str) -> (r: String)
    ensures
        r@ == before@ + attribute_name(a) + after@,
{
    let mut s = String::from_str(before);
    s.append(attribute_str(a));
    s.append(after);
    s
}

impl DurationError {
    pub fn message(&self) -> (r: String)
        ensures
            r@ == duration_error_message(*self),
    {
        match self {
            DurationError::EmptyNumericSection => String::from_str(
                "failed to parse number: empty section",
            ),
            DurationError::InvalidNumber => String::from_str(
                "failed to parse number: not a 64-bit decimal",
            ),
            DurationError::UnknownUnit(c) => {
                let mut s = String::from_str("unknown unit start: '");
                push_char(&mut s, *c);
                s.append("'");
                s
            },
            DurationError::UnfinishedCalculation => String::from_str(
                "duration ends in a number without a unit",
            ),
            DurationError::ZeroDuration => String::from_str("duration adds up to zero"),
        }
    }
}

impl ErrorKind {
    pub fn message(&self) -> (r: String)
        ensures
            r@ == message_of(*self),
    {
        match self {
            ErrorKind::MissingAttribute(a) => around_attribute("Missing '", *a, "' attribute"),
            ErrorKind::DuplicateAttribute(a) => around_attribute("Duplicate '", *a, "' attribute"),
            ErrorKind::UnknownAttribute(name) => {
                let mut s = String::from_str("Unknown attribute: ");
                s.append(name.as_str());
                s
            },
            ErrorKind::UnexpectedToken => String::from_str("Unexpected token"),
            ErrorKind::MissingEquals(a) => around_attribute("Expected '=' after '", *a, "'"),
            ErrorKind::MissingValue(a) => around_attribute("Expected a value after '", *a, " ='"),
            ErrorKind::UnsupportedLiteral => String::from_str(
                "Got 'on_error' str literal, expected only 'panic'",
            ),
            ErrorKind::InvalidDuration(e) => e.message(),
            ErrorKind::MissingFunctionDeclaration => String::from_str(
                "'timeout' macro used on something without a 'fn' declaration",
            ),
            ErrorKind::NotAsyncFunction => String::from_str(
                "'timeout' macro only allowed on async functions",
            ),
            ErrorKind::MissingFunctionBody => String::from_str(
                "'timeout' macro used on something without a body",
            ),
            ErrorKind::MissingFunctionName => String::from_str(
                "'timeout' macro unable to find fn name",
            ),
        }
    }
}

} // verus!
