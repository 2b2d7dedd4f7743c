//! Tokens and the diagnostics they carry.

use vstd::prelude::*;
use vstd::string::*;
use crate::span::{Span, SpanView};
use crate::tokentype::{TokenType, TokenTypeView};

verus! {

/// What went wrong while scanning a token.
#[derive(Debug, Clone)]
pub enum ErrorKind {
    UnexpectedCharacter(char),
    InvalidDecimal,
    InvalidOperator(String),
    InvalidEscape(char),
    UnterminatedString,
    UnterminatedEscapeSequence,
    UnterminatedBlockComment,
}

/// The mathematical value of an [`ErrorKind`], with what it is rendered as.
pub enum ErrorKindView {
    UnexpectedCharacter(char),
    InvalidDecimal,
    InvalidOperator(Seq<char>),
    InvalidEscape(char),
    UnterminatedString,
    UnterminatedEscapeSequence,
    UnterminatedBlockComment,
}

impl ErrorKindView {
    /// The stable code of the kind.
    pub open spec fn code(self) -> Seq<char> {
        match self {
            ErrorKindView::UnexpectedCharacter(_) => "E000"@,
            ErrorKindView::InvalidDecimal => "E001"@,
            ErrorKindView::InvalidOperator(_) => "E002"@,
            ErrorKindView::InvalidEscape(_) => "E003"@,
            ErrorKindView::UnterminatedString => "E004"@,
            ErrorKindView::UnterminatedBlockComment => "E005"@,
            ErrorKindView::UnterminatedEscapeSequence => "E006"@,
        }
    }

    /// The one-line message of the kind, naming the offending text where
    /// there is one.
    pub open spec fn message(self) -> Seq<char> {
        match self {
            ErrorKindView::UnexpectedCharacter(c) => "Unexpected character: '"@.push(c) + "'"@,
            ErrorKindView::InvalidDecimal => "Invalid decimal number"@,
            ErrorKindView::InvalidOperator(op) => "Invalid operator: "@ + op,
            ErrorKindView::InvalidEscape(c) => "Invalid escape sequence: \\"@.push(c),
            ErrorKindView::UnterminatedString => "Unterminated string literal"@,
            ErrorKindView::UnterminatedBlockComment => "Unterminated block comment"@,
            ErrorKindView::UnterminatedEscapeSequence => "Unterminated escape sequence"@,
        }
    }

    /// The short label of the kind.
    pub open spec fn label(self) -> Seq<char> {
        match self {
            ErrorKindView::UnexpectedCharacter(_) => "Unexpected character"@,
            ErrorKindView::InvalidDecimal => "Expected digits after decimal point"@,
            ErrorKindView::InvalidOperator(_) => "Invalid operator"@,
            ErrorKindView::InvalidEscape(_) => "Invalid escape sequence"@,
            ErrorKindView::UnterminatedString => "Unterminated string"@,
            ErrorKindView::UnterminatedBlockComment => "Unterminated block comment"@,
            ErrorKindView::UnterminatedEscapeSequence => "Unterminated escape sequence"@,
        }
    }
}

impl View for ErrorKind {
    type V = ErrorKindView;

    open spec fn view(&self) -> ErrorKindView {
        match self {
            ErrorKind::UnexpectedCharacter(c) => ErrorKindView::UnexpectedCharacter(*c),
            ErrorKind::InvalidDecimal => ErrorKindView::InvalidDecimal,
            ErrorKind::InvalidOperator(op) => ErrorKindView::InvalidOperator(op@),
            ErrorKind::InvalidEscape(c) => ErrorKindView::InvalidEscape(*c),
            ErrorKind::UnterminatedString => ErrorKindView::UnterminatedString,
            ErrorKind::UnterminatedEscapeSequence => ErrorKindView::UnterminatedEscapeSequence,
            ErrorKind::UnterminatedBlockComment => ErrorKindView::UnterminatedBlockComment,
        }
    }
}

impl ErrorKind {
    pub fn code(&self) -> (text: String)
        ensures
            text@ == self@.code(),
    {
        match self {
            Self::UnexpectedCharacter(_) => "E000".to_string(),
            Self::InvalidDecimal => "E001".to_string(),
            Self::InvalidOperator(_) => "E002".to_string(),
            Self::InvalidEscape(_) => "E003".to_string(),
            Self::UnterminatedString => "E004".to_string(),
            Self::UnterminatedBlockComment => "E005".to_string(),
            Self::UnterminatedEscapeSequence => "E006".to_string(),
        }
    }

    pub fn message(&self) -> (text: String)
        ensures
            text@ == self@.message(),
    {
        match self {
            Self::UnexpectedCharacter(c) => {
                let mut text = "Unexpected character: '".to_string();
                text.push(*c);
                text.append("'");
                text
            },
            Self::InvalidDecimal => "Invalid decimal number".to_string(),
            Self::InvalidOperator(op) => {
                let mut text = "Invalid operator: ".to_string();
                text.append(op.as_str());
                text
            },
            Self::InvalidEscape(c) => {
                let mut text = "Invalid escape sequence: \\".to_string();
                text.push(*c);
                text
            },
            Self::UnterminatedString => "Unterminated string literal".to_string(),
            Self::UnterminatedBlockComment => "Unterminated block comment".to_string(),
            Self::UnterminatedEscapeSequence => "Unterminated escape sequence".to_string(),
        }
    }

    pub fn label(&self) -> (text: String)
        ensures
            text@ == self@.label(),
    {
        match self {
            Self::UnexpectedCharacter(_) => "Unexpected character".to_string(),
            Self::InvalidDecimal => "Expected digits after decimal point".to_string(),
            Self::InvalidOperator(_) => "Invalid operator".to_string(),
            Self::InvalidEscape(_) => "Invalid escape sequence".to_string(),
            Self::UnterminatedString => "Unterminated string".to_string(),
            Self::UnterminatedBlockComment => "Unterminated block comment".to_string(),
            Self::UnterminatedEscapeSequence => "Unterminated escape sequence".to_string(),
        }
    }
}

/// A recoverable lexical error: what went wrong, and where.
#[derive(Debug, Clone)]
pub struct DiagnosticError {
    pub kind: ErrorKind,
    pub span: Span,
}

/// The mathematical value of a [`DiagnosticError`].
pub struct DiagnosticView {
    pub kind: ErrorKindView,
    pub span: SpanView,
}

impl View for DiagnosticError {
    type V = DiagnosticView;

    open spec fn view(&self) -> DiagnosticView {
        DiagnosticView { kind: self.kind@, span: self.span@ }
    }
}

impl DiagnosticError {
    pub fn new(kind: ErrorKind, span: Span) -> (diagnostic: Self)
        ensures
            diagnostic.kind == kind,
            diagnostic.span == span,
    {
        Self { kind, span }
    }
}

/// A lexical unit: its category, its extent, and the diagnostics raised while
/// scanning it.
#[derive(Debug, Clone)]
pub struct Token {
    pub token_type: TokenType,
    pub span: Span,
    pub errors: Vec<DiagnosticError>,
}

/// The mathematical value of a [`Token`].
pub struct TokenView {
    pub token_type: TokenTypeView,
    pub span: SpanView,
    pub errors: Seq<DiagnosticView>,
}

/// The values of a sequence of diagnostics, in order.
pub open spec fn diagnostics_view(errors: Seq<DiagnosticError>) -> Seq<DiagnosticView> {
    errors.map_values(|d: DiagnosticError| d@)
}

impl View for Token {
    type V = TokenView;

    open spec fn view(&self) -> TokenView {
        TokenView {
            token_type: self.token_type@,
            span: self.span@,
            errors: diagnostics_view(self.errors@),
        }
    }
}

/// The values of a sequence of tokens, in order.
pub open spec fn tokens_view(tokens: Seq<Token>) -> Seq<TokenView> {
    tokens.map_values(|t: Token| t@)
}

} // verus!
