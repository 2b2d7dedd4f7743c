//! The parser: from tokens to statements.

use vstd::prelude::*;
use crate::ast::{
    BinaryOp, Expr, ExprView, Literal, Parameter, ParameterView, Stmt, StmtView, Type, TypeView,
    UnaryOp, exprs_view, fields_view, lemma_exprs_view_push, lemma_fields_view_push,
    lemma_parameters_view_push, lemma_stmts_view_push, lemma_types_view_push, parameters_view,
    stmts_view, types_view,
};
use crate::grammar;
use crate::grammar::{Parsed, at_end, closing_paren, holds, identifier_at, lambda_ahead};
use crate::number::is_float_text;
use crate::text::same_text;
use crate::token::Token;
use crate::tokentype::{TokenType, TokenTypeView};

verus! {

/// The kinds of token that the grammar knows.
#[derive(Debug, PartialEq)]
pub enum TokenKind {
    Let,
    Var,
    Fn,
    Rec,
    Class,
    Type,
    Module,
    Import,
    Return,
    If,
    Else,
    LeftParen,
    RightParen,
    LeftBrace,
    RightBrace,
    Comma,
    Colon,
    Semicolon,
    Arrow,
    Dot,
    Plus,
    Minus,
    Star,
    Slash,
    Percent,
    EqualEqual,
    NotEqual,
    Less,
    LessEqual,
    Greater,
    GreaterEqual,
    And,
    Or,
    Not,
    Equal,
    Identifier(String),
    Number(String),
    String(String),
    Boolean(bool),
    Eof,
}

/// The mathematical value of a [`TokenKind`].
pub enum TokenKindView {
    Let,
    Var,
    Fn,
    Rec,
    Class,
    Type,
    Module,
    Import,
    Return,
    If,
    Else,
    LeftParen,
    RightParen,
    LeftBrace,
    RightBrace,
    Comma,
    Colon,
    Semicolon,
    Arrow,
    Dot,
    Plus,
    Minus,
    Star,
    Slash,
    Percent,
    EqualEqual,
    NotEqual,
    Less,
    LessEqual,
    Greater,
    GreaterEqual,
    And,
    Or,
    Not,
    Equal,
    Identifier(Seq<char>),
    Number(Seq<char>),
    String(Seq<char>),
    Boolean(bool),
    Eof,
}

impl View for TokenKind {
    type V = TokenKindView;

    open spec fn view(&self) -> TokenKindView {
        match self {
            TokenKind::Let => TokenKindView::Let,
            TokenKind::Var => TokenKindView::Var,
            TokenKind::Fn => TokenKindView::Fn,
            TokenKind::Rec => TokenKindView::Rec,
            TokenKind::Class => TokenKindView::Class,
            TokenKind::Type => TokenKindView::Type,
            TokenKind::Module => TokenKindView::Module,
            TokenKind::Import => TokenKindView::Import,
            TokenKind::Return => TokenKindView::Return,
            TokenKind::If => TokenKindView::If,
            TokenKind::Else => TokenKindView::Else,
            TokenKind::LeftParen => TokenKindView::LeftParen,
            TokenKind::RightParen => TokenKindView::RightParen,
            TokenKind::LeftBrace => TokenKindView::LeftBrace,
            TokenKind::RightBrace => TokenKindView::RightBrace,
            TokenKind::Comma => TokenKindView::Comma,
            TokenKind::Colon => TokenKindView::Colon,
            TokenKind::Semicolon => TokenKindView::Semicolon,
            TokenKind::Arrow => TokenKindView::Arrow,
            TokenKind::Dot => TokenKindView::Dot,
            TokenKind::Plus => TokenKindView::Plus,
            TokenKind::Minus => TokenKindView::Minus,
            TokenKind::Star => TokenKindView::Star,
            TokenKind::Slash => TokenKindView::Slash,
            TokenKind::Percent => TokenKindView::Percent,
            TokenKind::EqualEqual => TokenKindView::EqualEqual,
            TokenKind::NotEqual => TokenKindView::NotEqual,
            TokenKind::Less => TokenKindView::Less,
            TokenKind::LessEqual => TokenKindView::LessEqual,
            TokenKind::Greater => TokenKindView::Greater,
            TokenKind::GreaterEqual => TokenKindView::GreaterEqual,
            TokenKind::And => TokenKindView::And,
            TokenKind::Or => TokenKindView::Or,
            TokenKind::Not => TokenKindView::Not,
            TokenKind::Equal => TokenKindView::Equal,
            TokenKind::Identifier(name) => TokenKindView::Identifier(name@),
            TokenKind::Number(text) => TokenKindView::Number(text@),
            TokenKind::String(text) => TokenKindView::String(text@),
            TokenKind::Boolean(value) => TokenKindView::Boolean(*value),
            TokenKind::Eof => TokenKindView::Eof,
        }
    }
}

impl TokenKindView {
    /// The name of the kind, as diagnostics print it.
    pub open spec fn name(self) -> Seq<char> {
        match self {
            TokenKindView::Let => "Let"@,
            TokenKindView::Var => "Var"@,
            TokenKindView::Fn => "Fn"@,
            TokenKindView::Rec => "Rec"@,
            TokenKindView::Class => "Class"@,
            TokenKindView::Type => "Type"@,
            TokenKindView::Module => "Module"@,
            TokenKindView::Import => "Import"@,
            TokenKindView::Return => "Return"@,
            TokenKindView::If => "If"@,
            TokenKindView::Else => "Else"@,
            TokenKindView::LeftParen => "LeftParen"@,
            TokenKindView::RightParen => "RightParen"@,
            TokenKindView::LeftBrace => "LeftBrace"@,
            TokenKindView::RightBrace => "RightBrace"@,
            TokenKindView::Comma => "Comma"@,
            TokenKindView::Colon => "Colon"@,
            TokenKindView::Semicolon => "Semicolon"@,
            TokenKindView::Arrow => "Arrow"@,
            TokenKindView::Dot => "Dot"@,
            TokenKindView::Plus => "Plus"@,
            TokenKindView::Minus => "Minus"@,
            TokenKindView::Star => "Star"@,
            TokenKindView::Slash => "Slash"@,
            TokenKindView::Percent => "Percent"@,
            TokenKindView::EqualEqual => "EqualEqual"@,
            TokenKindView::NotEqual => "NotEqual"@,
            TokenKindView::Less => "Less"@,
            TokenKindView::LessEqual => "LessEqual"@,
            TokenKindView::Greater => "Greater"@,
            TokenKindView::GreaterEqual => "GreaterEqual"@,
            TokenKindView::And => "And"@,
            TokenKindView::Or => "Or"@,
            TokenKindView::Not => "Not"@,
            TokenKindView::Equal => "Equal"@,
            TokenKindView::Identifier(_) => "Identifier"@,
            TokenKindView::Number(_) => "Number"@,
            TokenKindView::String(_) => "String"@,
            TokenKindView::Boolean(_) => "Boolean"@,
            TokenKindView::Eof => "Eof"@,
        }
    }

    /// What a token of the kind is shown as: identifiers, numbers and strings
    /// with their text, booleans with their value, the others by name.
    pub open spec fn text(self) -> Seq<char> {
        match self {
            TokenKindView::Identifier(name) => "identifier("@ + name + ")"@,
            TokenKindView::Number(text) => "number("@ + text + ")"@,
            TokenKindView::String(text) => "string("@ + text + ")"@,
            TokenKindView::Boolean(value) => if value {
                "Boolean(true)"@
            } else {
                "Boolean(false)"@
            },
            other => other.name(),
        }
    }

    /// Whether a token of kind `actual` is what a request for `self` asks for:
    /// any identifier for an identifier, any number for a number, any string
    /// for a string, and the very same kind otherwise.
    pub open spec fn admits(self, actual: TokenKindView) -> bool {
        match (self, actual) {
            (TokenKindView::Identifier(_), TokenKindView::Identifier(_)) => true,
            (TokenKindView::Number(_), TokenKindView::Number(_)) => true,
            (TokenKindView::String(_), TokenKindView::String(_)) => true,
            _ => self == actual,
        }
    }
}

impl Clone for TokenKind {
    fn clone(&self) -> (copy: TokenKind)
        ensures
            copy@ == self@,
    {
        match self {
            TokenKind::Let => TokenKind::Let,
            TokenKind::Var => TokenKind::Var,
            TokenKind::Fn => TokenKind::Fn,
            TokenKind::Rec => TokenKind::Rec,
            TokenKind::Class => TokenKind::Class,
            TokenKind::Type => TokenKind::Type,
            TokenKind::Module => TokenKind::Module,
            TokenKind::Import => TokenKind::Import,
            TokenKind::Return => TokenKind::Return,
            TokenKind::If => TokenKind::If,
            TokenKind::Else => TokenKind::Else,
            TokenKind::LeftParen => TokenKind::LeftParen,
            TokenKind::RightParen => TokenKind::RightParen,
            TokenKind::LeftBrace => TokenKind::LeftBrace,
            TokenKind::RightBrace => TokenKind::RightBrace,
            TokenKind::Comma => TokenKind::Comma,
            TokenKind::Colon => TokenKind::Colon,
            TokenKind::Semicolon => TokenKind::Semicolon,
            TokenKind::Arrow => TokenKind::Arrow,
            TokenKind::Dot => TokenKind::Dot,
            TokenKind::Plus => TokenKind::Plus,
            TokenKind::Minus => TokenKind::Minus,
            TokenKind::Star => TokenKind::Star,
            TokenKind::Slash => TokenKind::Slash,
            TokenKind::Percent => TokenKind::Percent,
            TokenKind::EqualEqual => TokenKind::EqualEqual,
            TokenKind::NotEqual => TokenKind::NotEqual,
            TokenKind::Less => TokenKind::Less,
            TokenKind::LessEqual => TokenKind::LessEqual,
            TokenKind::Greater => TokenKind::Greater,
            TokenKind::GreaterEqual => TokenKind::GreaterEqual,
            TokenKind::And => TokenKind::And,
            TokenKind::Or => TokenKind::Or,
            TokenKind::Not => TokenKind::Not,
            TokenKind::Equal => TokenKind::Equal,
            TokenKind::Identifier(name) => TokenKind::Identifier(name.clone()),
            TokenKind::Number(text) => TokenKind::Number(text.clone()),
            TokenKind::String(text) => TokenKind::String(text.clone()),
            TokenKind::Boolean(value) => TokenKind::Boolean(*value),
            TokenKind::Eof => TokenKind::Eof,
        }
    }
}

impl TokenKind {
    /// The name of the kind, as diagnostics print it.
    pub fn name(&self) -> (text: String)
        ensures
            text@ == self@.name(),
    {
        match self {
            TokenKind::Let => "Let".to_string(),
            TokenKind::Var => "Var".to_string(),
            TokenKind::Fn => "Fn".to_string(),
            TokenKind::Rec => "Rec".to_string(),
            TokenKind::Class => "Class".to_string(),
            TokenKind::Type => "Type".to_string(),
            TokenKind::Module => "Module".to_string(),
            TokenKind::Import => "Import".to_string(),
            TokenKind::Return => "Return".to_string(),
            TokenKind::If => "If".to_string(),
            TokenKind::Else => "Else".to_string(),
            TokenKind::LeftParen => "LeftParen".to_string(),
            TokenKind::RightParen => "RightParen".to_string(),
            TokenKind::LeftBrace => "LeftBrace".to_string(),
            TokenKind::RightBrace => "RightBrace".to_string(),
            TokenKind::Comma => "Comma".to_string(),
            TokenKind::Colon => "Colon".to_string(),
            TokenKind::Semicolon => "Semicolon".to_string(),
            TokenKind::Arrow => "Arrow".to_string(),
            TokenKind::Dot => "Dot".to_string(),
            TokenKind::Plus => "Plus".to_string(),
            TokenKind::Minus => "Minus".to_string(),
            TokenKind::Star => "Star".to_string(),
            TokenKind::Slash => "Slash".to_string(),
            TokenKind::Percent => "Percent".to_string(),
            TokenKind::EqualEqual => "EqualEqual".to_string(),
            TokenKind::NotEqual => "NotEqual".to_string(),
            TokenKind::Less => "Less".to_string(),
            TokenKind::LessEqual => "LessEqual".to_string(),
            TokenKind::Greater => "Greater".to_string(),
            TokenKind::GreaterEqual => "GreaterEqual".to_string(),
            TokenKind::And => "And".to_string(),
            TokenKind::Or => "Or".to_string(),
            TokenKind::Not => "Not".to_string(),
            TokenKind::Equal => "Equal".to_string(),
            TokenKind::Identifier(_) => "Identifier".to_string(),
            TokenKind::Number(_) => "Number".to_string(),
            TokenKind::String(_) => "String".to_string(),
            TokenKind::Boolean(_) => "Boolean".to_string(),
            TokenKind::Eof => "Eof".to_string(),
        }
    }

    /// Whether a token of kind `actual` is what a request for `self` asks for.
    pub fn admits(&self, actual: &TokenKind) -> (admitted: bool)
        ensures
            admitted == self@.admits(actual@),
    {
        match (self, actual) {
            (TokenKind::Let, TokenKind::Let) => true,
            (TokenKind::Var, TokenKind::Var) => true,
            (TokenKind::Fn, TokenKind::Fn) => true,
            (TokenKind::Rec, TokenKind::Rec) => true,
            (TokenKind::Class, TokenKind::Class) => true,
            (TokenKind::Type, TokenKind::Type) => true,
            (TokenKind::Module, TokenKind::Module) => true,
            (TokenKind::Import, TokenKind::Import) => true,
            (TokenKind::Return, TokenKind::Return) => true,
            (TokenKind::If, TokenKind::If) => true,
            (TokenKind::Else, TokenKind::Else) => true,
            (TokenKind::LeftParen, TokenKind::LeftParen) => true,
            (TokenKind::RightParen, TokenKind::RightParen) => true,
            (TokenKind::LeftBrace, TokenKind::LeftBrace) => true,
            (TokenKind::RightBrace, TokenKind::RightBrace) => true,
            (TokenKind::Comma, TokenKind::Comma) => true,
            (TokenKind::Colon, TokenKind::Colon) => true,
            (TokenKind::Semicolon, TokenKind::Semicolon) => true,
            (TokenKind::Arrow, TokenKind::Arrow) => true,
            (TokenKind::Dot, TokenKind::Dot) => true,
            (TokenKind::Plus, TokenKind::Plus) => true,
            (TokenKind::Minus, TokenKind::Minus) => true,
            (TokenKind::Star, TokenKind::Star) => true,
            (TokenKind::Slash, TokenKind::Slash) => true,
            (TokenKind::Percent, TokenKind::Percent) => true,
            (TokenKind::EqualEqual, TokenKind::EqualEqual) => true,
            (TokenKind::NotEqual, TokenKind::NotEqual) => true,
            (TokenKind::Less, TokenKind::Less) => true,
            (TokenKind::LessEqual, TokenKind::LessEqual) => true,
            (TokenKind::Greater, TokenKind::Greater) => true,
            (TokenKind::GreaterEqual, TokenKind::GreaterEqual) => true,
            (TokenKind::And, TokenKind::And) => true,
            (TokenKind::Or, TokenKind::Or) => true,
            (TokenKind::Not, TokenKind::Not) => true,
            (TokenKind::Equal, TokenKind::Equal) => true,
            (TokenKind::Identifier(_), TokenKind::Identifier(_)) => true,
            (TokenKind::Number(_), TokenKind::Number(_)) => true,
            (TokenKind::String(_), TokenKind::String(_)) => true,
            (TokenKind::Boolean(a), TokenKind::Boolean(b)) => *a == *b,
            (TokenKind::Eof, TokenKind::Eof) => true,
            _ => false,
        }
    }
}

/// A token as the parser sees it: its kind alone.
#[derive(Debug, Clone)]
pub struct ParserToken {
    pub kind: TokenKind,
}

impl View for ParserToken {
    type V = TokenKindView;

    open spec fn view(&self) -> TokenKindView {
        self.kind@
    }
}

/// The kinds of a sequence of parser tokens, in order.
pub open spec fn kinds_view(tokens: Seq<ParserToken>) -> Seq<TokenKindView> {
    tokens.map_values(|t: ParserToken| t@)
}

impl ParserToken {
    /// What the token is shown as.
    pub fn to_string(&self) -> (text: String)
        ensures
            text@ == self@.text(),
    {
        match &self.kind {
            TokenKind::Identifier(name) => {
                let mut text = "identifier(".to_string();
                text.append(name.as_str());
                text.append(")");
                text
            },
            TokenKind::Number(number) => {
                let mut text = "number(".to_string();
                text.append(number.as_str());
                text.append(")");
                text
            },
            TokenKind::String(string) => {
                let mut text = "string(".to_string();
                text.append(string.as_str());
                text.append(")");
                text
            },
            TokenKind::Boolean(value) => {
                if *value {
                    "Boolean(true)".to_string()
                } else {
                    "Boolean(false)".to_string()
                }
            },
            other => other.name(),
        }
    }
}

/// Why a parse failed.
#[derive(Debug)]
pub struct ParseError {
    pub message: String,
}

impl View for ParseError {
    type V = Seq<char>;

    open spec fn view(&self) -> Seq<char> {
        self.message@
    }
}

/// The parser's kind for a lexer's token type. The keywords and the
/// punctuation and operators of the grammar map to their kinds, and literals
/// and identifiers keep their text. What the grammar has no kind for, error
/// tokens among them, becomes the identifier `unknown`.
pub open spec fn adapted_kind(token_type: TokenTypeView) -> TokenKindView {
    match token_type {
        TokenTypeView::Number(text) => TokenKindView::Number(text),
        TokenTypeView::String(text) => TokenKindView::String(text),
        TokenTypeView::Identifier(name) => TokenKindView::Identifier(name),
        TokenTypeView::Boolean(value) => TokenKindView::Boolean(value),
        TokenTypeView::Keyword(word) => if word == "let"@ {
            TokenKindView::Let
        } else if word == "var"@ {
            TokenKindView::Var
        } else if word == "fn"@ {
            TokenKindView::Fn
        } else if word == "rec"@ {
            TokenKindView::Rec
        } else if word == "class"@ {
            TokenKindView::Class
        } else if word == "type"@ {
            TokenKindView::Type
        } else if word == "module"@ {
            TokenKindView::Module
        } else if word == "import"@ {
            TokenKindView::Import
        } else if word == "return"@ {
            TokenKindView::Return
        } else if word == "if"@ {
            TokenKindView::If
        } else if word == "else"@ {
            TokenKindView::Else
        } else {
            TokenKindView::Identifier("unknown"@)
        },
        TokenTypeView::Semicolon => TokenKindView::Semicolon,
        TokenTypeView::Colon => TokenKindView::Colon,
        TokenTypeView::Comma => TokenKindView::Comma,
        TokenTypeView::Dot => TokenKindView::Dot,
        TokenTypeView::Arrow => TokenKindView::Arrow,
        TokenTypeView::LeftParen => TokenKindView::LeftParen,
        TokenTypeView::RightParen => TokenKindView::RightParen,
        TokenTypeView::LeftBrace => TokenKindView::LeftBrace,
        TokenTypeView::RightBrace => TokenKindView::RightBrace,
        TokenTypeView::Plus => TokenKindView::Plus,
        TokenTypeView::Minus => TokenKindView::Minus,
        TokenTypeView::Star => TokenKindView::Star,
        TokenTypeView::Slash => TokenKindView::Slash,
        TokenTypeView::Modulo => TokenKindView::Percent,
        TokenTypeView::EqualEqual => TokenKindView::EqualEqual,
        TokenTypeView::NotEqual => TokenKindView::NotEqual,
        TokenTypeView::Less => TokenKindView::Less,
        TokenTypeView::LessEqual => TokenKindView::LessEqual,
        TokenTypeView::Greater => TokenKindView::Greater,
        TokenTypeView::GreaterEqual => TokenKindView::GreaterEqual,
        TokenTypeView::And => TokenKindView::And,
        TokenTypeView::Or => TokenKindView::Or,
        TokenTypeView::Bang => TokenKindView::Not,
        TokenTypeView::Equal => TokenKindView::Equal,
        TokenTypeView::Eof => TokenKindView::Eof,
        _ => TokenKindView::Identifier("unknown"@),
    }
}

impl vstd::std_specs::convert::FromSpecImpl<Token> for ParserToken {
    open spec fn obeys_from_spec() -> bool {
        false
    }

    open spec fn from_spec(token: Token) -> ParserToken {
        arbitrary()
    }
}

impl From<Token> for ParserToken {
    /// Keeps the kind of `token` and drops its span and diagnostics.
    fn from(token: Token) -> (adapted: ParserToken)
        ensures
            adapted@ == adapted_kind(token@.token_type),
    {
        let kind = match token.token_type {
            TokenType::Number(text) => TokenKind::Number(text),
            TokenType::String(text) => TokenKind::String(text),
            TokenType::Identifier(name) => TokenKind::Identifier(name),
            TokenType::Boolean(value) => TokenKind::Boolean(value),
            TokenType::Keyword(word) => {
                let word = word.as_str();
                if same_text(word, "let") {
                    TokenKind::Let
                } else if same_text(word, "var") {
                    TokenKind::Var
                } else if same_text(word, "fn") {
                    TokenKind::Fn
                } else if same_text(word, "rec") {
                    TokenKind::Rec
                } else if same_text(word, "class") {
                    TokenKind::Class
                } else if same_text(word, "type") {
                    TokenKind::Type
                } else if same_text(word, "module") {
                    TokenKind::Module
                } else if same_text(word, "import") {
                    TokenKind::Import
                } else if same_text(word, "return") {
                    TokenKind::Return
                } else if same_text(word, "if") {
                    TokenKind::If
                } else if same_text(word, "else") {
                    TokenKind::Else
                } else {
                    TokenKind::Identifier("unknown".to_string())
                }
            },
            TokenType::Semicolon => TokenKind::Semicolon,
            TokenType::Colon => TokenKind::Colon,
            TokenType::Comma => TokenKind::Comma,
            TokenType::Dot => TokenKind::Dot,
            TokenType::Arrow => TokenKind::Arrow,
            TokenType::LeftParen => TokenKind::LeftParen,
            TokenType::RightParen => TokenKind::RightParen,
            TokenType::LeftBrace => TokenKind::LeftBrace,
            TokenType::RightBrace => TokenKind::RightBrace,
            TokenType::Plus => TokenKind::Plus,
            TokenType::Minus => TokenKind::Minus,
            TokenType::Star => TokenKind::Star,
            TokenType::Slash => TokenKind::Slash,
            TokenType::Modulo => TokenKind::Percent,
            TokenType::EqualEqual => TokenKind::EqualEqual,
            TokenType::NotEqual => TokenKind::NotEqual,
            TokenType::Less => TokenKind::Less,
            TokenType::LessEqual => TokenKind::LessEqual,
            TokenType::Greater => TokenKind::Greater,
            TokenType::GreaterEqual => TokenKind::GreaterEqual,
            TokenType::And => TokenKind::And,
            TokenType::Or => TokenKind::Or,
            TokenType::Bang => TokenKind::Not,
            TokenType::Equal => TokenKind::Equal,
            TokenType::Eof => TokenKind::Eof,
            _ => TokenKind::Identifier("unknown".to_string()),
        };
        ParserToken { kind }
    }
}

/// Whether the result `got` of parsing a type, with the parser then at
/// `after`, is what the grammar says.
pub open spec fn type_agrees(got: Result<Type, ParseError>, after: int, said: Parsed<TypeView>)
    -> bool {
    match said {
        Parsed::Done { value, next } => got matches Ok(t) && t@ == value && after == next,
        Parsed::Failed { message } => got matches Err(e) && e@ == message,
    }
}

/// Whether the result `got` of parsing a list of types, with the parser then
/// at `after`, is what the grammar says.
pub open spec fn types_agree(
    got: Result<Vec<Type>, ParseError>,
    after: int,
    said: Parsed<Seq<TypeView>>,
) -> bool {
    match said {
        Parsed::Done { value, next } => got matches Ok(ts) && types_view(ts@) == value && after
            == next,
        Parsed::Failed { message } => got matches Err(e) && e@ == message,
    }
}

/// Whether the result `got` of parsing parameters, with the parser then at
/// `after`, is what the grammar says.
pub open spec fn parameters_agree(
    got: Result<Vec<Parameter>, ParseError>,
    after: int,
    said: Parsed<Seq<ParameterView>>,
) -> bool {
    match said {
        Parsed::Done { value, next } => got matches Ok(ps) && parameters_view(ps@) == value
            && after == next,
        Parsed::Failed { message } => got matches Err(e) && e@ == message,
    }
}

/// Whether the result `got` of parsing an expression, with the parser then at
/// `after`, is what the grammar says.
pub open spec fn expr_agrees(got: Result<Expr, ParseError>, after: int, said: Parsed<ExprView>)
    -> bool {
    match said {
        Parsed::Done { value, next } => got matches Ok(e) && e@ == value && after == next,
        Parsed::Failed { message } => got matches Err(e) && e@ == message,
    }
}

/// Whether the result `got` of parsing a statement, with the parser then at
/// `after`, is what the grammar says.
pub open spec fn stmt_agrees(got: Result<Stmt, ParseError>, after: int, said: Parsed<StmtView>)
    -> bool {
    match said {
        Parsed::Done { value, next } => got matches Ok(s) && s@ == value && after == next,
        Parsed::Failed { message } => got matches Err(e) && e@ == message,
    }
}

/// Whether the result `got` of parsing statements, with the parser then at
/// `after`, is what the grammar says.
pub open spec fn stmts_agree(
    got: Result<Vec<Stmt>, ParseError>,
    after: int,
    said: Parsed<Seq<StmtView>>,
) -> bool {
    match said {
        Parsed::Done { value, next } => got matches Ok(ss) && stmts_view(ss@) == value && after
            == next,
        Parsed::Failed { message } => got matches Err(e) && e@ == message,
    }
}

/// Parsing is a function of the tokens: two results that are both what the
/// grammar says of one token sequence succeed or fail together, with equal
/// statements or equal messages, and leave the parser at the same place.
pub proof fn lemma_parsing_is_deterministic(
    tokens: Seq<TokenKindView>,
    first: Result<Vec<Stmt>, ParseError>,
    first_after: int,
    second: Result<Vec<Stmt>, ParseError>,
    second_after: int,
)
    requires
        stmts_agree(first, first_after, grammar::parse_program(tokens)),
        stmts_agree(second, second_after, grammar::parse_program(tokens)),
    ensures
        first is Ok <==> second is Ok,
        first matches Ok(a) ==> second matches Ok(b) && stmts_view(a@) == stmts_view(b@)
            && first_after == second_after,
        first matches Err(a) ==> second matches Err(b) && a@ == b@,
{
}

/// A parser over a sequence of tokens: the tokens and the index of the next
/// one.
pub struct Parser {
    tokens: Vec<ParserToken>,
    current: usize,
}

/// An error with `message`.
fn failure(message: &str) -> (error: ParseError)
    ensures
        error@ == message@,
{
    ParseError { message: message.to_string() }
}

impl Parser {
    /// The kinds of the parser's tokens.
    pub closed spec fn kinds(&self) -> Seq<TokenKindView> {
        kinds_view(self.tokens@)
    }

    /// The index of the next token.
    pub closed spec fn position(&self) -> int {
        self.current as int
    }

    /// The next token is within the tokens or just after them.
    pub closed spec fn wf(&self) -> bool {
        self.current <= self.tokens.len()
    }

    /// The parser `after` came from this one by parsing: it is well-formed and
    /// has the same tokens.
    pub open spec fn leads_to(&self, after: &Parser) -> bool {
        &&& after.wf()
        &&& after.kinds() == self.kinds()
        &&& after.position() <= after.kinds().len()
    }

    /// A parser at the start of `tokens`.
    pub fn new(tokens: Vec<ParserToken>) -> (parser: Parser)
        ensures
            parser.wf(),
            parser.kinds() == kinds_view(tokens@),
            parser.position() == 0,
    {
        Parser { tokens, current: 0 }
    }

    /// The next token.
    fn peek(&self) -> (token: &ParserToken)
        requires
            self.wf(),
            self.position() < self.kinds().len(),
        ensures
            token@ == self.kinds()[self.position()],
    {
        &self.tokens[self.current]
    }

    /// The token before the next one.
    fn previous(&self) -> (token: &ParserToken)
        requires
            self.wf(),
            self.position() >= 1,
        ensures
            token@ == self.kinds()[self.position() - 1],
    {
        &self.tokens[self.current - 1]
    }

    /// The kind of the token before the next one.
    fn previous_token_kind(&self) -> (kind: TokenKind)
        requires
            self.wf(),
            self.position() >= 1,
        ensures
            kind@ == self.kinds()[self.position() - 1],
    {
        self.previous().kind.clone()
    }

    /// Whether the tokens are exhausted.
    fn is_at_end(&self) -> (ended: bool)
        requires
            self.wf(),
        ensures
            ended == at_end(self.kinds(), self.position()),
    {
        if self.current >= self.tokens.len() {
            true
        } else {
            match self.tokens[self.current].kind {
                TokenKind::Eof => true,
                _ => false,
            }
        }
    }

    /// Whether the next token is there and is what `kind` asks for.
    fn check(&self, kind: &TokenKind) -> (found: bool)
        requires
            self.wf(),
        ensures
            found == (!at_end(self.kinds(), self.position()) && kind@.admits(
                self.kinds()[self.position()],
            )),
    {
        if self.is_at_end() {
            return false;
        }
        kind.admits(&self.tokens[self.current].kind)
    }

    /// Moves past the next token, unless the tokens are exhausted.
    fn advance(&mut self)
        requires
            old(self).wf(),
        ensures
            old(self).leads_to(final(self)),
            final(self).position() == if at_end(old(self).kinds(), old(self).position()) {
                old(self).position()
            } else {
                old(self).position() + 1
            },
    {
        if !self.is_at_end() {
            self.current += 1;
        }
    }

    /// Moves past the next token if it is what `kind` asks for.
    fn accept(&mut self, kind: &TokenKind) -> (matched: bool)
        requires
            old(self).wf(),
        ensures
            old(self).leads_to(final(self)),
            matched == (!at_end(old(self).kinds(), old(self).position()) && kind@.admits(
                old(self).kinds()[old(self).position()],
            )),
            final(self).position() == if matched {
                old(self).position() + 1
            } else {
                old(self).position()
            },
    {
        if self.check(kind) {
            self.advance();
            true
        } else {
            false
        }
    }

    /// Moves past the next token if it is what one of `kinds` asks for.
    fn match_token(&mut self, kinds: &[TokenKind]) -> (matched: bool)
        requires
            old(self).wf(),
        ensures
            old(self).leads_to(final(self)),
            matched == (!at_end(old(self).kinds(), old(self).position()) && exists|k: int|
                0 <= k < kinds@.len() && (#[trigger] kinds@[k])@.admits(
                    old(self).kinds()[old(self).position()],
                )),
            final(self).position() == if matched {
                old(self).position() + 1
            } else {
                old(self).position()
            },
    {
        let mut k: usize = 0;
        while k < kinds.len()
            invariant
                self.wf(),
                *self == *old(self),
                k <= kinds@.len(),
                forall|j: int|
                    0 <= j < k ==> !(!at_end(self.kinds(), self.position()) && (
                    #[trigger] kinds@[j])@.admits(self.kinds()[self.position()])),
            decreases kinds@.len() - k,
        {
            if self.check(&kinds[k]) {
                self.advance();
                return true;
            }
            k += 1;
        }
        false
    }

    /// Moves past the next token if it is what `kind` asks for, and fails
    /// with `message` otherwise.
    fn consume(&mut self, kind: TokenKind, message: &str) -> (outcome: Result<(), ParseError>)
        requires
            old(self).wf(),
        ensures
            old(self).leads_to(final(self)),
            if !at_end(old(self).kinds(), old(self).position()) && kind@.admits(
                old(self).kinds()[old(self).position()],
            ) {
                outcome is Ok && final(self).position() == old(self).position() + 1
            } else {
                &&& outcome is Err
                &&& outcome->Err_0@ == message@
                &&& final(self).position() == old(self).position()
            },
    {
        if self.check(&kind) {
            self.advance();
            Ok(())
        } else {
            Err(failure(message))
        }
    }

    /// Moves past the next token if it is an identifier and returns its name,
    /// and fails with `message` otherwise.
    fn consume_identifier(&mut self, message: &str) -> (outcome: Result<String, ParseError>)
        requires
            old(self).wf(),
        ensures
            old(self).leads_to(final(self)),
            match identifier_at(old(self).kinds(), old(self).position()) {
                Some(name) => outcome matches Ok(text) && text@ == name && final(self).position()
                    == old(self).position() + 1,
                None => outcome matches Err(e) && e@ == message@ && final(self).position() == old(
                    self,
                ).position(),
            },
    {
        if self.is_at_end() {
            return Err(failure(message));
        }
        let found = match &self.tokens[self.current].kind {
            TokenKind::Identifier(name) => Some(name.clone()),
            _ => None,
        };
        match found {
            Some(name) => {
                self.advance();
                Ok(name)
            },
            None => Err(failure(message)),
        }
    }

    /// One or more types, separated by commas.
    fn parse_type_list(&mut self) -> (parsed: Result<Vec<Type>, ParseError>)
        requires
            old(self).wf(),
        ensures
            old(self).leads_to(final(self)),
            types_agree(
                parsed,
                final(self).position(),
                grammar::parse_type_list(
                    old(self).kinds(),
                    old(self).position(),
                    Seq::empty(),
                ),
            ),
            parsed is Ok ==> old(self).position() < final(self).position(),
        decreases old(self).kinds().len() - old(self).position(), 1int,
    {
        let mut params: Vec<Type> = Vec::new();
        assert(types_view(params@) =~= Seq::empty());
        loop
            invariant_except_break
                grammar::parse_type_list(
                    old(self).kinds(),
                    old(self).position(),
                    Seq::empty(),
                ) == grammar::parse_type_list(
                    self.kinds(),
                    self.position(),
                    types_view(params@),
                ),
            invariant
                old(self).leads_to(self),
                old(self).position() <= self.position(),
            ensures
                old(self).position() < self.position(),
                grammar::parse_type_list(
                    old(self).kinds(),
                    old(self).position(),
                    Seq::empty(),
                ) == (Parsed::Done { value: types_view(params@), next: self.position() }),
            decreases self.kinds().len() - self.position(),
        {
            let ghost seen = params@;
            let item = self.parse_type()?;
            params.push(item);
            proof {
                lemma_types_view_push(seen, item);
            }
            if !self.accept(&TokenKind::Comma) {
                break ;
            }
        }
        Ok(params)
    }

    /// A type: a function type, a generic type, or a name.
    fn parse_type(&mut self) -> (parsed: Result<Type, ParseError>)
        requires
            old(self).wf(),
        ensures
            old(self).leads_to(final(self)),
            type_agrees(
                parsed,
                final(self).position(),
                grammar::parse_type(old(self).kinds(), old(self).position()),
            ),
            parsed is Ok ==> old(self).position() < final(self).position(),
        decreases old(self).kinds().len() - old(self).position(), 0int,
    {
        if self.accept(&TokenKind::LeftParen) {
            let params = self.parse_type_list()?;
            self.consume(TokenKind::RightParen, "Expected ')' in function type")?;
            self.consume(TokenKind::Arrow, "Expected '->' in function type")?;
            let return_type = Box::new(self.parse_type()?);
            Ok(Type::Function(params, return_type))
        } else {
            let name = self.consume_identifier("Expected type name")?;
            if self.accept(&TokenKind::Less) {
                let params = self.parse_type_list()?;
                self.consume(TokenKind::Greater, "Expected '>' in generic type")?;
                Ok(Type::Generic { name, params })
            } else {
                Ok(Type::Simple(name))
            }
        }
    }

    /// One or more parameters `name (: type)?`, separated by commas.
    fn parse_parameter_list(&mut self) -> (parsed: Result<Vec<Parameter>, ParseError>)
        requires
            old(self).wf(),
        ensures
            old(self).leads_to(final(self)),
            parameters_agree(
                parsed,
                final(self).position(),
                grammar::parse_parameter_list(
                    old(self).kinds(),
                    old(self).position(),
                    Seq::empty(),
                ),
            ),
            parsed is Ok ==> old(self).position() < final(self).position(),
    {
        let mut params: Vec<Parameter> = Vec::new();
        assert(parameters_view(params@) =~= Seq::empty());
        loop
            invariant_except_break
                grammar::parse_parameter_list(
                    old(self).kinds(),
                    old(self).position(),
                    Seq::empty(),
                ) == grammar::parse_parameter_list(
                    self.kinds(),
                    self.position(),
                    parameters_view(params@),
                ),
            invariant
                old(self).leads_to(self),
                old(self).position() <= self.position(),
            ensures
                old(self).position() < self.position(),
                grammar::parse_parameter_list(
                    old(self).kinds(),
                    old(self).position(),
                    Seq::empty(),
                ) == (Parsed::Done { value: parameters_view(params@), next: self.position() }),
            decreases self.kinds().len() - self.position(),
        {
            let ghost seen = params@;
            let name = self.consume_identifier("Expected parameter name")?;
            let type_annotation = if self.accept(&TokenKind::Colon) {
                Some(self.parse_type()?)
            } else {
                None
            };
            let param = Parameter { name, type_annotation };
            params.push(param);
            proof {
                lemma_parameters_view_push(seen, param);
            }
            if !self.accept(&TokenKind::Comma) {
                break ;
            }
        }
        Ok(params)
    }

    /// The parameters of a function or of a lambda, after the opening
    /// parenthesis and up to and with the closing one.
    fn parse_parameters(&mut self) -> (parsed: Result<Vec<Parameter>, ParseError>)
        requires
            old(self).wf(),
        ensures
            old(self).leads_to(final(self)),
            parameters_agree(
                parsed,
                final(self).position(),
                grammar::parse_parameters(old(self).kinds(), old(self).position()),
            ),
            parsed is Ok ==> old(self).position() < final(self).position(),
    {
        let params = if !self.check(&TokenKind::RightParen) {
            self.parse_parameter_list()?
        } else {
            let params: Vec<Parameter> = Vec::new();
            assert(parameters_view(params@) =~= Seq::empty());
            params
        };
        self.consume(TokenKind::RightParen, "Expected ')' after parameters")?;
        Ok(params)
    }

    /// Whether the parenthesis that was opened just before the next token
    /// holds the parameters of a lambda. Looks ahead and consumes nothing.
    fn lambda_check(&self) -> (is_lambda: bool)
        requires
            self.wf(),
        ensures
            is_lambda == lambda_ahead(self.kinds(), self.position()),
    {
        let mut index = self.current;
        let mut nested: usize = 0;
        loop
            invariant_except_break
                closing_paren(self.kinds(), self.position(), 0) == closing_paren(
                    self.kinds(),
                    index as int,
                    nested as nat,
                ),
            invariant
                self.wf(),
                self.current <= index <= self.tokens.len(),
                nested <= index - self.current,
            ensures
                index as int == closing_paren(self.kinds(), self.position(), 0),
            decreases self.tokens.len() - index,
        {
            if index >= self.tokens.len() {
                break ;
            }
            match self.tokens[index].kind {
                TokenKind::LeftParen => {
                    nested += 1;
                },
                TokenKind::RightParen => {
                    if nested == 0 {
                        break ;
                    }
                    nested -= 1;
                },
                _ => {},
            }
            index += 1;
        }
        if index < self.tokens.len() && index + 1 < self.tokens.len() {
            match self.tokens[index + 1].kind {
                TokenKind::Arrow => true,
                _ => false,
            }
        } else {
            false
        }
    }

    /// A lambda, after its opening parenthesis.
    fn parse_lambda(&mut self) -> (parsed: Result<Expr, ParseError>)
        requires
            old(self).wf(),
        ensures
            old(self).leads_to(final(self)),
            expr_agrees(
                parsed,
                final(self).position(),
                grammar::parse_lambda(old(self).kinds(), old(self).position()),
            ),
            parsed is Ok ==> old(self).position() < final(self).position(),
        decreases old(self).kinds().len() - old(self).position(), 0int,
    {
        let params = self.parse_parameters()?;
        self.consume(TokenKind::Arrow, "Expected '->' after lambda parameters")?;
        let body = self.expression()?;
        Ok(Expr::Lambda { params, body: Box::new(body) })
    }

    /// An expression.
    pub fn expression(&mut self) -> (parsed: Result<Expr, ParseError>)
        requires
            old(self).wf(),
        ensures
            old(self).leads_to(final(self)),
            expr_agrees(
                parsed,
                final(self).position(),
                grammar::parse_expression(old(self).kinds(), old(self).position()),
            ),
            parsed is Ok ==> old(self).position() < final(self).position(),
        decreases old(self).kinds().len() - old(self).position(), 16int,
    {
        self.logical_or()
    }

    /// Operands joined by `||`.
    fn logical_or(&mut self) -> (parsed: Result<Expr, ParseError>)
        requires
            old(self).wf(),
        ensures
            old(self).leads_to(final(self)),
            expr_agrees(
                parsed,
                final(self).position(),
                grammar::parse_binary(old(self).kinds(), old(self).position(), 5),
            ),
            parsed is Ok ==> old(self).position() < final(self).position(),
        decreases old(self).kinds().len() - old(self).position(), 15int,
    {
        let mut expr = self.logical_and()?;
        loop
            invariant_except_break
                grammar::parse_binary(old(self).kinds(), old(self).position(), 5)
                    == grammar::parse_binary_rest(self.kinds(), self.position(), 5, expr@),
            invariant
                old(self).leads_to(self),
                old(self).position() < self.position(),
            ensures
                grammar::parse_binary(old(self).kinds(), old(self).position(), 5) == (
                Parsed::Done { value: expr@, next: self.position() }),
            decreases self.kinds().len() - self.position(),
        {
            let found =
            if self.accept(&TokenKind::Or) {
                Some(BinaryOp::Or)
            } else {
                None
            };
            let op = match found {
                Some(op) => op,
                None => {
                    break ;
                },
            };
            let right = self.logical_and()?;
            expr = Expr::Binary { left: Box::new(expr), op, right: Box::new(right) };
        }
        Ok(expr)
    }

    /// Operands joined by `&&`.
    fn logical_and(&mut self) -> (parsed: Result<Expr, ParseError>)
        requires
            old(self).wf(),
        ensures
            old(self).leads_to(final(self)),
            expr_agrees(
                parsed,
                final(self).position(),
                grammar::parse_binary(old(self).kinds(), old(self).position(), 4),
            ),
            parsed is Ok ==> old(self).position() < final(self).position(),
        decreases old(self).kinds().len() - old(self).position(), 13int,
    {
        let mut expr = self.equality()?;
        loop
            invariant_except_break
                grammar::parse_binary(old(self).kinds(), old(self).position(), 4)
                    == grammar::parse_binary_rest(self.kinds(), self.position(), 4, expr@),
            invariant
                old(self).leads_to(self),
                old(self).position() < self.position(),
            ensures
                grammar::parse_binary(old(self).kinds(), old(self).position(), 4) == (
                Parsed::Done { value: expr@, next: self.position() }),
            decreases self.kinds().len() - self.position(),
        {
            let found =
            if self.accept(&TokenKind::And) {
                Some(BinaryOp::And)
            } else {
                None
            };
            let op = match found {
                Some(op) => op,
                None => {
                    break ;
                },
            };
            let right = self.equality()?;
            expr = Expr::Binary { left: Box::new(expr), op, right: Box::new(right) };
        }
        Ok(expr)
    }

    /// Operands joined by `==` and `!=`.
    fn equality(&mut self) -> (parsed: Result<Expr, ParseError>)
        requires
            old(self).wf(),
        ensures
            old(self).leads_to(final(self)),
            expr_agrees(
                parsed,
                final(self).position(),
                grammar::parse_binary(old(self).kinds(), old(self).position(), 3),
            ),
            parsed is Ok ==> old(self).position() < final(self).position(),
        decreases old(self).kinds().len() - old(self).position(), 11int,
    {
        let mut expr = self.comparison()?;
        loop
            invariant_except_break
                grammar::parse_binary(old(self).kinds(), old(self).position(), 3)
                    == grammar::parse_binary_rest(self.kinds(), self.position(), 3, expr@),
            invariant
                old(self).leads_to(self),
                old(self).position() < self.position(),
            ensures
                grammar::parse_binary(old(self).kinds(), old(self).position(), 3) == (
                Parsed::Done { value: expr@, next: self.position() }),
            decreases self.kinds().len() - self.position(),
        {
            let found =
            if self.accept(&TokenKind::EqualEqual) {
                Some(BinaryOp::EqualEqual)
            } else if self.accept(&TokenKind::NotEqual) {
                Some(BinaryOp::NotEqual)
            } else {
                None
            };
            let op = match found {
                Some(op) => op,
                None => {
                    break ;
                },
            };
            let right = self.comparison()?;
            expr = Expr::Binary { left: Box::new(expr), op, right: Box::new(right) };
        }
        Ok(expr)
    }

    /// Operands joined by `<`, `<=`, `>` and `>=`.
    fn comparison(&mut self) -> (parsed: Result<Expr, ParseError>)
        requires
            old(self).wf(),
        ensures
            old(self).leads_to(final(self)),
            expr_agrees(
                parsed,
                final(self).position(),
                grammar::parse_binary(old(self).kinds(), old(self).position(), 2),
            ),
            parsed is Ok ==> old(self).position() < final(self).position(),
        decreases old(self).kinds().len() - old(self).position(), 9int,
    {
        let mut expr = self.addition()?;
        loop
            invariant_except_break
                grammar::parse_binary(old(self).kinds(), old(self).position(), 2)
                    == grammar::parse_binary_rest(self.kinds(), self.position(), 2, expr@),
            invariant
                old(self).leads_to(self),
                old(self).position() < self.position(),
            ensures
                grammar::parse_binary(old(self).kinds(), old(self).position(), 2) == (
                Parsed::Done { value: expr@, next: self.position() }),
            decreases self.kinds().len() - self.position(),
        {
            let found =
            if self.accept(&TokenKind::Less) {
                Some(BinaryOp::Less)
            } else if self.accept(&TokenKind::LessEqual) {
                Some(BinaryOp::LessEqual)
            } else if self.accept(&TokenKind::Greater) {
                Some(BinaryOp::Greater)
            } else if self.accept(&TokenKind::GreaterEqual) {
                Some(BinaryOp::GreaterEqual)
            } else {
                None
            };
            let op = match found {
                Some(op) => op,
                None => {
                    break ;
                },
            };
            let right = self.addition()?;
            expr = Expr::Binary { left: Box::new(expr), op, right: Box::new(right) };
        }
        Ok(expr)
    }

    /// Operands joined by `+` and `-`.
    fn addition(&mut self) -> (parsed: Result<Expr, ParseError>)
        requires
            old(self).wf(),
        ensures
            old(self).leads_to(final(self)),
            expr_agrees(
                parsed,
                final(self).position(),
                grammar::parse_binary(old(self).kinds(), old(self).position(), 1),
            ),
            parsed is Ok ==> old(self).position() < final(self).position(),
        decreases old(self).kinds().len() - old(self).position(), 7int,
    {
        let mut expr = self.multiplication()?;
        loop
            invariant_except_break
                grammar::parse_binary(old(self).kinds(), old(self).position(), 1)
                    == grammar::parse_binary_rest(self.kinds(), self.position(), 1, expr@),
            invariant
                old(self).leads_to(self),
                old(self).position() < self.position(),
            ensures
                grammar::parse_binary(old(self).kinds(), old(self).position(), 1) == (
                Parsed::Done { value: expr@, next: self.position() }),
            decreases self.kinds().len() - self.position(),
        {
            let found =
            if self.accept(&TokenKind::Plus) {
                Some(BinaryOp::Add)
            } else if self.accept(&TokenKind::Minus) {
                Some(BinaryOp::Sub)
            } else {
                None
            };
            let op = match found {
                Some(op) => op,
                None => {
                    break ;
                },
            };
            let right = self.multiplication()?;
            expr = Expr::Binary { left: Box::new(expr), op, right: Box::new(right) };
        }
        Ok(expr)
    }

    /// Operands joined by `*`, `/` and `%`.
    fn multiplication(&mut self) -> (parsed: Result<Expr, ParseError>)
        requires
            old(self).wf(),
        ensures
            old(self).leads_to(final(self)),
            expr_agrees(
                parsed,
                final(self).position(),
                grammar::parse_binary(old(self).kinds(), old(self).position(), 0),
            ),
            parsed is Ok ==> old(self).position() < final(self).position(),
        decreases old(self).kinds().len() - old(self).position(), 5int,
    {
        let mut expr = self.unary()?;
        loop
            invariant_except_break
                grammar::parse_binary(old(self).kinds(), old(self).position(), 0)
                    == grammar::parse_binary_rest(self.kinds(), self.position(), 0, expr@),
            invariant
                old(self).leads_to(self),
                old(self).position() < self.position(),
            ensures
                grammar::parse_binary(old(self).kinds(), old(self).position(), 0) == (
                Parsed::Done { value: expr@, next: self.position() }),
            decreases self.kinds().len() - self.position(),
        {
            let found =
            if self.accept(&TokenKind::Star) {
                Some(BinaryOp::Mul)
            } else if self.accept(&TokenKind::Slash) {
                Some(BinaryOp::Div)
            } else if self.accept(&TokenKind::Percent) {
                Some(BinaryOp::Mod)
            } else {
                None
            };
            let op = match found {
                Some(op) => op,
                None => {
                    break ;
                },
            };
            let right = self.unary()?;
            expr = Expr::Binary { left: Box::new(expr), op, right: Box::new(right) };
        }
        Ok(expr)
    }

    /// Prefix operators `!` and `-`, as many as there are, and a primary
    /// expression.
    fn unary(&mut self) -> (parsed: Result<Expr, ParseError>)
        requires
            old(self).wf(),
        ensures
            old(self).leads_to(final(self)),
            expr_agrees(
                parsed,
                final(self).position(),
                grammar::parse_unary(old(self).kinds(), old(self).position()),
            ),
            parsed is Ok ==> old(self).position() < final(self).position(),
        decreases old(self).kinds().len() - old(self).position(), 3int,
    {
        if self.match_token(&[TokenKind::Not, TokenKind::Minus]) {
            let op = match self.previous_token_kind() {
                TokenKind::Not => UnaryOp::Not,
                _ => UnaryOp::Negate,
            };
            let expr = self.unary()?;
            return Ok(Expr::Unary { op, expr: Box::new(expr) });
        }
        self.primary()
    }

    /// The fields of a struct literal, after its opening brace: names
    /// separated by commas.
    fn struct_fields(&mut self) -> (parsed: Result<Vec<(String, Expr)>, ParseError>)
        requires
            old(self).wf(),
        ensures
            old(self).leads_to(final(self)),
            match grammar::parse_struct_fields(
                old(self).kinds(),
                old(self).position(),
                Seq::empty(),
            ) {
                Parsed::Done { value, next } => parsed matches Ok(fields) && fields_view(fields@)
                    == value && final(self).position() == next,
                Parsed::Failed { message } => parsed matches Err(e) && e@ == message,
            },
            parsed is Ok ==> old(self).position() <= final(self).position(),
    {
        let mut fields: Vec<(String, Expr)> = Vec::new();
        assert(fields_view(fields@) =~= Seq::empty());
        loop
            invariant_except_break
                grammar::parse_struct_fields(
                    old(self).kinds(),
                    old(self).position(),
                    Seq::empty(),
                ) == grammar::parse_struct_fields(
                    self.kinds(),
                    self.position(),
                    fields_view(fields@),
                ),
            invariant
                old(self).leads_to(self),
                old(self).position() <= self.position(),
            ensures
                grammar::parse_struct_fields(
                    old(self).kinds(),
                    old(self).position(),
                    Seq::empty(),
                ) == (Parsed::Done { value: fields_view(fields@), next: self.position() }),
            decreases self.kinds().len() - self.position(),
        {
            if self.check(&TokenKind::RightBrace) || self.is_at_end() {
                break ;
            }
            let ghost seen = fields@;
            let field_name = self.consume_identifier("Expected field name in struct literal")?;
            let value = Expr::Identifier(field_name.clone());
            proof {
                lemma_fields_view_push(seen, field_name, value);
            }
            fields.push((field_name, value));
            if !self.accept(&TokenKind::Comma) {
                break ;
            }
        }
        Ok(fields)
    }

    /// The declarations up to a closing brace or the end of the tokens.
    fn block_items(&mut self) -> (parsed: Result<Vec<Stmt>, ParseError>)
        requires
            old(self).wf(),
        ensures
            old(self).leads_to(final(self)),
            stmts_agree(
                parsed,
                final(self).position(),
                grammar::parse_items(old(self).kinds(), old(self).position(), Seq::empty()),
            ),
            parsed is Ok ==> old(self).position() <= final(self).position(),
        decreases old(self).kinds().len() - old(self).position(), 20int,
    {
        let mut body: Vec<Stmt> = Vec::new();
        assert(stmts_view(body@) =~= Seq::empty());
        loop
            invariant_except_break
                grammar::parse_items(old(self).kinds(), old(self).position(), Seq::empty())
                    == grammar::parse_items(
                    self.kinds(),
                    self.position(),
                    stmts_view(body@),
                ),
            invariant
                old(self).leads_to(self),
                old(self).position() <= self.position(),
            ensures
                grammar::parse_items(old(self).kinds(), old(self).position(), Seq::empty())
                    == (Parsed::Done { value: stmts_view(body@), next: self.position() }),
            decreases self.kinds().len() - self.position(),
        {
            if self.check(&TokenKind::RightBrace) || self.is_at_end() {
                break ;
            }
            let ghost seen = body@;
            let item = self.declaration()?;
            proof {
                lemma_stmts_view_push(seen, item);
            }
            body.push(item);
        }
        Ok(body)
    }

    /// A primary expression with the calls and property accesses that follow
    /// it.
    fn primary(&mut self) -> (parsed: Result<Expr, ParseError>)
        requires
            old(self).wf(),
        ensures
            old(self).leads_to(final(self)),
            expr_agrees(
                parsed,
                final(self).position(),
                grammar::parse_primary(old(self).kinds(), old(self).position()),
            ),
            parsed is Ok ==> old(self).position() < final(self).position(),
        decreases old(self).kinds().len() - old(self).position(), 2int,
    {
        // What the grammar finds here before any call or property access.
        let ghost atom = grammar::parse_atom(self.kinds(), self.position());
        let mut expr = if self.accept(&TokenKind::Number(String::new())) {
            match self.previous_token_kind() {
                TokenKind::Number(n) => {
                    if !is_float_text(n.as_str()) {
                        let mut message = "Invalid number literal: ".to_string();
                        message.append(n.as_str());
                        return Err(ParseError { message });
                    }
                    Expr::Literal(Literal::Number(n))
                },
                _ => {
                    return Err(failure("Expected number literal"));
                },
            }
        } else if self.accept(&TokenKind::String(String::new())) {
            match self.previous_token_kind() {
                TokenKind::String(s) => Expr::Literal(Literal::String(s)),
                _ => {
                    return Err(failure("Expected string literal"));
                },
            }
        } else if self.accept(&TokenKind::Boolean(true)) {
            Expr::Literal(Literal::Boolean(true))
        } else if self.accept(&TokenKind::Boolean(false)) {
            Expr::Literal(Literal::Boolean(false))
        } else if self.accept(&TokenKind::Identifier(String::new())) {
            match self.previous_token_kind() {
                TokenKind::Identifier(name) => {
                    if self.check(&TokenKind::LeftBrace) {
                        self.advance();
                        let fields = self.struct_fields()?;
                        self.consume(TokenKind::RightBrace, "Expected '}' after struct literal")?;
                        Expr::StructLiteral { name, fields }
                    } else {
                        Expr::Identifier(name)
                    }
                },
                _ => {
                    return Err(failure("Expected identifier"));
                },
            }
        } else if self.accept(&TokenKind::LeftParen) {
            if self.lambda_check() {
                self.parse_lambda()?
            } else {
                let expr = self.expression()?;
                self.consume(TokenKind::RightParen, "Expected ')' after expression")?;
                Expr::Grouping(Box::new(expr))
            }
        } else if self.accept(&TokenKind::LeftBrace) {
            let body = self.block_items()?;
            self.consume(TokenKind::RightBrace, "Expected '}' after block")?;
            Expr::Block(body)
        } else {
            let name = if self.is_at_end() {
                TokenKind::Eof.name()
            } else {
                self.peek().kind.name()
            };
            let mut message = "Unexpected token: ".to_string();
            message.append(name.as_str());
            return Err(ParseError { message });
        };
        loop
            invariant_except_break
                grammar::parse_primary(old(self).kinds(), old(self).position())
                    == grammar::parse_postfix(self.kinds(), self.position(), expr@),
            invariant
                old(self).leads_to(self),
                old(self).position() < self.position(),
            ensures
                grammar::parse_primary(old(self).kinds(), old(self).position()) == (
                Parsed::Done { value: expr@, next: self.position() }),
            decreases self.kinds().len() - self.position(),
        {
            if self.accept(&TokenKind::LeftParen) {
                expr = self.finish_call(expr)?;
            } else if self.accept(&TokenKind::Dot) {
                expr = self.finish_property_access(expr)?;
            } else {
                break ;
            }
        }
        Ok(expr)
    }

    /// The rest of a call of `callee`, after the opening parenthesis.
    fn finish_call(&mut self, callee: Expr) -> (parsed: Result<Expr, ParseError>)
        requires
            old(self).wf(),
        ensures
            old(self).leads_to(final(self)),
            expr_agrees(
                parsed,
                final(self).position(),
                grammar::parse_call(old(self).kinds(), old(self).position(), callee@),
            ),
            parsed is Ok ==> old(self).position() < final(self).position(),
        decreases old(self).kinds().len() - old(self).position(), 18int,
    {
        let mut arguments: Vec<Expr> = Vec::new();
        assert(exprs_view(arguments@) =~= Seq::empty());
        if !self.check(&TokenKind::RightParen) {
            loop
                invariant_except_break
                    grammar::parse_arguments(
                        old(self).kinds(),
                        old(self).position(),
                        Seq::empty(),
                    ) == grammar::parse_arguments(
                        self.kinds(),
                        self.position(),
                        exprs_view(arguments@),
                    ),
                invariant
                    old(self).leads_to(self),
                    old(self).position() <= self.position(),
                    !holds(old(self).kinds(), old(self).position(), TokenKindView::RightParen),
                ensures
                    grammar::parse_arguments(
                        old(self).kinds(),
                        old(self).position(),
                        Seq::empty(),
                    ) == (Parsed::Done { value: exprs_view(arguments@), next: self.position() }),
                decreases self.kinds().len() - self.position(),
            {
                let ghost seen = arguments@;
                let argument = self.expression()?;
                proof {
                    lemma_exprs_view_push(seen, argument);
                }
                arguments.push(argument);
                if !self.accept(&TokenKind::Comma) {
                    break ;
                }
            }
        }
        self.consume(TokenKind::RightParen, "Expected ')' after arguments")?;
        Ok(Expr::Call { callee: Box::new(callee), arguments })
    }

    /// The rest of a property access on `object`, after the dot.
    fn finish_property_access(&mut self, object: Expr) -> (parsed: Result<Expr, ParseError>)
        requires
            old(self).wf(),
        ensures
            old(self).leads_to(final(self)),
            match identifier_at(old(self).kinds(), old(self).position()) {
                Some(name) => parsed matches Ok(e) && e@ == (ExprView::PropertyAccess {
                    object: Box::new(object@),
                    name,
                }) && final(self).position() == old(self).position() + 1,
                None => parsed matches Err(e) && e@ == "Expected property name after '.'"@,
            },
    {
        let name = self.consume_identifier("Expected property name after '.'")?;
        Ok(Expr::PropertyAccess { object: Box::new(object), name })
    }

    /// An expression statement.
    fn statement(&mut self) -> (parsed: Result<Stmt, ParseError>)
        requires
            old(self).wf(),
        ensures
            old(self).leads_to(final(self)),
            stmt_agrees(
                parsed,
                final(self).position(),
                grammar::parse_statement(old(self).kinds(), old(self).position()),
            ),
            parsed is Ok ==> old(self).position() < final(self).position(),
        decreases old(self).kinds().len() - old(self).position(), 17int,
    {
        let expr = self.expression()?;
        self.consume(TokenKind::Semicolon, "Expected ';' after expression")?;
        Ok(Stmt::Expression(expr))
    }

    /// The rest of an import, after `import`.
    fn import_declaration(&mut self) -> (parsed: Result<Stmt, ParseError>)
        requires
            old(self).wf(),
        ensures
            old(self).leads_to(final(self)),
            stmt_agrees(
                parsed,
                final(self).position(),
                grammar::parse_import(old(self).kinds(), old(self).position()),
            ),
            parsed is Ok ==> old(self).position() < final(self).position(),
    {
        let module_name = self.consume_identifier("Expected module name after 'import'")?;
        self.consume(TokenKind::Semicolon, "Expected ';' after import declaration")?;
        Ok(Stmt::Import(module_name))
    }

    /// The rest of a module declaration, after `module`.
    fn module_declaration(&mut self) -> (parsed: Result<Stmt, ParseError>)
        requires
            old(self).wf(),
        ensures
            old(self).leads_to(final(self)),
            stmt_agrees(
                parsed,
                final(self).position(),
                grammar::parse_module(old(self).kinds(), old(self).position()),
            ),
            parsed is Ok ==> old(self).position() < final(self).position(),
        decreases old(self).kinds().len() - old(self).position(), 17int,
    {
        let name = self.consume_identifier("Expected module name")?;
        self.consume(TokenKind::LeftBrace, "Expected '{' after module name")?;
        let declarations = self.block_items()?;
        self.consume(TokenKind::RightBrace, "Expected '}' after module body")?;
        Ok(Stmt::ModuleDecl { name, declarations })
    }

    /// The rest of a class declaration, after `class`.
    fn class_declaration(&mut self) -> (parsed: Result<Stmt, ParseError>)
        requires
            old(self).wf(),
        ensures
            old(self).leads_to(final(self)),
            stmt_agrees(
                parsed,
                final(self).position(),
                grammar::parse_class(old(self).kinds(), old(self).position()),
            ),
            parsed is Ok ==> old(self).position() < final(self).position(),
        decreases old(self).kinds().len() - old(self).position(), 18int,
    {
        let name = self.consume_identifier("Expected class name")?;
        self.consume(TokenKind::LeftBrace, "Expected '{' after class name")?;
        let mut fields: Vec<Stmt> = Vec::new();
        let mut methods: Vec<Stmt> = Vec::new();
        assert(stmts_view(fields@) =~= Seq::empty());
        assert(stmts_view(methods@) =~= Seq::empty());
        let ghost start = self.position();
        loop
            invariant_except_break
                grammar::parse_members(self.kinds(), start, Seq::empty(), Seq::empty())
                    == grammar::parse_members(
                    self.kinds(),
                    self.position(),
                    stmts_view(fields@),
                    stmts_view(methods@),
                ),
            invariant
                old(self).leads_to(self),
                start == old(self).position() + 2,
                identifier_at(old(self).kinds(), old(self).position()) == Some(name@),
                holds(old(self).kinds(), old(self).position() + 1, TokenKindView::LeftBrace),
                start <= self.position(),
            ensures
                grammar::parse_members(self.kinds(), start, Seq::empty(), Seq::empty())
                    == (Parsed::Done {
                    value: (stmts_view(fields@), stmts_view(methods@)),
                    next: self.position(),
                }),
            decreases self.kinds().len() - self.position(),
        {
            if self.check(&TokenKind::RightBrace) || self.is_at_end() {
                break ;
            }
            let ghost seen_fields = fields@;
            let ghost seen_methods = methods@;
            if self.accept(&TokenKind::Fn) {
                let method = self.function_declaration()?;
                proof {
                    lemma_stmts_view_push(seen_methods, method);
                }
                methods.push(method);
            } else if self.accept(&TokenKind::Let) || self.accept(&TokenKind::Var) {
                let field = self.variable_declaration()?;
                proof {
                    lemma_stmts_view_push(seen_fields, field);
                }
                fields.push(field);
            } else {
                return Err(
                    failure(
                        "Expected field declaration starting with 'let' or 'var', or a method declaration starting with 'fn'.",
                    ),
                );
            }
        }
        self.consume(TokenKind::RightBrace, "Expected '}' after class body")?;
        Ok(Stmt::ClassDecl { name, fields, methods })
    }

    /// The rest of a function declaration, after `fn`.
    fn function_declaration(&mut self) -> (parsed: Result<Stmt, ParseError>)
        requires
            old(self).wf(),
        ensures
            old(self).leads_to(final(self)),
            stmt_agrees(
                parsed,
                final(self).position(),
                grammar::parse_function(old(self).kinds(), old(self).position()),
            ),
            parsed is Ok ==> old(self).position() < final(self).position(),
        decreases old(self).kinds().len() - old(self).position(), 17int,
    {
        let name = self.consume_identifier("Expected function name")?;
        self.consume(TokenKind::LeftParen, "Expected '(' after function name")?;
        let params = self.parse_parameters()?;
        let return_type = if self.accept(&TokenKind::Arrow) {
            Some(self.parse_type()?)
        } else {
            None
        };
        self.consume(TokenKind::LeftBrace, "Expected '{' before function body")?;
        let body = self.block_items()?;
        self.consume(TokenKind::RightBrace, "Expected '}' after function body")?;
        Ok(Stmt::FunctionDecl { name, params, return_type, body })
    }

    /// The rest of a variable declaration, after `let` or `var`, which tells
    /// whether the variable is mutable.
    fn variable_declaration(&mut self) -> (parsed: Result<Stmt, ParseError>)
        requires
            old(self).wf(),
            old(self).position() >= 1,
        ensures
            old(self).leads_to(final(self)),
            stmt_agrees(
                parsed,
                final(self).position(),
                grammar::parse_variable(
                    old(self).kinds(),
                    old(self).position(),
                    old(self).kinds()[old(self).position() - 1] == TokenKindView::Var,
                ),
            ),
            parsed is Ok ==> old(self).position() < final(self).position(),
        decreases old(self).kinds().len() - old(self).position(), 17int,
    {
        let keyword = self.previous_token_kind();
        let is_mutable = match keyword {
            TokenKind::Let => false,
            TokenKind::Var => true,
            _ => false,
        };
        let name = self.consume_identifier("Expected variable name")?;
        let type_annotation = if self.accept(&TokenKind::Colon) {
            Some(self.parse_type()?)
        } else {
            None
        };
        let initializer = if self.accept(&TokenKind::Equal) {
            Some(self.expression()?)
        } else {
            None
        };
        self.consume(TokenKind::Semicolon, "Expected ';' after variable declaration")?;
        Ok(Stmt::VariableDecl { is_mutable, name, type_annotation, initializer })
    }

    /// A declaration or statement.
    fn declaration(&mut self) -> (parsed: Result<Stmt, ParseError>)
        requires
            old(self).wf(),
        ensures
            old(self).leads_to(final(self)),
            stmt_agrees(
                parsed,
                final(self).position(),
                grammar::parse_declaration(old(self).kinds(), old(self).position()),
            ),
            parsed is Ok ==> old(self).position() < final(self).position(),
        decreases old(self).kinds().len() - old(self).position(), 19int,
    {
        if self.accept(&TokenKind::Import) {
            return self.import_declaration();
        }
        if self.accept(&TokenKind::Module) {
            return self.module_declaration();
        }
        if self.accept(&TokenKind::Class) {
            return self.class_declaration();
        }
        if self.accept(&TokenKind::Fn) {
            return self.function_declaration();
        }
        if self.accept(&TokenKind::Return) {
            // What the grammar finds after `return`.
            let ghost rest = grammar::parse_return(self.kinds(), self.position());
            let expr = if !self.check(&TokenKind::Semicolon) {
                Some(self.expression()?)
            } else {
                None
            };
            self.consume(TokenKind::Semicolon, "Expected ';' after return statement")?;
            return Ok(Stmt::Return(expr));
        }
        if self.accept(&TokenKind::Let) || self.accept(&TokenKind::Var) {
            return self.variable_declaration();
        }
        self.statement()
    }

    /// The declarations up to the end of the tokens, or the first error.
    pub fn parse_program(&mut self) -> (parsed: Result<Vec<Stmt>, ParseError>)
        requires
            old(self).wf(),
        ensures
            old(self).leads_to(final(self)),
            stmts_agree(
                parsed,
                final(self).position(),
                grammar::parse_program_from(
                    old(self).kinds(),
                    old(self).position(),
                    Seq::empty(),
                ),
            ),
    {
        let mut declarations: Vec<Stmt> = Vec::new();
        assert(stmts_view(declarations@) =~= Seq::empty());
        loop
            invariant_except_break
                grammar::parse_program_from(
                    old(self).kinds(),
                    old(self).position(),
                    Seq::empty(),
                ) == grammar::parse_program_from(
                    self.kinds(),
                    self.position(),
                    stmts_view(declarations@),
                ),
            invariant
                old(self).leads_to(self),
            ensures
                grammar::parse_program_from(
                    old(self).kinds(),
                    old(self).position(),
                    Seq::empty(),
                ) == (Parsed::Done { value: stmts_view(declarations@), next: self.position() }),
            decreases self.kinds().len() - self.position(),
        {
            if self.is_at_end() {
                break ;
            }
            let ghost seen = declarations@;
            let item = self.declaration()?;
            proof {
                lemma_stmts_view_push(seen, item);
            }
            declarations.push(item);
        }
        Ok(declarations)
    }
}

} // verus!
