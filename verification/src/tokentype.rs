//! The lexical categories.

use vstd::prelude::*;

verus! {

/// What kind of token the lexer found. Numbers keep their source text; strings
/// hold their decoded value.
#[derive(Debug, Clone, PartialEq)]
pub enum TokenType {
    Number(String),
    Keyword(String),
    Identifier(String),
    String(String),
    Boolean(bool),
    Semicolon,
    Colon,
    Comma,
    Dot,
    Arrow,
    LeftParen,
    RightParen,
    LeftBracket,
    RightBracket,
    LeftBrace,
    RightBrace,
    Equal,
    EqualEqual,
    NotEqual,
    Less,
    LessEqual,
    Greater,
    GreaterEqual,
    Plus,
    PlusEqual,
    Minus,
    MinusEqual,
    Star,
    Slash,
    Bang,
    Modulo,
    And,
    Or,
    BitwiseAnd,
    BitwiseOr,
    BitwiseXor,
    Eof,
    Error(String),
}

/// The mathematical value of a [`TokenType`]: texts are character sequences.
pub enum TokenTypeView {
    Number(Seq<char>),
    Keyword(Seq<char>),
    Identifier(Seq<char>),
    String(Seq<char>),
    Boolean(bool),
    Semicolon,
    Colon,
    Comma,
    Dot,
    Arrow,
    LeftParen,
    RightParen,
    LeftBracket,
    RightBracket,
    LeftBrace,
    RightBrace,
    Equal,
    EqualEqual,
    NotEqual,
    Less,
    LessEqual,
    Greater,
    GreaterEqual,
    Plus,
    PlusEqual,
    Minus,
    MinusEqual,
    Star,
    Slash,
    Bang,
    Modulo,
    And,
    Or,
    BitwiseAnd,
    BitwiseOr,
    BitwiseXor,
    Eof,
    Error(Seq<char>),
}

impl View for TokenType {
    type V = TokenTypeView;

    open spec fn view(&self) -> TokenTypeView {
        match self {
            TokenType::Number(s) => TokenTypeView::Number(s@),
            TokenType::Keyword(s) => TokenTypeView::Keyword(s@),
            TokenType::Identifier(s) => TokenTypeView::Identifier(s@),
            TokenType::String(s) => TokenTypeView::String(s@),
            TokenType::Boolean(b) => TokenTypeView::Boolean(*b),
            TokenType::Semicolon => TokenTypeView::Semicolon,
            TokenType::Colon => TokenTypeView::Colon,
            TokenType::Comma => TokenTypeView::Comma,
            TokenType::Dot => TokenTypeView::Dot,
            TokenType::Arrow => TokenTypeView::Arrow,
            TokenType::LeftParen => TokenTypeView::LeftParen,
            TokenType::RightParen => TokenTypeView::RightParen,
            TokenType::LeftBracket => TokenTypeView::LeftBracket,
            TokenType::RightBracket => TokenTypeView::RightBracket,
            TokenType::LeftBrace => TokenTypeView::LeftBrace,
            TokenType::RightBrace => TokenTypeView::RightBrace,
            TokenType::Equal => TokenTypeView::Equal,
            TokenType::EqualEqual => TokenTypeView::EqualEqual,
            TokenType::NotEqual => TokenTypeView::NotEqual,
            TokenType::Less => TokenTypeView::Less,
            TokenType::LessEqual => TokenTypeView::LessEqual,
            TokenType::Greater => TokenTypeView::Greater,
            TokenType::GreaterEqual => TokenTypeView::GreaterEqual,
            TokenType::Plus => TokenTypeView::Plus,
            TokenType::PlusEqual => TokenTypeView::PlusEqual,
            TokenType::Minus => TokenTypeView::Minus,
            TokenType::MinusEqual => TokenTypeView::MinusEqual,
            TokenType::Star => TokenTypeView::Star,
            TokenType::Slash => TokenTypeView::Slash,
            TokenType::Bang => TokenTypeView::Bang,
            TokenType::Modulo => TokenTypeView::Modulo,
            TokenType::And => TokenTypeView::And,
            TokenType::Or => TokenTypeView::Or,
            TokenType::BitwiseAnd => TokenTypeView::BitwiseAnd,
            TokenType::BitwiseOr => TokenTypeView::BitwiseOr,
            TokenType::BitwiseXor => TokenTypeView::BitwiseXor,
            TokenType::Eof => TokenTypeView::Eof,
            TokenType::Error(s) => TokenTypeView::Error(s@),
        }
    }
}

} // verus!
