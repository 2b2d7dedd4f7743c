//! Front end of a small language: a lexer that turns source text into
//! position-tagged tokens carrying their own diagnostics, and a
//! recursive-descent parser that turns tokens into a syntax tree.
//!
//! Every executable function is specified against a mathematical model. The
//! lexer ([`lexer`]) computes what the lexical grammar ([`scan`]) says of a
//! text; the parser ([`parser`]) computes what the grammar ([`grammar`]) says
//! of a token sequence. What holds of every text and of every token sequence
//! is proved of the models: the tokens of a text tile it ([`scan`]), every
//! construct consumes tokens ([`progress`]), and what parses is balanced
//! ([`balance`]).

pub mod ast;
pub mod balance;
pub mod charclass;
pub mod grammar;
pub mod lexer;
pub mod number;
pub mod parser;
pub mod position;
pub mod progress;
pub mod scan;
pub mod span;
pub mod text;
pub mod token;
pub mod tokentype;
