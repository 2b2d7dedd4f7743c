//! Every construct of the grammar consumes tokens: a parse that succeeds ends
//! after where it started (at or after it, for a list that may be empty), and
//! within the tokens. So the tests in [`crate::grammar`] that let a list go on
//! only after an item that consumed a token never turn a parse into a failure.

use vstd::prelude::*;
use crate::ast::{ExprView, StmtView};
use crate::grammar::{
    Parsed, at_end, binary_operator_at, holds, identifier_at, lambda_ahead,
    lemma_annotation_advances, lemma_parameters_advance, lemma_struct_fields_advance,
    parse_annotation, parse_arguments, parse_atom, parse_binary, parse_binary_rest, parse_call,
    parse_class, parse_declaration, parse_expression, parse_function, parse_items, parse_lambda,
    parse_members, parse_module, parse_parameters, parse_postfix, parse_primary,
    parse_program_from, parse_return, parse_statement, parse_unary, parse_variable,
    unary_operator_at,
};
use crate::parser::TokenKindView;

verus! {

/// Whether `parsed`, if it succeeded, ends after `pos` and within `len` tokens.
pub open spec fn advances<T>(parsed: Parsed<T>, pos: int, len: nat) -> bool {
    parsed matches Parsed::Done { next, .. } ==> pos < next <= len
}

/// Whether `parsed`, if it succeeded, ends at or after `pos` and within `len`
/// tokens.
pub open spec fn stays_within<T>(parsed: Parsed<T>, pos: int, len: nat) -> bool {
    parsed matches Parsed::Done { next, .. } ==> pos <= next <= len
}

/// A primary expression consumes a token.
pub proof fn lemma_atom_advances(tokens: Seq<TokenKindView>, pos: int)
    requires
        0 <= pos <= tokens.len(),
    ensures
        advances(parse_atom(tokens, pos), pos, tokens.len()),
    decreases tokens.len() - pos, 0int,
{
    if !at_end(tokens, pos) {
        match tokens[pos] {
            TokenKindView::Identifier(name) => {
                if holds(tokens, pos + 1, TokenKindView::LeftBrace) {
                    lemma_struct_fields_advance(tokens, pos + 2, Seq::empty());
                }
            },
            TokenKindView::LeftParen => {
                if lambda_ahead(tokens, pos + 1) {
                    lemma_lambda_advances(tokens, pos + 1);
                } else {
                    lemma_expression_advances(tokens, pos + 1);
                }
            },
            TokenKindView::LeftBrace => {
                lemma_items_advance(tokens, pos + 1, Seq::empty());
            },
            _ => {},
        }
    }
}

/// A lambda consumes a token.
pub proof fn lemma_lambda_advances(tokens: Seq<TokenKindView>, pos: int)
    requires
        0 <= pos <= tokens.len(),
    ensures
        advances(parse_lambda(tokens, pos), pos, tokens.len()),
    decreases tokens.len() - pos, 0int,
{
    lemma_parameters_advance(tokens, pos);
    match parse_parameters(tokens, pos) {
        Parsed::Done { value, next } => {
            if holds(tokens, next, TokenKindView::Arrow) {
                lemma_expression_advances(tokens, next + 1);
            }
        },
        Parsed::Failed { .. } => {},
    }
}

/// Call arguments consume a token.
pub proof fn lemma_arguments_advance(tokens: Seq<TokenKindView>, pos: int, seen: Seq<ExprView>)
    requires
        0 <= pos <= tokens.len(),
    ensures
        advances(parse_arguments(tokens, pos, seen), pos, tokens.len()),
    decreases tokens.len() - pos, 17int,
{
    lemma_expression_advances(tokens, pos);
    match parse_expression(tokens, pos) {
        Parsed::Done { value, next } => {
            if pos < next <= tokens.len() && holds(tokens, next, TokenKindView::Comma) {
                lemma_arguments_advance(tokens, next + 1, seen.push(value));
            }
        },
        Parsed::Failed { .. } => {},
    }
}

/// The rest of a call consumes a token.
pub proof fn lemma_call_advances(tokens: Seq<TokenKindView>, pos: int, callee: ExprView)
    requires
        0 <= pos <= tokens.len(),
    ensures
        advances(parse_call(tokens, pos, callee), pos, tokens.len()),
    decreases tokens.len() - pos, 18int,
{
    if !holds(tokens, pos, TokenKindView::RightParen) {
        lemma_arguments_advance(tokens, pos, Seq::empty());
    }
}

/// What follows a primary expression ends within the tokens.
pub proof fn lemma_postfix_advances(tokens: Seq<TokenKindView>, pos: int, left: ExprView)
    requires
        0 <= pos <= tokens.len(),
    ensures
        stays_within(parse_postfix(tokens, pos, left), pos, tokens.len()),
    decreases tokens.len() - pos, 1int,
{
    if holds(tokens, pos, TokenKindView::LeftParen) {
        lemma_call_advances(tokens, pos + 1, left);
        match parse_call(tokens, pos + 1, left) {
            Parsed::Done { value, next } => {
                if pos < next <= tokens.len() {
                    lemma_postfix_advances(tokens, next, value);
                }
            },
            Parsed::Failed { .. } => {},
        }
    } else if holds(tokens, pos, TokenKindView::Dot) {
        match identifier_at(tokens, pos + 1) {
            Some(name) => {
                lemma_postfix_advances(
                    tokens,
                    pos + 2,
                    ExprView::PropertyAccess { object: Box::new(left), name },
                );
            },
            None => {},
        }
    }
}

/// A primary expression with what follows it consumes a token.
pub proof fn lemma_primary_advances(tokens: Seq<TokenKindView>, pos: int)
    requires
        0 <= pos <= tokens.len(),
    ensures
        advances(parse_primary(tokens, pos), pos, tokens.len()),
    decreases tokens.len() - pos, 2int,
{
    lemma_atom_advances(tokens, pos);
    match parse_atom(tokens, pos) {
        Parsed::Done { value, next } => {
            if pos < next <= tokens.len() {
                lemma_postfix_advances(tokens, next, value);
            }
        },
        Parsed::Failed { .. } => {},
    }
}

/// A unary expression consumes a token.
pub proof fn lemma_unary_advances(tokens: Seq<TokenKindView>, pos: int)
    requires
        0 <= pos <= tokens.len(),
    ensures
        advances(parse_unary(tokens, pos), pos, tokens.len()),
    decreases tokens.len() - pos, 3int,
{
    match unary_operator_at(tokens, pos) {
        Some(op) => {
            lemma_unary_advances(tokens, pos + 1);
        },
        None => {
            lemma_primary_advances(tokens, pos);
        },
    }
}

/// The operators and operands that follow an operand end within the tokens.
pub proof fn lemma_binary_rest_advances(tokens: Seq<TokenKindView>, pos: int, level: nat, left: ExprView)
    requires
        0 <= pos <= tokens.len(),
    ensures
        stays_within(parse_binary_rest(tokens, pos, level, left), pos, tokens.len()),
    decreases tokens.len() - pos, 4 + 2 * level,
{
    match binary_operator_at(tokens, pos, level) {
        Some(op) => {
            if level == 0 {
                lemma_unary_advances(tokens, pos + 1);
            } else {
                lemma_binary_advances(tokens, pos + 1, (level - 1) as nat);
            }
            let operand = if level == 0 {
                parse_unary(tokens, pos + 1)
            } else {
                parse_binary(tokens, pos + 1, (level - 1) as nat)
            };
            match operand {
                Parsed::Done { value: right, next } => {
                    if pos < next <= tokens.len() {
                        lemma_binary_rest_advances(
                            tokens,
                            next,
                            level,
                            ExprView::Binary { left: Box::new(left), op, right: Box::new(right) },
                        );
                    }
                },
                Parsed::Failed { .. } => {},
            }
        },
        None => {},
    }
}

/// A binary expression consumes a token.
pub proof fn lemma_binary_advances(tokens: Seq<TokenKindView>, pos: int, level: nat)
    requires
        0 <= pos <= tokens.len(),
    ensures
        advances(parse_binary(tokens, pos, level), pos, tokens.len()),
    decreases tokens.len() - pos, 5 + 2 * level,
{
    if level == 0 {
        lemma_unary_advances(tokens, pos);
    } else {
        lemma_binary_advances(tokens, pos, (level - 1) as nat);
    }
    let operand = if level == 0 {
        parse_unary(tokens, pos)
    } else {
        parse_binary(tokens, pos, (level - 1) as nat)
    };
    match operand {
        Parsed::Done { value, next } => {
            if pos < next <= tokens.len() {
                lemma_binary_rest_advances(tokens, next, level, value);
            }
        },
        Parsed::Failed { .. } => {},
    }
}

/// An expression consumes a token.
pub proof fn lemma_expression_advances(tokens: Seq<TokenKindView>, pos: int)
    requires
        0 <= pos <= tokens.len(),
    ensures
        advances(parse_expression(tokens, pos), pos, tokens.len()),
    decreases tokens.len() - pos, 16int,
{
    lemma_binary_advances(tokens, pos, 5);
}

/// An expression statement consumes a token.
pub proof fn lemma_statement_advances(tokens: Seq<TokenKindView>, pos: int)
    requires
        0 <= pos <= tokens.len(),
    ensures
        advances(parse_statement(tokens, pos), pos, tokens.len()),
    decreases tokens.len() - pos, 17int,
{
    lemma_expression_advances(tokens, pos);
}

/// The rest of a return statement consumes a token.
pub proof fn lemma_return_advances(tokens: Seq<TokenKindView>, pos: int)
    requires
        0 <= pos <= tokens.len(),
    ensures
        advances(parse_return(tokens, pos), pos, tokens.len()),
    decreases tokens.len() - pos, 17int,
{
    if !holds(tokens, pos, TokenKindView::Semicolon) {
        lemma_expression_advances(tokens, pos);
    }
}

/// The rest of a variable declaration consumes a token.
pub proof fn lemma_variable_advances(tokens: Seq<TokenKindView>, pos: int, is_mutable: bool)
    requires
        0 <= pos <= tokens.len(),
    ensures
        advances(parse_variable(tokens, pos, is_mutable), pos, tokens.len()),
    decreases tokens.len() - pos, 17int,
{
    match identifier_at(tokens, pos) {
        Some(name) => {
            lemma_annotation_advances(tokens, pos + 1, TokenKindView::Colon);
            match parse_annotation(tokens, pos + 1, TokenKindView::Colon) {
                Parsed::Done { value, next } => {
                    if holds(tokens, next, TokenKindView::Equal) {
                        lemma_expression_advances(tokens, next + 1);
                    }
                },
                Parsed::Failed { .. } => {},
            }
        },
        None => {},
    }
}

/// The rest of a function declaration consumes a token.
pub proof fn lemma_function_advances(tokens: Seq<TokenKindView>, pos: int)
    requires
        0 <= pos <= tokens.len(),
    ensures
        advances(parse_function(tokens, pos), pos, tokens.len()),
    decreases tokens.len() - pos, 17int,
{
    match identifier_at(tokens, pos) {
        Some(name) => {
            if holds(tokens, pos + 1, TokenKindView::LeftParen) {
                lemma_parameters_advance(tokens, pos + 2);
                match parse_parameters(tokens, pos + 2) {
                    Parsed::Done { value: params, next } => {
                        lemma_annotation_advances(tokens, next, TokenKindView::Arrow);
                        match parse_annotation(tokens, next, TokenKindView::Arrow) {
                            Parsed::Done { value: return_type, next: open } => {
                                if holds(tokens, open, TokenKindView::LeftBrace) {
                                    lemma_items_advance(tokens, open + 1, Seq::empty());
                                }
                            },
                            Parsed::Failed { .. } => {},
                        }
                    },
                    Parsed::Failed { .. } => {},
                }
            }
        },
        None => {},
    }
}

/// The rest of a module declaration consumes a token.
pub proof fn lemma_module_advances(tokens: Seq<TokenKindView>, pos: int)
    requires
        0 <= pos <= tokens.len(),
    ensures
        advances(parse_module(tokens, pos), pos, tokens.len()),
    decreases tokens.len() - pos, 17int,
{
    match identifier_at(tokens, pos) {
        Some(name) => {
            if holds(tokens, pos + 1, TokenKindView::LeftBrace) {
                lemma_items_advance(tokens, pos + 2, Seq::empty());
            }
        },
        None => {},
    }
}

/// The members of a class end within the tokens.
pub proof fn lemma_members_advance(tokens: Seq<TokenKindView>, pos: int, fields: Seq<StmtView>, methods: Seq<StmtView>)
    requires
        0 <= pos <= tokens.len(),
    ensures
        stays_within(parse_members(tokens, pos, fields, methods), pos, tokens.len()),
    decreases tokens.len() - pos, 17int,
{
    if at_end(tokens, pos) || tokens[pos] == TokenKindView::RightBrace {
    } else if tokens[pos] == TokenKindView::Fn {
        lemma_function_advances(tokens, pos + 1);
        match parse_function(tokens, pos + 1) {
            Parsed::Done { value, next } => {
                if pos < next <= tokens.len() {
                    lemma_members_advance(tokens, next, fields, methods.push(value));
                }
            },
            Parsed::Failed { .. } => {},
        }
    } else if tokens[pos] == TokenKindView::Let || tokens[pos] == TokenKindView::Var {
        let is_mutable = tokens[pos] == TokenKindView::Var;
        lemma_variable_advances(tokens, pos + 1, is_mutable);
        match parse_variable(tokens, pos + 1, is_mutable) {
            Parsed::Done { value, next } => {
                if pos < next <= tokens.len() {
                    lemma_members_advance(tokens, next, fields.push(value), methods);
                }
            },
            Parsed::Failed { .. } => {},
        }
    }
}

/// The rest of a class declaration consumes a token.
pub proof fn lemma_class_advances(tokens: Seq<TokenKindView>, pos: int)
    requires
        0 <= pos <= tokens.len(),
    ensures
        advances(parse_class(tokens, pos), pos, tokens.len()),
    decreases tokens.len() - pos, 18int,
{
    match identifier_at(tokens, pos) {
        Some(name) => {
            if holds(tokens, pos + 1, TokenKindView::LeftBrace) {
                lemma_members_advance(tokens, pos + 2, Seq::empty(), Seq::empty());
            }
        },
        None => {},
    }
}

/// A declaration consumes a token.
pub proof fn lemma_declaration_advances(tokens: Seq<TokenKindView>, pos: int)
    requires
        0 <= pos <= tokens.len(),
    ensures
        advances(parse_declaration(tokens, pos), pos, tokens.len()),
    decreases tokens.len() - pos, 19int,
{
    if at_end(tokens, pos) {
        lemma_statement_advances(tokens, pos);
    } else {
        match tokens[pos] {
            TokenKindView::Import => {},
            TokenKindView::Module => {
                lemma_module_advances(tokens, pos + 1);
            },
            TokenKindView::Class => {
                lemma_class_advances(tokens, pos + 1);
            },
            TokenKindView::Fn => {
                lemma_function_advances(tokens, pos + 1);
            },
            TokenKindView::Return => {
                lemma_return_advances(tokens, pos + 1);
            },
            TokenKindView::Let => {
                lemma_variable_advances(tokens, pos + 1, false);
            },
            TokenKindView::Var => {
                lemma_variable_advances(tokens, pos + 1, true);
            },
            _ => {
                lemma_statement_advances(tokens, pos);
            },
        }
    }
}

/// The declarations of a block end within the tokens.
pub proof fn lemma_items_advance(tokens: Seq<TokenKindView>, pos: int, seen: Seq<StmtView>)
    requires
        0 <= pos <= tokens.len(),
    ensures
        stays_within(parse_items(tokens, pos, seen), pos, tokens.len()),
    decreases tokens.len() - pos, 20int,
{
    if !(at_end(tokens, pos) || tokens[pos] == TokenKindView::RightBrace) {
        lemma_declaration_advances(tokens, pos);
        match parse_declaration(tokens, pos) {
            Parsed::Done { value, next } => {
                if pos < next <= tokens.len() {
                    lemma_items_advance(tokens, next, seen.push(value));
                }
            },
            Parsed::Failed { .. } => {},
        }
    }
}

/// A program that parses is parsed to its end: the parse stops within the
/// tokens, where they are exhausted.
pub proof fn lemma_program_reaches_end(tokens: Seq<TokenKindView>, pos: int, seen: Seq<StmtView>)
    requires
        0 <= pos <= tokens.len(),
    ensures
        parse_program_from(tokens, pos, seen) matches Parsed::Done { next, .. } ==> pos <= next
            <= tokens.len() && at_end(tokens, next),
    decreases tokens.len() - pos,
{
    if !at_end(tokens, pos) {
        lemma_declaration_advances(tokens, pos);
        match parse_declaration(tokens, pos) {
            Parsed::Done { value, next } => {
                if pos < next <= tokens.len() {
                    lemma_program_reaches_end(tokens, next, seen.push(value));
                }
            },
            Parsed::Failed { .. } => {},
        }
    }
}

} // verus!
