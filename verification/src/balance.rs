//! What parses is balanced: in the tokens of every construct that the grammar
//! accepts, there are as many closing parentheses as opening ones, and as many
//! closing braces as opening ones. So tokens that leave a parenthesis or a
//! brace open, or close one too many, do not parse.

use vstd::prelude::*;
use crate::ast::{ExprView, ParameterView, StmtView, TypeView};
use crate::grammar::{
    Parsed, at_end, binary_operator_at, holds, identifier_at, lambda_ahead, parse_annotation,
    parse_arguments, parse_atom, parse_binary, parse_binary_rest, parse_call, parse_class,
    parse_declaration, parse_expression, parse_function, parse_import, parse_items, parse_lambda,
    parse_members, parse_module, parse_parameter_list, parse_parameters, parse_postfix,
    parse_primary, parse_program, parse_program_from, parse_return, parse_statement,
    parse_struct_fields, parse_type, parse_type_list, parse_unary, parse_variable,
    unary_operator_at,
};
use crate::parser::TokenKindView;

verus! {

/// A kind of bracket.
pub enum Bracket {
    Paren,
    Brace,
}

/// What a token adds to the number of open brackets of kind `bracket`: 1 for
/// the opening one, -1 for the closing one, 0 for every other token.
pub open spec fn weight(kind: TokenKindView, bracket: Bracket) -> int {
    match (bracket, kind) {
        (Bracket::Paren, TokenKindView::LeftParen) => 1,
        (Bracket::Paren, TokenKindView::RightParen) => -1,
        (Bracket::Brace, TokenKindView::LeftBrace) => 1,
        (Bracket::Brace, TokenKindView::RightBrace) => -1,
        _ => 0,
    }
}

/// The opening brackets minus the closing brackets of kind `bracket` among the
/// tokens from `from` up to, and without, `to`.
pub open spec fn surplus(tokens: Seq<TokenKindView>, from: int, to: int, bracket: Bracket) -> int
    decreases to - from,
{
    if to <= from {
        0
    } else {
        surplus(tokens, from, to - 1, bracket) + weight(tokens[to - 1], bracket)
    }
}

/// The surplus of a construct that starts after an opening parenthesis and
/// ends with the closing one.
pub open spec fn closing(bracket: Bracket) -> int {
    weight(TokenKindView::RightParen, bracket)
}

/// Whether `parsed`, if it succeeded from `pos`, ends at or after `pos`
/// within the tokens and took tokens with the given surplus.
pub open spec fn weighs<T>(
    parsed: Parsed<T>,
    tokens: Seq<TokenKindView>,
    pos: int,
    bracket: Bracket,
    expected: int,
) -> bool {
    parsed matches Parsed::Done { next, .. } ==> pos <= next <= tokens.len() && surplus(
        tokens,
        pos,
        next,
        bracket,
    ) == expected
}

/// The surplus of a range is the sum of the surpluses of its two parts.
pub proof fn lemma_surplus_split(
    tokens: Seq<TokenKindView>,
    from: int,
    mid: int,
    to: int,
    bracket: Bracket,
)
    requires
        from <= mid <= to,
    ensures
        surplus(tokens, from, to, bracket) == surplus(tokens, from, mid, bracket) + surplus(
            tokens,
            mid,
            to,
            bracket,
        ),
    decreases to - mid,
{
    if mid < to {
        lemma_surplus_split(tokens, from, mid, to - 1, bracket);
    }
}

/// The surplus of a range that is not empty is the weight of its first token
/// and the surplus of the rest.
pub proof fn lemma_surplus_first(tokens: Seq<TokenKindView>, from: int, to: int, bracket: Bracket)
    requires
        from < to,
    ensures
        surplus(tokens, from, to, bracket) == weight(tokens[from], bracket) + surplus(
            tokens,
            from + 1,
            to,
            bracket,
        ),
{
    lemma_surplus_split(tokens, from, from + 1, to, bracket);
    assert(surplus(tokens, from, from, bracket) == 0);
}

/// A type is balanced.
pub proof fn lemma_type_balanced(tokens: Seq<TokenKindView>, pos: int, bracket: Bracket)
    requires
        0 <= pos <= tokens.len(),
    ensures
        weighs(parse_type(tokens, pos), tokens, pos, bracket, 0),
    decreases tokens.len() - pos, 0int,
{
    if holds(tokens, pos, TokenKindView::LeftParen) {
        lemma_type_list_balanced(tokens, pos + 1, Seq::empty(), bracket);
        match parse_type_list(tokens, pos + 1, Seq::empty()) {
            Parsed::Done { value: params, next } => {
                if holds(tokens, next, TokenKindView::RightParen) && holds(
                    tokens,
                    next + 1,
                    TokenKindView::Arrow,
                ) {
                    lemma_type_balanced(tokens, next + 2, bracket);
                    match parse_type(tokens, next + 2) {
                        Parsed::Done { value: result, next: end } => {
                            lemma_surplus_first(tokens, pos, end, bracket);
                            lemma_surplus_split(tokens, pos + 1, next, end, bracket);
                            lemma_surplus_first(tokens, next, end, bracket);
                            lemma_surplus_first(tokens, next + 1, end, bracket);
                        },
                        Parsed::Failed { .. } => {},
                    }
                }
            },
            Parsed::Failed { .. } => {},
        }
    } else {
        match identifier_at(tokens, pos) {
            Some(name) => {
                if holds(tokens, pos + 1, TokenKindView::Less) {
                    lemma_type_list_balanced(tokens, pos + 2, Seq::empty(), bracket);
                    match parse_type_list(tokens, pos + 2, Seq::empty()) {
                        Parsed::Done { value: params, next } => {
                            if holds(tokens, next, TokenKindView::Greater) {
                                lemma_surplus_first(tokens, pos, next + 1, bracket);
                                lemma_surplus_first(tokens, pos + 1, next + 1, bracket);
                            }
                        },
                        Parsed::Failed { .. } => {},
                    }
                } else {
                    lemma_surplus_first(tokens, pos, pos + 1, bracket);
                }
            },
            None => {},
        }
    }
}

/// A list of types is balanced.
pub proof fn lemma_type_list_balanced(
    tokens: Seq<TokenKindView>,
    pos: int,
    seen: Seq<TypeView>,
    bracket: Bracket,
)
    requires
        0 <= pos <= tokens.len(),
    ensures
        weighs(parse_type_list(tokens, pos, seen), tokens, pos, bracket, 0),
    decreases tokens.len() - pos, 1int,
{
    lemma_type_balanced(tokens, pos, bracket);
    match parse_type(tokens, pos) {
        Parsed::Done { value, next } => {
            if pos < next <= tokens.len() && holds(tokens, next, TokenKindView::Comma) {
                lemma_type_list_balanced(tokens, next + 1, seen.push(value), bracket);
                match parse_type_list(tokens, next + 1, seen.push(value)) {
                    Parsed::Done { value: all, next: end } => {
                        lemma_surplus_split(tokens, pos, next, end, bracket);
                        lemma_surplus_first(tokens, next, end, bracket);
                    },
                    Parsed::Failed { .. } => {},
                }
            }
        },
        Parsed::Failed { .. } => {},
    }
}

/// An optional annotation is balanced, if its mark is no bracket.
pub proof fn lemma_annotation_balanced(
    tokens: Seq<TokenKindView>,
    pos: int,
    mark: TokenKindView,
    bracket: Bracket,
)
    requires
        0 <= pos <= tokens.len(),
        weight(mark, bracket) == 0,
    ensures
        weighs(parse_annotation(tokens, pos, mark), tokens, pos, bracket, 0),
{
    if holds(tokens, pos, mark) {
        lemma_type_balanced(tokens, pos + 1, bracket);
        match parse_type(tokens, pos + 1) {
            Parsed::Done { value, next } => {
                lemma_surplus_first(tokens, pos, next, bracket);
            },
            Parsed::Failed { .. } => {},
        }
    }
}

/// A list of parameters is balanced.
pub proof fn lemma_parameter_list_balanced(
    tokens: Seq<TokenKindView>,
    pos: int,
    seen: Seq<ParameterView>,
    bracket: Bracket,
)
    requires
        0 <= pos <= tokens.len(),
    ensures
        weighs(parse_parameter_list(tokens, pos, seen), tokens, pos, bracket, 0),
    decreases tokens.len() - pos,
{
    match identifier_at(tokens, pos) {
        Some(name) => {
            lemma_annotation_balanced(tokens, pos + 1, TokenKindView::Colon, bracket);
            match parse_annotation(tokens, pos + 1, TokenKindView::Colon) {
                Parsed::Done { value: type_annotation, next } => {
                    let params = seen.push(ParameterView { name, type_annotation });
                    lemma_surplus_first(tokens, pos, next, bracket);
                    if holds(tokens, next, TokenKindView::Comma) {
                        lemma_parameter_list_balanced(tokens, next + 1, params, bracket);
                        match parse_parameter_list(tokens, next + 1, params) {
                            Parsed::Done { value: all, next: end } => {
                                lemma_surplus_split(tokens, pos, next, end, bracket);
                                lemma_surplus_first(tokens, next, end, bracket);
                            },
                            Parsed::Failed { .. } => {},
                        }
                    }
                },
                Parsed::Failed { .. } => {},
            }
        },
        None => {},
    }
}

/// Parameters close the parenthesis that was opened before them, and are
/// balanced but for that.
pub proof fn lemma_parameters_balanced(tokens: Seq<TokenKindView>, pos: int, bracket: Bracket)
    requires
        0 <= pos <= tokens.len(),
    ensures
        weighs(parse_parameters(tokens, pos), tokens, pos, bracket, closing(bracket)),
{
    if holds(tokens, pos, TokenKindView::RightParen) {
        lemma_surplus_first(tokens, pos, pos + 1, bracket);
    } else {
        lemma_parameter_list_balanced(tokens, pos, Seq::empty(), bracket);
        match parse_parameter_list(tokens, pos, Seq::empty()) {
            Parsed::Done { value, next } => {
                if holds(tokens, next, TokenKindView::RightParen) {
                    lemma_surplus_split(tokens, pos, next, next + 1, bracket);
                    lemma_surplus_first(tokens, next, next + 1, bracket);
                }
            },
            Parsed::Failed { .. } => {},
        }
    }
}

/// The fields of a struct literal are balanced.
pub proof fn lemma_struct_fields_balanced(
    tokens: Seq<TokenKindView>,
    pos: int,
    seen: Seq<(Seq<char>, ExprView)>,
    bracket: Bracket,
)
    requires
        0 <= pos <= tokens.len(),
    ensures
        weighs(parse_struct_fields(tokens, pos, seen), tokens, pos, bracket, 0),
    decreases tokens.len() - pos,
{
    if !(at_end(tokens, pos) || tokens[pos] == TokenKindView::RightBrace) {
        match identifier_at(tokens, pos) {
            Some(name) => {
                let fields = seen.push((name, ExprView::Identifier(name)));
                if holds(tokens, pos + 1, TokenKindView::Comma) {
                    lemma_struct_fields_balanced(tokens, pos + 2, fields, bracket);
                    match parse_struct_fields(tokens, pos + 2, fields) {
                        Parsed::Done { value, next } => {
                            lemma_surplus_first(tokens, pos, next, bracket);
                            lemma_surplus_first(tokens, pos + 1, next, bracket);
                        },
                        Parsed::Failed { .. } => {},
                    }
                } else {
                    lemma_surplus_first(tokens, pos, pos + 1, bracket);
                }
            },
            None => {},
        }
    }
}

/// A primary expression is balanced.
pub proof fn lemma_atom_balanced(tokens: Seq<TokenKindView>, pos: int, bracket: Bracket)
    requires
        0 <= pos <= tokens.len(),
    ensures
        weighs(parse_atom(tokens, pos), tokens, pos, bracket, 0),
    decreases tokens.len() - pos, 0int,
{
    if !at_end(tokens, pos) {
        match tokens[pos] {
            TokenKindView::Number(text) => {
                lemma_surplus_first(tokens, pos, pos + 1, bracket);
            },
            TokenKindView::String(text) => {
                lemma_surplus_first(tokens, pos, pos + 1, bracket);
            },
            TokenKindView::Boolean(value) => {
                lemma_surplus_first(tokens, pos, pos + 1, bracket);
            },
            TokenKindView::Identifier(name) => {
                if holds(tokens, pos + 1, TokenKindView::LeftBrace) {
                    lemma_struct_fields_balanced(tokens, pos + 2, Seq::empty(), bracket);
                    match parse_struct_fields(tokens, pos + 2, Seq::empty()) {
                        Parsed::Done { value: fields, next } => {
                            if holds(tokens, next, TokenKindView::RightBrace) {
                                lemma_surplus_first(tokens, pos, next + 1, bracket);
                                lemma_surplus_first(tokens, pos + 1, next + 1, bracket);
                            }
                        },
                        Parsed::Failed { .. } => {},
                    }
                } else {
                    lemma_surplus_first(tokens, pos, pos + 1, bracket);
                }
            },
            TokenKindView::LeftParen => {
                if lambda_ahead(tokens, pos + 1) {
                    lemma_lambda_balanced(tokens, pos + 1, bracket);
                    match parse_lambda(tokens, pos + 1) {
                        Parsed::Done { value, next } => {
                            lemma_surplus_first(tokens, pos, next, bracket);
                        },
                        Parsed::Failed { .. } => {},
                    }
                } else {
                    lemma_expression_balanced(tokens, pos + 1, bracket);
                    match parse_expression(tokens, pos + 1) {
                        Parsed::Done { value, next } => {
                            if holds(tokens, next, TokenKindView::RightParen) {
                                lemma_surplus_first(tokens, pos, next + 1, bracket);
                            }
                        },
                        Parsed::Failed { .. } => {},
                    }
                }
            },
            TokenKindView::LeftBrace => {
                lemma_items_balanced(tokens, pos + 1, Seq::empty(), bracket);
                match parse_items(tokens, pos + 1, Seq::empty()) {
                    Parsed::Done { value, next } => {
                        if holds(tokens, next, TokenKindView::RightBrace) {
                            lemma_surplus_first(tokens, pos, next + 1, bracket);
                        }
                    },
                    Parsed::Failed { .. } => {},
                }
            },
            _ => {},
        }
    }
}

/// A lambda closes the parenthesis that was opened before it, and is balanced
/// but for that.
pub proof fn lemma_lambda_balanced(tokens: Seq<TokenKindView>, pos: int, bracket: Bracket)
    requires
        0 <= pos <= tokens.len(),
    ensures
        weighs(parse_lambda(tokens, pos), tokens, pos, bracket, closing(bracket)),
    decreases tokens.len() - pos, 0int,
{
    lemma_parameters_balanced(tokens, pos, bracket);
    crate::grammar::lemma_parameters_advance(tokens, pos);
    match parse_parameters(tokens, pos) {
        Parsed::Done { value: params, next } => {
            if holds(tokens, next, TokenKindView::Arrow) {
                lemma_expression_balanced(tokens, next + 1, bracket);
                match parse_expression(tokens, next + 1) {
                    Parsed::Done { value: body, next: end } => {
                        lemma_surplus_split(tokens, pos, next, end, bracket);
                        lemma_surplus_first(tokens, next, end, bracket);
                    },
                    Parsed::Failed { .. } => {},
                }
            }
        },
        Parsed::Failed { .. } => {},
    }
}

/// Call arguments are balanced.
pub proof fn lemma_arguments_balanced(
    tokens: Seq<TokenKindView>,
    pos: int,
    seen: Seq<ExprView>,
    bracket: Bracket,
)
    requires
        0 <= pos <= tokens.len(),
    ensures
        weighs(parse_arguments(tokens, pos, seen), tokens, pos, bracket, 0),
    decreases tokens.len() - pos, 17int,
{
    lemma_expression_balanced(tokens, pos, bracket);
    match parse_expression(tokens, pos) {
        Parsed::Done { value, next } => {
            if pos < next <= tokens.len() && holds(tokens, next, TokenKindView::Comma) {
                lemma_arguments_balanced(tokens, next + 1, seen.push(value), bracket);
                match parse_arguments(tokens, next + 1, seen.push(value)) {
                    Parsed::Done { value: all, next: end } => {
                        lemma_surplus_split(tokens, pos, next, end, bracket);
                        lemma_surplus_first(tokens, next, end, bracket);
                    },
                    Parsed::Failed { .. } => {},
                }
            }
        },
        Parsed::Failed { .. } => {},
    }
}

/// The rest of a call closes the parenthesis that was opened before it, and
/// is balanced but for that.
pub proof fn lemma_call_balanced(
    tokens: Seq<TokenKindView>,
    pos: int,
    callee: ExprView,
    bracket: Bracket,
)
    requires
        0 <= pos <= tokens.len(),
    ensures
        weighs(parse_call(tokens, pos, callee), tokens, pos, bracket, closing(bracket)),
    decreases tokens.len() - pos, 18int,
{
    if holds(tokens, pos, TokenKindView::RightParen) {
        lemma_surplus_first(tokens, pos, pos + 1, bracket);
    } else {
        lemma_arguments_balanced(tokens, pos, Seq::empty(), bracket);
        match parse_arguments(tokens, pos, Seq::empty()) {
            Parsed::Done { value, next } => {
                if holds(tokens, next, TokenKindView::RightParen) {
                    lemma_surplus_split(tokens, pos, next, next + 1, bracket);
                    lemma_surplus_first(tokens, next, next + 1, bracket);
                }
            },
            Parsed::Failed { .. } => {},
        }
    }
}

/// What follows a primary expression is balanced.
pub proof fn lemma_postfix_balanced(
    tokens: Seq<TokenKindView>,
    pos: int,
    left: ExprView,
    bracket: Bracket,
)
    requires
        0 <= pos <= tokens.len(),
    ensures
        weighs(parse_postfix(tokens, pos, left), tokens, pos, bracket, 0),
    decreases tokens.len() - pos, 1int,
{
    if holds(tokens, pos, TokenKindView::LeftParen) {
        lemma_call_balanced(tokens, pos + 1, left, bracket);
        match parse_call(tokens, pos + 1, left) {
            Parsed::Done { value, next } => {
                if pos < next <= tokens.len() {
                    lemma_postfix_balanced(tokens, next, value, bracket);
                    match parse_postfix(tokens, next, value) {
                        Parsed::Done { value: all, next: end } => {
                            lemma_surplus_first(tokens, pos, end, bracket);
                            lemma_surplus_split(tokens, pos + 1, next, end, bracket);
                        },
                        Parsed::Failed { .. } => {},
                    }
                }
            },
            Parsed::Failed { .. } => {},
        }
    } else if holds(tokens, pos, TokenKindView::Dot) {
        match identifier_at(tokens, pos + 1) {
            Some(name) => {
                let object = ExprView::PropertyAccess { object: Box::new(left), name };
                lemma_postfix_balanced(tokens, pos + 2, object, bracket);
                match parse_postfix(tokens, pos + 2, object) {
                    Parsed::Done { value: all, next: end } => {
                        lemma_surplus_first(tokens, pos, end, bracket);
                        lemma_surplus_first(tokens, pos + 1, end, bracket);
                    },
                    Parsed::Failed { .. } => {},
                }
            },
            None => {},
        }
    }
}

/// A primary expression with what follows it is balanced.
pub proof fn lemma_primary_balanced(tokens: Seq<TokenKindView>, pos: int, bracket: Bracket)
    requires
        0 <= pos <= tokens.len(),
    ensures
        weighs(parse_primary(tokens, pos), tokens, pos, bracket, 0),
    decreases tokens.len() - pos, 2int,
{
    lemma_atom_balanced(tokens, pos, bracket);
    match parse_atom(tokens, pos) {
        Parsed::Done { value, next } => {
            if pos < next <= tokens.len() {
                lemma_postfix_balanced(tokens, next, value, bracket);
                match parse_postfix(tokens, next, value) {
                    Parsed::Done { value: all, next: end } => {
                        lemma_surplus_split(tokens, pos, next, end, bracket);
                    },
                    Parsed::Failed { .. } => {},
                }
            }
        },
        Parsed::Failed { .. } => {},
    }
}

/// A unary expression is balanced.
pub proof fn lemma_unary_balanced(tokens: Seq<TokenKindView>, pos: int, bracket: Bracket)
    requires
        0 <= pos <= tokens.len(),
    ensures
        weighs(parse_unary(tokens, pos), tokens, pos, bracket, 0),
    decreases tokens.len() - pos, 3int,
{
    match unary_operator_at(tokens, pos) {
        Some(op) => {
            lemma_unary_balanced(tokens, pos + 1, bracket);
            match parse_unary(tokens, pos + 1) {
                Parsed::Done { value, next } => {
                    lemma_surplus_first(tokens, pos, next, bracket);
                },
                Parsed::Failed { .. } => {},
            }
        },
        None => {
            lemma_primary_balanced(tokens, pos, bracket);
        },
    }
}

/// The operators and operands that follow an operand are balanced.
pub proof fn lemma_binary_rest_balanced(
    tokens: Seq<TokenKindView>,
    pos: int,
    level: nat,
    left: ExprView,
    bracket: Bracket,
)
    requires
        0 <= pos <= tokens.len(),
    ensures
        weighs(parse_binary_rest(tokens, pos, level, left), tokens, pos, bracket, 0),
    decreases tokens.len() - pos, 4 + 2 * level,
{
    match binary_operator_at(tokens, pos, level) {
        Some(op) => {
            if level == 0 {
                lemma_unary_balanced(tokens, pos + 1, bracket);
            } else {
                lemma_binary_balanced(tokens, pos + 1, (level - 1) as nat, bracket);
            }
            let operand = if level == 0 {
                parse_unary(tokens, pos + 1)
            } else {
                parse_binary(tokens, pos + 1, (level - 1) as nat)
            };
            match operand {
                Parsed::Done { value: right, next } => {
                    if pos < next <= tokens.len() {
                        let joined = ExprView::Binary {
                            left: Box::new(left),
                            op,
                            right: Box::new(right),
                        };
                        lemma_binary_rest_balanced(tokens, next, level, joined, bracket);
                        match parse_binary_rest(tokens, next, level, joined) {
                            Parsed::Done { value: all, next: end } => {
                                lemma_surplus_first(tokens, pos, end, bracket);
                                lemma_surplus_split(tokens, pos + 1, next, end, bracket);
                            },
                            Parsed::Failed { .. } => {},
                        }
                    }
                },
                Parsed::Failed { .. } => {},
            }
        },
        None => {},
    }
}

/// A binary expression is balanced.
pub proof fn lemma_binary_balanced(
    tokens: Seq<TokenKindView>,
    pos: int,
    level: nat,
    bracket: Bracket,
)
    requires
        0 <= pos <= tokens.len(),
    ensures
        weighs(parse_binary(tokens, pos, level), tokens, pos, bracket, 0),
    decreases tokens.len() - pos, 5 + 2 * level,
{
    if level == 0 {
        lemma_unary_balanced(tokens, pos, bracket);
    } else {
        lemma_binary_balanced(tokens, pos, (level - 1) as nat, bracket);
    }
    let operand = if level == 0 {
        parse_unary(tokens, pos)
    } else {
        parse_binary(tokens, pos, (level - 1) as nat)
    };
    match operand {
        Parsed::Done { value, next } => {
            if pos < next <= tokens.len() {
                lemma_binary_rest_balanced(tokens, next, level, value, bracket);
                match parse_binary_rest(tokens, next, level, value) {
                    Parsed::Done { value: all, next: end } => {
                        lemma_surplus_split(tokens, pos, next, end, bracket);
                    },
                    Parsed::Failed { .. } => {},
                }
            }
        },
        Parsed::Failed { .. } => {},
    }
}

/// An expression is balanced.
pub proof fn lemma_expression_balanced(tokens: Seq<TokenKindView>, pos: int, bracket: Bracket)
    requires
        0 <= pos <= tokens.len(),
    ensures
        weighs(parse_expression(tokens, pos), tokens, pos, bracket, 0),
    decreases tokens.len() - pos, 16int,
{
    lemma_binary_balanced(tokens, pos, 5, bracket);
}

/// An expression statement is balanced.
pub proof fn lemma_statement_balanced(tokens: Seq<TokenKindView>, pos: int, bracket: Bracket)
    requires
        0 <= pos <= tokens.len(),
    ensures
        weighs(parse_statement(tokens, pos), tokens, pos, bracket, 0),
    decreases tokens.len() - pos, 17int,
{
    lemma_expression_balanced(tokens, pos, bracket);
    match parse_expression(tokens, pos) {
        Parsed::Done { value, next } => {
            if holds(tokens, next, TokenKindView::Semicolon) {
                lemma_surplus_split(tokens, pos, next, next + 1, bracket);
                lemma_surplus_first(tokens, next, next + 1, bracket);
            }
        },
        Parsed::Failed { .. } => {},
    }
}

/// The rest of an import is balanced.
pub proof fn lemma_import_balanced(tokens: Seq<TokenKindView>, pos: int, bracket: Bracket)
    requires
        0 <= pos <= tokens.len(),
    ensures
        weighs(parse_import(tokens, pos), tokens, pos, bracket, 0),
{
    match identifier_at(tokens, pos) {
        Some(name) => {
            if holds(tokens, pos + 1, TokenKindView::Semicolon) {
                lemma_surplus_first(tokens, pos, pos + 2, bracket);
                lemma_surplus_first(tokens, pos + 1, pos + 2, bracket);
            }
        },
        None => {},
    }
}

/// The rest of a return statement is balanced.
pub proof fn lemma_return_balanced(tokens: Seq<TokenKindView>, pos: int, bracket: Bracket)
    requires
        0 <= pos <= tokens.len(),
    ensures
        weighs(parse_return(tokens, pos), tokens, pos, bracket, 0),
    decreases tokens.len() - pos, 17int,
{
    if holds(tokens, pos, TokenKindView::Semicolon) {
        lemma_surplus_first(tokens, pos, pos + 1, bracket);
    } else {
        lemma_expression_balanced(tokens, pos, bracket);
        match parse_expression(tokens, pos) {
            Parsed::Done { value, next } => {
                if holds(tokens, next, TokenKindView::Semicolon) {
                    lemma_surplus_split(tokens, pos, next, next + 1, bracket);
                    lemma_surplus_first(tokens, next, next + 1, bracket);
                }
            },
            Parsed::Failed { .. } => {},
        }
    }
}

/// The rest of a variable declaration is balanced.
pub proof fn lemma_variable_balanced(
    tokens: Seq<TokenKindView>,
    pos: int,
    is_mutable: bool,
    bracket: Bracket,
)
    requires
        0 <= pos <= tokens.len(),
    ensures
        weighs(parse_variable(tokens, pos, is_mutable), tokens, pos, bracket, 0),
    decreases tokens.len() - pos, 17int,
{
    match identifier_at(tokens, pos) {
        Some(name) => {
            lemma_annotation_balanced(tokens, pos + 1, TokenKindView::Colon, bracket);
            match parse_annotation(tokens, pos + 1, TokenKindView::Colon) {
                Parsed::Done { value: type_annotation, next } => {
                    lemma_surplus_first(tokens, pos, next, bracket);
                    if holds(tokens, next, TokenKindView::Equal) {
                        lemma_expression_balanced(tokens, next + 1, bracket);
                        match parse_expression(tokens, next + 1) {
                            Parsed::Done { value, next: end } => {
                                if holds(tokens, end, TokenKindView::Semicolon) {
                                    lemma_surplus_split(tokens, pos, next, end + 1, bracket);
                                    lemma_surplus_first(tokens, next, end + 1, bracket);
                                    lemma_surplus_split(tokens, next + 1, end, end + 1, bracket);
                                    lemma_surplus_first(tokens, end, end + 1, bracket);
                                }
                            },
                            Parsed::Failed { .. } => {},
                        }
                    } else if holds(tokens, next, TokenKindView::Semicolon) {
                        lemma_surplus_split(tokens, pos, next, next + 1, bracket);
                        lemma_surplus_first(tokens, next, next + 1, bracket);
                    }
                },
                Parsed::Failed { .. } => {},
            }
        },
        None => {},
    }
}

/// The rest of a function declaration is balanced.
pub proof fn lemma_function_balanced(tokens: Seq<TokenKindView>, pos: int, bracket: Bracket)
    requires
        0 <= pos <= tokens.len(),
    ensures
        weighs(parse_function(tokens, pos), tokens, pos, bracket, 0),
    decreases tokens.len() - pos, 17int,
{
    match identifier_at(tokens, pos) {
        Some(name) => {
            if holds(tokens, pos + 1, TokenKindView::LeftParen) {
                lemma_parameters_balanced(tokens, pos + 2, bracket);
                crate::grammar::lemma_parameters_advance(tokens, pos + 2);
                match parse_parameters(tokens, pos + 2) {
                    Parsed::Done { value: params, next } => {
                        lemma_annotation_balanced(tokens, next, TokenKindView::Arrow, bracket);
                        match parse_annotation(tokens, next, TokenKindView::Arrow) {
                            Parsed::Done { value: return_type, next: open } => {
                                if holds(tokens, open, TokenKindView::LeftBrace) {
                                    lemma_items_balanced(tokens, open + 1, Seq::empty(), bracket);
                                    match parse_items(tokens, open + 1, Seq::empty()) {
                                        Parsed::Done { value: body, next: close } => {
                                            if holds(tokens, close, TokenKindView::RightBrace) {
                                                let end = close + 1;
                                                lemma_surplus_first(tokens, pos, end, bracket);
                                                lemma_surplus_first(tokens, pos + 1, end, bracket);
                                                lemma_surplus_split(
                                                    tokens,
                                                    pos + 2,
                                                    next,
                                                    end,
                                                    bracket,
                                                );
                                                lemma_surplus_split(
                                                    tokens,
                                                    next,
                                                    open,
                                                    end,
                                                    bracket,
                                                );
                                                lemma_surplus_first(tokens, open, end, bracket);
                                                lemma_surplus_split(
                                                    tokens,
                                                    open + 1,
                                                    close,
                                                    end,
                                                    bracket,
                                                );
                                                lemma_surplus_first(tokens, close, end, bracket);
                                            }
                                        },
                                        Parsed::Failed { .. } => {},
                                    }
                                }
                            },
                            Parsed::Failed { .. } => {},
                        }
                    },
                    Parsed::Failed { .. } => {},
                }
            }
        },
        None => {},
    }
}

/// The rest of a module declaration is balanced.
pub proof fn lemma_module_balanced(tokens: Seq<TokenKindView>, pos: int, bracket: Bracket)
    requires
        0 <= pos <= tokens.len(),
    ensures
        weighs(parse_module(tokens, pos), tokens, pos, bracket, 0),
    decreases tokens.len() - pos, 17int,
{
    match identifier_at(tokens, pos) {
        Some(name) => {
            if holds(tokens, pos + 1, TokenKindView::LeftBrace) {
                lemma_items_balanced(tokens, pos + 2, Seq::empty(), bracket);
                match parse_items(tokens, pos + 2, Seq::empty()) {
                    Parsed::Done { value: declarations, next } => {
                        if holds(tokens, next, TokenKindView::RightBrace) {
                            lemma_surplus_first(tokens, pos, next + 1, bracket);
                            lemma_surplus_first(tokens, pos + 1, next + 1, bracket);
                        }
                    },
                    Parsed::Failed { .. } => {},
                }
            }
        },
        None => {},
    }
}

/// The members of a class are balanced.
pub proof fn lemma_members_balanced(
    tokens: Seq<TokenKindView>,
    pos: int,
    fields: Seq<StmtView>,
    methods: Seq<StmtView>,
    bracket: Bracket,
)
    requires
        0 <= pos <= tokens.len(),
    ensures
        weighs(parse_members(tokens, pos, fields, methods), tokens, pos, bracket, 0),
    decreases tokens.len() - pos, 17int,
{
    if at_end(tokens, pos) || tokens[pos] == TokenKindView::RightBrace {
    } else if tokens[pos] == TokenKindView::Fn {
        lemma_function_balanced(tokens, pos + 1, bracket);
        match parse_function(tokens, pos + 1) {
            Parsed::Done { value, next } => {
                if pos < next <= tokens.len() {
                    lemma_members_balanced(tokens, next, fields, methods.push(value), bracket);
                    match parse_members(tokens, next, fields, methods.push(value)) {
                        Parsed::Done { value: all, next: end } => {
                            lemma_surplus_first(tokens, pos, end, bracket);
                            lemma_surplus_split(tokens, pos + 1, next, end, bracket);
                        },
                        Parsed::Failed { .. } => {},
                    }
                }
            },
            Parsed::Failed { .. } => {},
        }
    } else if tokens[pos] == TokenKindView::Let || tokens[pos] == TokenKindView::Var {
        let is_mutable = tokens[pos] == TokenKindView::Var;
        lemma_variable_balanced(tokens, pos + 1, is_mutable, bracket);
        match parse_variable(tokens, pos + 1, is_mutable) {
            Parsed::Done { value, next } => {
                if pos < next <= tokens.len() {
                    lemma_members_balanced(tokens, next, fields.push(value), methods, bracket);
                    match parse_members(tokens, next, fields.push(value), methods) {
                        Parsed::Done { value: all, next: end } => {
                            lemma_surplus_first(tokens, pos, end, bracket);
                            lemma_surplus_split(tokens, pos + 1, next, end, bracket);
                        },
                        Parsed::Failed { .. } => {},
                    }
                }
            },
            Parsed::Failed { .. } => {},
        }
    }
}

/// The rest of a class declaration is balanced.
pub proof fn lemma_class_balanced(tokens: Seq<TokenKindView>, pos: int, bracket: Bracket)
    requires
        0 <= pos <= tokens.len(),
    ensures
        weighs(parse_class(tokens, pos), tokens, pos, bracket, 0),
    decreases tokens.len() - pos, 18int,
{
    match identifier_at(tokens, pos) {
        Some(name) => {
            if holds(tokens, pos + 1, TokenKindView::LeftBrace) {
                lemma_members_balanced(tokens, pos + 2, Seq::empty(), Seq::empty(), bracket);
                match parse_members(tokens, pos + 2, Seq::empty(), Seq::empty()) {
                    Parsed::Done { value: members, next } => {
                        if holds(tokens, next, TokenKindView::RightBrace) {
                            lemma_surplus_first(tokens, pos, next + 1, bracket);
                            lemma_surplus_first(tokens, pos + 1, next + 1, bracket);
                        }
                    },
                    Parsed::Failed { .. } => {},
                }
            }
        },
        None => {},
    }
}

/// A declaration is balanced.
pub proof fn lemma_declaration_balanced(tokens: Seq<TokenKindView>, pos: int, bracket: Bracket)
    requires
        0 <= pos <= tokens.len(),
    ensures
        weighs(parse_declaration(tokens, pos), tokens, pos, bracket, 0),
    decreases tokens.len() - pos, 19int,
{
    if at_end(tokens, pos) {
        lemma_statement_balanced(tokens, pos, bracket);
    } else {
        match tokens[pos] {
            TokenKindView::Import => {
                lemma_import_balanced(tokens, pos + 1, bracket);
            },
            TokenKindView::Module => {
                lemma_module_balanced(tokens, pos + 1, bracket);
            },
            TokenKindView::Class => {
                lemma_class_balanced(tokens, pos + 1, bracket);
            },
            TokenKindView::Fn => {
                lemma_function_balanced(tokens, pos + 1, bracket);
            },
            TokenKindView::Return => {
                lemma_return_balanced(tokens, pos + 1, bracket);
            },
            TokenKindView::Let => {
                lemma_variable_balanced(tokens, pos + 1, false, bracket);
            },
            TokenKindView::Var => {
                lemma_variable_balanced(tokens, pos + 1, true, bracket);
            },
            _ => {
                lemma_statement_balanced(tokens, pos, bracket);
            },
        }
        match parse_declaration(tokens, pos) {
            Parsed::Done { value, next } => {
                if pos < next {
                    lemma_surplus_first(tokens, pos, next, bracket);
                }
            },
            Parsed::Failed { .. } => {},
        }
    }
}

/// The declarations of a block are balanced.
pub proof fn lemma_items_balanced(
    tokens: Seq<TokenKindView>,
    pos: int,
    seen: Seq<StmtView>,
    bracket: Bracket,
)
    requires
        0 <= pos <= tokens.len(),
    ensures
        weighs(parse_items(tokens, pos, seen), tokens, pos, bracket, 0),
    decreases tokens.len() - pos, 20int,
{
    if !(at_end(tokens, pos) || tokens[pos] == TokenKindView::RightBrace) {
        lemma_declaration_balanced(tokens, pos, bracket);
        match parse_declaration(tokens, pos) {
            Parsed::Done { value, next } => {
                if pos < next <= tokens.len() {
                    lemma_items_balanced(tokens, next, seen.push(value), bracket);
                    match parse_items(tokens, next, seen.push(value)) {
                        Parsed::Done { value: all, next: end } => {
                            lemma_surplus_split(tokens, pos, next, end, bracket);
                        },
                        Parsed::Failed { .. } => {},
                    }
                }
            },
            Parsed::Failed { .. } => {},
        }
    }
}

/// The declarations of a program are balanced.
pub proof fn lemma_program_from_balanced(
    tokens: Seq<TokenKindView>,
    pos: int,
    seen: Seq<StmtView>,
    bracket: Bracket,
)
    requires
        0 <= pos <= tokens.len(),
    ensures
        weighs(parse_program_from(tokens, pos, seen), tokens, pos, bracket, 0),
    decreases tokens.len() - pos,
{
    if !at_end(tokens, pos) {
        lemma_declaration_balanced(tokens, pos, bracket);
        match parse_declaration(tokens, pos) {
            Parsed::Done { value, next } => {
                if pos < next <= tokens.len() {
                    lemma_program_from_balanced(tokens, next, seen.push(value), bracket);
                    match parse_program_from(tokens, next, seen.push(value)) {
                        Parsed::Done { value: all, next: end } => {
                            lemma_surplus_split(tokens, pos, next, end, bracket);
                        },
                        Parsed::Failed { .. } => {},
                    }
                }
            },
            Parsed::Failed { .. } => {},
        }
    }
}

/// A program that parses is balanced: among the tokens that were parsed, the
/// closing parentheses are as many as the opening ones, and so are the
/// braces. Tokens in which they differ do not parse.
pub proof fn lemma_parsed_program_is_balanced(tokens: Seq<TokenKindView>)
    ensures
        parse_program(tokens) matches Parsed::Done { next, .. } ==> {
            &&& 0 <= next <= tokens.len()
            &&& at_end(tokens, next)
            &&& surplus(tokens, 0, next, Bracket::Paren) == 0
            &&& surplus(tokens, 0, next, Bracket::Brace) == 0
        },
{
    lemma_program_from_balanced(tokens, 0, Seq::empty(), Bracket::Paren);
    lemma_program_from_balanced(tokens, 0, Seq::empty(), Bracket::Brace);
    crate::progress::lemma_program_reaches_end(tokens, 0, Seq::empty());
}

} // verus!
