//! The grammar, as functions from a token sequence and a place in it to the
//! tree that starts there.
//!
//! Each function takes the kinds of all tokens and the index of the next
//! token, and gives either the tree with the index after it or the message of
//! the first error. [`parse_program`] is what the parser computes.
//!
//! A list goes on only after an item that consumed a token (the tests of the
//! form `pos < next <= tokens.len()`). That holds of every item, as
//! [`crate::progress`] shows; the test is there to make the recursion
//! well-founded.

use vstd::prelude::*;
use crate::ast::{
    BinaryOp, ExprView, LiteralView, ParameterView, StmtView, TypeView, UnaryOp,
};
use crate::number::is_float_literal;
use crate::parser::TokenKindView;

verus! {

/// The outcome of parsing one construct.
pub enum Parsed<T> {
    /// The construct, and the index of the first token after it.
    Done { value: T, next: int },
    /// The message of the error.
    Failed { message: Seq<char> },
}

/// The outcome of a list whose item consumed nothing.
pub open spec fn stalled<T>() -> Parsed<T> {
    Parsed::Failed { message: "No progress"@ }
}

/// Whether the tokens are exhausted at `pos`: there is no token there, or the
/// end marker.
pub open spec fn at_end(tokens: Seq<TokenKindView>, pos: int) -> bool {
    !(0 <= pos < tokens.len()) || tokens[pos] == TokenKindView::Eof
}

/// Whether the token at `pos` is there and is `kind`.
pub open spec fn holds(tokens: Seq<TokenKindView>, pos: int, kind: TokenKindView) -> bool {
    !at_end(tokens, pos) && tokens[pos] == kind
}

/// The name of the identifier at `pos`, if there is one.
pub open spec fn identifier_at(tokens: Seq<TokenKindView>, pos: int) -> Option<Seq<char>> {
    if at_end(tokens, pos) {
        None
    } else {
        match tokens[pos] {
            TokenKindView::Identifier(name) => Some(name),
            _ => None,
        }
    }
}

/// The binary operator that `kind` is at precedence `level`. Levels count from
/// the tightest: 0 for `* / %`, 1 for `+ -`, 2 for the comparisons, 3 for
/// `== !=`, 4 for `&&`, 5 for `||`.
pub open spec fn binary_operator(level: nat, kind: TokenKindView) -> Option<BinaryOp> {
    if level == 0 {
        match kind {
            TokenKindView::Star => Some(BinaryOp::Mul),
            TokenKindView::Slash => Some(BinaryOp::Div),
            TokenKindView::Percent => Some(BinaryOp::Mod),
            _ => None,
        }
    } else if level == 1 {
        match kind {
            TokenKindView::Plus => Some(BinaryOp::Add),
            TokenKindView::Minus => Some(BinaryOp::Sub),
            _ => None,
        }
    } else if level == 2 {
        match kind {
            TokenKindView::Less => Some(BinaryOp::Less),
            TokenKindView::LessEqual => Some(BinaryOp::LessEqual),
            TokenKindView::Greater => Some(BinaryOp::Greater),
            TokenKindView::GreaterEqual => Some(BinaryOp::GreaterEqual),
            _ => None,
        }
    } else if level == 3 {
        match kind {
            TokenKindView::EqualEqual => Some(BinaryOp::EqualEqual),
            TokenKindView::NotEqual => Some(BinaryOp::NotEqual),
            _ => None,
        }
    } else if level == 4 {
        match kind {
            TokenKindView::And => Some(BinaryOp::And),
            _ => None,
        }
    } else if level == 5 {
        match kind {
            TokenKindView::Or => Some(BinaryOp::Or),
            _ => None,
        }
    } else {
        None
    }
}

/// The binary operator at `pos` at precedence `level`, if there is one.
pub open spec fn binary_operator_at(tokens: Seq<TokenKindView>, pos: int, level: nat) -> Option<
    BinaryOp,
> {
    if at_end(tokens, pos) {
        None
    } else {
        binary_operator(level, tokens[pos])
    }
}

/// The prefix operator at `pos`, if there is one.
pub open spec fn unary_operator_at(tokens: Seq<TokenKindView>, pos: int) -> Option<UnaryOp> {
    if at_end(tokens, pos) {
        None
    } else {
        match tokens[pos] {
            TokenKindView::Not => Some(UnaryOp::Not),
            TokenKindView::Minus => Some(UnaryOp::Negate),
            _ => None,
        }
    }
}

/// The index of the `)` that closes a parenthesis which is open at `pos` with
/// `nested` more opened inside it, or `tokens.len()` if it is not closed.
pub open spec fn closing_paren(tokens: Seq<TokenKindView>, pos: int, nested: nat) -> int
    decreases tokens.len() - pos,
{
    if !(0 <= pos < tokens.len()) {
        tokens.len() as int
    } else {
        match tokens[pos] {
            TokenKindView::LeftParen => closing_paren(tokens, pos + 1, nested + 1),
            TokenKindView::RightParen => if nested == 0 {
                pos
            } else {
                closing_paren(tokens, pos + 1, (nested - 1) as nat)
            },
            _ => closing_paren(tokens, pos + 1, nested),
        }
    }
}

/// Whether the parenthesis that was opened just before `pos` holds the
/// parameters of a lambda: it is closed and `->` follows its `)`.
pub open spec fn lambda_ahead(tokens: Seq<TokenKindView>, pos: int) -> bool {
    let close = closing_paren(tokens, pos, 0);
    close + 1 < tokens.len() && tokens[close + 1] == TokenKindView::Arrow
}

/// A type at `pos`: a function type `(T, ..) -> T`, a generic type `name<T, ..>`,
/// or a name.
pub open spec fn parse_type(tokens: Seq<TokenKindView>, pos: int) -> Parsed<TypeView>
    decreases tokens.len() - pos, 0int,
{
    if holds(tokens, pos, TokenKindView::LeftParen) {
        match parse_type_list(tokens, pos + 1, Seq::empty()) {
            Parsed::Failed { message } => Parsed::Failed { message },
            Parsed::Done { value: params, next } => if !holds(
                tokens,
                next,
                TokenKindView::RightParen,
            ) {
                Parsed::Failed { message: "Expected ')' in function type"@ }
            } else if !holds(tokens, next + 1, TokenKindView::Arrow) {
                Parsed::Failed { message: "Expected '->' in function type"@ }
            } else if !(pos < next) {
                stalled()
            } else {
                match parse_type(tokens, next + 2) {
                    Parsed::Failed { message } => Parsed::Failed { message },
                    Parsed::Done { value: result, next: end } => Parsed::Done {
                        value: TypeView::Function(params, Box::new(result)),
                        next: end,
                    },
                }
            },
        }
    } else {
        match identifier_at(tokens, pos) {
            None => Parsed::Failed { message: "Expected type name"@ },
            Some(name) => if holds(tokens, pos + 1, TokenKindView::Less) {
                match parse_type_list(tokens, pos + 2, Seq::empty()) {
                    Parsed::Failed { message } => Parsed::Failed { message },
                    Parsed::Done { value: params, next } => if !holds(
                        tokens,
                        next,
                        TokenKindView::Greater,
                    ) {
                        Parsed::Failed { message: "Expected '>' in generic type"@ }
                    } else {
                        Parsed::Done { value: TypeView::Generic { name, params }, next: next + 1 }
                    },
                }
            } else {
                Parsed::Done { value: TypeView::Simple(name), next: pos + 1 }
            },
        }
    }
}

/// One or more types at `pos`, separated by commas, after the types `seen`.
pub open spec fn parse_type_list(
    tokens: Seq<TokenKindView>,
    pos: int,
    seen: Seq<TypeView>,
) -> Parsed<Seq<TypeView>>
    decreases tokens.len() - pos, 1int,
{
    match parse_type(tokens, pos) {
        Parsed::Failed { message } => Parsed::Failed { message },
        Parsed::Done { value, next } => if !(pos < next <= tokens.len()) {
            stalled()
        } else if holds(tokens, next, TokenKindView::Comma) {
            parse_type_list(tokens, next + 1, seen.push(value))
        } else {
            Parsed::Done { value: seen.push(value), next }
        },
    }
}

/// A type ends after where it starts, within the tokens.
pub proof fn lemma_type_advances(tokens: Seq<TokenKindView>, pos: int)
    ensures
        parse_type(tokens, pos) matches Parsed::Done { next, .. } ==> pos < next <= tokens.len(),
    decreases tokens.len() - pos, 0int,
{
    if holds(tokens, pos, TokenKindView::LeftParen) {
        lemma_type_list_advances(tokens, pos + 1, Seq::empty());
        match parse_type_list(tokens, pos + 1, Seq::empty()) {
            Parsed::Failed { .. } => {},
            Parsed::Done { value: params, next } => {
                if holds(tokens, next, TokenKindView::RightParen) && holds(
                    tokens,
                    next + 1,
                    TokenKindView::Arrow,
                ) {
                    lemma_type_advances(tokens, next + 2);
                }
            },
        }
    } else {
        match identifier_at(tokens, pos) {
            None => {},
            Some(name) => {
                if holds(tokens, pos + 1, TokenKindView::Less) {
                    lemma_type_list_advances(tokens, pos + 2, Seq::empty());
                }
            },
        }
    }
}

/// A list of types ends after where it starts, within the tokens.
pub proof fn lemma_type_list_advances(
    tokens: Seq<TokenKindView>,
    pos: int,
    seen: Seq<TypeView>,
)
    ensures
        parse_type_list(tokens, pos, seen) matches Parsed::Done { next, .. } ==> pos < next
            <= tokens.len(),
    decreases tokens.len() - pos, 1int,
{
    match parse_type(tokens, pos) {
        Parsed::Failed { .. } => {},
        Parsed::Done { value, next } => {
            if pos < next <= tokens.len() && holds(tokens, next, TokenKindView::Comma) {
                lemma_type_list_advances(tokens, next + 1, seen.push(value));
            }
        },
    }
}

/// One or more parameters `name (: type)?` at `pos`, separated by commas,
/// after the parameters `seen`.
pub open spec fn parse_parameter_list(
    tokens: Seq<TokenKindView>,
    pos: int,
    seen: Seq<ParameterView>,
) -> Parsed<Seq<ParameterView>>
    decreases tokens.len() - pos,
{
    match identifier_at(tokens, pos) {
        None => Parsed::Failed { message: "Expected parameter name"@ },
        Some(name) => {
            let annotation = if holds(tokens, pos + 1, TokenKindView::Colon) {
                match parse_type(tokens, pos + 2) {
                    Parsed::Failed { message } => Parsed::Failed { message },
                    Parsed::Done { value, next } => Parsed::Done { value: Some(value), next },
                }
            } else {
                Parsed::Done { value: None, next: pos + 1 }
            };
            match annotation {
                Parsed::Failed { message } => Parsed::Failed { message },
                Parsed::Done { value: type_annotation, next } => {
                    let params = seen.push(ParameterView { name, type_annotation });
                    if holds(tokens, next, TokenKindView::Comma) {
                        proof {
                            lemma_type_advances(tokens, pos + 2);
                        }
                        parse_parameter_list(tokens, next + 1, params)
                    } else {
                        Parsed::Done { value: params, next }
                    }
                },
            }
        },
    }
}

/// The parameters of a function or of a lambda at `pos`, after the opening
/// parenthesis and up to and with the closing one.
pub open spec fn parse_parameters(tokens: Seq<TokenKindView>, pos: int) -> Parsed<
    Seq<ParameterView>,
> {
    if holds(tokens, pos, TokenKindView::RightParen) {
        Parsed::Done { value: Seq::empty(), next: pos + 1 }
    } else {
        match parse_parameter_list(tokens, pos, Seq::empty()) {
            Parsed::Failed { message } => Parsed::Failed { message },
            Parsed::Done { value, next } => if holds(tokens, next, TokenKindView::RightParen) {
                Parsed::Done { value, next: next + 1 }
            } else {
                Parsed::Failed { message: "Expected ')' after parameters"@ }
            },
        }
    }
}

/// A list of parameters ends after where it starts, within the tokens.
pub proof fn lemma_parameter_list_advances(
    tokens: Seq<TokenKindView>,
    pos: int,
    seen: Seq<ParameterView>,
)
    ensures
        parse_parameter_list(tokens, pos, seen) matches Parsed::Done { next, .. } ==> pos < next
            <= tokens.len(),
    decreases tokens.len() - pos,
{
    match identifier_at(tokens, pos) {
        None => {},
        Some(name) => {
            if holds(tokens, pos + 1, TokenKindView::Colon) {
                lemma_type_advances(tokens, pos + 2);
                match parse_type(tokens, pos + 2) {
                    Parsed::Failed { .. } => {},
                    Parsed::Done { value, next } => {
                        if holds(tokens, next, TokenKindView::Comma) {
                            lemma_parameter_list_advances(
                                tokens,
                                next + 1,
                                seen.push(ParameterView { name, type_annotation: Some(value) }),
                            );
                        }
                    },
                }
            } else {
                if holds(tokens, pos + 1, TokenKindView::Comma) {
                    lemma_parameter_list_advances(
                        tokens,
                        pos + 2,
                        seen.push(ParameterView { name, type_annotation: None }),
                    );
                }
            }
        },
    }
}

/// Parameters end after where they start, within the tokens.
pub proof fn lemma_parameters_advance(tokens: Seq<TokenKindView>, pos: int)
    ensures
        parse_parameters(tokens, pos) matches Parsed::Done { next, .. } ==> pos < next
            <= tokens.len(),
{
    lemma_parameter_list_advances(tokens, pos, Seq::empty());
}

/// The fields of a struct literal at `pos`, after the fields `seen`: names
/// separated by commas, up to a closing brace or the end of the tokens. The
/// value of each field is the identifier of its own name.
pub open spec fn parse_struct_fields(
    tokens: Seq<TokenKindView>,
    pos: int,
    seen: Seq<(Seq<char>, ExprView)>,
) -> Parsed<Seq<(Seq<char>, ExprView)>>
    decreases tokens.len() - pos,
{
    if at_end(tokens, pos) || tokens[pos] == TokenKindView::RightBrace {
        Parsed::Done { value: seen, next: pos }
    } else {
        match identifier_at(tokens, pos) {
            None => Parsed::Failed { message: "Expected field name in struct literal"@ },
            Some(name) => {
                let fields = seen.push((name, ExprView::Identifier(name)));
                if holds(tokens, pos + 1, TokenKindView::Comma) {
                    parse_struct_fields(tokens, pos + 2, fields)
                } else {
                    Parsed::Done { value: fields, next: pos + 1 }
                }
            },
        }
    }
}

/// The fields of a struct literal end at or after where they start.
pub proof fn lemma_struct_fields_advance(
    tokens: Seq<TokenKindView>,
    pos: int,
    seen: Seq<(Seq<char>, ExprView)>,
)
    requires
        0 <= pos <= tokens.len(),
    ensures
        parse_struct_fields(tokens, pos, seen) matches Parsed::Done { next, .. } ==> pos <= next
            <= tokens.len(),
    decreases tokens.len() - pos,
{
    if !(at_end(tokens, pos) || tokens[pos] == TokenKindView::RightBrace) {
        match identifier_at(tokens, pos) {
            None => {},
            Some(name) => {
                if holds(tokens, pos + 1, TokenKindView::Comma) {
                    lemma_struct_fields_advance(
                        tokens,
                        pos + 2,
                        seen.push((name, ExprView::Identifier(name))),
                    );
                }
            },
        }
    }
}

/// A primary expression at `pos`, without what may follow it: a literal, an
/// identifier or a struct literal, a lambda or a parenthesized expression, or
/// a block.
pub open spec fn parse_atom(tokens: Seq<TokenKindView>, pos: int) -> Parsed<ExprView>
    decreases tokens.len() - pos, 0int,
{
    if at_end(tokens, pos) {
        Parsed::Failed { message: "Unexpected token: "@ + TokenKindView::Eof.name() }
    } else {
        match tokens[pos] {
            TokenKindView::Number(text) => if is_float_literal(text) {
                Parsed::Done {
                    value: ExprView::Literal(LiteralView::Number(text)),
                    next: pos + 1,
                }
            } else {
                Parsed::Failed { message: "Invalid number literal: "@ + text }
            },
            TokenKindView::String(text) => Parsed::Done {
                value: ExprView::Literal(LiteralView::String(text)),
                next: pos + 1,
            },
            TokenKindView::Boolean(value) => Parsed::Done {
                value: ExprView::Literal(LiteralView::Boolean(value)),
                next: pos + 1,
            },
            TokenKindView::Identifier(name) => if holds(
                tokens,
                pos + 1,
                TokenKindView::LeftBrace,
            ) {
                match parse_struct_fields(tokens, pos + 2, Seq::empty()) {
                    Parsed::Failed { message } => Parsed::Failed { message },
                    Parsed::Done { value: fields, next } => if holds(
                        tokens,
                        next,
                        TokenKindView::RightBrace,
                    ) {
                        Parsed::Done {
                            value: ExprView::StructLiteral { name, fields },
                            next: next + 1,
                        }
                    } else {
                        Parsed::Failed { message: "Expected '}' after struct literal"@ }
                    },
                }
            } else {
                Parsed::Done { value: ExprView::Identifier(name), next: pos + 1 }
            },
            TokenKindView::LeftParen => if lambda_ahead(tokens, pos + 1) {
                parse_lambda(tokens, pos + 1)
            } else {
                match parse_expression(tokens, pos + 1) {
                    Parsed::Failed { message } => Parsed::Failed { message },
                    Parsed::Done { value, next } => if holds(
                        tokens,
                        next,
                        TokenKindView::RightParen,
                    ) {
                        Parsed::Done { value: ExprView::Grouping(Box::new(value)), next: next + 1 }
                    } else {
                        Parsed::Failed { message: "Expected ')' after expression"@ }
                    },
                }
            },
            TokenKindView::LeftBrace => match parse_items(tokens, pos + 1, Seq::empty()) {
                Parsed::Failed { message } => Parsed::Failed { message },
                Parsed::Done { value, next } => if holds(tokens, next, TokenKindView::RightBrace) {
                    Parsed::Done { value: ExprView::Block(value), next: next + 1 }
                } else {
                    Parsed::Failed { message: "Expected '}' after block"@ }
                },
            },
            other => Parsed::Failed { message: "Unexpected token: "@ + other.name() },
        }
    }
}

/// A lambda at `pos`, after its opening parenthesis: parameters, `->`, and an
/// expression as the body.
pub open spec fn parse_lambda(tokens: Seq<TokenKindView>, pos: int) -> Parsed<ExprView>
    decreases tokens.len() - pos, 0int,
{
    match parse_parameters(tokens, pos) {
        Parsed::Failed { message } => Parsed::Failed { message },
        Parsed::Done { value: params, next } => if !holds(tokens, next, TokenKindView::Arrow) {
            Parsed::Failed { message: "Expected '->' after lambda parameters"@ }
        } else {
            proof {
                lemma_parameters_advance(tokens, pos);
            }
            match parse_expression(tokens, next + 1) {
                Parsed::Failed { message } => Parsed::Failed { message },
                Parsed::Done { value: body, next: end } => Parsed::Done {
                    value: ExprView::Lambda { params, body: Box::new(body) },
                    next: end,
                },
            }
        },
    }
}

/// One or more call arguments at `pos`, separated by commas, after the
/// arguments `seen`.
pub open spec fn parse_arguments(
    tokens: Seq<TokenKindView>,
    pos: int,
    seen: Seq<ExprView>,
) -> Parsed<Seq<ExprView>>
    decreases tokens.len() - pos, 17int,
{
    match parse_expression(tokens, pos) {
        Parsed::Failed { message } => Parsed::Failed { message },
        Parsed::Done { value, next } => if !(pos < next <= tokens.len()) {
            stalled()
        } else if holds(tokens, next, TokenKindView::Comma) {
            parse_arguments(tokens, next + 1, seen.push(value))
        } else {
            Parsed::Done { value: seen.push(value), next }
        },
    }
}

/// The rest of a call of `callee` at `pos`, after the opening parenthesis:
/// the arguments and the closing parenthesis.
pub open spec fn parse_call(tokens: Seq<TokenKindView>, pos: int, callee: ExprView) -> Parsed<
    ExprView,
>
    decreases tokens.len() - pos, 18int,
{
    let arguments = if holds(tokens, pos, TokenKindView::RightParen) {
        Parsed::Done { value: Seq::empty(), next: pos }
    } else {
        parse_arguments(tokens, pos, Seq::empty())
    };
    match arguments {
        Parsed::Failed { message } => Parsed::Failed { message },
        Parsed::Done { value, next } => if holds(tokens, next, TokenKindView::RightParen) {
            Parsed::Done {
                value: ExprView::Call { callee: Box::new(callee), arguments: value },
                next: next + 1,
            }
        } else {
            Parsed::Failed { message: "Expected ')' after arguments"@ }
        },
    }
}

/// What follows the primary expression `left` at `pos`: calls `(..)` and
/// property accesses `.name`, as many as there are, each wrapping what came
/// before it.
pub open spec fn parse_postfix(tokens: Seq<TokenKindView>, pos: int, left: ExprView) -> Parsed<
    ExprView,
>
    decreases tokens.len() - pos, 1int,
{
    if holds(tokens, pos, TokenKindView::LeftParen) {
        match parse_call(tokens, pos + 1, left) {
            Parsed::Failed { message } => Parsed::Failed { message },
            Parsed::Done { value, next } => if !(pos < next <= tokens.len()) {
                stalled()
            } else {
                parse_postfix(tokens, next, value)
            },
        }
    } else if holds(tokens, pos, TokenKindView::Dot) {
        match identifier_at(tokens, pos + 1) {
            None => Parsed::Failed { message: "Expected property name after '.'"@ },
            Some(name) => parse_postfix(
                tokens,
                pos + 2,
                ExprView::PropertyAccess { object: Box::new(left), name },
            ),
        }
    } else {
        Parsed::Done { value: left, next: pos }
    }
}

/// A primary expression at `pos` with what follows it.
pub open spec fn parse_primary(tokens: Seq<TokenKindView>, pos: int) -> Parsed<ExprView>
    decreases tokens.len() - pos, 2int,
{
    match parse_atom(tokens, pos) {
        Parsed::Failed { message } => Parsed::Failed { message },
        Parsed::Done { value, next } => if !(pos < next <= tokens.len()) {
            stalled()
        } else {
            parse_postfix(tokens, next, value)
        },
    }
}

/// A unary expression at `pos`: prefix operators `!` and `-`, as many as
/// there are, and a primary expression.
pub open spec fn parse_unary(tokens: Seq<TokenKindView>, pos: int) -> Parsed<ExprView>
    decreases tokens.len() - pos, 3int,
{
    match unary_operator_at(tokens, pos) {
        Some(op) => match parse_unary(tokens, pos + 1) {
            Parsed::Failed { message } => Parsed::Failed { message },
            Parsed::Done { value, next } => Parsed::Done {
                value: ExprView::Unary { op, expr: Box::new(value) },
                next,
            },
        },
        None => parse_primary(tokens, pos),
    }
}

/// What follows the operand `left` at `pos` at precedence `level`: operators
/// of that level with their right operands, as many as there are, folded to
/// the left. An operand is an expression of the next tighter level, a unary
/// expression at level 0.
pub open spec fn parse_binary_rest(
    tokens: Seq<TokenKindView>,
    pos: int,
    level: nat,
    left: ExprView,
) -> Parsed<ExprView>
    decreases tokens.len() - pos, 4 + 2 * level,
{
    match binary_operator_at(tokens, pos, level) {
        None => Parsed::Done { value: left, next: pos },
        Some(op) => {
            let operand = if level == 0 {
                parse_unary(tokens, pos + 1)
            } else {
                parse_binary(tokens, pos + 1, (level - 1) as nat)
            };
            match operand {
                Parsed::Failed { message } => Parsed::Failed { message },
                Parsed::Done { value: right, next } => if !(pos < next <= tokens.len()) {
                    stalled()
                } else {
                    parse_binary_rest(
                        tokens,
                        next,
                        level,
                        ExprView::Binary { left: Box::new(left), op, right: Box::new(right) },
                    )
                },
            }
        },
    }
}

/// A binary expression of precedence `level` at `pos`: operands joined by the
/// operators of that level, left-associative.
pub open spec fn parse_binary(tokens: Seq<TokenKindView>, pos: int, level: nat) -> Parsed<
    ExprView,
>
    decreases tokens.len() - pos, 5 + 2 * level,
{
    let operand = if level == 0 {
        parse_unary(tokens, pos)
    } else {
        parse_binary(tokens, pos, (level - 1) as nat)
    };
    match operand {
        Parsed::Failed { message } => Parsed::Failed { message },
        Parsed::Done { value, next } => if !(pos < next <= tokens.len()) {
            stalled()
        } else {
            parse_binary_rest(tokens, next, level, value)
        },
    }
}

/// An expression at `pos`.
pub open spec fn parse_expression(tokens: Seq<TokenKindView>, pos: int) -> Parsed<ExprView>
    decreases tokens.len() - pos, 16int,
{
    parse_binary(tokens, pos, 5)
}

/// An expression statement at `pos`: an expression and `;`.
pub open spec fn parse_statement(tokens: Seq<TokenKindView>, pos: int) -> Parsed<StmtView>
    decreases tokens.len() - pos, 17int,
{
    match parse_expression(tokens, pos) {
        Parsed::Failed { message } => Parsed::Failed { message },
        Parsed::Done { value, next } => if holds(tokens, next, TokenKindView::Semicolon) {
            Parsed::Done { value: StmtView::Expression(value), next: next + 1 }
        } else {
            Parsed::Failed { message: "Expected ';' after expression"@ }
        },
    }
}

/// The rest of an import at `pos`, after `import`: the module's name and `;`.
pub open spec fn parse_import(tokens: Seq<TokenKindView>, pos: int) -> Parsed<StmtView> {
    match identifier_at(tokens, pos) {
        None => Parsed::Failed { message: "Expected module name after 'import'"@ },
        Some(name) => if holds(tokens, pos + 1, TokenKindView::Semicolon) {
            Parsed::Done { value: StmtView::Import(name), next: pos + 2 }
        } else {
            Parsed::Failed { message: "Expected ';' after import declaration"@ }
        },
    }
}

/// The rest of a return statement at `pos`, after `return`: an optional
/// expression and `;`.
pub open spec fn parse_return(tokens: Seq<TokenKindView>, pos: int) -> Parsed<StmtView>
    decreases tokens.len() - pos, 17int,
{
    let value = if holds(tokens, pos, TokenKindView::Semicolon) {
        Parsed::Done { value: None, next: pos }
    } else {
        match parse_expression(tokens, pos) {
            Parsed::Failed { message } => Parsed::Failed { message },
            Parsed::Done { value, next } => Parsed::Done { value: Some(value), next },
        }
    };
    match value {
        Parsed::Failed { message } => Parsed::Failed { message },
        Parsed::Done { value, next } => if holds(tokens, next, TokenKindView::Semicolon) {
            Parsed::Done { value: StmtView::Return(value), next: next + 1 }
        } else {
            Parsed::Failed { message: "Expected ';' after return statement"@ }
        },
    }
}

/// An optional type annotation at `pos`: `mark` and a type, or nothing.
pub open spec fn parse_annotation(tokens: Seq<TokenKindView>, pos: int, mark: TokenKindView)
    -> Parsed<Option<TypeView>> {
    if holds(tokens, pos, mark) {
        match parse_type(tokens, pos + 1) {
            Parsed::Failed { message } => Parsed::Failed { message },
            Parsed::Done { value, next } => Parsed::Done { value: Some(value), next },
        }
    } else {
        Parsed::Done { value: None, next: pos }
    }
}

/// An annotation ends at or after where it starts, within the tokens.
pub proof fn lemma_annotation_advances(tokens: Seq<TokenKindView>, pos: int, mark: TokenKindView)
    requires
        0 <= pos <= tokens.len(),
    ensures
        parse_annotation(tokens, pos, mark) matches Parsed::Done { next, .. } ==> pos <= next
            <= tokens.len(),
{
    lemma_type_advances(tokens, pos + 1);
}

/// The rest of a variable declaration at `pos`, after `let` or `var`: the
/// name, an optional `: type`, an optional `= expression`, and `;`.
pub open spec fn parse_variable(tokens: Seq<TokenKindView>, pos: int, is_mutable: bool) -> Parsed<
    StmtView,
>
    decreases tokens.len() - pos, 17int,
{
    match identifier_at(tokens, pos) {
        None => Parsed::Failed { message: "Expected variable name"@ },
        Some(name) => match parse_annotation(tokens, pos + 1, TokenKindView::Colon) {
            Parsed::Failed { message } => Parsed::Failed { message },
            Parsed::Done { value: type_annotation, next } => {
                let initializer = if holds(tokens, next, TokenKindView::Equal) {
                    proof {
                        lemma_annotation_advances(tokens, pos + 1, TokenKindView::Colon);
                    }
                    match parse_expression(tokens, next + 1) {
                        Parsed::Failed { message } => Parsed::Failed { message },
                        Parsed::Done { value, next } => Parsed::Done { value: Some(value), next },
                    }
                } else {
                    Parsed::Done { value: None, next }
                };
                match initializer {
                    Parsed::Failed { message } => Parsed::Failed { message },
                    Parsed::Done { value: initializer, next: end } => if holds(
                        tokens,
                        end,
                        TokenKindView::Semicolon,
                    ) {
                        Parsed::Done {
                            value: StmtView::VariableDecl {
                                is_mutable,
                                name,
                                type_annotation,
                                initializer,
                            },
                            next: end + 1,
                        }
                    } else {
                        Parsed::Failed { message: "Expected ';' after variable declaration"@ }
                    },
                }
            },
        },
    }
}

/// The rest of a function declaration at `pos`, after `fn`: the name, the
/// parameters in parentheses, an optional `-> type`, and the body in braces.
pub open spec fn parse_function(tokens: Seq<TokenKindView>, pos: int) -> Parsed<StmtView>
    decreases tokens.len() - pos, 17int,
{
    match identifier_at(tokens, pos) {
        None => Parsed::Failed { message: "Expected function name"@ },
        Some(name) => if !holds(tokens, pos + 1, TokenKindView::LeftParen) {
            Parsed::Failed { message: "Expected '(' after function name"@ }
        } else {
            match parse_parameters(tokens, pos + 2) {
                Parsed::Failed { message } => Parsed::Failed { message },
                Parsed::Done { value: params, next } => match parse_annotation(
                    tokens,
                    next,
                    TokenKindView::Arrow,
                ) {
                    Parsed::Failed { message } => Parsed::Failed { message },
                    Parsed::Done { value: return_type, next: open } => if !holds(
                        tokens,
                        open,
                        TokenKindView::LeftBrace,
                    ) {
                        Parsed::Failed { message: "Expected '{' before function body"@ }
                    } else {
                        proof {
                            lemma_parameters_advance(tokens, pos + 2);
                            lemma_annotation_advances(tokens, next, TokenKindView::Arrow);
                        }
                        match parse_items(tokens, open + 1, Seq::empty()) {
                            Parsed::Failed { message } => Parsed::Failed { message },
                            Parsed::Done { value: body, next: close } => if holds(
                                tokens,
                                close,
                                TokenKindView::RightBrace,
                            ) {
                                Parsed::Done {
                                    value: StmtView::FunctionDecl {
                                        name,
                                        params,
                                        return_type,
                                        body,
                                    },
                                    next: close + 1,
                                }
                            } else {
                                Parsed::Failed { message: "Expected '}' after function body"@ }
                            },
                        }
                    },
                },
            }
        },
    }
}

/// The rest of a module declaration at `pos`, after `module`: the name and
/// the declarations in braces.
pub open spec fn parse_module(tokens: Seq<TokenKindView>, pos: int) -> Parsed<StmtView>
    decreases tokens.len() - pos, 17int,
{
    match identifier_at(tokens, pos) {
        None => Parsed::Failed { message: "Expected module name"@ },
        Some(name) => if !holds(tokens, pos + 1, TokenKindView::LeftBrace) {
            Parsed::Failed { message: "Expected '{' after module name"@ }
        } else {
            match parse_items(tokens, pos + 2, Seq::empty()) {
                Parsed::Failed { message } => Parsed::Failed { message },
                Parsed::Done { value: declarations, next } => if holds(
                    tokens,
                    next,
                    TokenKindView::RightBrace,
                ) {
                    Parsed::Done {
                        value: StmtView::ModuleDecl { name, declarations },
                        next: next + 1,
                    }
                } else {
                    Parsed::Failed { message: "Expected '}' after module body"@ }
                },
            }
        },
    }
}

/// The members of a class at `pos`, after the fields `fields` and the methods
/// `methods`: methods that start with `fn` and fields that start with `let`
/// or `var`, up to a closing brace or the end of the tokens.
pub open spec fn parse_members(
    tokens: Seq<TokenKindView>,
    pos: int,
    fields: Seq<StmtView>,
    methods: Seq<StmtView>,
) -> Parsed<(Seq<StmtView>, Seq<StmtView>)>
    decreases tokens.len() - pos, 17int,
{
    if at_end(tokens, pos) || tokens[pos] == TokenKindView::RightBrace {
        Parsed::Done { value: (fields, methods), next: pos }
    } else if tokens[pos] == TokenKindView::Fn {
        match parse_function(tokens, pos + 1) {
            Parsed::Failed { message } => Parsed::Failed { message },
            Parsed::Done { value, next } => if !(pos < next <= tokens.len()) {
                stalled()
            } else {
                parse_members(tokens, next, fields, methods.push(value))
            },
        }
    } else if tokens[pos] == TokenKindView::Let || tokens[pos] == TokenKindView::Var {
        match parse_variable(tokens, pos + 1, tokens[pos] == TokenKindView::Var) {
            Parsed::Failed { message } => Parsed::Failed { message },
            Parsed::Done { value, next } => if !(pos < next <= tokens.len()) {
                stalled()
            } else {
                parse_members(tokens, next, fields.push(value), methods)
            },
        }
    } else {
        Parsed::Failed {
            message: "Expected field declaration starting with 'let' or 'var', or a method declaration starting with 'fn'."@,
        }
    }
}

/// The rest of a class declaration at `pos`, after `class`: the name and the
/// members in braces.
pub open spec fn parse_class(tokens: Seq<TokenKindView>, pos: int) -> Parsed<StmtView>
    decreases tokens.len() - pos, 18int,
{
    match identifier_at(tokens, pos) {
        None => Parsed::Failed { message: "Expected class name"@ },
        Some(name) => if !holds(tokens, pos + 1, TokenKindView::LeftBrace) {
            Parsed::Failed { message: "Expected '{' after class name"@ }
        } else {
            match parse_members(tokens, pos + 2, Seq::empty(), Seq::empty()) {
                Parsed::Failed { message } => Parsed::Failed { message },
                Parsed::Done { value: members, next } => if holds(
                    tokens,
                    next,
                    TokenKindView::RightBrace,
                ) {
                    Parsed::Done {
                        value: StmtView::ClassDecl { name, fields: members.0, methods: members.1 },
                        next: next + 1,
                    }
                } else {
                    Parsed::Failed { message: "Expected '}' after class body"@ }
                },
            }
        },
    }
}

/// A declaration or statement at `pos`. Its first token selects an import, a
/// module, a class, a function, a return statement or a variable declaration;
/// anything else is an expression statement.
pub open spec fn parse_declaration(tokens: Seq<TokenKindView>, pos: int) -> Parsed<StmtView>
    decreases tokens.len() - pos, 19int,
{
    if at_end(tokens, pos) {
        parse_statement(tokens, pos)
    } else {
        match tokens[pos] {
            TokenKindView::Import => parse_import(tokens, pos + 1),
            TokenKindView::Module => parse_module(tokens, pos + 1),
            TokenKindView::Class => parse_class(tokens, pos + 1),
            TokenKindView::Fn => parse_function(tokens, pos + 1),
            TokenKindView::Return => parse_return(tokens, pos + 1),
            TokenKindView::Let => parse_variable(tokens, pos + 1, false),
            TokenKindView::Var => parse_variable(tokens, pos + 1, true),
            _ => parse_statement(tokens, pos),
        }
    }
}

/// The declarations at `pos`, after the declarations `seen`, up to a closing
/// brace or the end of the tokens.
pub open spec fn parse_items(tokens: Seq<TokenKindView>, pos: int, seen: Seq<StmtView>) -> Parsed<
    Seq<StmtView>,
>
    decreases tokens.len() - pos, 20int,
{
    if at_end(tokens, pos) || tokens[pos] == TokenKindView::RightBrace {
        Parsed::Done { value: seen, next: pos }
    } else {
        match parse_declaration(tokens, pos) {
            Parsed::Failed { message } => Parsed::Failed { message },
            Parsed::Done { value, next } => if !(pos < next <= tokens.len()) {
                stalled()
            } else {
                parse_items(tokens, next, seen.push(value))
            },
        }
    }
}

/// The declarations at `pos`, after the declarations `seen`, up to the end of
/// the tokens.
pub open spec fn parse_program_from(
    tokens: Seq<TokenKindView>,
    pos: int,
    seen: Seq<StmtView>,
) -> Parsed<Seq<StmtView>>
    decreases tokens.len() - pos, 20int,
{
    if at_end(tokens, pos) {
        Parsed::Done { value: seen, next: pos }
    } else {
        match parse_declaration(tokens, pos) {
            Parsed::Failed { message } => Parsed::Failed { message },
            Parsed::Done { value, next } => if !(pos < next <= tokens.len()) {
                stalled()
            } else {
                parse_program_from(tokens, next, seen.push(value))
            },
        }
    }
}

/// The statements of a whole token sequence, or the first error in it.
pub open spec fn parse_program(tokens: Seq<TokenKindView>) -> Parsed<Seq<StmtView>> {
    parse_program_from(tokens, 0, Seq::empty())
}

} // verus!
