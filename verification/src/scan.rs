//! The lexical grammar, as functions from a text to the tokens it holds.
//!
//! A text is a sequence of characters; places in it are character indices.
//! [`tokens_from`] is what the lexer computes.

use vstd::prelude::*;
use crate::charclass::{
    CharClass, is_digit, is_operator_char, is_whitespace, is_word_start, lemma_run_end, run_end,
};
use crate::position::{lemma_position_monotonic, position_at};
use crate::span::span_between;
use crate::token::{DiagnosticView, ErrorKindView, TokenView};
use crate::tokentype::TokenTypeView;

verus! {

/// The outcome of scanning one token: the token, and the index of the first
/// character after it.
pub struct Scanned {
    pub token: TokenView,
    pub end: int,
}

/// A token without diagnostics that covers the characters from `from` up to,
/// and without, `to`.
pub open spec fn clean(token_type: TokenTypeView, src: Seq<char>, from: int, to: int) -> Scanned {
    Scanned {
        token: TokenView { token_type, span: span_between(src, from, to), errors: Seq::empty() },
        end: to,
    }
}

/// A diagnostic of `kind` on the characters from `from` up to, and without, `to`.
pub open spec fn diagnostic(kind: ErrorKindView, src: Seq<char>, from: int, to: int)
    -> DiagnosticView {
    DiagnosticView { kind, span: span_between(src, from, to) }
}

/// The reserved words.
pub open spec fn is_keyword(text: Seq<char>) -> bool {
    ||| text == "let"@
    ||| text == "var"@
    ||| text == "type"@
    ||| text == "if"@
    ||| text == "else"@
    ||| text == "return"@
    ||| text == "fn"@
    ||| text == "class"@
    ||| text == "rec"@
    ||| text == "module"@
    ||| text == "import"@
}

/// The table of operators: the token that a whole run of operator characters
/// stands for, if it is an operator.
pub open spec fn operator_token(text: Seq<char>) -> Option<TokenTypeView> {
    if text == "="@ {
        Some(TokenTypeView::Equal)
    } else if text == "=="@ {
        Some(TokenTypeView::EqualEqual)
    } else if text == "!="@ {
        Some(TokenTypeView::NotEqual)
    } else if text == "<"@ {
        Some(TokenTypeView::Less)
    } else if text == "<="@ {
        Some(TokenTypeView::LessEqual)
    } else if text == ">"@ {
        Some(TokenTypeView::Greater)
    } else if text == ">="@ {
        Some(TokenTypeView::GreaterEqual)
    } else if text == "+"@ {
        Some(TokenTypeView::Plus)
    } else if text == "+="@ {
        Some(TokenTypeView::PlusEqual)
    } else if text == "-"@ {
        Some(TokenTypeView::Minus)
    } else if text == "-="@ {
        Some(TokenTypeView::MinusEqual)
    } else if text == "->"@ {
        Some(TokenTypeView::Arrow)
    } else if text == "*"@ {
        Some(TokenTypeView::Star)
    } else if text == "/"@ {
        Some(TokenTypeView::Slash)
    } else if text == "%"@ {
        Some(TokenTypeView::Modulo)
    } else if text == "!"@ {
        Some(TokenTypeView::Bang)
    } else if text == "&&"@ {
        Some(TokenTypeView::And)
    } else if text == "||"@ {
        Some(TokenTypeView::Or)
    } else if text == "&"@ {
        Some(TokenTypeView::BitwiseAnd)
    } else if text == "|"@ {
        Some(TokenTypeView::BitwiseOr)
    } else if text == "^"@ {
        Some(TokenTypeView::BitwiseXor)
    } else {
        None
    }
}

/// The token that a single punctuation character stands for.
pub open spec fn punctuation_token(c: char) -> Option<TokenTypeView> {
    if c == ';' {
        Some(TokenTypeView::Semicolon)
    } else if c == ':' {
        Some(TokenTypeView::Colon)
    } else if c == ',' {
        Some(TokenTypeView::Comma)
    } else if c == '.' {
        Some(TokenTypeView::Dot)
    } else if c == '(' {
        Some(TokenTypeView::LeftParen)
    } else if c == ')' {
        Some(TokenTypeView::RightParen)
    } else if c == '{' {
        Some(TokenTypeView::LeftBrace)
    } else if c == '}' {
        Some(TokenTypeView::RightBrace)
    } else {
        None
    }
}

/// The character that `\` followed by `c` stands for in a string literal.
pub open spec fn escape_value(c: char) -> Option<char> {
    if c == 'n' {
        Some('\n')
    } else if c == 't' {
        Some('\t')
    } else if c == 'r' {
        Some('\r')
    } else if c == '\\' {
        Some('\\')
    } else if c == '"' {
        Some('"')
    } else {
        None
    }
}

/// A number that starts at `start`: a maximal run of digits, then optionally a
/// dot and a maximal, non-empty run of digits. A dot that no digit follows is
/// consumed and makes the token an error with an `InvalidDecimal` diagnostic,
/// whose message the token carries.
pub open spec fn scan_number(src: Seq<char>, start: int) -> Scanned {
    let whole_end = run_end(src, start, CharClass::Digit);
    if 0 <= whole_end < src.len() && src[whole_end] == '.' {
        let fraction_end = run_end(src, whole_end + 1, CharClass::Digit);
        if fraction_end == whole_end + 1 {
            Scanned {
                token: TokenView {
                    token_type: TokenTypeView::Error(ErrorKindView::InvalidDecimal.message()),
                    span: span_between(src, start, fraction_end),
                    errors: seq![
                        diagnostic(ErrorKindView::InvalidDecimal, src, start, fraction_end),
                    ],
                },
                end: fraction_end,
            }
        } else {
            clean(
                TokenTypeView::Number(src.subrange(start, fraction_end)),
                src,
                start,
                fraction_end,
            )
        }
    } else {
        clean(TokenTypeView::Number(src.subrange(start, whole_end)), src, start, whole_end)
    }
}

/// An identifier or keyword that starts at `start`: a maximal run of word
/// characters, a keyword exactly when the whole run is a reserved word.
pub open spec fn scan_word(src: Seq<char>, start: int) -> Scanned {
    let end = run_end(src, start, CharClass::Word);
    let text = src.subrange(start, end);
    if is_keyword(text) {
        clean(TokenTypeView::Keyword(text), src, start, end)
    } else {
        clean(TokenTypeView::Identifier(text), src, start, end)
    }
}

/// An operator that starts at `start`: a maximal run of operator characters,
/// looked up as a whole. A run that is no operator is one error token with an
/// `InvalidOperator` diagnostic, whose message the token carries.
pub open spec fn scan_operator(src: Seq<char>, start: int) -> Scanned {
    let end = run_end(src, start, CharClass::Operator);
    let text = src.subrange(start, end);
    match operator_token(text) {
        Some(token_type) => clean(token_type, src, start, end),
        None => Scanned {
            token: TokenView {
                token_type: TokenTypeView::Error(ErrorKindView::InvalidOperator(text).message()),
                span: span_between(src, start, end),
                errors: seq![diagnostic(ErrorKindView::InvalidOperator(text), src, start, end)],
            },
            end,
        },
    }
}

/// A string literal that began at `start` and whose end of text was reached
/// before its closing quote.
pub open spec fn unterminated_string(
    src: Seq<char>,
    start: int,
    errors: Seq<DiagnosticView>,
) -> Scanned {
    Scanned {
        token: TokenView {
            token_type: TokenTypeView::Error("String literal error"@),
            span: span_between(src, start, src.len() as int),
            errors: errors.push(
                diagnostic(ErrorKindView::UnterminatedString, src, start, src.len() as int),
            ),
        },
        end: src.len() as int,
    }
}

/// The rest of a string literal that began at `start`, from index `at` on,
/// with `text` decoded and `errors` raised so far.
///
/// An unescaped quote ends the literal. A backslash takes the next character
/// with it: a known escape stands for its value, an unknown one for the
/// character itself, with an `InvalidEscape` diagnostic on that character. A
/// backslash at the end of the text raises `UnterminatedEscapeSequence`.
pub open spec fn scan_string_from(
    src: Seq<char>,
    start: int,
    at: int,
    text: Seq<char>,
    errors: Seq<DiagnosticView>,
) -> Scanned
    decreases src.len() - at,
{
    if !(0 <= at < src.len()) {
        unterminated_string(src, start, errors)
    } else if src[at] == '"' {
        Scanned {
            token: TokenView {
                token_type: TokenTypeView::String(text),
                span: span_between(src, start, at + 1),
                errors,
            },
            end: at + 1,
        }
    } else if src[at] == '\\' {
        if at + 1 >= src.len() {
            unterminated_string(
                src,
                start,
                errors.push(
                    diagnostic(
                        ErrorKindView::UnterminatedEscapeSequence,
                        src,
                        src.len() as int,
                        src.len() as int,
                    ),
                ),
            )
        } else {
            let escaped = src[at + 1];
            match escape_value(escaped) {
                Some(value) => scan_string_from(src, start, at + 2, text.push(value), errors),
                None => {
                    let invalid = diagnostic(
                        ErrorKindView::InvalidEscape(escaped),
                        src,
                        at + 1,
                        at + 2,
                    );
                    scan_string_from(src, start, at + 2, text.push(escaped), errors.push(invalid))
                },
            }
        }
    } else {
        scan_string_from(src, start, at + 1, text.push(src[at]), errors)
    }
}

/// A string literal whose opening quote is at `start`.
pub open spec fn scan_string(src: Seq<char>, start: int) -> Scanned {
    scan_string_from(src, start, start + 1, Seq::empty(), Seq::empty())
}

/// A character that begins no token: an error token of that one character,
/// with the message of its `UnexpectedCharacter` diagnostic.
pub open spec fn scan_unexpected(src: Seq<char>, start: int) -> Scanned {
    let c = src[start];
    Scanned {
        token: TokenView {
            token_type: TokenTypeView::Error(ErrorKindView::UnexpectedCharacter(c).message()),
            span: span_between(src, start, start + 1),
            errors: seq![
                diagnostic(ErrorKindView::UnexpectedCharacter(c), src, start, start + 1),
            ],
        },
        end: start + 1,
    }
}

/// The token that starts at `start`, where `src[start]` is not whitespace.
/// The first character selects the kind of token.
pub open spec fn scan_token(src: Seq<char>, start: int) -> Scanned {
    let c = src[start];
    if is_digit(c) {
        scan_number(src, start)
    } else if is_word_start(c) {
        scan_word(src, start)
    } else if is_operator_char(c) {
        scan_operator(src, start)
    } else if c == '"' {
        scan_string(src, start)
    } else {
        match punctuation_token(c) {
            Some(token_type) => clean(token_type, src, start, start + 1),
            None => scan_unexpected(src, start),
        }
    }
}

/// Where the next token at or after `from` starts: after the whitespace there.
pub open spec fn token_start(src: Seq<char>, from: int) -> int {
    run_end(src, from, CharClass::Whitespace)
}

/// The next token at or after `from`, if the text holds one.
pub open spec fn next_token(src: Seq<char>, from: int) -> Option<Scanned> {
    let start = token_start(src, from);
    if 0 <= start < src.len() {
        Some(scan_token(src, start))
    } else {
        None
    }
}

/// A string literal ends after its opening quote and within the text.
pub proof fn lemma_scan_string_end(
    src: Seq<char>,
    start: int,
    at: int,
    text: Seq<char>,
    errors: Seq<DiagnosticView>,
)
    requires
        0 <= at <= src.len(),
    ensures
        at <= scan_string_from(src, start, at, text, errors).end <= src.len(),
    decreases src.len() - at,
{
    if at < src.len() {
        if src[at] == '"' {
        } else if src[at] == '\\' {
            if at + 1 < src.len() {
                let escaped = src[at + 1];
                match escape_value(escaped) {
                    Some(value) => {
                        lemma_scan_string_end(src, start, at + 2, text.push(value), errors);
                    },
                    None => {
                        vstd::utf8::char_u32_cast(escaped, escaped as u32);
                        let invalid = diagnostic(
                            ErrorKindView::InvalidEscape(escaped),
                            src,
                            at + 1,
                            at + 2,
                        );
                        lemma_scan_string_end(
                            src,
                            start,
                            at + 2,
                            text.push(escaped),
                            errors.push(invalid),
                        );
                    },
                }
            }
        } else {
            lemma_scan_string_end(src, start, at + 1, text.push(src[at]), errors);
        }
    }
}

/// Every token holds at least one character and ends within the text.
pub proof fn lemma_scan_advances(src: Seq<char>, start: int)
    requires
        0 <= start < src.len(),
    ensures
        start < scan_token(src, start).end <= src.len(),
{
    let c = src[start];
    if is_digit(c) {
        lemma_run_end(src, start, CharClass::Digit);
        let whole_end = run_end(src, start, CharClass::Digit);
        assert(whole_end == run_end(src, start + 1, CharClass::Digit));
        lemma_run_end(src, start + 1, CharClass::Digit);
        if whole_end < src.len() {
            lemma_run_end(src, whole_end + 1, CharClass::Digit);
        }
    } else if is_word_start(c) {
        assert(run_end(src, start, CharClass::Word) == run_end(src, start + 1, CharClass::Word));
        lemma_run_end(src, start + 1, CharClass::Word);
    } else if is_operator_char(c) {
        assert(run_end(src, start, CharClass::Operator) == run_end(
            src,
            start + 1,
            CharClass::Operator,
        ));
        lemma_run_end(src, start + 1, CharClass::Operator);
    } else if c == '"' {
        lemma_scan_string_end(src, start, start + 1, Seq::empty(), Seq::empty());
    }
}

/// The tokens of `src` from index `from` on, in order: whitespace between
/// tokens is skipped, and scanning goes on after every token, whatever
/// diagnostics it carries, until the text is exhausted.
pub open spec fn tokens_from(src: Seq<char>, from: int) -> Seq<TokenView>
    decreases src.len() - from,
{
    let start = token_start(src, from);
    if 0 <= from <= start < src.len() {
        let scanned = scan_token(src, start);
        proof {
            lemma_scan_advances(src, start);
        }
        seq![scanned.token] + tokens_from(src, scanned.end)
    } else {
        Seq::empty()
    }
}

/// The tokens of a whole text.
pub open spec fn tokens_of(src: Seq<char>) -> Seq<TokenView> {
    tokens_from(src, 0)
}

/// The extents of the tokens of `src` from index `from` on: for each token of
/// [`tokens_from`], the index of its first character and the index after its
/// last one.
pub open spec fn extents_from(src: Seq<char>, from: int) -> Seq<(int, int)>
    decreases src.len() - from,
{
    let start = token_start(src, from);
    if 0 <= from <= start < src.len() {
        let end = scan_token(src, start).end;
        proof {
            lemma_scan_advances(src, start);
        }
        seq![(start, end)] + extents_from(src, end)
    } else {
        Seq::empty()
    }
}

/// Whether the characters of `src` from `from` up to, and without, `to` are
/// all whitespace.
pub open spec fn blank(src: Seq<char>, from: int, to: int) -> bool {
    forall|k: int| from <= k < to ==> is_whitespace(#[trigger] src[k])
}

/// Whether `tokens` with the given `extents` tile `src` from `from` on: each
/// token is not empty and spans exactly its extent, the tokens follow each
/// other in order without overlap, and only whitespace lies before, between
/// and after them.
pub open spec fn tiles(
    src: Seq<char>,
    from: int,
    tokens: Seq<TokenView>,
    extents: Seq<(int, int)>,
) -> bool
    decreases tokens.len(),
{
    if tokens.len() == 0 {
        extents.len() == 0 && blank(src, from, src.len() as int)
    } else {
        &&& extents.len() == tokens.len()
        &&& from <= extents[0].0 < extents[0].1 <= src.len()
        &&& blank(src, from, extents[0].0)
        &&& tokens[0].span == span_between(src, extents[0].0, extents[0].1)
        &&& tiles(src, extents[0].1, tokens.drop_first(), extents.drop_first())
    }
}

/// The text from `from` on put together again from its pieces: the skipped
/// text before each extent, the text of each extent, and what is left after
/// the last one.
pub open spec fn stitched(src: Seq<char>, from: int, extents: Seq<(int, int)>) -> Seq<char>
    decreases extents.len(),
{
    if extents.len() == 0 {
        src.subrange(from, src.len() as int)
    } else {
        src.subrange(from, extents[0].0) + src.subrange(extents[0].0, extents[0].1) + stitched(
            src,
            extents[0].1,
            extents.drop_first(),
        )
    }
}

/// A string literal spans the text from its opening quote to its end.
pub proof fn lemma_scan_string_span(
    src: Seq<char>,
    start: int,
    at: int,
    text: Seq<char>,
    errors: Seq<DiagnosticView>,
)
    requires
        0 <= at <= src.len(),
    ensures
        scan_string_from(src, start, at, text, errors).token.span == span_between(
            src,
            start,
            scan_string_from(src, start, at, text, errors).end,
        ),
    decreases src.len() - at,
{
    if at < src.len() {
        if src[at] == '"' {
        } else if src[at] == '\\' {
            if at + 1 < src.len() {
                let escaped = src[at + 1];
                match escape_value(escaped) {
                    Some(value) => {
                        lemma_scan_string_span(src, start, at + 2, text.push(value), errors);
                    },
                    None => {
                        vstd::utf8::char_u32_cast(escaped, escaped as u32);
                        let invalid = diagnostic(
                            ErrorKindView::InvalidEscape(escaped),
                            src,
                            at + 1,
                            at + 2,
                        );
                        lemma_scan_string_span(
                            src,
                            start,
                            at + 2,
                            text.push(escaped),
                            errors.push(invalid),
                        );
                    },
                }
            }
        } else {
            lemma_scan_string_span(src, start, at + 1, text.push(src[at]), errors);
        }
    }
}

/// Every token spans exactly the text from its first character to its end.
pub proof fn lemma_token_span(src: Seq<char>, start: int)
    requires
        0 <= start < src.len(),
    ensures
        scan_token(src, start).token.span == span_between(
            src,
            start,
            scan_token(src, start).end,
        ),
{
    if src[start] == '"' {
        lemma_scan_string_span(src, start, start + 1, Seq::empty(), Seq::empty());
    }
}

/// Lossless coverage: the tokens of a text tile it. Their spans follow each
/// other in the text, all that lies outside them is whitespace, and the text
/// is the concatenation, in order, of the skipped whitespace and the text that
/// each token spans. (The bytes between the byte offsets of a span are the
/// encoding of the characters of its extent, by
/// [`crate::position::lemma_spanned_bytes`].)
pub proof fn lemma_lossless_coverage(src: Seq<char>, from: int)
    requires
        0 <= from <= src.len(),
    ensures
        tiles(src, from, tokens_from(src, from), extents_from(src, from)),
        stitched(src, from, extents_from(src, from)) == src.subrange(from, src.len() as int),
    decreases src.len() - from,
{
    let start = token_start(src, from);
    lemma_run_end(src, from, CharClass::Whitespace);
    if start < src.len() {
        let scanned = scan_token(src, start);
        lemma_scan_advances(src, start);
        lemma_token_span(src, start);
        lemma_lossless_coverage(src, scanned.end);
        let tokens = tokens_from(src, from);
        let extents = extents_from(src, from);
        assert(tokens.drop_first() =~= tokens_from(src, scanned.end));
        assert(extents.drop_first() =~= extents_from(src, scanned.end));
        assert(src.subrange(from, start) + src.subrange(start, scanned.end) + src.subrange(
            scanned.end,
            src.len() as int,
        ) =~= src.subrange(from, src.len() as int));
    }
}

/// Spans are in document order: the `k`-th token of a text starts at or after
/// the place where scanning began, ends after it starts and within the text,
/// and the next token starts at or after its end.
pub proof fn lemma_spans_in_order(src: Seq<char>, from: int, k: int)
    requires
        0 <= from <= src.len(),
        0 <= k < tokens_from(src, from).len(),
    ensures
        position_at(src, from).absolute <= tokens_from(src, from)[k].span.start.absolute,
        tokens_from(src, from)[k].span.start.absolute < tokens_from(
            src,
            from,
        )[k].span.end.absolute,
        tokens_from(src, from)[k].span.end.absolute <= position_at(
            src,
            src.len() as int,
        ).absolute,
        k + 1 < tokens_from(src, from).len() ==> tokens_from(src, from)[k].span.end.absolute
            <= tokens_from(src, from)[k + 1].span.start.absolute,
    decreases src.len() - from,
{
    let start = token_start(src, from);
    lemma_run_end(src, from, CharClass::Whitespace);
    let scanned = scan_token(src, start);
    lemma_scan_advances(src, start);
    lemma_token_span(src, start);
    let rest = tokens_from(src, scanned.end);
    assert(tokens_from(src, from) =~= seq![scanned.token] + rest);
    lemma_position_monotonic(src, from, start);
    lemma_position_monotonic(src, start, scanned.end);
    lemma_position_monotonic(src, scanned.end, src.len() as int);
    if k == 0 {
        if rest.len() > 0 {
            lemma_spans_in_order(src, scanned.end, 0);
        }
    } else {
        lemma_spans_in_order(src, scanned.end, k - 1);
    }
}

} // verus!
