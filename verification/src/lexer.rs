//! The lexer: from source text to tokens.

use vstd::prelude::*;
use vstd::utf8::*;
use crate::charclass::{
    CharClass, in_class, is_digit, is_digit_char, is_operator_char, is_operator_start,
    is_whitespace_char, is_word_start, is_word_start_char, lemma_run_end,
    lemma_run_end_from_within, run_end,
};
use crate::position::{
    Position, PositionView, encoded_width, lemma_offset_is_encoded_length, lemma_position_monotonic, position_at,
    step,
};
use crate::scan::{
    diagnostic, escape_value, is_keyword, lemma_scan_advances, next_token, operator_token,
    punctuation_token, scan_number, scan_operator, scan_string, scan_string_from, scan_token,
    scan_word, token_start, tokens_from, unterminated_string,
};
use crate::span::Span;
use crate::text::{chars_of, same_text};
use crate::token::{DiagnosticError, ErrorKind, ErrorKindView, Token, diagnostics_view, tokens_view};
use crate::tokentype::TokenType;

verus! {

/// A cursor over a source text that hands out its tokens one by one.
#[derive(Debug)]
pub struct Lexer {
    input: Vec<char>,
    index: usize,
    current: Position,
}

/// Whether `text` is a reserved word.
fn is_reserved(text: &str) -> (reserved: bool)
    ensures
        reserved == is_keyword(text@),
{
    same_text(text, "let") || same_text(text, "var") || same_text(text, "type") || same_text(
        text,
        "if",
    ) || same_text(text, "else") || same_text(text, "return") || same_text(text, "fn")
        || same_text(text, "class") || same_text(text, "rec") || same_text(text, "module")
        || same_text(text, "import")
}

/// The token that a whole run of operator characters stands for.
fn operator_type(text: &str) -> (found: Option<TokenType>)
    ensures
        match operator_token(text@) {
            Some(token_type) => found is Some && found->0@ == token_type,
            None => found is None,
        },
{
    if same_text(text, "=") {
        Some(TokenType::Equal)
    } else if same_text(text, "==") {
        Some(TokenType::EqualEqual)
    } else if same_text(text, "!=") {
        Some(TokenType::NotEqual)
    } else if same_text(text, "<") {
        Some(TokenType::Less)
    } else if same_text(text, "<=") {
        Some(TokenType::LessEqual)
    } else if same_text(text, ">") {
        Some(TokenType::Greater)
    } else if same_text(text, ">=") {
        Some(TokenType::GreaterEqual)
    } else if same_text(text, "+") {
        Some(TokenType::Plus)
    } else if same_text(text, "+=") {
        Some(TokenType::PlusEqual)
    } else if same_text(text, "-") {
        Some(TokenType::Minus)
    } else if same_text(text, "-=") {
        Some(TokenType::MinusEqual)
    } else if same_text(text, "->") {
        Some(TokenType::Arrow)
    } else if same_text(text, "*") {
        Some(TokenType::Star)
    } else if same_text(text, "/") {
        Some(TokenType::Slash)
    } else if same_text(text, "%") {
        Some(TokenType::Modulo)
    } else if same_text(text, "!") {
        Some(TokenType::Bang)
    } else if same_text(text, "&&") {
        Some(TokenType::And)
    } else if same_text(text, "||") {
        Some(TokenType::Or)
    } else if same_text(text, "&") {
        Some(TokenType::BitwiseAnd)
    } else if same_text(text, "|") {
        Some(TokenType::BitwiseOr)
    } else if same_text(text, "^") {
        Some(TokenType::BitwiseXor)
    } else {
        None
    }
}

/// The token that a single punctuation character stands for.
fn punctuation_type(c: char) -> (found: Option<TokenType>)
    ensures
        match punctuation_token(c) {
            Some(token_type) => found is Some && found->0@ == token_type,
            None => found is None,
        },
{
    if c == ';' {
        Some(TokenType::Semicolon)
    } else if c == ':' {
        Some(TokenType::Colon)
    } else if c == ',' {
        Some(TokenType::Comma)
    } else if c == '.' {
        Some(TokenType::Dot)
    } else if c == '(' {
        Some(TokenType::LeftParen)
    } else if c == ')' {
        Some(TokenType::RightParen)
    } else if c == '{' {
        Some(TokenType::LeftBrace)
    } else if c == '}' {
        Some(TokenType::RightBrace)
    } else {
        None
    }
}

/// The character that `\` followed by `c` stands for in a string literal.
fn escape_char(c: char) -> (found: Option<char>)
    ensures
        found == escape_value(c),
{
    if c == 'n' {
        Some('\n')
    } else if c == 't' {
        Some('\t')
    } else if c == 'r' {
        Some('\r')
    } else if c == '\\' {
        Some('\\')
    } else if c == '"' {
        Some('"')
    } else {
        None
    }
}

impl Lexer {
    /// The text that the lexer reads.
    pub closed spec fn source(&self) -> Seq<char> {
        self.input@
    }

    /// The index in `source()` of the next character to read.
    pub closed spec fn offset(&self) -> int {
        self.index as int
    }

    /// The position of the next character to read.
    pub closed spec fn place(&self) -> PositionView {
        self.current@
    }

    /// The cursor is within the text and its position is that of its index.
    pub closed spec fn wf(&self) -> bool {
        &&& self.index <= self.input.len()
        &&& self.current@ == position_at(self.input@, self.index as int)
        &&& position_at(self.input@, self.input.len() as int).absolute < usize::MAX
    }

    /// A well-formed lexer is within its text, at the position of its offset.
    pub proof fn lemma_wf(&self)
        requires
            self.wf(),
        ensures
            0 <= self.offset() <= self.source().len(),
            self.place() == position_at(self.source(), self.offset()),
    {
    }

    /// A lexer at the start of `source`, whose encoding has to be shorter than
    /// `usize::MAX` bytes for positions to fit.
    pub fn new(source: &str) -> (lexer: Lexer)
        requires
            encode_utf8(source@).len() < usize::MAX,
        ensures
            lexer.wf(),
            lexer.source() == source@,
            lexer.offset() == 0,
    {
        let input = chars_of(source);
        proof {
            assert(input@.take(input@.len() as int) =~= input@);
            lemma_offset_is_encoded_length(input@, input@.len() as int);
        }
        Lexer { input, index: 0, current: Position::start() }
    }

    /// A lexer at the start of `source`, or `None` if the encoding of
    /// `source` is not shorter than `usize::MAX` bytes.
    pub fn try_new(source: &str) -> (made: Option<Lexer>)
        ensures
            match made {
                Some(lexer) => {
                    &&& encode_utf8(source@).len() < usize::MAX
                    &&& lexer.wf()
                    &&& lexer.source() == source@
                    &&& lexer.offset() == 0
                },
                None => encode_utf8(source@).len() >= usize::MAX,
            },
    {
        let input = chars_of(source);
        let ghost src = input@;
        proof {
            assert(src.take(src.len() as int) =~= src);
            lemma_offset_is_encoded_length(src, src.len() as int);
        }
        let mut bytes: usize = 0;
        let mut i: usize = 0;
        while i < input.len()
            invariant
                input@ == src,
                src == source@,
                position_at(src, src.len() as int).absolute == encode_utf8(source@).len(),
                i <= src.len(),
                bytes == position_at(src, i as int).absolute,
                bytes < usize::MAX,
            decreases src.len() - i,
        {
            let width = encoded_width(input[i]);
            if usize::MAX - bytes <= width {
                proof {
                    assert(position_at(src, i as int + 1) == step(
                        position_at(src, i as int),
                        src[i as int],
                    ));
                    lemma_position_monotonic(src, i as int + 1, src.len() as int);
                }
                return None;
            }
            bytes = bytes + width;
            i = i + 1;
        }
        Some(Lexer { input, index: 0, current: Position::start() })
    }

    /// Consumes the next character, if there is one, and returns it with the
    /// position it stood at.
    fn advance(&mut self) -> (taken: Option<(char, Position)>)
        requires
            old(self).wf(),
        ensures
            final(self).wf(),
            final(self).source() == old(self).source(),
            old(self).offset() < old(self).source().len() ==> {
                &&& taken matches Some((c, p))
                &&& c == old(self).source()[old(self).offset()]
                &&& p@ == old(self).place()
                &&& final(self).offset() == old(self).offset() + 1
            },
            old(self).offset() >= old(self).source().len() ==> {
                &&& taken is None
                &&& final(self).offset() == old(self).offset()
            },
    {
        if self.index >= self.input.len() {
            return None;
        }
        let start_pos = self.current;
        let c = self.input[self.index];
        proof {
            let src = self.input@;
            let i = self.index as int;
            lemma_position_monotonic(src, 0, i + 1);
            lemma_position_monotonic(src, i + 1, src.len() as int);
            lemma_position_monotonic(src, 0, src.len() as int);
            assert(position_at(src, i + 1) == step(position_at(src, i), src[i]));
        }
        self.current = start_pos.advanced(c);
        self.index = self.index + 1;
        Some((c, start_pos))
    }

    /// The next character, if there is one.
    fn peek(&self) -> (next: Option<char>)
        requires
            self.wf(),
        ensures
            next == if self.offset() < self.source().len() {
                Some(self.source()[self.offset()])
            } else {
                None
            },
    {
        if self.index < self.input.len() {
            Some(self.input[self.index])
        } else {
            None
        }
    }

    /// Consumes the maximal run of characters of `class` and appends it to
    /// `text`.
    fn take_run(&mut self, class: CharClass, text: &mut String)
        requires
            old(self).wf(),
        ensures
            final(self).wf(),
            final(self).source() == old(self).source(),
            final(self).offset() == run_end(old(self).source(), old(self).offset(), class),
            final(text)@ == old(text)@ + old(self).source().subrange(
                old(self).offset(),
                final(self).offset(),
            ),
    {
        let ghost src = self.input@;
        let ghost from = self.index as int;
        loop
            invariant
                self.wf(),
                self.input@ == src,
                0 <= from <= self.index <= src.len(),
                forall|k: int| from <= k < self.index ==> in_class(#[trigger] src[k], class),
                text@ == old(text)@ + src.subrange(from, self.index as int),
            ensures
                self.index as int == run_end(src, from, class),
            decreases src.len() - self.index,
        {
            proof {
                lemma_run_end_from_within(src, from, self.index as int, class);
            }
            match self.peek() {
                Some(c) => {
                    if class.holds(c) {
                        let ghost before = self.index as int;
                        self.advance();
                        text.push(c);
                        assert(src.subrange(from, before + 1) =~= src.subrange(from, before).push(
                            c,
                        ));
                    } else {
                        break ;
                    }
                },
                None => {
                    break ;
                },
            }
        }
    }

    /// Consumes the whitespace before the next token.
    fn skip_whitespace(&mut self)
        requires
            old(self).wf(),
        ensures
            final(self).wf(),
            final(self).source() == old(self).source(),
            final(self).offset() == token_start(old(self).source(), old(self).offset()),
    {
        let ghost src = self.input@;
        let ghost from = self.index as int;
        loop
            invariant
                self.wf(),
                self.input@ == src,
                0 <= from <= self.index <= src.len(),
                forall|k: int|
                    from <= k < self.index ==> in_class(#[trigger] src[k], CharClass::Whitespace),
            ensures
                self.index as int == run_end(src, from, CharClass::Whitespace),
            decreases src.len() - self.index,
        {
            proof {
                lemma_run_end_from_within(src, from, self.index as int, CharClass::Whitespace);
            }
            match self.peek() {
                Some(c) => {
                    if is_whitespace_char(c) {
                        self.advance();
                    } else {
                        break ;
                    }
                },
                None => {
                    break ;
                },
            }
        }
    }

    /// Scans the rest of a number whose first digit, `first_char`, stood at
    /// `start_pos` and has been consumed.
    fn read_number(&mut self, first_char: char, start_pos: Position) -> (token: Token)
        requires
            old(self).wf(),
            old(self).offset() >= 1,
            old(self).source()[old(self).offset() - 1] == first_char,
            is_digit(first_char),
            start_pos@ == position_at(old(self).source(), old(self).offset() - 1),
        ensures
            final(self).wf(),
            final(self).source() == old(self).source(),
            token@ == scan_number(old(self).source(), old(self).offset() - 1).token,
            final(self).offset() == scan_number(old(self).source(), old(self).offset() - 1).end,
    {
        let ghost src = self.input@;
        let ghost start = self.index as int - 1;
        let mut number = String::new();
        number.push(first_char);
        self.take_run(CharClass::Digit, &mut number);
        proof {
            lemma_run_end(src, start + 1, CharClass::Digit);
            assert(number@ =~= src.subrange(start, self.index as int));
        }
        let dot = match self.peek() {
            Some(c) => c == '.',
            None => false,
        };
        if dot {
            let whole_end = self.index;
            self.advance();
            number.push('.');
            self.take_run(CharClass::Digit, &mut number);
            proof {
                lemma_run_end(src, whole_end as int + 1, CharClass::Digit);
                assert(number@ =~= src.subrange(start, self.index as int));
            }
            if self.index == whole_end + 1 {
                let span = Span::new(start_pos, self.current);
                let kind = ErrorKind::InvalidDecimal;
                let message = kind.message();
                let mut errors = Vec::new();
                errors.push(DiagnosticError::new(kind, span));
                let token = Token { token_type: TokenType::Error(message), span, errors };
                assert(token@.errors =~= scan_number(src, start).token.errors);
                return token;
            }
        }
        let token = Token {
            token_type: TokenType::Number(number),
            span: Span::new(start_pos, self.current),
            errors: Vec::new(),
        };
        assert(token@.errors =~= scan_number(src, start).token.errors);
        token
    }

    /// Scans the rest of an identifier or keyword whose first character,
    /// `first_char`, stood at `start_pos` and has been consumed.
    fn read_identifier(&mut self, first_char: char, start_pos: Position) -> (token: Token)
        requires
            old(self).wf(),
            old(self).offset() >= 1,
            old(self).source()[old(self).offset() - 1] == first_char,
            is_word_start(first_char),
            start_pos@ == position_at(old(self).source(), old(self).offset() - 1),
        ensures
            final(self).wf(),
            final(self).source() == old(self).source(),
            token@ == scan_word(old(self).source(), old(self).offset() - 1).token,
            final(self).offset() == scan_word(old(self).source(), old(self).offset() - 1).end,
    {
        let ghost src = self.input@;
        let ghost start = self.index as int - 1;
        let mut identifier = String::new();
        identifier.push(first_char);
        self.take_run(CharClass::Word, &mut identifier);
        proof {
            lemma_run_end(src, start + 1, CharClass::Word);
            assert(identifier@ =~= src.subrange(start, self.index as int));
        }
        let token_type = if is_reserved(identifier.as_str()) {
            TokenType::Keyword(identifier)
        } else {
            TokenType::Identifier(identifier)
        };
        let token = Token {
            token_type,
            span: Span::new(start_pos, self.current),
            errors: Vec::new(),
        };
        assert(token@.errors =~= scan_word(src, start).token.errors);
        token
    }

    /// Scans an operator whose first character is the next one and stands at
    /// `start_pos`.
    fn read_operator(&mut self, start_pos: Position) -> (token: Token)
        requires
            old(self).wf(),
            old(self).offset() < old(self).source().len(),
            is_operator_char(old(self).source()[old(self).offset()]),
            start_pos@ == position_at(old(self).source(), old(self).offset()),
        ensures
            final(self).wf(),
            final(self).source() == old(self).source(),
            token@ == scan_operator(old(self).source(), old(self).offset()).token,
            final(self).offset() == scan_operator(old(self).source(), old(self).offset()).end,
    {
        let ghost src = self.input@;
        let ghost start = self.index as int;
        let mut text = String::new();
        self.take_run(CharClass::Operator, &mut text);
        proof {
            lemma_run_end(src, start, CharClass::Operator);
            assert(text@ =~= src.subrange(start, self.index as int));
        }
        let span = Span::new(start_pos, self.current);
        let token = match operator_type(text.as_str()) {
            Some(token_type) => Token { token_type, span, errors: Vec::new() },
            None => {
                let kind = ErrorKind::InvalidOperator(text);
                let message = kind.message();
                let mut errors = Vec::new();
                errors.push(DiagnosticError::new(kind, span));
                Token { token_type: TokenType::Error(message), span, errors }
            },
        };
        assert(token@.errors =~= scan_operator(src, start).token.errors);
        token
    }

    /// Scans the rest of a string literal whose opening quote stood at
    /// `start_pos` and has been consumed.
    fn read_string(&mut self, start_pos: Position) -> (token: Token)
        requires
            old(self).wf(),
            old(self).offset() >= 1,
            start_pos@ == position_at(old(self).source(), old(self).offset() - 1),
        ensures
            final(self).wf(),
            final(self).source() == old(self).source(),
            token@ == scan_string(old(self).source(), old(self).offset() - 1).token,
            final(self).offset() == scan_string(old(self).source(), old(self).offset() - 1).end,
    {
        let ghost src = self.input@;
        let ghost start = self.index as int - 1;
        let mut string = String::new();
        let mut errors: Vec<DiagnosticError> = Vec::new();
        assert(diagnostics_view(errors@) =~= Seq::empty());
        loop
            invariant_except_break
                scan_string(src, start) == scan_string_from(
                    src,
                    start,
                    self.index as int,
                    string@,
                    diagnostics_view(errors@),
                ),
            invariant
                self.wf(),
                self.input@ == src,
                src == old(self).input@,
                start == old(self).index - 1,
                0 <= start < self.index <= src.len(),
                start_pos@ == position_at(src, start),
            ensures
                self.index == src.len(),
                scan_string(src, start) == unterminated_string(
                    src,
                    start,
                    diagnostics_view(errors@),
                ),
            decreases src.len() - self.index,
        {
            let ghost at = self.index as int;
            let ghost text = string@;
            let ghost raised = diagnostics_view(errors@);
            match self.advance() {
                None => {
                    break ;
                },
                Some((c, _)) => {
                    if c == '"' {
                        return Token {
                            token_type: TokenType::String(string),
                            span: Span::new(start_pos, self.current),
                            errors,
                        };
                    } else if c == '\\' {
                        let escape_start = self.current;
                        match self.advance() {
                            Some((escaped, _)) => {
                                match escape_char(escaped) {
                                    Some(value) => {
                                        string.push(value);
                                    },
                                    None => {
                                        let span = Span::new(escape_start, self.current);
                                        errors.push(
                                            DiagnosticError::new(
                                                ErrorKind::InvalidEscape(escaped),
                                                span,
                                            ),
                                        );
                                        string.push(escaped);
                                        proof {
                                            char_u32_cast(escaped, escaped as u32);
                                            assert(diagnostics_view(errors@) =~= raised.push(
                                                diagnostic(
                                                    ErrorKindView::InvalidEscape(escaped),
                                                    src,
                                                    at + 1,
                                                    at + 2,
                                                ),
                                            ));
                                        }
                                    },
                                }
                            },
                            None => {
                                let span = Span::new(escape_start, self.current);
                                errors.push(
                                    DiagnosticError::new(
                                        ErrorKind::UnterminatedEscapeSequence,
                                        span,
                                    ),
                                );
                                proof {
                                    assert(diagnostics_view(errors@) =~= raised.push(
                                        diagnostic(
                                            ErrorKindView::UnterminatedEscapeSequence,
                                            src,
                                            src.len() as int,
                                            src.len() as int,
                                        ),
                                    ));
                                }
                                break ;
                            },
                        }
                    } else {
                        string.push(c);
                    }
                },
            }
        }
        let ghost raised = diagnostics_view(errors@);
        let span = Span::new(start_pos, self.current);
        errors.push(DiagnosticError::new(ErrorKind::UnterminatedString, span));
        let token = Token {
            token_type: TokenType::Error("String literal error".to_string()),
            span,
            errors,
        };
        assert(token@.errors =~= raised.push(
            diagnostic(ErrorKindView::UnterminatedString, src, start, src.len() as int),
        ));
        token
    }

    /// The next token, or `None` once only whitespace is left.
    pub fn next(&mut self) -> (token: Option<Token>)
        requires
            old(self).wf(),
        ensures
            final(self).wf(),
            final(self).source() == old(self).source(),
            match next_token(old(self).source(), old(self).offset()) {
                Some(scanned) => {
                    &&& token is Some
                    &&& token->0@ == scanned.token
                    &&& final(self).offset() == scanned.end
                    &&& old(self).offset() < final(self).offset()
                },
                None => {
                    &&& token is None
                    &&& final(self).offset() == token_start(
                        old(self).source(),
                        old(self).offset(),
                    )
                },
            },
    {
        let ghost src = self.input@;
        proof {
            lemma_run_end(src, self.index as int, CharClass::Whitespace);
        }
        self.skip_whitespace();
        let ghost start = self.index as int;
        let start_pos = self.current;
        let first_char = match self.peek() {
            Some(c) => c,
            None => {
                return None;
            },
        };
        proof {
            lemma_scan_advances(src, start);
        }
        let token = if is_digit_char(first_char) {
            self.advance();
            self.read_number(first_char, start_pos)
        } else if is_word_start_char(first_char) {
            self.advance();
            self.read_identifier(first_char, start_pos)
        } else if is_operator_start(first_char) {
            self.read_operator(start_pos)
        } else if first_char == '"' {
            self.advance();
            self.read_string(start_pos)
        } else {
            self.advance();
            let span = Span::new(start_pos, self.current);
            match punctuation_type(first_char) {
                Some(token_type) => {
                    let token = Token { token_type, span, errors: Vec::new() };
                    assert(token@.errors =~= scan_token(src, start).token.errors);
                    token
                },
                None => {
                    let kind = ErrorKind::UnexpectedCharacter(first_char);
                    let message = kind.message();
                    let mut errors = Vec::new();
                    errors.push(DiagnosticError::new(kind, span));
                    let token = Token { token_type: TokenType::Error(message), span, errors };
                    proof {
                        char_u32_cast(first_char, first_char as u32);
                        assert(token@.errors =~= scan_token(src, start).token.errors);
                    }
                    token
                },
            }
        };
        Some(token)
    }

    /// All the tokens that are left, in order.
    pub fn collect(self) -> (tokens: Vec<Token>)
        requires
            self.wf(),
        ensures
            tokens_view(tokens@) == tokens_from(self.source(), self.offset()),
    {
        let mut lexer = self;
        let mut tokens: Vec<Token> = Vec::new();
        let ghost src = self.input@;
        let ghost from = self.index as int;
        assert(tokens_view(tokens@) =~= Seq::empty());
        loop
            invariant
                lexer.wf(),
                lexer.input@ == src,
                0 <= lexer.index <= src.len(),
                tokens_view(tokens@) + tokens_from(src, lexer.index as int) == tokens_from(
                    src,
                    from,
                ),
            ensures
                tokens_view(tokens@) == tokens_from(src, from),
            decreases src.len() - lexer.index,
        {
            let ghost at = lexer.index as int;
            let ghost seen = tokens_view(tokens@);
            proof {
                lemma_run_end(src, at, CharClass::Whitespace);
            }
            match lexer.next() {
                Some(token) => {
                    tokens.push(token);
                    proof {
                        let scanned = scan_token(src, token_start(src, at));
                        assert(tokens_view(tokens@) =~= seen.push(scanned.token));
                        assert(seen.push(scanned.token) + tokens_from(src, scanned.end) =~= seen
                            + (seq![scanned.token] + tokens_from(src, scanned.end)));
                    }
                },
                None => {
                    assert(tokens_from(src, at) =~= Seq::empty());
                    assert(tokens_view(tokens@) + Seq::empty() =~= tokens_view(tokens@));
                    break ;
                },
            }
        }
        tokens
    }
}

/// Lexing is a function of the text: two token sequences that are both the
/// tokens of one text are alike, token by token, in type, span and
/// diagnostics.
pub proof fn lemma_relexing_gives_the_same_tokens(
    src: Seq<char>,
    first: Seq<Token>,
    second: Seq<Token>,
)
    requires
        tokens_view(first) == tokens_from(src, 0),
        tokens_view(second) == tokens_from(src, 0),
    ensures
        first.len() == second.len(),
        forall|i: int| 0 <= i < first.len() ==> first[i]@ == second[i]@,
{
    assert(tokens_view(first).len() == first.len());
    assert(tokens_view(second).len() == second.len());
    assert forall|i: int| 0 <= i < first.len() implies first[i]@ == second[i]@ by {
        assert(tokens_view(first)[i] == first[i]@);
        assert(tokens_view(second)[i] == second[i]@);
    }
}

} // verus!
