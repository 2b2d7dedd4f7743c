use exx::lexer::Lexer;
use exx::position::Position;
use exx::token::{ErrorKind, Token};
use exx::tokentype::TokenType;

fn lex(source: &str) -> Vec<Token> {
    Lexer::new(source).collect()
}

fn types(source: &str) -> Vec<TokenType> {
    lex(source).into_iter().map(|t| t.token_type).collect()
}

fn at(line: usize, column: usize, absolute: usize) -> Position {
    Position { line, column, absolute }
}

#[test]
fn empty_input_has_no_tokens() {
    assert_eq!(lex("").len(), 0);
}

#[test]
fn whitespace_only_has_no_tokens() {
    assert_eq!(lex(" \t\r\n \u{a0}\u{2003}\u{3000}").len(), 0);
}

#[test]
fn next_returns_none_at_the_end_and_stays_there() {
    let mut lexer = Lexer::new("a  ");
    assert!(lexer.next().is_some());
    assert!(lexer.next().is_none());
    assert!(lexer.next().is_none());
}

#[test]
fn number_span_is_half_open() {
    let tokens = lex("123");
    assert_eq!(tokens[0].span.start, at(1, 1, 0));
    assert_eq!(tokens[0].span.end, at(1, 4, 3));
    assert!(tokens[0].errors.is_empty());
}

#[test]
fn trailing_dot_is_consumed_into_the_error_token() {
    let tokens = lex("123.");
    assert_eq!(tokens.len(), 1);
    assert_eq!(tokens[0].token_type, TokenType::Error("Invalid decimal number".to_string()));
    assert_eq!(tokens[0].span.start.absolute, 0);
    assert_eq!(tokens[0].span.end.absolute, 4);
    assert_eq!(tokens[0].errors.len(), 1);
    assert!(matches!(tokens[0].errors[0].kind, ErrorKind::InvalidDecimal));
    assert_eq!(tokens[0].errors[0].span, tokens[0].span);
}

#[test]
fn dot_without_digits_before_a_letter() {
    let tokens = lex("1.x");
    assert_eq!(tokens.len(), 2);
    assert!(matches!(tokens[0].token_type, TokenType::Error(_)));
    assert_eq!(tokens[0].span.end.absolute, 2);
    assert_eq!(tokens[1].token_type, TokenType::Identifier("x".to_string()));
}

#[test]
fn second_dot_ends_the_number() {
    assert_eq!(
        types("1.5.2"),
        vec![
            TokenType::Number("1.5".to_string()),
            TokenType::Dot,
            TokenType::Number("2".to_string()),
        ]
    );
}

#[test]
fn leading_dot_is_punctuation() {
    assert_eq!(types(".5"), vec![TokenType::Dot, TokenType::Number("5".to_string())]);
}

#[test]
fn identifiers_take_digits_and_underscores() {
    assert_eq!(types("_a1_b2 c"), vec![
        TokenType::Identifier("_a1_b2".to_string()),
        TokenType::Identifier("c".to_string()),
    ]);
}

#[test]
fn digits_then_letters_are_two_tokens() {
    assert_eq!(types("12ab"), vec![
        TokenType::Number("12".to_string()),
        TokenType::Identifier("ab".to_string()),
    ]);
}

#[test]
fn module_and_import_are_keywords() {
    assert_eq!(types("module import"), vec![
        TokenType::Keyword("module".to_string()),
        TokenType::Keyword("import".to_string()),
    ]);
}

#[test]
fn true_and_false_are_identifiers() {
    assert_eq!(types("true false"), vec![
        TokenType::Identifier("true".to_string()),
        TokenType::Identifier("false".to_string()),
    ]);
}

#[test]
fn keyword_prefix_does_not_make_a_keyword() {
    assert_eq!(types("lets iff returned"), vec![
        TokenType::Identifier("lets".to_string()),
        TokenType::Identifier("iff".to_string()),
        TokenType::Identifier("returned".to_string()),
    ]);
}

#[test]
fn all_single_character_punctuation() {
    assert_eq!(types("; : ( ) { } , ."), vec![
        TokenType::Semicolon,
        TokenType::Colon,
        TokenType::LeftParen,
        TokenType::RightParen,
        TokenType::LeftBrace,
        TokenType::RightBrace,
        TokenType::Comma,
        TokenType::Dot,
    ]);
}

#[test]
fn brackets_are_unexpected_characters() {
    let tokens = lex("[");
    assert_eq!(tokens.len(), 1);
    assert_eq!(tokens[0].token_type, TokenType::Error("Unexpected character: '['".to_string()));
    assert!(matches!(tokens[0].errors[0].kind, ErrorKind::UnexpectedCharacter('[')));
}

#[test]
fn operator_run_is_validated_as_a_whole() {
    let tokens = lex("a=-1");
    assert_eq!(tokens.len(), 3);
    assert_eq!(tokens[1].token_type, TokenType::Error("Invalid operator: =-".to_string()));
    assert_eq!(tokens[1].errors.len(), 1);
    match &tokens[1].errors[0].kind {
        ErrorKind::InvalidOperator(text) => assert_eq!(text, "=-"),
        other => panic!("unexpected kind {:?}", other),
    }
    assert_eq!(tokens[1].span.start.absolute, 1);
    assert_eq!(tokens[1].span.end.absolute, 3);
    assert_eq!(tokens[1].errors[0].span, tokens[1].span);
}

#[test]
fn invalid_operator_carries_one_diagnostic_over_the_whole_run() {
    let tokens = lex("!=!!!==!!");
    assert_eq!(tokens.len(), 1);
    assert_eq!(tokens[0].errors.len(), 1);
    match &tokens[0].errors[0].kind {
        ErrorKind::InvalidOperator(text) => assert_eq!(text, "!=!!!==!!"),
        other => panic!("unexpected kind {:?}", other),
    }
    assert_eq!(tokens[0].errors[0].span.start.absolute, 0);
    assert_eq!(tokens[0].errors[0].span.end.absolute, 9);
}

#[test]
fn operators_separated_by_space_are_separate() {
    assert_eq!(types("= = - >"), vec![
        TokenType::Equal,
        TokenType::Equal,
        TokenType::Minus,
        TokenType::Greater,
    ]);
}

#[test]
fn arrow_between_parentheses_and_identifier() {
    assert_eq!(types("(x)->y"), vec![
        TokenType::LeftParen,
        TokenType::Identifier("x".to_string()),
        TokenType::RightParen,
        TokenType::Arrow,
        TokenType::Identifier("y".to_string()),
    ]);
}

#[test]
fn unterminated_string_has_one_diagnostic() {
    let tokens = lex("\"abc");
    assert_eq!(tokens.len(), 1);
    assert_eq!(tokens[0].token_type, TokenType::Error("String literal error".to_string()));
    assert_eq!(tokens[0].errors.len(), 1);
    assert!(matches!(tokens[0].errors[0].kind, ErrorKind::UnterminatedString));
    assert_eq!(tokens[0].span.end.absolute, 4);
    assert_eq!(tokens[0].errors[0].span, tokens[0].span);
}

#[test]
fn dangling_backslash_diagnostics_in_order() {
    let tokens = lex("\"\\");
    assert_eq!(tokens.len(), 1);
    assert_eq!(tokens[0].errors.len(), 2);
    assert!(matches!(tokens[0].errors[0].kind, ErrorKind::UnterminatedEscapeSequence));
    assert!(matches!(tokens[0].errors[1].kind, ErrorKind::UnterminatedString));
    assert_eq!(tokens[0].errors[0].span.start.absolute, 2);
    assert_eq!(tokens[0].errors[0].span.end.absolute, 2);
    assert_eq!(tokens[0].errors[1].span.start.absolute, 0);
    assert_eq!(tokens[0].errors[1].span.end.absolute, 2);
}

#[test]
fn invalid_escape_keeps_the_character_and_goes_on() {
    let tokens = lex("\"a\\xb\\qc\" z");
    assert_eq!(tokens.len(), 2);
    assert_eq!(tokens[0].token_type, TokenType::String("axbqc".to_string()));
    assert_eq!(tokens[0].errors.len(), 2);
    assert!(matches!(tokens[0].errors[0].kind, ErrorKind::InvalidEscape('x')));
    assert!(matches!(tokens[0].errors[1].kind, ErrorKind::InvalidEscape('q')));
    assert_eq!(tokens[0].errors[0].span.start.absolute, 3);
    assert_eq!(tokens[0].errors[0].span.end.absolute, 4);
    assert_eq!(tokens[0].errors[1].span.start.absolute, 6);
    assert_eq!(tokens[0].errors[1].span.end.absolute, 7);
    assert_eq!(tokens[1].token_type, TokenType::Identifier("z".to_string()));
}

#[test]
fn escaped_quote_does_not_end_the_string() {
    let tokens = lex("\"a\\\"b\"");
    assert_eq!(tokens.len(), 1);
    assert_eq!(tokens[0].token_type, TokenType::String("a\"b".to_string()));
    assert!(tokens[0].errors.is_empty());
}

#[test]
fn empty_string_literal() {
    let tokens = lex("\"\"");
    assert_eq!(tokens.len(), 1);
    assert_eq!(tokens[0].token_type, TokenType::String(String::new()));
    assert_eq!(tokens[0].span.end.absolute, 2);
}

#[test]
fn string_may_span_lines() {
    let tokens = lex("\"a\nb\" c");
    assert_eq!(tokens[0].token_type, TokenType::String("a\nb".to_string()));
    assert_eq!(tokens[0].span.start, at(1, 1, 0));
    assert_eq!(tokens[0].span.end, at(2, 3, 5));
    assert_eq!(tokens[1].span.start, at(2, 4, 6));
}

#[test]
fn scanning_goes_on_after_an_error() {
    let tokens = lex("@ 1 # x");
    assert_eq!(tokens.len(), 4);
    assert!(matches!(tokens[0].token_type, TokenType::Error(_)));
    assert_eq!(tokens[1].token_type, TokenType::Number("1".to_string()));
    assert!(matches!(tokens[2].token_type, TokenType::Error(_)));
    assert_eq!(tokens[3].token_type, TokenType::Identifier("x".to_string()));
}

#[test]
fn multibyte_characters_advance_columns_by_one_and_offsets_by_bytes() {
    let tokens = lex("é x \u{1F600} y");
    assert_eq!(tokens.len(), 4);
    assert_eq!(tokens[0].token_type, TokenType::Error("Unexpected character: 'é'".to_string()));
    assert_eq!(tokens[0].span.start, at(1, 1, 0));
    assert_eq!(tokens[0].span.end, at(1, 2, 2));
    assert_eq!(tokens[1].span.start, at(1, 3, 3));
    assert_eq!(tokens[2].span.start, at(1, 5, 5));
    assert_eq!(tokens[2].span.end, at(1, 6, 9));
    assert_eq!(tokens[3].span.start, at(1, 7, 10));
    assert_eq!(tokens[3].span.end, at(1, 8, 11));
}

#[test]
fn three_byte_whitespace_is_skipped() {
    let tokens = lex("a\u{2003}b");
    assert_eq!(tokens.len(), 2);
    assert_eq!(tokens[1].span.start, at(1, 3, 4));
}

#[test]
fn newline_resets_the_column() {
    let tokens = lex("a\n\n  b");
    assert_eq!(tokens[1].span.start, at(3, 3, 5));
    assert_eq!(tokens[1].span.end, at(3, 4, 6));
}

#[test]
fn carriage_return_is_plain_whitespace() {
    let tokens = lex("a\r\nb");
    assert_eq!(tokens[1].span.start, at(2, 1, 3));
}

fn is_blank(text: &str) -> bool {
    text.chars().all(|c| c.is_whitespace())
}

fn assert_tiles(source: &str) {
    let tokens = lex(source);
    let mut rebuilt = String::new();
    let mut from = 0;
    for token in &tokens {
        let start = token.span.start.absolute;
        let end = token.span.end.absolute;
        assert!(from <= start && start < end && end <= source.len());
        assert!(is_blank(&source[from..start]));
        rebuilt.push_str(&source[from..start]);
        rebuilt.push_str(&source[start..end]);
        from = end;
    }
    assert!(is_blank(&source[from..]));
    rebuilt.push_str(&source[from..]);
    assert_eq!(rebuilt, source);
}

#[test]
fn tokens_tile_the_source() {
    assert_tiles("");
    assert_tiles("   ");
    assert_tiles("let apply: ((number) -> number, number) -> number =\n    (f, x) -> f(x);");
    assert_tiles("  \"abc\\n\" 12.5 12. !=!! @ é \u{2003} x.y(z)\n\t\"open");
    assert_tiles("\"\\");
    assert_tiles("class A { let x: number = 1; fn f() { return x; } }  ");
}

#[test]
fn lexing_twice_gives_the_same_tokens() {
    let source = "let a = \"b\\q\" + 12. @ !=! c;";
    let first = lex(source);
    let second = lex(source);
    assert_eq!(first.len(), second.len());
    for (a, b) in first.iter().zip(second.iter()) {
        assert_eq!(a.token_type, b.token_type);
        assert_eq!(a.span, b.span);
        assert_eq!(a.errors.len(), b.errors.len());
        for (x, y) in a.errors.iter().zip(b.errors.iter()) {
            assert_eq!(x.kind.code(), y.kind.code());
            assert_eq!(x.kind.message(), y.kind.message());
            assert_eq!(x.span, y.span);
        }
    }
}

#[test]
fn spans_are_in_document_order() {
    let tokens = lex("a + \"s\" 1.5\n  b.c(d)");
    let mut previous_end = 0;
    for token in &tokens {
        assert!(previous_end <= token.span.start.absolute);
        assert!(token.span.start.absolute < token.span.end.absolute);
        previous_end = token.span.end.absolute;
    }
}

#[test]
fn next_hands_out_tokens_one_by_one() {
    let mut lexer = Lexer::new("a 1");
    let first = lexer.next().unwrap();
    assert_eq!(first.token_type, TokenType::Identifier("a".to_string()));
    let rest = lexer.collect();
    assert_eq!(rest.len(), 1);
    assert_eq!(rest[0].token_type, TokenType::Number("1".to_string()));
    assert_eq!(rest[0].span.start, at(1, 3, 2));
}

#[test]
fn block_comment_kind_has_its_texts() {
    let kind = ErrorKind::UnterminatedBlockComment;
    assert_eq!(kind.code(), "E005");
    assert_eq!(kind.message(), "Unterminated block comment");
    assert_eq!(kind.label(), "Unterminated block comment");
}

#[test]
fn messages_name_the_offending_text() {
    assert_eq!(ErrorKind::UnexpectedCharacter('é').message(), "Unexpected character: 'é'");
    assert_eq!(ErrorKind::InvalidOperator("<>".to_string()).message(), "Invalid operator: <>");
    assert_eq!(ErrorKind::InvalidEscape('\\').message(), "Invalid escape sequence: \\\\");
    assert_eq!(ErrorKind::InvalidOperator(String::new()).message(), "Invalid operator: ");
}

#[test]
fn try_new_accepts_every_real_text() {
    let source = "let é = \"\u{1F600}\";";
    let lexer = Lexer::try_new(source).expect("a short text");
    let tokens = lexer.collect();
    let again = lex(source);
    assert_eq!(tokens.len(), again.len());
    for (a, b) in tokens.iter().zip(again.iter()) {
        assert_eq!(a.token_type, b.token_type);
        assert_eq!(a.span, b.span);
    }
    assert!(Lexer::try_new("").is_some());
}
