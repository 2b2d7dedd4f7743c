use exx::charclass::{
    is_digit_char, is_operator_start, is_whitespace_char, is_word_part_char, is_word_start_char,
    CharClass,
};
use exx::number::is_float_text;
use exx::position::{encoded_width, Position};
use exx::span::Span;
use exx::text::{chars_of, same_text};
use exx::token::{DiagnosticError, ErrorKind};

#[test]
fn whitespace_is_unicode_white_space() {
    for code in 0..=0x10FFFFu32 {
        if let Some(c) = char::from_u32(code) {
            assert_eq!(is_whitespace_char(c), c.is_whitespace(), "U+{:04X}", code);
        }
    }
}

#[test]
fn digits_and_words_are_ascii() {
    for code in 0..=0x10FFFFu32 {
        if let Some(c) = char::from_u32(code) {
            assert_eq!(is_digit_char(c), c.is_ascii_digit());
            assert_eq!(is_word_part_char(c), c.is_ascii_alphanumeric() || c == '_');
            assert_eq!(is_word_start_char(c), c.is_ascii_alphabetic() || c == '_');
            assert_eq!(is_operator_start(c), "+-*/=<>!&^%|".contains(c));
        }
    }
}

#[test]
fn classes_hold_their_characters() {
    assert!(CharClass::Whitespace.holds('\n'));
    assert!(!CharClass::Whitespace.holds('a'));
    assert!(CharClass::Digit.holds('7'));
    assert!(!CharClass::Digit.holds('a'));
    assert!(CharClass::Word.holds('_'));
    assert!(!CharClass::Word.holds('-'));
    assert!(CharClass::Operator.holds('|'));
    assert!(!CharClass::Operator.holds('.'));
}

#[test]
fn positions_advance_by_character() {
    let start = Position::start();
    assert_eq!(start, Position { line: 1, column: 1, absolute: 0 });
    let a = start.advanced('a');
    assert_eq!(a, Position { line: 1, column: 2, absolute: 1 });
    let newline = a.advanced('\n');
    assert_eq!(newline, Position { line: 2, column: 1, absolute: 2 });
    assert_eq!(newline.advanced('é'), Position { line: 2, column: 2, absolute: 4 });
    assert_eq!(newline.advanced('\u{20AC}'), Position { line: 2, column: 2, absolute: 5 });
    assert_eq!(newline.advanced('\u{1F600}'), Position { line: 2, column: 2, absolute: 6 });
    assert_eq!(newline.advanced('\u{7F}').absolute, 3);
    assert_eq!(newline.advanced('\u{80}').absolute, 4);
    assert_eq!(newline.advanced('\u{7FF}').absolute, 4);
    assert_eq!(newline.advanced('\u{800}').absolute, 5);
    assert_eq!(newline.advanced('\u{FFFF}').absolute, 5);
    assert_eq!(newline.advanced('\u{10000}').absolute, 6);
}

#[test]
fn widths_are_utf8_lengths() {
    for code in 0..=0x10FFFFu32 {
        if let Some(c) = char::from_u32(code) {
            assert_eq!(Position::start().advanced(c).absolute, c.len_utf8());
            assert_eq!(encoded_width(c), c.len_utf8());
        }
    }
}

#[test]
fn span_new_keeps_both_ends() {
    let start = Position { line: 1, column: 2, absolute: 1 };
    let end = Position { line: 3, column: 4, absolute: 9 };
    let span = Span::new(start, end);
    assert_eq!(span.start, start);
    assert_eq!(span.end, end);
}

#[test]
fn diagnostic_new_keeps_kind_and_span() {
    let span = Span::new(Position::start(), Position::start().advanced('x'));
    let diagnostic = DiagnosticError::new(ErrorKind::InvalidEscape('x'), span);
    assert!(matches!(diagnostic.kind, ErrorKind::InvalidEscape('x')));
    assert_eq!(diagnostic.span, span);
}

#[test]
fn texts_compare_by_characters() {
    assert!(same_text("", ""));
    assert!(same_text("let", "let"));
    assert!(!same_text("let", "le"));
    assert!(!same_text("le", "let"));
    assert!(!same_text("let", "lot"));
    assert!(same_text("é\u{1F600}", "é\u{1F600}"));
    assert!(!same_text("", "a"));
}

#[test]
fn chars_of_keeps_order() {
    assert_eq!(chars_of(""), Vec::<char>::new());
    assert_eq!(chars_of("aé\u{1F600}"), vec!['a', 'é', '\u{1F600}']);
}

#[test]
fn number_literals_are_what_parses_as_a_float() {
    let cases = [
        "", "0", "23", "007", "3.14", "-3.14", "+3.14", "2.5E10", "2.5e10", "2.5E-10", "2.5e+10",
        "5.", ".5", "0.5", ".", "+", "-", "+.", "-.5", "1e", "1e+", "1e-", "e5", ".e5", "1.e5",
        "1..2", "1.2.3", "1e5.5", "1e5e5", "inf", "-inf", "+infinity", "INF", "Infinity",
        "iNfInItY", "infinit", "infinityy", "in", "NaN", "nan", "-nan", "+NAN", "nana", "na",
        " 1", "1 ", "1_000", "0x10", "1f", "1d", "--1", "+-1", "١", "1٢", "１", "1e٣", "1,5",
        "123456789012345678901234567890", "0.000000000000000000000000000001", "1e400", "1e-400",
        "00.00e00", "-0", "+0.", "12ab", "a12", "1E5", "1E+5", "1E", "e", "E", ".e", "-e1",
    ];
    for text in cases {
        assert_eq!(is_float_text(text), text.parse::<f64>().is_ok(), "{:?}", text);
    }
}

#[test]
fn number_literal_values() {
    assert!(is_float_text("23"));
    assert_eq!("23".parse::<f64>().unwrap(), 23.0);
    assert!(is_float_text("123.45"));
    assert!(!is_float_text("123.."));
    assert!(!is_float_text("abc"));
}
