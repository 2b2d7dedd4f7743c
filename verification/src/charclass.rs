//! The classes of characters that the lexer tells apart.

use vstd::prelude::*;

verus! {

/// A class of characters of which the lexer consumes maximal runs.
#[derive(Debug, Clone, Copy, PartialEq, Eq, Structural)]
pub enum CharClass {
    /// Unicode whitespace.
    Whitespace,
    /// The ASCII digits.
    Digit,
    /// The ASCII letters and digits and the underscore.
    Word,
    /// The characters that operators are made of.
    Operator,
}

/// The characters with the Unicode property `White_Space`.
pub open spec fn is_whitespace(c: char) -> bool {
    let u = c as u32;
    ||| 0x09 <= u <= 0x0D
    ||| u == 0x20
    ||| u == 0x85
    ||| u == 0xA0
    ||| u == 0x1680
    ||| 0x2000 <= u <= 0x200A
    ||| u == 0x2028
    ||| u == 0x2029
    ||| u == 0x202F
    ||| u == 0x205F
    ||| u == 0x3000
}

pub open spec fn is_digit(c: char) -> bool {
    '0' <= c <= '9'
}

pub open spec fn is_letter(c: char) -> bool {
    'a' <= c <= 'z' || 'A' <= c <= 'Z'
}

/// A character that may begin an identifier or a keyword.
pub open spec fn is_word_start(c: char) -> bool {
    is_letter(c) || c == '_'
}

/// A character that may continue an identifier or a keyword.
pub open spec fn is_word_part(c: char) -> bool {
    is_letter(c) || is_digit(c) || c == '_'
}

pub open spec fn is_operator_char(c: char) -> bool {
    ||| c == '+'
    ||| c == '-'
    ||| c == '*'
    ||| c == '/'
    ||| c == '='
    ||| c == '<'
    ||| c == '>'
    ||| c == '!'
    ||| c == '&'
    ||| c == '^'
    ||| c == '%'
    ||| c == '|'
}

pub open spec fn in_class(c: char, class: CharClass) -> bool {
    match class {
        CharClass::Whitespace => is_whitespace(c),
        CharClass::Digit => is_digit(c),
        CharClass::Word => is_word_part(c),
        CharClass::Operator => is_operator_char(c),
    }
}

/// Where the maximal run of characters of `class` that starts at index `i`
/// ends: the least index from `i` on at which `src` ends or holds a character
/// outside the class.
pub open spec fn run_end(src: Seq<char>, i: int, class: CharClass) -> int
    decreases src.len() - i,
{
    if 0 <= i < src.len() && in_class(src[i], class) {
        run_end(src, i + 1, class)
    } else {
        i
    }
}

/// `run_end` is the end of the maximal run: every character before it is in
/// the class, and the run cannot be extended.
pub proof fn lemma_run_end(src: Seq<char>, i: int, class: CharClass)
    requires
        0 <= i <= src.len(),
    ensures
        i <= run_end(src, i, class) <= src.len(),
        forall|k: int| i <= k < run_end(src, i, class) ==> in_class(#[trigger] src[k], class),
        run_end(src, i, class) < src.len() ==> !in_class(src[run_end(src, i, class)], class),
    decreases src.len() - i,
{
    if i < src.len() && in_class(src[i], class) {
        lemma_run_end(src, i + 1, class);
    }
}

/// A run that has reached index `j` within it ends where the run from `j` ends.
pub proof fn lemma_run_end_from_within(src: Seq<char>, i: int, j: int, class: CharClass)
    requires
        0 <= i <= j <= src.len(),
        forall|k: int| i <= k < j ==> in_class(#[trigger] src[k], class),
    ensures
        run_end(src, i, class) == run_end(src, j, class),
    decreases j - i,
{
    if i < j {
        lemma_run_end_from_within(src, i + 1, j, class);
    }
}

pub fn is_whitespace_char(c: char) -> (r: bool)
    ensures
        r == is_whitespace(c),
{
    let u: u32 = c as u32;
    (0x09 <= u && u <= 0x0D) || u == 0x20 || u == 0x85 || u == 0xA0 || u == 0x1680 || (0x2000 <= u
        && u <= 0x200A) || u == 0x2028 || u == 0x2029 || u == 0x202F || u == 0x205F || u == 0x3000
}

pub fn is_digit_char(c: char) -> (r: bool)
    ensures
        r == is_digit(c),
{
    '0' <= c && c <= '9'
}

pub fn is_word_start_char(c: char) -> (r: bool)
    ensures
        r == is_word_start(c),
{
    ('a' <= c && c <= 'z') || ('A' <= c && c <= 'Z') || c == '_'
}

pub fn is_word_part_char(c: char) -> (r: bool)
    ensures
        r == is_word_part(c),
{
    is_word_start_char(c) || is_digit_char(c)
}

pub fn is_operator_start(c: char) -> (r: bool)
    ensures
        r == is_operator_char(c),
{
    c == '+' || c == '-' || c == '*' || c == '/' || c == '=' || c == '<' || c == '>' || c == '!'
        || c == '&' || c == '^' || c == '%' || c == '|'
}

impl CharClass {
    /// Whether `c` belongs to the class.
    pub fn holds(self, c: char) -> (r: bool)
        ensures
            r == in_class(c, self),
    {
        match self {
            CharClass::Whitespace => is_whitespace_char(c),
            CharClass::Digit => is_digit_char(c),
            CharClass::Word => is_word_part_char(c),
            CharClass::Operator => is_operator_start(c),
        }
    }
}

} // verus!
