//! Which texts are number literals.
//!
//! A number literal is a decimal floating-point literal: an optional sign,
//! then either digits with an optional fraction and an optional exponent, or
//! one of the names `inf`, `infinity` and `nan` in any mix of cases. These are
//! the texts that the standard library reads as a 64-bit float, so every
//! literal that the parser accepts has a value.

use vstd::prelude::*;
use crate::charclass::{CharClass, is_digit_char, lemma_run_end_from_within, run_end};
use crate::text::chars_of;

verus! {

pub open spec fn is_sign(c: char) -> bool {
    c == '+' || c == '-'
}

/// Whether `text` from index `from` on is `lower` with each letter in either
/// case, `upper` being `lower` in upper case.
pub open spec fn is_word(text: Seq<char>, from: int, lower: Seq<char>, upper: Seq<char>) -> bool {
    &&& text.len() - from == lower.len()
    &&& forall|i: int|
        0 <= i < lower.len() ==> (#[trigger] text[from + i] == lower[i] || text[from + i]
            == upper[i])
}

/// Whether `text` from index `from` on names an infinity or not-a-number.
pub open spec fn is_special(text: Seq<char>, from: int) -> bool {
    ||| is_word(text, from, "inf"@, "INF"@)
    ||| is_word(text, from, "infinity"@, "INFINITY"@)
    ||| is_word(text, from, "nan"@, "NAN"@)
}

/// Whether `text` from index `at` on is an exponent: `e` or `E`, an optional
/// sign, and at least one digit up to the end of the text.
pub open spec fn is_exponent(text: Seq<char>, at: int) -> bool {
    let digits_start = if at + 1 < text.len() && is_sign(text[at + 1]) {
        at + 2
    } else {
        at + 1
    };
    &&& 0 <= at < text.len()
    &&& (text[at] == 'e' || text[at] == 'E')
    &&& digits_start < text.len()
    &&& run_end(text, digits_start, CharClass::Digit) == text.len()
}

/// Whether `text` from index `from` on is a decimal number: digits, optionally
/// a dot and more digits, with at least one digit before or after the dot, and
/// optionally an exponent.
pub open spec fn is_decimal(text: Seq<char>, from: int) -> bool {
    let whole_end = run_end(text, from, CharClass::Digit);
    let has_dot = 0 <= whole_end < text.len() && text[whole_end] == '.';
    let fraction_start = if has_dot {
        whole_end + 1
    } else {
        whole_end
    };
    let fraction_end = run_end(text, fraction_start, CharClass::Digit);
    let digits = (whole_end - from) + (fraction_end - fraction_start);
    &&& digits >= 1
    &&& (fraction_end == text.len() || is_exponent(text, fraction_end))
}

/// Whether `text` is a number literal.
pub open spec fn is_float_literal(text: Seq<char>) -> bool {
    let from: int = if text.len() > 0 && is_sign(text[0]) {
        1
    } else {
        0
    };
    is_special(text, from) || is_decimal(text, from)
}

/// Where the run of digits that starts at `from` ends.
fn digits_end(chars: &Vec<char>, from: usize) -> (end: usize)
    requires
        from <= chars.len(),
    ensures
        end == run_end(chars@, from as int, CharClass::Digit),
        from <= end <= chars.len(),
{
    let mut end = from;
    while end < chars.len() && is_digit_char(chars[end])
        invariant
            from <= end <= chars.len(),
            forall|k: int| from <= k < end ==> crate::charclass::in_class(
                #[trigger] chars@[k],
                CharClass::Digit,
            ),
        decreases chars.len() - end,
    {
        end = end + 1;
    }
    proof {
        lemma_run_end_from_within(chars@, from as int, end as int, CharClass::Digit);
    }
    end
}

/// Whether the characters from `from` on are `lower` in any mix of cases.
fn word_from(chars: &Vec<char>, from: usize, lower: &str, upper: &str) -> (found: bool)
    requires
        from <= chars.len(),
        lower@.len() == upper@.len(),
    ensures
        found == is_word(chars@, from as int, lower@, upper@),
{
    let low = chars_of(lower);
    let up = chars_of(upper);
    if chars.len() - from != low.len() {
        return false;
    }
    let mut i: usize = 0;
    while i < low.len()
        invariant
            i <= low.len(),
            low@ == lower@,
            up@ == upper@,
            low.len() == up.len(),
            chars.len() - from == low.len(),
            forall|k: int|
                0 <= k < i ==> (#[trigger] chars@[from + k] == low@[k] || chars@[from + k]
                    == up@[k]),
        decreases low.len() - i,
    {
        let c = chars[from + i];
        if c != low[i] && c != up[i] {
            assert(!(chars@[from + i] == lower@[i as int] || chars@[from + i] == upper@[i as int]));
            return false;
        }
        i = i + 1;
    }
    true
}

/// Whether `text` is a number literal.
pub fn is_float_text(text: &str) -> (valid: bool)
    ensures
        valid == is_float_literal(text@),
{
    let chars = chars_of(text);
    let from: usize = if chars.len() > 0 && (chars[0] == '+' || chars[0] == '-') {
        1
    } else {
        0
    };
    proof {
        reveal_strlit("inf");
        reveal_strlit("INF");
        reveal_strlit("infinity");
        reveal_strlit("INFINITY");
        reveal_strlit("nan");
        reveal_strlit("NAN");
    }
    if word_from(&chars, from, "inf", "INF") || word_from(&chars, from, "infinity", "INFINITY")
        || word_from(&chars, from, "nan", "NAN") {
        return true;
    }
    let whole_end = digits_end(&chars, from);
    let has_dot = whole_end < chars.len() && chars[whole_end] == '.';
    let fraction_start = if has_dot {
        whole_end + 1
    } else {
        whole_end
    };
    let fraction_end = digits_end(&chars, fraction_start);
    if (whole_end - from) + (fraction_end - fraction_start) < 1 {
        return false;
    }
    if fraction_end == chars.len() {
        return true;
    }
    if chars[fraction_end] != 'e' && chars[fraction_end] != 'E' {
        return false;
    }
    let digits_start = if fraction_end + 1 < chars.len() && (chars[fraction_end + 1] == '+'
        || chars[fraction_end + 1] == '-') {
        fraction_end + 2
    } else {
        fraction_end + 1
    };
    if digits_start >= chars.len() {
        return false;
    }
    digits_end(&chars, digits_start) == chars.len()
}

} // verus!
