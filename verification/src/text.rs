//! Texts: what the library needs of `String` and `str` beyond what vstd
//! specifies.

use vstd::prelude::*;
use vstd::std_specs::iter::IteratorSpec;

verus! {

/// Assumed of the standard library, not proved: `String::push` appends one
/// character to the end of the string and leaves the rest as it was.
pub assume_specification[ std::string::String::push ](s: &mut std::string::String, ch: char)
    ensures
        final(s)@ == old(s)@.push(ch),
;

/// The characters of a text, in order.
pub fn chars_of(text: &str) -> (chars: Vec<char>)
    ensures
        chars@ == text@,
{
    let mut chars: Vec<char> = Vec::new();
    for c in it: text.chars()
        invariant
            chars@ == it.seq().take(it.index() as int),
            it.seq() == text@,
    {
        chars.push(c);
    }
    assert(chars@ =~= text@);
    chars
}

/// Whether two texts hold the same characters.
pub fn same_text(a: &str, b: &str) -> (same: bool)
    ensures
        same == (a@ == b@),
{
    let mut left = a.chars();
    let mut right = b.chars();
    let ghost mut seen: Seq<char> = Seq::empty();
    loop
        invariant
            left.obeys_prophetic_iter_laws(),
            right.obeys_prophetic_iter_laws(),
            a@ == seen + left.remaining(),
            b@ == seen + right.remaining(),
        decreases a@.len() - seen.len(),
    {
        let ghost left_before = left.remaining();
        let ghost right_before = right.remaining();
        let x = left.next();
        let y = right.next();
        match (x, y) {
            (Some(p), Some(q)) => {
                if p != q {
                    assert(a@[seen.len() as int] == p);
                    assert(b@[seen.len() as int] == q);
                    return false;
                }
                proof {
                    assert(seen.push(p) + left.remaining() =~= seen + left_before);
                    assert(seen.push(p) + right.remaining() =~= seen + right_before);
                    seen = seen.push(p);
                }
            },
            (None, None) => {
                return true;
            },
            _ => {
                assert(a@.len() != b@.len());
                return false;
            },
        }
    }
}

} // verus!
