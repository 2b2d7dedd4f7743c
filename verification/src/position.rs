//! Source positions: line, column and byte offset of a place in a text.

use vstd::prelude::*;
use vstd::utf8::*;

verus! {

/// A place in a source text. Lines and columns count from 1 and columns count
/// characters; `absolute` is the byte offset in the UTF-8 text.
#[derive(Debug, Clone, Copy, PartialEq, Eq, Structural)]
pub struct Position {
    pub line: usize,
    pub column: usize,
    pub absolute: usize,
}

/// The mathematical value of a [`Position`].
pub struct PositionView {
    pub line: nat,
    pub column: nat,
    pub absolute: nat,
}

impl View for Position {
    type V = PositionView;

    open spec fn view(&self) -> PositionView {
        PositionView {
            line: self.line as nat,
            column: self.column as nat,
            absolute: self.absolute as nat,
        }
    }
}

/// Number of bytes that `c` takes in UTF-8.
pub open spec fn utf8_width(c: char) -> nat {
    if c as u32 <= 0x7F {
        1
    } else if c as u32 <= 0x7FF {
        2
    } else if c as u32 <= 0xFFFF {
        3
    } else {
        4
    }
}

/// The position before the first character of any text.
pub open spec fn origin() -> PositionView {
    PositionView { line: 1, column: 1, absolute: 0 }
}

/// The position after `c`, given the position `p` before it: a newline starts
/// the next line at column 1, any other character moves one column on; both
/// move the byte offset by the character's encoded length.
pub open spec fn step(p: PositionView, c: char) -> PositionView {
    if c == '\n' {
        PositionView { line: p.line + 1, column: 1, absolute: p.absolute + utf8_width(c) }
    } else {
        PositionView { line: p.line, column: p.column + 1, absolute: p.absolute + utf8_width(c) }
    }
}

/// The position of the character with index `i` in `src` (for `i == src.len()`,
/// the position after the last character).
pub open spec fn position_at(src: Seq<char>, i: int) -> PositionView
    decreases i,
{
    if i <= 0 {
        origin()
    } else {
        step(position_at(src, i - 1), src[i - 1])
    }
}

/// Moving on in a text never moves a position back: line and byte offset grow
/// weakly, and each is bounded by the number of characters passed.
pub proof fn lemma_position_monotonic(src: Seq<char>, i: int, j: int)
    requires
        0 <= i <= j,
    ensures
        position_at(src, i).line <= position_at(src, j).line,
        position_at(src, i).absolute + (j - i) <= position_at(src, j).absolute,
        position_at(src, j).line <= position_at(src, i).line + (j - i),
        position_at(src, j).column <= position_at(src, i).column + (j - i),
        position_at(src, j).column >= 1,
        position_at(src, j).line >= 1,
    decreases j - i,
{
    if i < j {
        lemma_position_monotonic(src, i, j - 1);
    } else {
        lemma_position_at_least_one(src, j);
    }
}

proof fn lemma_position_at_least_one(src: Seq<char>, i: int)
    ensures
        position_at(src, i).column >= 1,
        position_at(src, i).line >= 1,
    decreases i,
{
    if i > 0 {
        lemma_position_at_least_one(src, i - 1);
    }
}

proof fn lemma_encode_push(s: Seq<char>, c: char)
    ensures
        encode_utf8(s.push(c)).len() == encode_utf8(s).len() + utf8_width(c),
    decreases s.len(),
{
    char_is_scalar(c);
    if s.len() == 0 {
        assert(s.push(c).drop_first() =~= Seq::<char>::empty());
        assert(encode_utf8(s.push(c).drop_first()).len() == 0);
    } else {
        assert(s.push(c).drop_first() =~= s.drop_first().push(c));
        lemma_encode_push(s.drop_first(), c);
    }
}

/// The byte offset of a position is the length of the UTF-8 encoding of the
/// text before it.
pub proof fn lemma_offset_is_encoded_length(src: Seq<char>, i: int)
    requires
        0 <= i <= src.len(),
    ensures
        position_at(src, i).absolute == encode_utf8(src.take(i)).len(),
    decreases i,
{
    if i > 0 {
        lemma_offset_is_encoded_length(src, i - 1);
        assert(src.take(i) =~= src.take(i - 1).push(src[i - 1]));
        lemma_encode_push(src.take(i - 1), src[i - 1]);
    } else {
        assert(src.take(0) =~= Seq::<char>::empty());
    }
}

/// The encoding of a text is the encoding of its first part followed by the
/// encoding of the rest.
pub proof fn lemma_encode_concat(first: Seq<char>, rest: Seq<char>)
    ensures
        encode_utf8(first + rest) == encode_utf8(first) + encode_utf8(rest),
    decreases first.len(),
{
    if first.len() == 0 {
        assert(first + rest =~= rest);
        assert(encode_utf8(first) + encode_utf8(rest) =~= encode_utf8(rest));
    } else {
        assert((first + rest).drop_first() =~= first.drop_first() + rest);
        lemma_encode_concat(first.drop_first(), rest);
        assert(encode_scalar(first[0] as u32) + (encode_utf8(first.drop_first()) + encode_utf8(rest))
            =~= (encode_scalar(first[0] as u32) + encode_utf8(first.drop_first())) + encode_utf8(
            rest,
        ));
    }
}

/// The bytes between the byte offsets of two positions are the encoding of
/// the characters between them.
pub proof fn lemma_spanned_bytes(src: Seq<char>, from: int, to: int)
    requires
        0 <= from <= to <= src.len(),
    ensures
        position_at(src, from).absolute <= position_at(src, to).absolute <= encode_utf8(
            src,
        ).len(),
        encode_utf8(src).subrange(
            position_at(src, from).absolute as int,
            position_at(src, to).absolute as int,
        ) == encode_utf8(src.subrange(from, to)),
{
    let before = src.take(from);
    let within = src.subrange(from, to);
    let after = src.skip(to);
    assert(src =~= (before + within) + after);
    assert(src.take(to) =~= before + within);
    lemma_encode_concat(before + within, after);
    lemma_encode_concat(before, within);
    lemma_offset_is_encoded_length(src, from);
    lemma_offset_is_encoded_length(src, to);
    assert(encode_utf8(src).subrange(
        encode_utf8(before).len() as int,
        encode_utf8(before + within).len() as int,
    ) =~= encode_utf8(within));
}

/// Number of bytes that `c` takes in UTF-8.
pub fn encoded_width(c: char) -> (width: usize)
    ensures
        width == utf8_width(c),
{
    let code: u32 = c as u32;
    if code <= 0x7F {
        1
    } else if code <= 0x7FF {
        2
    } else if code <= 0xFFFF {
        3
    } else {
        4
    }
}

impl Position {
    /// The position at the start of a text.
    pub fn start() -> (p: Position)
        ensures
            p@ == origin(),
    {
        Position { line: 1, column: 1, absolute: 0 }
    }

    /// The position after `c`.
    pub fn advanced(self, c: char) -> (p: Position)
        requires
            step(self@, c).line <= usize::MAX,
            step(self@, c).column <= usize::MAX,
            step(self@, c).absolute <= usize::MAX,
        ensures
            p@ == step(self@, c),
    {
        let width = encoded_width(c);
        if c == '\n' {
            Position { line: self.line + 1, column: 1, absolute: self.absolute + width }
        } else {
            Position { line: self.line, column: self.column + 1, absolute: self.absolute + width }
        }
    }
}

} // verus!
