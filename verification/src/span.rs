//! Ranges of source text.

use vstd::prelude::*;
use crate::position::{Position, PositionView, position_at};

verus! {

/// The extent of a token or of a diagnostic: from the position of its first
/// character to the position after its last one.
#[derive(Debug, Clone, Copy, PartialEq, Eq, Structural)]
pub struct Span {
    pub start: Position,
    pub end: Position,
}

/// The mathematical value of a [`Span`].
pub struct SpanView {
    pub start: PositionView,
    pub end: PositionView,
}

impl View for Span {
    type V = SpanView;

    open spec fn view(&self) -> SpanView {
        SpanView { start: self.start@, end: self.end@ }
    }
}

/// The span of the characters of `src` with indices from `from` up to, and
/// without, `to`.
pub open spec fn span_between(src: Seq<char>, from: int, to: int) -> SpanView {
    SpanView { start: position_at(src, from), end: position_at(src, to) }
}

impl Span {
    pub fn new(start: Position, end: Position) -> (span: Span)
        ensures
            span.start == start,
            span.end == end,
    {
        Span { start, end }
    }
}

} // verus!
