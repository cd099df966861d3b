//! Source ranges attached to tokens and syntax-tree nodes.

use vstd::prelude::*;

verus! {

/// A range of source text: the byte offsets `start..end`, and the 1-based
/// line and column at which the range begins.
#[derive(Debug, Clone, Copy, PartialEq, Eq, Structural)]
pub struct Span {
    pub start: usize,
    pub end: usize,
    pub line: u32,
    pub column: u32,
}

impl Span {
    /// A span is well formed when it does not end before it starts.
    pub open spec fn well_formed(self) -> bool {
        self.start <= self.end
    }

    /// `self` covers `other` when every byte of `other` lies within `self`.
    pub open spec fn covers(self, other: Span) -> bool {
        self.start <= other.start && other.end <= self.end
    }

    /// The enclosing range of two spans.
    ///
    /// The byte range runs from the smaller start to the larger end. The
    /// position is that of the span on the earlier line; when both begin on
    /// the same line, the smaller column is taken.
    pub open spec fn merged(self, other: Span) -> Span {
        Span {
            start: if self.start <= other.start { self.start } else { other.start },
            end: if self.end >= other.end { self.end } else { other.end },
            line: if self.line <= other.line { self.line } else { other.line },
            column: if self.line < other.line {
                self.column
            } else if other.line < self.line {
                other.column
            } else if self.column <= other.column {
                self.column
            } else {
                other.column
            },
        }
    }

    pub fn new(start: usize, end: usize, line: u32, column: u32) -> (span: Self)
        ensures
            span == (Span { start, end, line, column }),
    {
        Span { start, end, line, column }
    }

    pub fn merge(&self, other: &Self) -> (span: Self)
        ensures
            span == self.merged(*other),
    {
        let start = if self.start <= other.start { self.start } else { other.start };
        let end = if self.end >= other.end { self.end } else { other.end };
        let line = if self.line <= other.line { self.line } else { other.line };
        let column = if self.line < other.line {
            self.column
        } else if other.line < self.line {
            other.column
        } else if self.column <= other.column {
            self.column
        } else {
            other.column
        };
        Span { start, end, line, column }
    }
}

/// The merge of two spans covers both of them, and every span that covers
/// both covers the merge: it is the smallest enclosing range.
pub proof fn lemma_merge_is_smallest_cover(a: Span, b: Span, c: Span)
    ensures
        a.merged(b).covers(a),
        a.merged(b).covers(b),
        c.covers(a) && c.covers(b) ==> c.covers(a.merged(b)),
{
}

/// Merging well-formed spans gives a well-formed span.
pub proof fn lemma_merge_well_formed(a: Span, b: Span)
    requires
        a.well_formed(),
        b.well_formed(),
    ensures
        a.merged(b).well_formed(),
{
}

/// A merge does not depend on the order of the two spans, and merging a
/// span with itself changes nothing.
pub proof fn lemma_merge_symmetric(a: Span, b: Span)
    ensures
        a.merged(b) == b.merged(a),
        a.merged(a) == a,
{
}

} // verus!
