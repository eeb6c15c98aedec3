//! Positions in source text: half-open ranges of character offsets, and a
//! wrapper that pairs an item with the range it was read from.

use vstd::prelude::*;

verus! {

/// A half-open range `[start, end)` of character offsets into the source
/// string a line was read from. A well-formed span never runs backwards.
#[derive(Debug, Clone, Copy, PartialEq, Eq, Structural, PartialOrd, Ord, Hash)]
pub struct Span {
    pub start: usize,
    pub end: usize,
}

impl Span {
    /// A span is well formed when it does not run backwards.
    pub open spec fn wf(self) -> bool {
        self.start <= self.end
    }

    /// A well-formed span lies inside a source of length `n`.
    pub open spec fn in_source(self, n: int) -> bool {
        self.wf() && self.end <= n
    }

    /// The characters this span covers in `source`.
    pub open spec fn spec_string(self, source: Seq<char>) -> Seq<char> {
        source.subrange(self.start as int, self.end as int)
    }

    pub fn new(start: usize, end: usize) -> (s: Span)
        requires
            start <= end,
        ensures
            s == (Span { start, end }),
    {
        Span { start, end }
    }

    /// The sentinel for errors that have no source location.
    pub fn unknown() -> (s: Span)
        ensures
            s == (Span { start: 0usize, end: 0usize }),
    {
        Span { start: 0, end: 0 }
    }

    /// The covering span from the start of `self` to the end of `other`.
    pub fn until(self, other: Span) -> (s: Span)
        requires
            self.start <= other.end,
        ensures
            s == (Span { start: self.start, end: other.end }),
    {
        Span { start: self.start, end: other.end }
    }

    pub fn len(self) -> (n: usize)
        requires
            self.wf(),
        ensures
            n == self.end - self.start,
    {
        self.end - self.start
    }

    /// The substring of `source` that this span covers.
    pub fn string(self, source: &str) -> (r: String)
        requires
            self.in_source(source@.len() as int),
        ensures
            r@ == self.spec_string(source@),
    {
        let sub = source.substring_char(self.start, self.end);
        String::from_str(sub)
    }
}

/// An item together with the span of source text it was read from.
#[derive(Debug, Clone, Copy, PartialEq, Eq, Structural, PartialOrd, Ord, Hash)]
pub struct Spanned<T> {
    pub item: T,
    pub span: Span,
}

impl<T> Spanned<T> {
    pub fn new(item: T, span: Span) -> (s: Spanned<T>)
        ensures
            s == (Spanned { item, span }),
    {
        Spanned { item, span }
    }
}

/// Anything that can report the span of source text it covers.
pub trait HasSpan {
    spec fn spec_span(&self) -> Span;

    fn span(&self) -> (s: Span)
        ensures
            s == self.spec_span(),
    ;
}

} // verus!
