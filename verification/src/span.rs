//! Source-text locations, used to attribute diagnostics to input text.

use vstd::prelude::*;

verus! {

/// A half-open `[start, end)` range of character positions in the original
/// source text.  A span carries no ownership of the source; it is resolved
/// against the text only when an error is rendered.
#[derive(Debug, Clone, Copy, PartialEq, Eq, Structural)]
pub struct Span {
    /// Position of the first character covered by the span.
    pub start: usize,
    /// Position one past the last character covered by the span.
    pub end: usize,
}

impl Span {
    /// Builds the span covering positions `start` (inclusive) to `end`
    /// (exclusive).
    pub fn new(start: usize, end: usize) -> (s: Span)
        ensures
            s == (Span { start, end }),
    {
        Span { start, end }
    }
}

/// A value together with the span of source text it originated from.
#[derive(Debug, Clone, Copy, PartialEq, Eq)]
pub struct Spanned<T> {
    /// The location the value came from.
    pub span: Span,
    /// The value itself.
    pub inner: T,
}

impl<T: View> View for Spanned<T> {
    type V = Spanned<T::V>;

    open spec fn view(&self) -> Spanned<T::V> {
        Spanned { span: self.span, inner: self.inner@ }
    }
}

} // verus!
