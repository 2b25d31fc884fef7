//! Source positions.

use vstd::prelude::*;

verus! {

/// A half-open range `start..end` over the text of one console input.
#[derive(Clone, Copy, Debug, PartialEq, Eq, Structural)]
pub struct Span {
    pub start: usize,
    pub end: usize,
}

impl Span {
    /// The span `start..end`.
    pub fn new(start: usize, end: usize) -> (span: Span)
        ensures
            span == (Span { start, end }),
    {
        Span { start, end }
    }
}

/// A payload together with the part of the input that produced it.
#[derive(Debug, PartialEq, Eq)]
pub struct Spanned<T> {
    pub span: Span,
    pub value: T,
}

impl<T: View> View for Spanned<T> {
    type V = Spanned<T::V>;

    open spec fn view(&self) -> Spanned<T::V> {
        Spanned { span: self.span, value: self.value@ }
    }
}

impl<T> Spanned<T> {
    /// Pairs `value` with `span`.
    pub fn new(span: Span, value: T) -> (spanned: Spanned<T>)
        ensures
            spanned.span == span,
            spanned.value == value,
    {
        Spanned { span, value }
    }
}

} // verus!
