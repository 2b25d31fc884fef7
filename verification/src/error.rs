//! What can go wrong while a console expression runs.

use vstd::prelude::*;
use crate::span::Span;

verus! {

/// A failure of one evaluation. Each kind carries the span of the input that
/// triggered it, where one is known.
#[derive(Clone, Copy, Debug, PartialEq, Eq, Structural)]
pub enum RunError {
    /// A reference was followed after its target had been moved or dropped.
    ReferenceToMovedData(Option<Span>),
    /// The arguments of a call do not fit the parameters of the callable.
    ArityOrTypeMismatch(Option<Span>),
    /// A call names something the environment does not hold.
    UndefinedCallable(Option<Span>),
    /// No display text could be produced for a value.
    FormattingFailure(Option<Span>),
    /// A chain of references leads back into itself and so never reaches a value.
    CyclicReference(Option<Span>),
}

impl RunError {
    /// The span the error carries.
    pub open spec fn spec_span(self) -> Option<Span> {
        match self {
            RunError::ReferenceToMovedData(span) => span,
            RunError::ArityOrTypeMismatch(span) => span,
            RunError::UndefinedCallable(span) => span,
            RunError::FormattingFailure(span) => span,
            RunError::CyclicReference(span) => span,
        }
    }

    /// The span the error carries.
    #[verifier::when_used_as_spec(spec_span)]
    pub fn span(self) -> (span: Option<Span>)
        ensures
            span == self.spec_span(),
    {
        match self {
            RunError::ReferenceToMovedData(span) => span,
            RunError::ArityOrTypeMismatch(span) => span,
            RunError::UndefinedCallable(span) => span,
            RunError::FormattingFailure(span) => span,
            RunError::CyclicReference(span) => span,
        }
    }
}

} // verus!
