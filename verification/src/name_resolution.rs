use vstd::prelude::*;
use crate::span::Span;

verus! {

/// Why a name could not be registered.
#[derive(Debug)]
pub enum NameResolutionError {
    /// The name already denotes something else. Both definitions are
    /// located: the one that was refused and the one it clashes with.
    IdentifierClash { conflicting_identifier: String, conflict_span: Span, original_span: Span },
}

impl NameResolutionError {
    /// The name that was refused.
    pub open spec fn identifier(self) -> Seq<char> {
        self->conflicting_identifier@
    }

    /// Where the refused definition stands.
    pub open spec fn conflict(self) -> Span {
        self->conflict_span
    }

    /// Where the definition stands that it clashes with.
    pub open spec fn original(self) -> Span {
        self->original_span
    }

    /// A copy of this error.
    pub fn duplicate(&self) -> (r: NameResolutionError)
        ensures
            r.identifier() == self.identifier(),
            r.conflict() == self.conflict(),
            r.original() == self.original(),
    {
        match self {
            NameResolutionError::IdentifierClash {
                conflicting_identifier,
                conflict_span,
                original_span,
            } => NameResolutionError::IdentifierClash {
                conflicting_identifier: conflicting_identifier.clone(),
                conflict_span: *conflict_span,
                original_span: *original_span,
            },
        }
    }
}

} // verus!
