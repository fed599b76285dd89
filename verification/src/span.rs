use vstd::prelude::*;

verus! {

/// A range of a source text: where a name was defined or used.
#[derive(Clone, Copy, Debug, PartialEq, Eq, Structural)]
pub struct Span {
    pub start: u32,
    pub end: u32,
    pub code_source_id: usize,
}

} // verus!
