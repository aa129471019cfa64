//! Errors of one generation request. Each one ends the request; none is retried here.

use vstd::prelude::*;
use crate::binder::ElemKind;

verus! {

#[derive(Debug)]
pub enum GenerationError {
    /// Token ids had to be derived from text, and no text codec is available.
    MissingCapability,
    /// A slot that must hold integers declares an element type outside the integer kinds.
    UnsupportedTensorType(ElemKind),
    /// The raw score tensor has a rank other than 2 or 3.
    UnsupportedScoreRank(usize),
    /// The sampling filters left no candidate.
    EmptyCandidateSet,
    /// The execution engine failed; its message is passed on.
    EngineExecutionFailure(String),
    /// Encoding or decoding text failed; the codec's message is passed on.
    CodecFailure(String),
}

} // verus!
