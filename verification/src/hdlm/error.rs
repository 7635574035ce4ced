//! Error type of the language-model codebooks.
use vstd::prelude::*;

verus! {

/// Faults of codebook construction and lookup.
#[derive(Debug, Clone, PartialEq)]
pub enum HdlmError {
    /// A tier-1 (forensic) vector could not be produced.
    Tier1GenerationFailed { reason: String },
}

} // verus!
