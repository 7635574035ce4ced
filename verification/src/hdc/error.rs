//! Error type of the hyperdimensional-computing layer.
use vstd::prelude::*;
use crate::text::{decimal, push_decimal, push_str, string_from};

verus! {

/// Faults of hypervector operations.
#[derive(Debug, Clone, PartialEq)]
pub enum HdcError {
    DimensionMismatch { expected: usize, actual: usize },
    InitializationFailed { reason: String },
    MemoryFull,
    InvalidBipolarValue,
    PersistenceFailure { detail: String },
    LogicFault { reason: String },
    EmptyBundle,
}

impl HdcError {
    /// The human-readable message of the error.
    pub open spec fn message_spec(self) -> Seq<char> {
        match self {
            HdcError::DimensionMismatch { expected, actual } => "Dimension Mismatch: expected "@
                + decimal(expected as nat) + ", got "@ + decimal(actual as nat),
            HdcError::InitializationFailed { reason } => "Initialization Failed: "@ + reason@,
            HdcError::MemoryFull => "Holographic Memory Full"@,
            HdcError::InvalidBipolarValue => "Values must be strictly -1 or 1"@,
            HdcError::PersistenceFailure { detail } => "Failed to commit state: "@ + detail@,
            HdcError::LogicFault { reason } => "Material Logic Fault: "@ + reason@,
            HdcError::EmptyBundle => "Attempted to bundle zero vectors"@,
        }
    }

    /// Renders the error as text (what `Display` would print).
    pub fn message(&self) -> (r: String)
        ensures
            r@ == self.message_spec(),
    {
        let mut out: Vec<char> = Vec::new();
        match self {
            HdcError::DimensionMismatch { expected, actual } => {
                push_str(&mut out, "Dimension Mismatch: expected ");
                push_decimal(&mut out, *expected as u64);
                push_str(&mut out, ", got ");
                push_decimal(&mut out, *actual as u64);
            },
            HdcError::InitializationFailed { reason } => {
                push_str(&mut out, "Initialization Failed: ");
                push_str(&mut out, reason.as_str());
            },
            HdcError::MemoryFull => {
                push_str(&mut out, "Holographic Memory Full");
            },
            HdcError::InvalidBipolarValue => {
                push_str(&mut out, "Values must be strictly -1 or 1");
            },
            HdcError::PersistenceFailure { detail } => {
                push_str(&mut out, "Failed to commit state: ");
                push_str(&mut out, detail.as_str());
            },
            HdcError::LogicFault { reason } => {
                push_str(&mut out, "Material Logic Fault: ");
                push_str(&mut out, reason.as_str());
            },
            HdcError::EmptyBundle => {
                push_str(&mut out, "Attempted to bundle zero vectors");
            },
        }
        string_from(out.as_slice())
    }
}

} // verus!
