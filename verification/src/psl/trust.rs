//! Trust level hierarchy used by the audit supervisor.
use vstd::prelude::*;

verus! {

/// Hierarchy of trust for material and neural data, lowest first.
#[derive(Debug, Clone, Copy, PartialEq, Eq, PartialOrd, Ord, Hash)]
pub enum TrustLevel {
    /// Adversarial or blocked data.
    Forbidden,
    /// Low-confidence data.
    Untrusted,
    /// High-confidence, standard data.
    Trusted,
    /// Verified material truth.
    Sovereign,
}

impl TrustLevel {
    /// The position of the level in the hierarchy (Forbidden = 0).
    pub open spec fn rank(self) -> int {
        match self {
            TrustLevel::Forbidden => 0,
            TrustLevel::Untrusted => 1,
            TrustLevel::Trusted => 2,
            TrustLevel::Sovereign => 3,
        }
    }

    /// Execution is permitted from `Trusted` upward.
    pub fn permits_execution(&self) -> (r: bool)
        ensures
            r <==> self.rank() >= 2,
    {
        match self {
            TrustLevel::Trusted | TrustLevel::Sovereign => true,
            _ => false,
        }
    }

    /// Only `Untrusted` data needs further verification before use.
    pub fn needs_verification(&self) -> (r: bool)
        ensures
            r <==> *self == TrustLevel::Untrusted,
    {
        matches!(self, TrustLevel::Untrusted)
    }

    /// Only `Forbidden` blocks every operation.
    pub fn is_blocked(&self) -> (r: bool)
        ensures
            r <==> *self == TrustLevel::Forbidden,
    {
        matches!(self, TrustLevel::Forbidden)
    }

    /// Upper-case human-readable label.
    pub fn label(&self) -> (r: &'static str)
        ensures
            r@ == self.label_spec(),
    {
        match self {
            TrustLevel::Forbidden => "FORBIDDEN",
            TrustLevel::Untrusted => "UNTRUSTED",
            TrustLevel::Trusted => "TRUSTED",
            TrustLevel::Sovereign => "SOVEREIGN",
        }
    }

    pub open spec fn label_spec(self) -> Seq<char> {
        match self {
            TrustLevel::Forbidden => "FORBIDDEN"@,
            TrustLevel::Untrusted => "UNTRUSTED"@,
            TrustLevel::Trusted => "TRUSTED"@,
            TrustLevel::Sovereign => "SOVEREIGN"@,
        }
    }
}

} // verus!
